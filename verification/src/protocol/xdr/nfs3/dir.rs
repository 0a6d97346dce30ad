//! The arguments and entries of the directory procedures of NFS version 3.
#![allow(non_camel_case_types)]

use crate::protocol::xdr::nfs3::{
    cookie3, cookieverf3, count3, diropargs3, diropargs3View, fileid3, filename3, ftype3, nfs_fh3,
    nfsstring, post_op_attr, post_op_fh3, post_op_fh3View, sattr3, specdata3, symlinkdata3,
    symlinkdata3View,
};
use crate::protocol::xdr::{
    decode_fixed8, decode_u32, decode_u64, encode_fixed8, encode_u32, encode_u64, holds_at,
    lemma_concat_assoc, lemma_holds_at_concat, lemma_roundtrip_fixed8, lemma_roundtrip_u32,
    lemma_roundtrip_u64, parse_fixed8, parse_u32, parse_u64, u32_wire, u64_wire, DecodeError,
};
use vstd::prelude::*;

verus! {

/// The kind of special file that MKNOD makes.
#[derive(Copy, Clone, Debug, PartialEq, Eq, Structural)]
pub enum devicetype3 {
    NF3CHR,
    NF3BLK,
    NF3SOCK,
    NF3FIFO,
}

impl devicetype3 {
    /// The number that stands for the variant on the wire.
    pub open spec fn code(self) -> u32 {
        match self {
            devicetype3::NF3CHR => 0,
            devicetype3::NF3BLK => 1,
            devicetype3::NF3SOCK => 2,
            devicetype3::NF3FIFO => 3,
        }
    }

    /// The variant that a number stands for, if any.
    pub open spec fn from_code(c: u32) -> Option<devicetype3> {
        if c == 0 {
            Some(devicetype3::NF3CHR)
        } else if c == 1 {
            Some(devicetype3::NF3BLK)
        } else if c == 2 {
            Some(devicetype3::NF3SOCK)
        } else if c == 3 {
            Some(devicetype3::NF3FIFO)
        } else {
            None
        }
    }

    /// Every variant is found again from its number.
    pub proof fn lemma_code_roundtrip(self)
        ensures
            Self::from_code(self.code()) == Some(self),
    {
    }

    /// The number that stands for the variant on the wire.
    pub fn to_u32(self) -> (c: u32)
        ensures
            c == self.code(),
    {
        match self {
            devicetype3::NF3CHR => 0,
            devicetype3::NF3BLK => 1,
            devicetype3::NF3SOCK => 2,
            devicetype3::NF3FIFO => 3,
        }
    }

    /// The variant that a number stands for, if any.
    pub fn from_u32(c: u32) -> (r: Option<devicetype3>)
        ensures
            r == Self::from_code(c),
    {
        if c == 0 {
            Some(devicetype3::NF3CHR)
        } else if c == 1 {
            Some(devicetype3::NF3BLK)
        } else if c == 2 {
            Some(devicetype3::NF3SOCK)
        } else if c == 3 {
            Some(devicetype3::NF3FIFO)
        } else {
            None
        }
    }

    /// The number of the variant, as 32 bits.
    pub open spec fn wire(v: devicetype3) -> Seq<u8> {
        u32_wire(v.code())
    }

    /// A number that names no variant does not decode.
    pub open spec fn parse(s: Seq<u8>, at: int) -> Option<(devicetype3, int)> {
        match parse_u32(s, at) {
            None => None,
            Some((c, end)) => match Self::from_code(c) {
                None => None,
                Some(v) => Some((v, end)),
            },
        }
    }

    /// Round trip: wherever the encoding of `v` stands in a buffer, the
    /// decoder reads `v` there and stops right behind it.
    pub proof fn lemma_roundtrip(v: devicetype3, s: Seq<u8>, at: int)
        requires
            holds_at(s, at, Self::wire(v)),
        ensures
            Self::parse(s, at) == Some((v, at + Self::wire(v).len())),
    {
        lemma_roundtrip_u32(v.code(), s, at);
    }

    /// Appends the encoding of the value to `out`.
    pub fn serialize(&self, out: &mut Vec<u8>)
        ensures
            final(out)@ == old(out)@ + Self::wire(*self),
    {
        encode_u32(self.to_u32(), out);
    }

    /// Decodes a value at the offset `at` of `input`, and returns it with the
    /// offset behind it.
    pub fn deserialize(input: &[u8], at: usize) -> (r: Result<(devicetype3, usize), DecodeError>)
        ensures
            match Self::parse(input@, at as int) {
                Some((v, end)) => r matches Ok(p) && p.0 == v && p.1 == end && end <= input@.len(),
                None => r is Err,
            },
    {
        let (c, end) = decode_u32(input, at)?;
        match Self::from_u32(c) {
            Some(v) => Ok((v, end)),
            None => Err(DecodeError {  }),
        }
    }
}

impl Default for devicetype3 {
    fn default() -> (r: Self)
        ensures
            r == devicetype3::NF3CHR,
    {
        devicetype3::NF3CHR
    }
}

/// The arguments of MKDIR.
#[derive(Clone, Debug, PartialEq, Eq)]
pub struct MKDIR3args {
    pub dirops: diropargs3,
    pub attributes: sattr3,
}

/// What a [`MKDIR3args`] holds, as plain values.
pub struct MKDIR3argsView {
    pub dirops: diropargs3View,
    pub attributes: sattr3,
}

impl View for MKDIR3args {
    type V = MKDIR3argsView;

    open spec fn view(&self) -> MKDIR3argsView {
        MKDIR3argsView {
            dirops: self.dirops@,
            attributes: self.attributes,
        }
    }
}

impl MKDIR3args {
    /// Every length in the value fits the 32 bits that the wire gives it.
    pub open spec fn encodable(v: MKDIR3argsView) -> bool {
        diropargs3::encodable(v.dirops)
    }

    /// The fields one behind the other, in the order of their declaration.
    #[verifier::opaque]
    pub open spec fn wire(v: MKDIR3argsView) -> Seq<u8> {
        diropargs3::wire(v.dirops) + sattr3::wire(v.attributes)
    }

    /// What a decoder reads at the offset `at` of `s`, with the offset behind
    /// it; `None` where a field does not decode.
    #[verifier::opaque]
    pub open spec fn parse(s: Seq<u8>, at: int) -> Option<(MKDIR3argsView, int)> {
        match diropargs3::parse(s, at) {
            None => None,
            Some((dirops, a1)) => match sattr3::parse(s, a1) {
                None => None,
                Some((attributes, a2)) => Some((MKDIR3argsView { dirops, attributes }, a2)),
            },
        }
    }

    /// Round trip: wherever the encoding of `v` stands in a buffer, the
    /// decoder reads `v` there and stops right behind it.
    pub proof fn lemma_roundtrip(v: MKDIR3argsView, s: Seq<u8>, at: int)
        requires
            Self::encodable(v),
            holds_at(s, at, Self::wire(v)),
        ensures
            Self::parse(s, at) == Some((v, at + Self::wire(v).len())),
    {
        reveal(MKDIR3args::wire);
        reveal(MKDIR3args::parse);
        let w0 = diropargs3::wire(v.dirops);
        let w1 = sattr3::wire(v.attributes);
        lemma_holds_at_concat(s, at, w0, w1);
        diropargs3::lemma_roundtrip(v.dirops, s, at);
        sattr3::lemma_roundtrip(v.attributes, s, at + w0.len());
    }

    /// Whether the value has an encoding.
    pub fn fits(&self) -> (b: bool)
        ensures
            b == Self::encodable(self@),
    {
        self.dirops.fits()
    }

    /// Appends the encoding of the value to `out`.
    pub fn serialize(&self, out: &mut Vec<u8>)
        requires
            Self::encodable(self@),
        ensures
            final(out)@ == old(out)@ + Self::wire(self@),
    {
        proof {
            reveal(MKDIR3args::wire);
        }
        let ghost base = out@;
        self.dirops.serialize(out);
        self.attributes.serialize(out);
        proof {
            lemma_concat_assoc(base, diropargs3::wire(self.dirops@), sattr3::wire(self.attributes));
        }
    }

    /// Decodes a value at the offset `at` of `input`, and returns it with the
    /// offset behind it.
    pub fn deserialize(input: &[u8], at: usize) -> (r: Result<(MKDIR3args, usize), DecodeError>)
        ensures
            match Self::parse(input@, at as int) {
                Some((v, end)) => r matches Ok(p) && p.0@ == v && p.1 == end && end <= input@.len(),
                None => r is Err,
            },
    {
        proof {
            reveal(MKDIR3args::parse);
        }
        let (dirops, at) = diropargs3::deserialize(input, at)?;
        let (attributes, at) = sattr3::deserialize(input, at)?;
        Ok((MKDIR3args { dirops, attributes }, at))
    }
}

impl MKDIR3args {
    /// The value with every number zero, every list empty and every choice
    /// at its first arm.
    pub open spec fn zero() -> MKDIR3argsView {
        MKDIR3argsView {
            dirops: diropargs3::zero(),
            attributes: sattr3::zero(),
        }
    }
}

impl Default for MKDIR3args {
    fn default() -> (r: Self)
        ensures
            r@ == Self::zero(),
    {
        MKDIR3args {
            dirops: diropargs3::default(),
            attributes: sattr3::default(),
        }
    }
}

/// The arguments of SYMLINK.
#[derive(Clone, Debug, PartialEq, Eq)]
pub struct SYMLINK3args {
    pub dirops: diropargs3,
    pub symlink: symlinkdata3,
}

/// What a [`SYMLINK3args`] holds, as plain values.
pub struct SYMLINK3argsView {
    pub dirops: diropargs3View,
    pub symlink: symlinkdata3View,
}

impl View for SYMLINK3args {
    type V = SYMLINK3argsView;

    open spec fn view(&self) -> SYMLINK3argsView {
        SYMLINK3argsView {
            dirops: self.dirops@,
            symlink: self.symlink@,
        }
    }
}

impl SYMLINK3args {
    /// Every length in the value fits the 32 bits that the wire gives it.
    pub open spec fn encodable(v: SYMLINK3argsView) -> bool {
        &&& diropargs3::encodable(v.dirops)
        &&& symlinkdata3::encodable(v.symlink)
    }

    /// The fields one behind the other, in the order of their declaration.
    #[verifier::opaque]
    pub open spec fn wire(v: SYMLINK3argsView) -> Seq<u8> {
        diropargs3::wire(v.dirops) + symlinkdata3::wire(v.symlink)
    }

    /// What a decoder reads at the offset `at` of `s`, with the offset behind
    /// it; `None` where a field does not decode.
    #[verifier::opaque]
    pub open spec fn parse(s: Seq<u8>, at: int) -> Option<(SYMLINK3argsView, int)> {
        match diropargs3::parse(s, at) {
            None => None,
            Some((dirops, a1)) => match symlinkdata3::parse(s, a1) {
                None => None,
                Some((symlink, a2)) => Some((SYMLINK3argsView { dirops, symlink }, a2)),
            },
        }
    }

    /// Round trip: wherever the encoding of `v` stands in a buffer, the
    /// decoder reads `v` there and stops right behind it.
    pub proof fn lemma_roundtrip(v: SYMLINK3argsView, s: Seq<u8>, at: int)
        requires
            Self::encodable(v),
            holds_at(s, at, Self::wire(v)),
        ensures
            Self::parse(s, at) == Some((v, at + Self::wire(v).len())),
    {
        reveal(SYMLINK3args::wire);
        reveal(SYMLINK3args::parse);
        let w0 = diropargs3::wire(v.dirops);
        let w1 = symlinkdata3::wire(v.symlink);
        lemma_holds_at_concat(s, at, w0, w1);
        diropargs3::lemma_roundtrip(v.dirops, s, at);
        symlinkdata3::lemma_roundtrip(v.symlink, s, at + w0.len());
    }

    /// Whether the value has an encoding.
    pub fn fits(&self) -> (b: bool)
        ensures
            b == Self::encodable(self@),
    {
        self.dirops.fits() && self.symlink.fits()
    }

    /// Appends the encoding of the value to `out`.
    pub fn serialize(&self, out: &mut Vec<u8>)
        requires
            Self::encodable(self@),
        ensures
            final(out)@ == old(out)@ + Self::wire(self@),
    {
        proof {
            reveal(SYMLINK3args::wire);
        }
        let ghost base = out@;
        self.dirops.serialize(out);
        self.symlink.serialize(out);
        proof {
            lemma_concat_assoc(
                base,
                diropargs3::wire(self.dirops@),
                symlinkdata3::wire(self.symlink@),
            );
        }
    }

    /// Decodes a value at the offset `at` of `input`, and returns it with the
    /// offset behind it.
    pub fn deserialize(input: &[u8], at: usize) -> (r: Result<(SYMLINK3args, usize), DecodeError>)
        ensures
            match Self::parse(input@, at as int) {
                Some((v, end)) => r matches Ok(p) && p.0@ == v && p.1 == end && end <= input@.len(),
                None => r is Err,
            },
    {
        proof {
            reveal(SYMLINK3args::parse);
        }
        let (dirops, at) = diropargs3::deserialize(input, at)?;
        let (symlink, at) = symlinkdata3::deserialize(input, at)?;
        Ok((SYMLINK3args { dirops, symlink }, at))
    }
}

impl SYMLINK3args {
    /// The value with every number zero, every list empty and every choice
    /// at its first arm.
    pub open spec fn zero() -> SYMLINK3argsView {
        SYMLINK3argsView {
            dirops: diropargs3::zero(),
            symlink: symlinkdata3::zero(),
        }
    }
}

impl Default for SYMLINK3args {
    fn default() -> (r: Self)
        ensures
            r@ == Self::zero(),
    {
        SYMLINK3args {
            dirops: diropargs3::default(),
            symlink: symlinkdata3::default(),
        }
    }
}

/// One entry of a READDIR reply.
#[derive(Clone, Debug, PartialEq, Eq)]
pub struct entry3 {
    pub fileid: fileid3,
    pub name: filename3,
    pub cookie: cookie3,
}

/// What a [`entry3`] holds, as plain values.
pub struct entry3View {
    pub fileid: u64,
    pub name: Seq<u8>,
    pub cookie: u64,
}

impl View for entry3 {
    type V = entry3View;

    open spec fn view(&self) -> entry3View {
        entry3View {
            fileid: self.fileid,
            name: self.name@,
            cookie: self.cookie,
        }
    }
}

impl entry3 {
    /// Every length in the value fits the 32 bits that the wire gives it.
    pub open spec fn encodable(v: entry3View) -> bool {
        nfsstring::encodable(v.name)
    }

    /// The fields one behind the other, in the order of their declaration.
    #[verifier::opaque]
    pub open spec fn wire(v: entry3View) -> Seq<u8> {
        u64_wire(v.fileid) + nfsstring::wire(v.name) + u64_wire(v.cookie)
    }

    /// What a decoder reads at the offset `at` of `s`, with the offset behind
    /// it; `None` where a field does not decode.
    #[verifier::opaque]
    pub open spec fn parse(s: Seq<u8>, at: int) -> Option<(entry3View, int)> {
        match parse_u64(s, at) {
            None => None,
            Some((fileid, a1)) => match nfsstring::parse(s, a1) {
                None => None,
                Some((name, a2)) => match parse_u64(s, a2) {
                    None => None,
                    Some((cookie, a3)) => Some((entry3View { fileid, name, cookie }, a3)),
                },
            },
        }
    }

    /// Round trip: wherever the encoding of `v` stands in a buffer, the
    /// decoder reads `v` there and stops right behind it.
    pub proof fn lemma_roundtrip(v: entry3View, s: Seq<u8>, at: int)
        requires
            Self::encodable(v),
            holds_at(s, at, Self::wire(v)),
        ensures
            Self::parse(s, at) == Some((v, at + Self::wire(v).len())),
    {
        reveal(entry3::wire);
        reveal(entry3::parse);
        let w0 = u64_wire(v.fileid);
        let w1 = nfsstring::wire(v.name);
        let w2 = u64_wire(v.cookie);
        let p1 = w0 + w1;
        lemma_holds_at_concat(s, at, p1, w2);
        lemma_holds_at_concat(s, at, w0, w1);
        lemma_roundtrip_u64(v.fileid, s, at);
        nfsstring::lemma_roundtrip(v.name, s, at + w0.len());
        lemma_roundtrip_u64(v.cookie, s, at + p1.len());
    }

    /// Whether the value has an encoding.
    pub fn fits(&self) -> (b: bool)
        ensures
            b == Self::encodable(self@),
    {
        self.name.fits()
    }

    /// Appends the encoding of the value to `out`.
    pub fn serialize(&self, out: &mut Vec<u8>)
        requires
            Self::encodable(self@),
        ensures
            final(out)@ == old(out)@ + Self::wire(self@),
    {
        proof {
            reveal(entry3::wire);
        }
        let ghost base = out@;
        encode_u64(self.fileid, out);
        self.name.serialize(out);
        proof {
            lemma_concat_assoc(base, u64_wire(self.fileid), nfsstring::wire(self.name@));
        }
        encode_u64(self.cookie, out);
        proof {
            lemma_concat_assoc(
                base,
                u64_wire(self.fileid) + nfsstring::wire(self.name@),
                u64_wire(self.cookie),
            );
        }
    }

    /// Decodes a value at the offset `at` of `input`, and returns it with the
    /// offset behind it.
    pub fn deserialize(input: &[u8], at: usize) -> (r: Result<(entry3, usize), DecodeError>)
        ensures
            match Self::parse(input@, at as int) {
                Some((v, end)) => r matches Ok(p) && p.0@ == v && p.1 == end && end <= input@.len(),
                None => r is Err,
            },
    {
        proof {
            reveal(entry3::parse);
        }
        let (fileid, at) = decode_u64(input, at)?;
        let (name, at) = nfsstring::deserialize(input, at)?;
        let (cookie, at) = decode_u64(input, at)?;
        Ok((entry3 { fileid, name, cookie }, at))
    }
}

impl entry3 {
    /// The value with every number zero, every list empty and every choice
    /// at its first arm.
    pub open spec fn zero() -> entry3View {
        entry3View {
            fileid: 0,
            name: Seq::<u8>::empty(),
            cookie: 0,
        }
    }
}

impl Default for entry3 {
    fn default() -> (r: Self)
        ensures
            r@ == Self::zero(),
    {
        entry3 {
            fileid: 0,
            name: filename3::default(),
            cookie: 0,
        }
    }
}

/// The arguments of READDIR.
#[derive(Clone, Debug, PartialEq, Eq)]
pub struct READDIR3args {
    pub dir: nfs_fh3,
    pub cookie: cookie3,
    pub cookieverf: cookieverf3,
    pub dircount: count3,
}

/// What a [`READDIR3args`] holds, as plain values.
pub struct READDIR3argsView {
    pub dir: Seq<u8>,
    pub cookie: u64,
    pub cookieverf: Seq<u8>,
    pub dircount: u32,
}

impl View for READDIR3args {
    type V = READDIR3argsView;

    open spec fn view(&self) -> READDIR3argsView {
        READDIR3argsView {
            dir: self.dir@,
            cookie: self.cookie,
            cookieverf: self.cookieverf@,
            dircount: self.dircount,
        }
    }
}

impl READDIR3args {
    /// Every length in the value fits the 32 bits that the wire gives it.
    pub open spec fn encodable(v: READDIR3argsView) -> bool {
        &&& nfs_fh3::encodable(v.dir)
        &&& v.cookieverf.len() == 8
    }

    /// The fields one behind the other, in the order of their declaration.
    #[verifier::opaque]
    pub open spec fn wire(v: READDIR3argsView) -> Seq<u8> {
        nfs_fh3::wire(v.dir) + u64_wire(v.cookie) + v.cookieverf + u32_wire(v.dircount)
    }

    /// What a decoder reads at the offset `at` of `s`, with the offset behind
    /// it; `None` where a field does not decode.
    #[verifier::opaque]
    pub open spec fn parse(s: Seq<u8>, at: int) -> Option<(READDIR3argsView, int)> {
        match nfs_fh3::parse(s, at) {
            None => None,
            Some((dir, a1)) => match parse_u64(s, a1) {
                None => None,
                Some((cookie, a2)) => match parse_fixed8(s, a2) {
                    None => None,
                    Some((cookieverf, a3)) => match parse_u32(s, a3) {
                        None => None,
                        Some((dircount, a4)) => Some(
                            (
                                READDIR3argsView {
                                    dir,
                                    cookie,
                                    cookieverf,
                                    dircount,
                                },
                                a4,
                            ),
                        ),
                    },
                },
            },
        }
    }

    /// Round trip: wherever the encoding of `v` stands in a buffer, the
    /// decoder reads `v` there and stops right behind it.
    pub proof fn lemma_roundtrip(v: READDIR3argsView, s: Seq<u8>, at: int)
        requires
            Self::encodable(v),
            holds_at(s, at, Self::wire(v)),
        ensures
            Self::parse(s, at) == Some((v, at + Self::wire(v).len())),
    {
        reveal(READDIR3args::wire);
        reveal(READDIR3args::parse);
        let w0 = nfs_fh3::wire(v.dir);
        let w1 = u64_wire(v.cookie);
        let w2 = v.cookieverf;
        let w3 = u32_wire(v.dircount);
        let p1 = w0 + w1;
        let p2 = p1 + w2;
        lemma_holds_at_concat(s, at, p2, w3);
        lemma_holds_at_concat(s, at, p1, w2);
        lemma_holds_at_concat(s, at, w0, w1);
        nfs_fh3::lemma_roundtrip(v.dir, s, at);
        lemma_roundtrip_u64(v.cookie, s, at + w0.len());
        lemma_roundtrip_fixed8(v.cookieverf, s, at + p1.len());
        lemma_roundtrip_u32(v.dircount, s, at + p2.len());
    }

    /// Whether the value has an encoding.
    pub fn fits(&self) -> (b: bool)
        ensures
            b == Self::encodable(self@),
    {
        self.dir.fits()
    }

    /// Appends the encoding of the value to `out`.
    pub fn serialize(&self, out: &mut Vec<u8>)
        requires
            Self::encodable(self@),
        ensures
            final(out)@ == old(out)@ + Self::wire(self@),
    {
        proof {
            reveal(READDIR3args::wire);
        }
        let ghost base = out@;
        self.dir.serialize(out);
        encode_u64(self.cookie, out);
        proof {
            lemma_concat_assoc(base, nfs_fh3::wire(self.dir@), u64_wire(self.cookie));
        }
        encode_fixed8(&self.cookieverf, out);
        proof {
            lemma_concat_assoc(
                base,
                nfs_fh3::wire(self.dir@) + u64_wire(self.cookie),
                self.cookieverf@,
            );
        }
        encode_u32(self.dircount, out);
        proof {
            lemma_concat_assoc(
                base,
                nfs_fh3::wire(self.dir@) + u64_wire(self.cookie) + self.cookieverf@,
                u32_wire(self.dircount),
            );
        }
    }

    /// Decodes a value at the offset `at` of `input`, and returns it with the
    /// offset behind it.
    pub fn deserialize(input: &[u8], at: usize) -> (r: Result<(READDIR3args, usize), DecodeError>)
        ensures
            match Self::parse(input@, at as int) {
                Some((v, end)) => r matches Ok(p) && p.0@ == v && p.1 == end && end <= input@.len(),
                None => r is Err,
            },
    {
        proof {
            reveal(READDIR3args::parse);
        }
        let (dir, at) = nfs_fh3::deserialize(input, at)?;
        let (cookie, at) = decode_u64(input, at)?;
        let (cookieverf, at) = decode_fixed8(input, at)?;
        let (dircount, at) = decode_u32(input, at)?;
        Ok((READDIR3args { dir, cookie, cookieverf, dircount }, at))
    }
}

/// One entry of a READDIRPLUS reply.
#[derive(Clone, Debug, PartialEq, Eq)]
pub struct entryplus3 {
    pub fileid: fileid3,
    pub name: filename3,
    pub cookie: cookie3,
    pub name_attributes: post_op_attr,
    pub name_handle: post_op_fh3,
}

/// What a [`entryplus3`] holds, as plain values.
pub struct entryplus3View {
    pub fileid: u64,
    pub name: Seq<u8>,
    pub cookie: u64,
    pub name_attributes: post_op_attr,
    pub name_handle: post_op_fh3View,
}

impl View for entryplus3 {
    type V = entryplus3View;

    open spec fn view(&self) -> entryplus3View {
        entryplus3View {
            fileid: self.fileid,
            name: self.name@,
            cookie: self.cookie,
            name_attributes: self.name_attributes,
            name_handle: self.name_handle@,
        }
    }
}

impl entryplus3 {
    /// Every length in the value fits the 32 bits that the wire gives it.
    pub open spec fn encodable(v: entryplus3View) -> bool {
        &&& nfsstring::encodable(v.name)
        &&& post_op_fh3::encodable(v.name_handle)
    }

    /// The fields one behind the other, in the order of their declaration.
    #[verifier::opaque]
    pub open spec fn wire(v: entryplus3View) -> Seq<u8> {
        u64_wire(v.fileid) + nfsstring::wire(v.name) + u64_wire(v.cookie)
            + post_op_attr::wire(v.name_attributes) + post_op_fh3::wire(v.name_handle)
    }

    /// What a decoder reads at the offset `at` of `s`, with the offset behind
    /// it; `None` where a field does not decode.
    #[verifier::opaque]
    pub open spec fn parse(s: Seq<u8>, at: int) -> Option<(entryplus3View, int)> {
        match parse_u64(s, at) {
            None => None,
            Some((fileid, a1)) => match nfsstring::parse(s, a1) {
                None => None,
                Some((name, a2)) => match parse_u64(s, a2) {
                    None => None,
                    Some((cookie, a3)) => match post_op_attr::parse(s, a3) {
                        None => None,
                        Some((name_attributes, a4)) => match post_op_fh3::parse(s, a4) {
                            None => None,
                            Some((name_handle, a5)) => Some(
                                (
                                    entryplus3View {
                                        fileid,
                                        name,
                                        cookie,
                                        name_attributes,
                                        name_handle,
                                    },
                                    a5,
                                ),
                            ),
                        },
                    },
                },
            },
        }
    }

    /// Round trip: wherever the encoding of `v` stands in a buffer, the
    /// decoder reads `v` there and stops right behind it.
    pub proof fn lemma_roundtrip(v: entryplus3View, s: Seq<u8>, at: int)
        requires
            Self::encodable(v),
            holds_at(s, at, Self::wire(v)),
        ensures
            Self::parse(s, at) == Some((v, at + Self::wire(v).len())),
    {
        reveal(entryplus3::wire);
        reveal(entryplus3::parse);
        let w0 = u64_wire(v.fileid);
        let w1 = nfsstring::wire(v.name);
        let w2 = u64_wire(v.cookie);
        let w3 = post_op_attr::wire(v.name_attributes);
        let w4 = post_op_fh3::wire(v.name_handle);
        let p1 = w0 + w1;
        let p2 = p1 + w2;
        let p3 = p2 + w3;
        lemma_holds_at_concat(s, at, p3, w4);
        lemma_holds_at_concat(s, at, p2, w3);
        lemma_holds_at_concat(s, at, p1, w2);
        lemma_holds_at_concat(s, at, w0, w1);
        lemma_roundtrip_u64(v.fileid, s, at);
        nfsstring::lemma_roundtrip(v.name, s, at + w0.len());
        lemma_roundtrip_u64(v.cookie, s, at + p1.len());
        post_op_attr::lemma_roundtrip(v.name_attributes, s, at + p2.len());
        post_op_fh3::lemma_roundtrip(v.name_handle, s, at + p3.len());
    }

    /// Whether the value has an encoding.
    pub fn fits(&self) -> (b: bool)
        ensures
            b == Self::encodable(self@),
    {
        self.name.fits() && self.name_handle.fits()
    }

    /// Appends the encoding of the value to `out`.
    pub fn serialize(&self, out: &mut Vec<u8>)
        requires
            Self::encodable(self@),
        ensures
            final(out)@ == old(out)@ + Self::wire(self@),
    {
        proof {
            reveal(entryplus3::wire);
        }
        let ghost base = out@;
        encode_u64(self.fileid, out);
        self.name.serialize(out);
        proof {
            lemma_concat_assoc(base, u64_wire(self.fileid), nfsstring::wire(self.name@));
        }
        encode_u64(self.cookie, out);
        proof {
            lemma_concat_assoc(
                base,
                u64_wire(self.fileid) + nfsstring::wire(self.name@),
                u64_wire(self.cookie),
            );
        }
        self.name_attributes.serialize(out);
        proof {
            lemma_concat_assoc(
                base,
                u64_wire(self.fileid) + nfsstring::wire(self.name@) + u64_wire(self.cookie),
                post_op_attr::wire(self.name_attributes),
            );
        }
        self.name_handle.serialize(out);
        proof {
            lemma_concat_assoc(
                base,
                u64_wire(self.fileid) + nfsstring::wire(self.name@) + u64_wire(self.cookie)
                    + post_op_attr::wire(self.name_attributes),
                post_op_fh3::wire(self.name_handle@),
            );
        }
    }

    /// Decodes a value at the offset `at` of `input`, and returns it with the
    /// offset behind it.
    pub fn deserialize(input: &[u8], at: usize) -> (r: Result<(entryplus3, usize), DecodeError>)
        ensures
            match Self::parse(input@, at as int) {
                Some((v, end)) => r matches Ok(p) && p.0@ == v && p.1 == end && end <= input@.len(),
                None => r is Err,
            },
    {
        proof {
            reveal(entryplus3::parse);
        }
        let (fileid, at) = decode_u64(input, at)?;
        let (name, at) = nfsstring::deserialize(input, at)?;
        let (cookie, at) = decode_u64(input, at)?;
        let (name_attributes, at) = post_op_attr::deserialize(input, at)?;
        let (name_handle, at) = post_op_fh3::deserialize(input, at)?;
        Ok((entryplus3 { fileid, name, cookie, name_attributes, name_handle }, at))
    }
}

impl entryplus3 {
    /// The value with every number zero, every list empty and every choice
    /// at its first arm.
    pub open spec fn zero() -> entryplus3View {
        entryplus3View {
            fileid: 0,
            name: Seq::<u8>::empty(),
            cookie: 0,
            name_attributes: post_op_attr::Void,
            name_handle: post_op_fh3View::Void,
        }
    }
}

impl Default for entryplus3 {
    fn default() -> (r: Self)
        ensures
            r@ == Self::zero(),
    {
        entryplus3 {
            fileid: 0,
            name: filename3::default(),
            cookie: 0,
            name_attributes: post_op_attr::default(),
            name_handle: post_op_fh3::default(),
        }
    }
}

/// The arguments of READDIRPLUS.
#[derive(Clone, Debug, PartialEq, Eq)]
pub struct READDIRPLUS3args {
    pub dir: nfs_fh3,
    pub cookie: cookie3,
    pub cookieverf: cookieverf3,
    pub dircount: count3,
    pub maxcount: count3,
}

/// What a [`READDIRPLUS3args`] holds, as plain values.
pub struct READDIRPLUS3argsView {
    pub dir: Seq<u8>,
    pub cookie: u64,
    pub cookieverf: Seq<u8>,
    pub dircount: u32,
    pub maxcount: u32,
}

impl View for READDIRPLUS3args {
    type V = READDIRPLUS3argsView;

    open spec fn view(&self) -> READDIRPLUS3argsView {
        READDIRPLUS3argsView {
            dir: self.dir@,
            cookie: self.cookie,
            cookieverf: self.cookieverf@,
            dircount: self.dircount,
            maxcount: self.maxcount,
        }
    }
}

impl READDIRPLUS3args {
    /// Every length in the value fits the 32 bits that the wire gives it.
    pub open spec fn encodable(v: READDIRPLUS3argsView) -> bool {
        &&& nfs_fh3::encodable(v.dir)
        &&& v.cookieverf.len() == 8
    }

    /// The fields one behind the other, in the order of their declaration.
    #[verifier::opaque]
    pub open spec fn wire(v: READDIRPLUS3argsView) -> Seq<u8> {
        nfs_fh3::wire(v.dir) + u64_wire(v.cookie) + v.cookieverf + u32_wire(v.dircount)
            + u32_wire(v.maxcount)
    }

    /// What a decoder reads at the offset `at` of `s`, with the offset behind
    /// it; `None` where a field does not decode.
    #[verifier::opaque]
    pub open spec fn parse(s: Seq<u8>, at: int) -> Option<(READDIRPLUS3argsView, int)> {
        match nfs_fh3::parse(s, at) {
            None => None,
            Some((dir, a1)) => match parse_u64(s, a1) {
                None => None,
                Some((cookie, a2)) => match parse_fixed8(s, a2) {
                    None => None,
                    Some((cookieverf, a3)) => match parse_u32(s, a3) {
                        None => None,
                        Some((dircount, a4)) => match parse_u32(s, a4) {
                            None => None,
                            Some((maxcount, a5)) => Some(
                                (
                                    READDIRPLUS3argsView {
                                        dir,
                                        cookie,
                                        cookieverf,
                                        dircount,
                                        maxcount,
                                    },
                                    a5,
                                ),
                            ),
                        },
                    },
                },
            },
        }
    }

    /// Round trip: wherever the encoding of `v` stands in a buffer, the
    /// decoder reads `v` there and stops right behind it.
    pub proof fn lemma_roundtrip(v: READDIRPLUS3argsView, s: Seq<u8>, at: int)
        requires
            Self::encodable(v),
            holds_at(s, at, Self::wire(v)),
        ensures
            Self::parse(s, at) == Some((v, at + Self::wire(v).len())),
    {
        reveal(READDIRPLUS3args::wire);
        reveal(READDIRPLUS3args::parse);
        let w0 = nfs_fh3::wire(v.dir);
        let w1 = u64_wire(v.cookie);
        let w2 = v.cookieverf;
        let w3 = u32_wire(v.dircount);
        let w4 = u32_wire(v.maxcount);
        let p1 = w0 + w1;
        let p2 = p1 + w2;
        let p3 = p2 + w3;
        lemma_holds_at_concat(s, at, p3, w4);
        lemma_holds_at_concat(s, at, p2, w3);
        lemma_holds_at_concat(s, at, p1, w2);
        lemma_holds_at_concat(s, at, w0, w1);
        nfs_fh3::lemma_roundtrip(v.dir, s, at);
        lemma_roundtrip_u64(v.cookie, s, at + w0.len());
        lemma_roundtrip_fixed8(v.cookieverf, s, at + p1.len());
        lemma_roundtrip_u32(v.dircount, s, at + p2.len());
        lemma_roundtrip_u32(v.maxcount, s, at + p3.len());
    }

    /// Whether the value has an encoding.
    pub fn fits(&self) -> (b: bool)
        ensures
            b == Self::encodable(self@),
    {
        self.dir.fits()
    }

    /// Appends the encoding of the value to `out`.
    pub fn serialize(&self, out: &mut Vec<u8>)
        requires
            Self::encodable(self@),
        ensures
            final(out)@ == old(out)@ + Self::wire(self@),
    {
        proof {
            reveal(READDIRPLUS3args::wire);
        }
        let ghost base = out@;
        self.dir.serialize(out);
        encode_u64(self.cookie, out);
        proof {
            lemma_concat_assoc(base, nfs_fh3::wire(self.dir@), u64_wire(self.cookie));
        }
        encode_fixed8(&self.cookieverf, out);
        proof {
            lemma_concat_assoc(
                base,
                nfs_fh3::wire(self.dir@) + u64_wire(self.cookie),
                self.cookieverf@,
            );
        }
        encode_u32(self.dircount, out);
        proof {
            lemma_concat_assoc(
                base,
                nfs_fh3::wire(self.dir@) + u64_wire(self.cookie) + self.cookieverf@,
                u32_wire(self.dircount),
            );
        }
        encode_u32(self.maxcount, out);
        proof {
            lemma_concat_assoc(
                base,
                nfs_fh3::wire(self.dir@) + u64_wire(self.cookie) + self.cookieverf@
                    + u32_wire(self.dircount),
                u32_wire(self.maxcount),
            );
        }
    }

    /// Decodes a value at the offset `at` of `input`, and returns it with the
    /// offset behind it.
    pub fn deserialize(input: &[u8], at: usize) -> (r: Result<
        (READDIRPLUS3args, usize),
        DecodeError,
    >)
        ensures
            match Self::parse(input@, at as int) {
                Some((v, end)) => r matches Ok(p) && p.0@ == v && p.1 == end && end <= input@.len(),
                None => r is Err,
            },
    {
        proof {
            reveal(READDIRPLUS3args::parse);
        }
        let (dir, at) = nfs_fh3::deserialize(input, at)?;
        let (cookie, at) = decode_u64(input, at)?;
        let (cookieverf, at) = decode_fixed8(input, at)?;
        let (dircount, at) = decode_u32(input, at)?;
        let (maxcount, at) = decode_u32(input, at)?;
        Ok((READDIRPLUS3args { dir, cookie, cookieverf, dircount, maxcount }, at))
    }
}

/// The kind and the device numbers of a special file to make.
#[derive(Copy, Clone, Debug, PartialEq, Eq)]
pub struct devicedata3 {
    pub dev_type: devicetype3,
    pub device: specdata3,
}

impl devicedata3 {
    /// The fields one behind the other, in the order of their declaration.
    #[verifier::opaque]
    pub open spec fn wire(v: devicedata3) -> Seq<u8> {
        devicetype3::wire(v.dev_type) + specdata3::wire(v.device)
    }

    /// What a decoder reads at the offset `at` of `s`, with the offset behind
    /// it; `None` where a field does not decode.
    #[verifier::opaque]
    pub open spec fn parse(s: Seq<u8>, at: int) -> Option<(devicedata3, int)> {
        match devicetype3::parse(s, at) {
            None => None,
            Some((dev_type, a1)) => match specdata3::parse(s, a1) {
                None => None,
                Some((device, a2)) => Some((devicedata3 { dev_type, device }, a2)),
            },
        }
    }

    /// Round trip: wherever the encoding of `v` stands in a buffer, the
    /// decoder reads `v` there and stops right behind it.
    pub proof fn lemma_roundtrip(v: devicedata3, s: Seq<u8>, at: int)
        requires
            holds_at(s, at, Self::wire(v)),
        ensures
            Self::parse(s, at) == Some((v, at + Self::wire(v).len())),
    {
        reveal(devicedata3::wire);
        reveal(devicedata3::parse);
        let w0 = devicetype3::wire(v.dev_type);
        let w1 = specdata3::wire(v.device);
        lemma_holds_at_concat(s, at, w0, w1);
        devicetype3::lemma_roundtrip(v.dev_type, s, at);
        specdata3::lemma_roundtrip(v.device, s, at + w0.len());
    }

    /// Appends the encoding of the value to `out`.
    pub fn serialize(&self, out: &mut Vec<u8>)
        ensures
            final(out)@ == old(out)@ + Self::wire(*self),
    {
        proof {
            reveal(devicedata3::wire);
        }
        let ghost base = out@;
        self.dev_type.serialize(out);
        self.device.serialize(out);
        proof {
            lemma_concat_assoc(
                base,
                devicetype3::wire(self.dev_type),
                specdata3::wire(self.device),
            );
        }
    }

    /// Decodes a value at the offset `at` of `input`, and returns it with the
    /// offset behind it.
    pub fn deserialize(input: &[u8], at: usize) -> (r: Result<(devicedata3, usize), DecodeError>)
        ensures
            match Self::parse(input@, at as int) {
                Some((v, end)) => r matches Ok(p) && p.0 == v && p.1 == end && end <= input@.len(),
                None => r is Err,
            },
    {
        proof {
            reveal(devicedata3::parse);
        }
        let (dev_type, at) = devicetype3::deserialize(input, at)?;
        let (device, at) = specdata3::deserialize(input, at)?;
        Ok((devicedata3 { dev_type, device }, at))
    }
}

impl devicedata3 {
    /// The value with every number zero, every list empty and every choice
    /// at its first arm.
    pub open spec fn zero() -> devicedata3 {
        devicedata3 {
            dev_type: devicetype3::NF3CHR,
            device: specdata3::zero(),
        }
    }
}

impl Default for devicedata3 {
    fn default() -> (r: Self)
        ensures
            r == Self::zero(),
    {
        devicedata3 {
            dev_type: devicetype3::default(),
            device: specdata3::default(),
        }
    }
}

/// What MKNOD is to make.
#[derive(Copy, Clone, Debug, PartialEq, Eq)]
pub struct mknoddata3 {
    pub mknod_type: ftype3,
    pub device: devicedata3,
}

impl mknoddata3 {
    /// The fields one behind the other, in the order of their declaration.
    #[verifier::opaque]
    pub open spec fn wire(v: mknoddata3) -> Seq<u8> {
        ftype3::wire(v.mknod_type) + devicedata3::wire(v.device)
    }

    /// What a decoder reads at the offset `at` of `s`, with the offset behind
    /// it; `None` where a field does not decode.
    #[verifier::opaque]
    pub open spec fn parse(s: Seq<u8>, at: int) -> Option<(mknoddata3, int)> {
        match ftype3::parse(s, at) {
            None => None,
            Some((mknod_type, a1)) => match devicedata3::parse(s, a1) {
                None => None,
                Some((device, a2)) => Some((mknoddata3 { mknod_type, device }, a2)),
            },
        }
    }

    /// Round trip: wherever the encoding of `v` stands in a buffer, the
    /// decoder reads `v` there and stops right behind it.
    pub proof fn lemma_roundtrip(v: mknoddata3, s: Seq<u8>, at: int)
        requires
            holds_at(s, at, Self::wire(v)),
        ensures
            Self::parse(s, at) == Some((v, at + Self::wire(v).len())),
    {
        reveal(mknoddata3::wire);
        reveal(mknoddata3::parse);
        let w0 = ftype3::wire(v.mknod_type);
        let w1 = devicedata3::wire(v.device);
        lemma_holds_at_concat(s, at, w0, w1);
        ftype3::lemma_roundtrip(v.mknod_type, s, at);
        devicedata3::lemma_roundtrip(v.device, s, at + w0.len());
    }

    /// Appends the encoding of the value to `out`.
    pub fn serialize(&self, out: &mut Vec<u8>)
        ensures
            final(out)@ == old(out)@ + Self::wire(*self),
    {
        proof {
            reveal(mknoddata3::wire);
        }
        let ghost base = out@;
        self.mknod_type.serialize(out);
        self.device.serialize(out);
        proof {
            lemma_concat_assoc(base, ftype3::wire(self.mknod_type), devicedata3::wire(self.device));
        }
    }

    /// Decodes a value at the offset `at` of `input`, and returns it with the
    /// offset behind it.
    pub fn deserialize(input: &[u8], at: usize) -> (r: Result<(mknoddata3, usize), DecodeError>)
        ensures
            match Self::parse(input@, at as int) {
                Some((v, end)) => r matches Ok(p) && p.0 == v && p.1 == end && end <= input@.len(),
                None => r is Err,
            },
    {
        proof {
            reveal(mknoddata3::parse);
        }
        let (mknod_type, at) = ftype3::deserialize(input, at)?;
        let (device, at) = devicedata3::deserialize(input, at)?;
        Ok((mknoddata3 { mknod_type, device }, at))
    }
}

impl mknoddata3 {
    /// The value with every number zero, every list empty and every choice
    /// at its first arm.
    pub open spec fn zero() -> mknoddata3 {
        mknoddata3 {
            mknod_type: ftype3::NF3REG,
            device: devicedata3::zero(),
        }
    }
}

impl Default for mknoddata3 {
    fn default() -> (r: Self)
        ensures
            r == Self::zero(),
    {
        mknoddata3 {
            mknod_type: ftype3::default(),
            device: devicedata3::default(),
        }
    }
}

/// The arguments of MKNOD.
#[derive(Clone, Debug, PartialEq, Eq)]
pub struct MKNOD3args {
    pub where_dir: diropargs3,
    pub what: mknoddata3,
}

/// What a [`MKNOD3args`] holds, as plain values.
pub struct MKNOD3argsView {
    pub where_dir: diropargs3View,
    pub what: mknoddata3,
}

impl View for MKNOD3args {
    type V = MKNOD3argsView;

    open spec fn view(&self) -> MKNOD3argsView {
        MKNOD3argsView {
            where_dir: self.where_dir@,
            what: self.what,
        }
    }
}

impl MKNOD3args {
    /// Every length in the value fits the 32 bits that the wire gives it.
    pub open spec fn encodable(v: MKNOD3argsView) -> bool {
        diropargs3::encodable(v.where_dir)
    }

    /// The fields one behind the other, in the order of their declaration.
    #[verifier::opaque]
    pub open spec fn wire(v: MKNOD3argsView) -> Seq<u8> {
        diropargs3::wire(v.where_dir) + mknoddata3::wire(v.what)
    }

    /// What a decoder reads at the offset `at` of `s`, with the offset behind
    /// it; `None` where a field does not decode.
    #[verifier::opaque]
    pub open spec fn parse(s: Seq<u8>, at: int) -> Option<(MKNOD3argsView, int)> {
        match diropargs3::parse(s, at) {
            None => None,
            Some((where_dir, a1)) => match mknoddata3::parse(s, a1) {
                None => None,
                Some((what, a2)) => Some((MKNOD3argsView { where_dir, what }, a2)),
            },
        }
    }

    /// Round trip: wherever the encoding of `v` stands in a buffer, the
    /// decoder reads `v` there and stops right behind it.
    pub proof fn lemma_roundtrip(v: MKNOD3argsView, s: Seq<u8>, at: int)
        requires
            Self::encodable(v),
            holds_at(s, at, Self::wire(v)),
        ensures
            Self::parse(s, at) == Some((v, at + Self::wire(v).len())),
    {
        reveal(MKNOD3args::wire);
        reveal(MKNOD3args::parse);
        let w0 = diropargs3::wire(v.where_dir);
        let w1 = mknoddata3::wire(v.what);
        lemma_holds_at_concat(s, at, w0, w1);
        diropargs3::lemma_roundtrip(v.where_dir, s, at);
        mknoddata3::lemma_roundtrip(v.what, s, at + w0.len());
    }

    /// Whether the value has an encoding.
    pub fn fits(&self) -> (b: bool)
        ensures
            b == Self::encodable(self@),
    {
        self.where_dir.fits()
    }

    /// Appends the encoding of the value to `out`.
    pub fn serialize(&self, out: &mut Vec<u8>)
        requires
            Self::encodable(self@),
        ensures
            final(out)@ == old(out)@ + Self::wire(self@),
    {
        proof {
            reveal(MKNOD3args::wire);
        }
        let ghost base = out@;
        self.where_dir.serialize(out);
        self.what.serialize(out);
        proof {
            lemma_concat_assoc(
                base,
                diropargs3::wire(self.where_dir@),
                mknoddata3::wire(self.what),
            );
        }
    }

    /// Decodes a value at the offset `at` of `input`, and returns it with the
    /// offset behind it.
    pub fn deserialize(input: &[u8], at: usize) -> (r: Result<(MKNOD3args, usize), DecodeError>)
        ensures
            match Self::parse(input@, at as int) {
                Some((v, end)) => r matches Ok(p) && p.0@ == v && p.1 == end && end <= input@.len(),
                None => r is Err,
            },
    {
        proof {
            reveal(MKNOD3args::parse);
        }
        let (where_dir, at) = diropargs3::deserialize(input, at)?;
        let (what, at) = mknoddata3::deserialize(input, at)?;
        Ok((MKNOD3args { where_dir, what }, at))
    }
}

impl MKNOD3args {
    /// The value with every number zero, every list empty and every choice
    /// at its first arm.
    pub open spec fn zero() -> MKNOD3argsView {
        MKNOD3argsView {
            where_dir: diropargs3::zero(),
            what: mknoddata3::zero(),
        }
    }
}

impl Default for MKNOD3args {
    fn default() -> (r: Self)
        ensures
            r@ == Self::zero(),
    {
        MKNOD3args {
            where_dir: diropargs3::default(),
            what: mknoddata3::default(),
        }
    }
}

/// The arguments of RENAME: the entry to move, and where it is to go.
#[derive(Clone, Debug, PartialEq, Eq)]
pub struct RENAME3args {
    pub from: diropargs3,
    pub to: diropargs3,
}

/// What a [`RENAME3args`] holds, as plain values.
pub struct RENAME3argsView {
    pub from: diropargs3View,
    pub to: diropargs3View,
}

impl View for RENAME3args {
    type V = RENAME3argsView;

    open spec fn view(&self) -> RENAME3argsView {
        RENAME3argsView {
            from: self.from@,
            to: self.to@,
        }
    }
}

impl RENAME3args {
    /// Every length in the value fits the 32 bits that the wire gives it.
    pub open spec fn encodable(v: RENAME3argsView) -> bool {
        &&& diropargs3::encodable(v.from)
        &&& diropargs3::encodable(v.to)
    }

    /// The fields one behind the other, in the order of their declaration.
    #[verifier::opaque]
    pub open spec fn wire(v: RENAME3argsView) -> Seq<u8> {
        diropargs3::wire(v.from) + diropargs3::wire(v.to)
    }

    /// What a decoder reads at the offset `at` of `s`, with the offset behind
    /// it; `None` where a field does not decode.
    #[verifier::opaque]
    pub open spec fn parse(s: Seq<u8>, at: int) -> Option<(RENAME3argsView, int)> {
        match diropargs3::parse(s, at) {
            None => None,
            Some((from, a1)) => match diropargs3::parse(s, a1) {
                None => None,
                Some((to, a2)) => Some((RENAME3argsView { from, to }, a2)),
            },
        }
    }

    /// Round trip: wherever the encoding of `v` stands in a buffer, the
    /// decoder reads `v` there and stops right behind it.
    pub proof fn lemma_roundtrip(v: RENAME3argsView, s: Seq<u8>, at: int)
        requires
            Self::encodable(v),
            holds_at(s, at, Self::wire(v)),
        ensures
            Self::parse(s, at) == Some((v, at + Self::wire(v).len())),
    {
        reveal(RENAME3args::wire);
        reveal(RENAME3args::parse);
        let w0 = diropargs3::wire(v.from);
        let w1 = diropargs3::wire(v.to);
        lemma_holds_at_concat(s, at, w0, w1);
        diropargs3::lemma_roundtrip(v.from, s, at);
        diropargs3::lemma_roundtrip(v.to, s, at + w0.len());
    }

    /// Whether the value has an encoding.
    pub fn fits(&self) -> (b: bool)
        ensures
            b == Self::encodable(self@),
    {
        self.from.fits() && self.to.fits()
    }

    /// Appends the encoding of the value to `out`.
    pub fn serialize(&self, out: &mut Vec<u8>)
        requires
            Self::encodable(self@),
        ensures
            final(out)@ == old(out)@ + Self::wire(self@),
    {
        proof {
            reveal(RENAME3args::wire);
        }
        let ghost base = out@;
        self.from.serialize(out);
        self.to.serialize(out);
        proof {
            lemma_concat_assoc(base, diropargs3::wire(self.from@), diropargs3::wire(self.to@));
        }
    }

    /// Decodes a value at the offset `at` of `input`, and returns it with the
    /// offset behind it.
    pub fn deserialize(input: &[u8], at: usize) -> (r: Result<(RENAME3args, usize), DecodeError>)
        ensures
            match Self::parse(input@, at as int) {
                Some((v, end)) => r matches Ok(p) && p.0@ == v && p.1 == end && end <= input@.len(),
                None => r is Err,
            },
    {
        proof {
            reveal(RENAME3args::parse);
        }
        let (from, at) = diropargs3::deserialize(input, at)?;
        let (to, at) = diropargs3::deserialize(input, at)?;
        Ok((RENAME3args { from, to }, at))
    }
}

impl RENAME3args {
    /// The value with every number zero, every list empty and every choice
    /// at its first arm.
    pub open spec fn zero() -> RENAME3argsView {
        RENAME3argsView {
            from: diropargs3::zero(),
            to: diropargs3::zero(),
        }
    }
}

impl Default for RENAME3args {
    fn default() -> (r: Self)
        ensures
            r@ == Self::zero(),
    {
        RENAME3args {
            from: diropargs3::default(),
            to: diropargs3::default(),
        }
    }
}

} // verus!
