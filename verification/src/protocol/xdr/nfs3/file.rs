//! The arguments and results of the file procedures of NFS version 3.
#![allow(non_camel_case_types)]

use crate::protocol::xdr::nfs3::{
    count3, diropargs3, diropargs3View, nfs_fh3, offset3, post_op_attr, sattr3, wcc_data,
    writeverf3,
};
use crate::protocol::xdr::{
    bool_wire, decode_bool, decode_fixed8, decode_opaque, decode_u32, decode_u64, encode_bool,
    encode_fixed8, encode_opaque, encode_u32, encode_u64, holds_at, lemma_concat_assoc,
    lemma_holds_at_concat, lemma_roundtrip_bool, lemma_roundtrip_fixed8, lemma_roundtrip_opaque,
    lemma_roundtrip_u32, lemma_roundtrip_u64, opaque_encodable, opaque_fits, opaque_wire,
    parse_bool, parse_fixed8, parse_opaque, parse_u32, parse_u64, u32_wire, u64_wire, DecodeError,
};
use vstd::prelude::*;

verus! {

/// The arguments of READ.
#[derive(Clone, Debug, PartialEq, Eq)]
pub struct READ3args {
    pub file: nfs_fh3,
    pub offset: offset3,
    pub count: count3,
}

/// What a [`READ3args`] holds, as plain values.
pub struct READ3argsView {
    pub file: Seq<u8>,
    pub offset: u64,
    pub count: u32,
}

impl View for READ3args {
    type V = READ3argsView;

    open spec fn view(&self) -> READ3argsView {
        READ3argsView {
            file: self.file@,
            offset: self.offset,
            count: self.count,
        }
    }
}

impl READ3args {
    /// Every length in the value fits the 32 bits that the wire gives it.
    pub open spec fn encodable(v: READ3argsView) -> bool {
        nfs_fh3::encodable(v.file)
    }

    /// The fields one behind the other, in the order of their declaration.
    #[verifier::opaque]
    pub open spec fn wire(v: READ3argsView) -> Seq<u8> {
        nfs_fh3::wire(v.file) + u64_wire(v.offset) + u32_wire(v.count)
    }

    /// What a decoder reads at the offset `at` of `s`, with the offset behind
    /// it; `None` where a field does not decode.
    #[verifier::opaque]
    pub open spec fn parse(s: Seq<u8>, at: int) -> Option<(READ3argsView, int)> {
        match nfs_fh3::parse(s, at) {
            None => None,
            Some((file, a1)) => match parse_u64(s, a1) {
                None => None,
                Some((offset, a2)) => match parse_u32(s, a2) {
                    None => None,
                    Some((count, a3)) => Some((READ3argsView { file, offset, count }, a3)),
                },
            },
        }
    }

    /// Round trip: wherever the encoding of `v` stands in a buffer, the
    /// decoder reads `v` there and stops right behind it.
    pub proof fn lemma_roundtrip(v: READ3argsView, s: Seq<u8>, at: int)
        requires
            Self::encodable(v),
            holds_at(s, at, Self::wire(v)),
        ensures
            Self::parse(s, at) == Some((v, at + Self::wire(v).len())),
    {
        reveal(READ3args::wire);
        reveal(READ3args::parse);
        let w0 = nfs_fh3::wire(v.file);
        let w1 = u64_wire(v.offset);
        let w2 = u32_wire(v.count);
        let p1 = w0 + w1;
        lemma_holds_at_concat(s, at, p1, w2);
        lemma_holds_at_concat(s, at, w0, w1);
        nfs_fh3::lemma_roundtrip(v.file, s, at);
        lemma_roundtrip_u64(v.offset, s, at + w0.len());
        lemma_roundtrip_u32(v.count, s, at + p1.len());
    }

    /// Whether the value has an encoding.
    pub fn fits(&self) -> (b: bool)
        ensures
            b == Self::encodable(self@),
    {
        self.file.fits()
    }

    /// Appends the encoding of the value to `out`.
    pub fn serialize(&self, out: &mut Vec<u8>)
        requires
            Self::encodable(self@),
        ensures
            final(out)@ == old(out)@ + Self::wire(self@),
    {
        proof {
            reveal(READ3args::wire);
        }
        let ghost base = out@;
        self.file.serialize(out);
        encode_u64(self.offset, out);
        proof {
            lemma_concat_assoc(base, nfs_fh3::wire(self.file@), u64_wire(self.offset));
        }
        encode_u32(self.count, out);
        proof {
            lemma_concat_assoc(
                base,
                nfs_fh3::wire(self.file@) + u64_wire(self.offset),
                u32_wire(self.count),
            );
        }
    }

    /// Decodes a value at the offset `at` of `input`, and returns it with the
    /// offset behind it.
    pub fn deserialize(input: &[u8], at: usize) -> (r: Result<(READ3args, usize), DecodeError>)
        ensures
            match Self::parse(input@, at as int) {
                Some((v, end)) => r matches Ok(p) && p.0@ == v && p.1 == end && end <= input@.len(),
                None => r is Err,
            },
    {
        proof {
            reveal(READ3args::parse);
        }
        let (file, at) = nfs_fh3::deserialize(input, at)?;
        let (offset, at) = decode_u64(input, at)?;
        let (count, at) = decode_u32(input, at)?;
        Ok((READ3args { file, offset, count }, at))
    }
}

impl READ3args {
    /// The value with every number zero, every list empty and every choice
    /// at its first arm.
    pub open spec fn zero() -> READ3argsView {
        READ3argsView {
            file: Seq::<u8>::empty(),
            offset: 0,
            count: 0,
        }
    }
}

impl Default for READ3args {
    fn default() -> (r: Self)
        ensures
            r@ == Self::zero(),
    {
        READ3args {
            file: nfs_fh3::default(),
            offset: 0,
            count: 0,
        }
    }
}

/// The result of a READ that succeeded.
#[derive(Clone, Debug, PartialEq, Eq)]
pub struct READ3resok {
    pub file_attributes: post_op_attr,
    pub count: count3,
    pub eof: bool,
    pub data: Vec<u8>,
}

/// What a [`READ3resok`] holds, as plain values.
pub struct READ3resokView {
    pub file_attributes: post_op_attr,
    pub count: u32,
    pub eof: bool,
    pub data: Seq<u8>,
}

impl View for READ3resok {
    type V = READ3resokView;

    open spec fn view(&self) -> READ3resokView {
        READ3resokView {
            file_attributes: self.file_attributes,
            count: self.count,
            eof: self.eof,
            data: self.data@,
        }
    }
}

impl READ3resok {
    /// Every length in the value fits the 32 bits that the wire gives it.
    pub open spec fn encodable(v: READ3resokView) -> bool {
        opaque_encodable(v.data)
    }

    /// The fields one behind the other, in the order of their declaration.
    #[verifier::opaque]
    pub open spec fn wire(v: READ3resokView) -> Seq<u8> {
        post_op_attr::wire(v.file_attributes) + u32_wire(v.count) + bool_wire(v.eof)
            + opaque_wire(v.data)
    }

    /// What a decoder reads at the offset `at` of `s`, with the offset behind
    /// it; `None` where a field does not decode.
    #[verifier::opaque]
    pub open spec fn parse(s: Seq<u8>, at: int) -> Option<(READ3resokView, int)> {
        match post_op_attr::parse(s, at) {
            None => None,
            Some((file_attributes, a1)) => match parse_u32(s, a1) {
                None => None,
                Some((count, a2)) => match parse_bool(s, a2) {
                    None => None,
                    Some((eof, a3)) => match parse_opaque(s, a3) {
                        None => None,
                        Some((data, a4)) => Some(
                            (
                                READ3resokView {
                                    file_attributes,
                                    count,
                                    eof,
                                    data,
                                },
                                a4,
                            ),
                        ),
                    },
                },
            },
        }
    }

    /// Round trip: wherever the encoding of `v` stands in a buffer, the
    /// decoder reads `v` there and stops right behind it.
    pub proof fn lemma_roundtrip(v: READ3resokView, s: Seq<u8>, at: int)
        requires
            Self::encodable(v),
            holds_at(s, at, Self::wire(v)),
        ensures
            Self::parse(s, at) == Some((v, at + Self::wire(v).len())),
    {
        reveal(READ3resok::wire);
        reveal(READ3resok::parse);
        let w0 = post_op_attr::wire(v.file_attributes);
        let w1 = u32_wire(v.count);
        let w2 = bool_wire(v.eof);
        let w3 = opaque_wire(v.data);
        let p1 = w0 + w1;
        let p2 = p1 + w2;
        lemma_holds_at_concat(s, at, p2, w3);
        lemma_holds_at_concat(s, at, p1, w2);
        lemma_holds_at_concat(s, at, w0, w1);
        post_op_attr::lemma_roundtrip(v.file_attributes, s, at);
        lemma_roundtrip_u32(v.count, s, at + w0.len());
        lemma_roundtrip_bool(v.eof, s, at + p1.len());
        lemma_roundtrip_opaque(v.data, s, at + p2.len());
    }

    /// Whether the value has an encoding.
    pub fn fits(&self) -> (b: bool)
        ensures
            b == Self::encodable(self@),
    {
        opaque_fits(self.data.as_slice())
    }

    /// Appends the encoding of the value to `out`.
    pub fn serialize(&self, out: &mut Vec<u8>)
        requires
            Self::encodable(self@),
        ensures
            final(out)@ == old(out)@ + Self::wire(self@),
    {
        proof {
            reveal(READ3resok::wire);
        }
        let ghost base = out@;
        self.file_attributes.serialize(out);
        encode_u32(self.count, out);
        proof {
            lemma_concat_assoc(
                base,
                post_op_attr::wire(self.file_attributes),
                u32_wire(self.count),
            );
        }
        encode_bool(self.eof, out);
        proof {
            lemma_concat_assoc(
                base,
                post_op_attr::wire(self.file_attributes) + u32_wire(self.count),
                bool_wire(self.eof),
            );
        }
        encode_opaque(self.data.as_slice(), out);
        proof {
            lemma_concat_assoc(
                base,
                post_op_attr::wire(self.file_attributes) + u32_wire(self.count)
                    + bool_wire(self.eof),
                opaque_wire(self.data@),
            );
        }
    }

    /// Decodes a value at the offset `at` of `input`, and returns it with the
    /// offset behind it.
    pub fn deserialize(input: &[u8], at: usize) -> (r: Result<(READ3resok, usize), DecodeError>)
        ensures
            match Self::parse(input@, at as int) {
                Some((v, end)) => r matches Ok(p) && p.0@ == v && p.1 == end && end <= input@.len(),
                None => r is Err,
            },
    {
        proof {
            reveal(READ3resok::parse);
        }
        let (file_attributes, at) = post_op_attr::deserialize(input, at)?;
        let (count, at) = decode_u32(input, at)?;
        let (eof, at) = decode_bool(input, at)?;
        let (data, at) = decode_opaque(input, at)?;
        Ok((READ3resok { file_attributes, count, eof, data }, at))
    }
}

impl READ3resok {
    /// The value with every number zero, every list empty and every choice
    /// at its first arm.
    pub open spec fn zero() -> READ3resokView {
        READ3resokView {
            file_attributes: post_op_attr::Void,
            count: 0,
            eof: false,
            data: Seq::<u8>::empty(),
        }
    }
}

impl Default for READ3resok {
    fn default() -> (r: Self)
        ensures
            r@ == Self::zero(),
    {
        READ3resok {
            file_attributes: post_op_attr::default(),
            count: 0,
            eof: false,
            data: Vec::new(),
        }
    }
}

/// The arguments of COMMIT.
#[derive(Clone, Debug, PartialEq, Eq)]
pub struct COMMIT3args {
    pub file: nfs_fh3,
    pub offset: offset3,
    pub count: count3,
}

/// What a [`COMMIT3args`] holds, as plain values.
pub struct COMMIT3argsView {
    pub file: Seq<u8>,
    pub offset: u64,
    pub count: u32,
}

impl View for COMMIT3args {
    type V = COMMIT3argsView;

    open spec fn view(&self) -> COMMIT3argsView {
        COMMIT3argsView {
            file: self.file@,
            offset: self.offset,
            count: self.count,
        }
    }
}

impl COMMIT3args {
    /// Every length in the value fits the 32 bits that the wire gives it.
    pub open spec fn encodable(v: COMMIT3argsView) -> bool {
        nfs_fh3::encodable(v.file)
    }

    /// The fields one behind the other, in the order of their declaration.
    #[verifier::opaque]
    pub open spec fn wire(v: COMMIT3argsView) -> Seq<u8> {
        nfs_fh3::wire(v.file) + u64_wire(v.offset) + u32_wire(v.count)
    }

    /// What a decoder reads at the offset `at` of `s`, with the offset behind
    /// it; `None` where a field does not decode.
    #[verifier::opaque]
    pub open spec fn parse(s: Seq<u8>, at: int) -> Option<(COMMIT3argsView, int)> {
        match nfs_fh3::parse(s, at) {
            None => None,
            Some((file, a1)) => match parse_u64(s, a1) {
                None => None,
                Some((offset, a2)) => match parse_u32(s, a2) {
                    None => None,
                    Some((count, a3)) => Some((COMMIT3argsView { file, offset, count }, a3)),
                },
            },
        }
    }

    /// Round trip: wherever the encoding of `v` stands in a buffer, the
    /// decoder reads `v` there and stops right behind it.
    pub proof fn lemma_roundtrip(v: COMMIT3argsView, s: Seq<u8>, at: int)
        requires
            Self::encodable(v),
            holds_at(s, at, Self::wire(v)),
        ensures
            Self::parse(s, at) == Some((v, at + Self::wire(v).len())),
    {
        reveal(COMMIT3args::wire);
        reveal(COMMIT3args::parse);
        let w0 = nfs_fh3::wire(v.file);
        let w1 = u64_wire(v.offset);
        let w2 = u32_wire(v.count);
        let p1 = w0 + w1;
        lemma_holds_at_concat(s, at, p1, w2);
        lemma_holds_at_concat(s, at, w0, w1);
        nfs_fh3::lemma_roundtrip(v.file, s, at);
        lemma_roundtrip_u64(v.offset, s, at + w0.len());
        lemma_roundtrip_u32(v.count, s, at + p1.len());
    }

    /// Whether the value has an encoding.
    pub fn fits(&self) -> (b: bool)
        ensures
            b == Self::encodable(self@),
    {
        self.file.fits()
    }

    /// Appends the encoding of the value to `out`.
    pub fn serialize(&self, out: &mut Vec<u8>)
        requires
            Self::encodable(self@),
        ensures
            final(out)@ == old(out)@ + Self::wire(self@),
    {
        proof {
            reveal(COMMIT3args::wire);
        }
        let ghost base = out@;
        self.file.serialize(out);
        encode_u64(self.offset, out);
        proof {
            lemma_concat_assoc(base, nfs_fh3::wire(self.file@), u64_wire(self.offset));
        }
        encode_u32(self.count, out);
        proof {
            lemma_concat_assoc(
                base,
                nfs_fh3::wire(self.file@) + u64_wire(self.offset),
                u32_wire(self.count),
            );
        }
    }

    /// Decodes a value at the offset `at` of `input`, and returns it with the
    /// offset behind it.
    pub fn deserialize(input: &[u8], at: usize) -> (r: Result<(COMMIT3args, usize), DecodeError>)
        ensures
            match Self::parse(input@, at as int) {
                Some((v, end)) => r matches Ok(p) && p.0@ == v && p.1 == end && end <= input@.len(),
                None => r is Err,
            },
    {
        proof {
            reveal(COMMIT3args::parse);
        }
        let (file, at) = nfs_fh3::deserialize(input, at)?;
        let (offset, at) = decode_u64(input, at)?;
        let (count, at) = decode_u32(input, at)?;
        Ok((COMMIT3args { file, offset, count }, at))
    }
}

impl COMMIT3args {
    /// The value with every number zero, every list empty and every choice
    /// at its first arm.
    pub open spec fn zero() -> COMMIT3argsView {
        COMMIT3argsView {
            file: Seq::<u8>::empty(),
            offset: 0,
            count: 0,
        }
    }
}

impl Default for COMMIT3args {
    fn default() -> (r: Self)
        ensures
            r@ == Self::zero(),
    {
        COMMIT3args {
            file: nfs_fh3::default(),
            offset: 0,
            count: 0,
        }
    }
}

/// The result of a COMMIT that succeeded.
#[derive(Clone, Debug, PartialEq, Eq)]
pub struct COMMIT3resok {
    pub file_wcc: wcc_data,
    pub verf: writeverf3,
}

/// What a [`COMMIT3resok`] holds, as plain values.
pub struct COMMIT3resokView {
    pub file_wcc: wcc_data,
    pub verf: Seq<u8>,
}

impl View for COMMIT3resok {
    type V = COMMIT3resokView;

    open spec fn view(&self) -> COMMIT3resokView {
        COMMIT3resokView {
            file_wcc: self.file_wcc,
            verf: self.verf@,
        }
    }
}

impl COMMIT3resok {
    /// Every length in the value fits the 32 bits that the wire gives it.
    pub open spec fn encodable(v: COMMIT3resokView) -> bool {
        v.verf.len() == 8
    }

    /// The fields one behind the other, in the order of their declaration.
    #[verifier::opaque]
    pub open spec fn wire(v: COMMIT3resokView) -> Seq<u8> {
        wcc_data::wire(v.file_wcc) + v.verf
    }

    /// What a decoder reads at the offset `at` of `s`, with the offset behind
    /// it; `None` where a field does not decode.
    #[verifier::opaque]
    pub open spec fn parse(s: Seq<u8>, at: int) -> Option<(COMMIT3resokView, int)> {
        match wcc_data::parse(s, at) {
            None => None,
            Some((file_wcc, a1)) => match parse_fixed8(s, a1) {
                None => None,
                Some((verf, a2)) => Some((COMMIT3resokView { file_wcc, verf }, a2)),
            },
        }
    }

    /// Round trip: wherever the encoding of `v` stands in a buffer, the
    /// decoder reads `v` there and stops right behind it.
    pub proof fn lemma_roundtrip(v: COMMIT3resokView, s: Seq<u8>, at: int)
        requires
            Self::encodable(v),
            holds_at(s, at, Self::wire(v)),
        ensures
            Self::parse(s, at) == Some((v, at + Self::wire(v).len())),
    {
        reveal(COMMIT3resok::wire);
        reveal(COMMIT3resok::parse);
        let w0 = wcc_data::wire(v.file_wcc);
        let w1 = v.verf;
        lemma_holds_at_concat(s, at, w0, w1);
        wcc_data::lemma_roundtrip(v.file_wcc, s, at);
        lemma_roundtrip_fixed8(v.verf, s, at + w0.len());
    }

    /// Whether the value has an encoding.
    pub fn fits(&self) -> (b: bool)
        ensures
            b == Self::encodable(self@),
    {
        true
    }

    /// Appends the encoding of the value to `out`.
    pub fn serialize(&self, out: &mut Vec<u8>)
        requires
            Self::encodable(self@),
        ensures
            final(out)@ == old(out)@ + Self::wire(self@),
    {
        proof {
            reveal(COMMIT3resok::wire);
        }
        let ghost base = out@;
        self.file_wcc.serialize(out);
        encode_fixed8(&self.verf, out);
        proof {
            lemma_concat_assoc(base, wcc_data::wire(self.file_wcc), self.verf@);
        }
    }

    /// Decodes a value at the offset `at` of `input`, and returns it with the
    /// offset behind it.
    pub fn deserialize(input: &[u8], at: usize) -> (r: Result<(COMMIT3resok, usize), DecodeError>)
        ensures
            match Self::parse(input@, at as int) {
                Some((v, end)) => r matches Ok(p) && p.0@ == v && p.1 == end && end <= input@.len(),
                None => r is Err,
            },
    {
        proof {
            reveal(COMMIT3resok::parse);
        }
        let (file_wcc, at) = wcc_data::deserialize(input, at)?;
        let (verf, at) = decode_fixed8(input, at)?;
        Ok((COMMIT3resok { file_wcc, verf }, at))
    }
}

/// The arguments of LINK.
#[derive(Clone, Debug, PartialEq, Eq)]
pub struct LINK3args {
    pub file: nfs_fh3,
    pub link: diropargs3,
}

/// What a [`LINK3args`] holds, as plain values.
pub struct LINK3argsView {
    pub file: Seq<u8>,
    pub link: diropargs3View,
}

impl View for LINK3args {
    type V = LINK3argsView;

    open spec fn view(&self) -> LINK3argsView {
        LINK3argsView {
            file: self.file@,
            link: self.link@,
        }
    }
}

impl LINK3args {
    /// Every length in the value fits the 32 bits that the wire gives it.
    pub open spec fn encodable(v: LINK3argsView) -> bool {
        &&& nfs_fh3::encodable(v.file)
        &&& diropargs3::encodable(v.link)
    }

    /// The fields one behind the other, in the order of their declaration.
    #[verifier::opaque]
    pub open spec fn wire(v: LINK3argsView) -> Seq<u8> {
        nfs_fh3::wire(v.file) + diropargs3::wire(v.link)
    }

    /// What a decoder reads at the offset `at` of `s`, with the offset behind
    /// it; `None` where a field does not decode.
    #[verifier::opaque]
    pub open spec fn parse(s: Seq<u8>, at: int) -> Option<(LINK3argsView, int)> {
        match nfs_fh3::parse(s, at) {
            None => None,
            Some((file, a1)) => match diropargs3::parse(s, a1) {
                None => None,
                Some((link, a2)) => Some((LINK3argsView { file, link }, a2)),
            },
        }
    }

    /// Round trip: wherever the encoding of `v` stands in a buffer, the
    /// decoder reads `v` there and stops right behind it.
    pub proof fn lemma_roundtrip(v: LINK3argsView, s: Seq<u8>, at: int)
        requires
            Self::encodable(v),
            holds_at(s, at, Self::wire(v)),
        ensures
            Self::parse(s, at) == Some((v, at + Self::wire(v).len())),
    {
        reveal(LINK3args::wire);
        reveal(LINK3args::parse);
        let w0 = nfs_fh3::wire(v.file);
        let w1 = diropargs3::wire(v.link);
        lemma_holds_at_concat(s, at, w0, w1);
        nfs_fh3::lemma_roundtrip(v.file, s, at);
        diropargs3::lemma_roundtrip(v.link, s, at + w0.len());
    }

    /// Whether the value has an encoding.
    pub fn fits(&self) -> (b: bool)
        ensures
            b == Self::encodable(self@),
    {
        self.file.fits() && self.link.fits()
    }

    /// Appends the encoding of the value to `out`.
    pub fn serialize(&self, out: &mut Vec<u8>)
        requires
            Self::encodable(self@),
        ensures
            final(out)@ == old(out)@ + Self::wire(self@),
    {
        proof {
            reveal(LINK3args::wire);
        }
        let ghost base = out@;
        self.file.serialize(out);
        self.link.serialize(out);
        proof {
            lemma_concat_assoc(base, nfs_fh3::wire(self.file@), diropargs3::wire(self.link@));
        }
    }

    /// Decodes a value at the offset `at` of `input`, and returns it with the
    /// offset behind it.
    pub fn deserialize(input: &[u8], at: usize) -> (r: Result<(LINK3args, usize), DecodeError>)
        ensures
            match Self::parse(input@, at as int) {
                Some((v, end)) => r matches Ok(p) && p.0@ == v && p.1 == end && end <= input@.len(),
                None => r is Err,
            },
    {
        proof {
            reveal(LINK3args::parse);
        }
        let (file, at) = nfs_fh3::deserialize(input, at)?;
        let (link, at) = diropargs3::deserialize(input, at)?;
        Ok((LINK3args { file, link }, at))
    }
}

impl LINK3args {
    /// The value with every number zero, every list empty and every choice
    /// at its first arm.
    pub open spec fn zero() -> LINK3argsView {
        LINK3argsView {
            file: Seq::<u8>::empty(),
            link: diropargs3::zero(),
        }
    }
}

impl Default for LINK3args {
    fn default() -> (r: Self)
        ensures
            r@ == Self::zero(),
    {
        LINK3args {
            file: nfs_fh3::default(),
            link: diropargs3::default(),
        }
    }
}

/// How far written data has reached stable storage.
#[derive(Copy, Clone, Debug, PartialEq, Eq, Structural)]
pub enum stable_how {
    UNSTABLE,
    DATA_SYNC,
    FILE_SYNC,
}

impl stable_how {
    /// The number that stands for the variant on the wire.
    pub open spec fn code(self) -> u32 {
        match self {
            stable_how::UNSTABLE => 0,
            stable_how::DATA_SYNC => 1,
            stable_how::FILE_SYNC => 2,
        }
    }

    /// The variant that a number stands for, if any.
    pub open spec fn from_code(c: u32) -> Option<stable_how> {
        if c == 0 {
            Some(stable_how::UNSTABLE)
        } else if c == 1 {
            Some(stable_how::DATA_SYNC)
        } else if c == 2 {
            Some(stable_how::FILE_SYNC)
        } else {
            None
        }
    }

    /// Every variant is found again from its number.
    pub proof fn lemma_code_roundtrip(self)
        ensures
            Self::from_code(self.code()) == Some(self),
    {
    }

    /// The number that stands for the variant on the wire.
    pub fn to_u32(self) -> (c: u32)
        ensures
            c == self.code(),
    {
        match self {
            stable_how::UNSTABLE => 0,
            stable_how::DATA_SYNC => 1,
            stable_how::FILE_SYNC => 2,
        }
    }

    /// The variant that a number stands for, if any.
    pub fn from_u32(c: u32) -> (r: Option<stable_how>)
        ensures
            r == Self::from_code(c),
    {
        if c == 0 {
            Some(stable_how::UNSTABLE)
        } else if c == 1 {
            Some(stable_how::DATA_SYNC)
        } else if c == 2 {
            Some(stable_how::FILE_SYNC)
        } else {
            None
        }
    }

    /// The number of the variant, as 32 bits.
    pub open spec fn wire(v: stable_how) -> Seq<u8> {
        u32_wire(v.code())
    }

    /// A number that names no variant does not decode.
    pub open spec fn parse(s: Seq<u8>, at: int) -> Option<(stable_how, int)> {
        match parse_u32(s, at) {
            None => None,
            Some((c, end)) => match Self::from_code(c) {
                None => None,
                Some(v) => Some((v, end)),
            },
        }
    }

    /// Round trip: wherever the encoding of `v` stands in a buffer, the
    /// decoder reads `v` there and stops right behind it.
    pub proof fn lemma_roundtrip(v: stable_how, s: Seq<u8>, at: int)
        requires
            holds_at(s, at, Self::wire(v)),
        ensures
            Self::parse(s, at) == Some((v, at + Self::wire(v).len())),
    {
        lemma_roundtrip_u32(v.code(), s, at);
    }

    /// Appends the encoding of the value to `out`.
    pub fn serialize(&self, out: &mut Vec<u8>)
        ensures
            final(out)@ == old(out)@ + Self::wire(*self),
    {
        encode_u32(self.to_u32(), out);
    }

    /// Decodes a value at the offset `at` of `input`, and returns it with the
    /// offset behind it.
    pub fn deserialize(input: &[u8], at: usize) -> (r: Result<(stable_how, usize), DecodeError>)
        ensures
            match Self::parse(input@, at as int) {
                Some((v, end)) => r matches Ok(p) && p.0 == v && p.1 == end && end <= input@.len(),
                None => r is Err,
            },
    {
        let (c, end) = decode_u32(input, at)?;
        match Self::from_u32(c) {
            Some(v) => Ok((v, end)),
            None => Err(DecodeError {  }),
        }
    }
}

impl Default for stable_how {
    fn default() -> (r: Self)
        ensures
            r == stable_how::UNSTABLE,
    {
        stable_how::UNSTABLE
    }
}

/// The arguments of WRITE.
#[derive(Clone, Debug, PartialEq, Eq)]
pub struct WRITE3args {
    pub file: nfs_fh3,
    pub offset: offset3,
    pub count: count3,
    pub stable: u32,
    pub data: Vec<u8>,
}

/// What a [`WRITE3args`] holds, as plain values.
pub struct WRITE3argsView {
    pub file: Seq<u8>,
    pub offset: u64,
    pub count: u32,
    pub stable: u32,
    pub data: Seq<u8>,
}

impl View for WRITE3args {
    type V = WRITE3argsView;

    open spec fn view(&self) -> WRITE3argsView {
        WRITE3argsView {
            file: self.file@,
            offset: self.offset,
            count: self.count,
            stable: self.stable,
            data: self.data@,
        }
    }
}

impl WRITE3args {
    /// Every length in the value fits the 32 bits that the wire gives it.
    pub open spec fn encodable(v: WRITE3argsView) -> bool {
        &&& nfs_fh3::encodable(v.file)
        &&& opaque_encodable(v.data)
    }

    /// The fields one behind the other, in the order of their declaration.
    #[verifier::opaque]
    pub open spec fn wire(v: WRITE3argsView) -> Seq<u8> {
        nfs_fh3::wire(v.file) + u64_wire(v.offset) + u32_wire(v.count) + u32_wire(v.stable)
            + opaque_wire(v.data)
    }

    /// What a decoder reads at the offset `at` of `s`, with the offset behind
    /// it; `None` where a field does not decode.
    #[verifier::opaque]
    pub open spec fn parse(s: Seq<u8>, at: int) -> Option<(WRITE3argsView, int)> {
        match nfs_fh3::parse(s, at) {
            None => None,
            Some((file, a1)) => match parse_u64(s, a1) {
                None => None,
                Some((offset, a2)) => match parse_u32(s, a2) {
                    None => None,
                    Some((count, a3)) => match parse_u32(s, a3) {
                        None => None,
                        Some((stable, a4)) => match parse_opaque(s, a4) {
                            None => None,
                            Some((data, a5)) => Some(
                                (
                                    WRITE3argsView {
                                        file,
                                        offset,
                                        count,
                                        stable,
                                        data,
                                    },
                                    a5,
                                ),
                            ),
                        },
                    },
                },
            },
        }
    }

    /// Round trip: wherever the encoding of `v` stands in a buffer, the
    /// decoder reads `v` there and stops right behind it.
    pub proof fn lemma_roundtrip(v: WRITE3argsView, s: Seq<u8>, at: int)
        requires
            Self::encodable(v),
            holds_at(s, at, Self::wire(v)),
        ensures
            Self::parse(s, at) == Some((v, at + Self::wire(v).len())),
    {
        reveal(WRITE3args::wire);
        reveal(WRITE3args::parse);
        let w0 = nfs_fh3::wire(v.file);
        let w1 = u64_wire(v.offset);
        let w2 = u32_wire(v.count);
        let w3 = u32_wire(v.stable);
        let w4 = opaque_wire(v.data);
        let p1 = w0 + w1;
        let p2 = p1 + w2;
        let p3 = p2 + w3;
        lemma_holds_at_concat(s, at, p3, w4);
        lemma_holds_at_concat(s, at, p2, w3);
        lemma_holds_at_concat(s, at, p1, w2);
        lemma_holds_at_concat(s, at, w0, w1);
        nfs_fh3::lemma_roundtrip(v.file, s, at);
        lemma_roundtrip_u64(v.offset, s, at + w0.len());
        lemma_roundtrip_u32(v.count, s, at + p1.len());
        lemma_roundtrip_u32(v.stable, s, at + p2.len());
        lemma_roundtrip_opaque(v.data, s, at + p3.len());
    }

    /// Whether the value has an encoding.
    pub fn fits(&self) -> (b: bool)
        ensures
            b == Self::encodable(self@),
    {
        self.file.fits() && opaque_fits(self.data.as_slice())
    }

    /// Appends the encoding of the value to `out`.
    pub fn serialize(&self, out: &mut Vec<u8>)
        requires
            Self::encodable(self@),
        ensures
            final(out)@ == old(out)@ + Self::wire(self@),
    {
        proof {
            reveal(WRITE3args::wire);
        }
        let ghost base = out@;
        self.file.serialize(out);
        encode_u64(self.offset, out);
        proof {
            lemma_concat_assoc(base, nfs_fh3::wire(self.file@), u64_wire(self.offset));
        }
        encode_u32(self.count, out);
        proof {
            lemma_concat_assoc(
                base,
                nfs_fh3::wire(self.file@) + u64_wire(self.offset),
                u32_wire(self.count),
            );
        }
        encode_u32(self.stable, out);
        proof {
            lemma_concat_assoc(
                base,
                nfs_fh3::wire(self.file@) + u64_wire(self.offset) + u32_wire(self.count),
                u32_wire(self.stable),
            );
        }
        encode_opaque(self.data.as_slice(), out);
        proof {
            lemma_concat_assoc(
                base,
                nfs_fh3::wire(self.file@) + u64_wire(self.offset) + u32_wire(self.count)
                    + u32_wire(self.stable),
                opaque_wire(self.data@),
            );
        }
    }

    /// Decodes a value at the offset `at` of `input`, and returns it with the
    /// offset behind it.
    pub fn deserialize(input: &[u8], at: usize) -> (r: Result<(WRITE3args, usize), DecodeError>)
        ensures
            match Self::parse(input@, at as int) {
                Some((v, end)) => r matches Ok(p) && p.0@ == v && p.1 == end && end <= input@.len(),
                None => r is Err,
            },
    {
        proof {
            reveal(WRITE3args::parse);
        }
        let (file, at) = nfs_fh3::deserialize(input, at)?;
        let (offset, at) = decode_u64(input, at)?;
        let (count, at) = decode_u32(input, at)?;
        let (stable, at) = decode_u32(input, at)?;
        let (data, at) = decode_opaque(input, at)?;
        Ok((WRITE3args { file, offset, count, stable, data }, at))
    }
}

impl WRITE3args {
    /// The value with every number zero, every list empty and every choice
    /// at its first arm.
    pub open spec fn zero() -> WRITE3argsView {
        WRITE3argsView {
            file: Seq::<u8>::empty(),
            offset: 0,
            count: 0,
            stable: 0,
            data: Seq::<u8>::empty(),
        }
    }
}

impl Default for WRITE3args {
    fn default() -> (r: Self)
        ensures
            r@ == Self::zero(),
    {
        WRITE3args {
            file: nfs_fh3::default(),
            offset: 0,
            count: 0,
            stable: 0,
            data: Vec::new(),
        }
    }
}

/// How CREATE treats a name that exists, and the attributes to give the file.
/// An exclusive create names no attributes.
#[derive(Copy, Clone, Debug, PartialEq, Eq)]
pub enum createhow3 {
    UNCHECKED(sattr3),
    GUARDED(sattr3),
    EXCLUSIVE,
}

impl createhow3 {
    /// The discriminant, then the contents of the arm.
    #[verifier::opaque]
    pub open spec fn wire(v: createhow3) -> Seq<u8> {
        match v {
            createhow3::UNCHECKED(x) => u32_wire(0) + sattr3::wire(x),
            createhow3::GUARDED(x) => u32_wire(1) + sattr3::wire(x),
            createhow3::EXCLUSIVE => u32_wire(2),
        }
    }

    /// What a decoder reads at the offset `at` of `s`, with the offset behind
    /// it; `None` where the discriminant or the arm does not decode.
    #[verifier::opaque]
    pub open spec fn parse(s: Seq<u8>, at: int) -> Option<(createhow3, int)> {
        match parse_u32(s, at) {
            None => None,
            Some((tag, a1)) => if tag == 0 {
                match sattr3::parse(s, a1) {
                    None => None,
                    Some((x, end)) => Some((createhow3::UNCHECKED(x), end)),
                }
            } else if tag == 1 {
                match sattr3::parse(s, a1) {
                    None => None,
                    Some((x, end)) => Some((createhow3::GUARDED(x), end)),
                }
            } else if tag == 2 {
                Some((createhow3::EXCLUSIVE, a1))
            } else {
                None
            },
        }
    }

    /// Round trip: wherever the encoding of `v` stands in a buffer, the
    /// decoder reads `v` there and stops right behind it.
    pub proof fn lemma_roundtrip(v: createhow3, s: Seq<u8>, at: int)
        requires
            holds_at(s, at, Self::wire(v)),
        ensures
            Self::parse(s, at) == Some((v, at + Self::wire(v).len())),
    {
        reveal(createhow3::wire);
        reveal(createhow3::parse);
        match v {
            createhow3::UNCHECKED(x) => {
                lemma_holds_at_concat(s, at, u32_wire(0), sattr3::wire(x));
                lemma_roundtrip_u32(0, s, at);
                sattr3::lemma_roundtrip(x, s, at + 4);
            },
            createhow3::GUARDED(x) => {
                lemma_holds_at_concat(s, at, u32_wire(1), sattr3::wire(x));
                lemma_roundtrip_u32(1, s, at);
                sattr3::lemma_roundtrip(x, s, at + 4);
            },
            createhow3::EXCLUSIVE => {
                lemma_roundtrip_u32(2, s, at);
            },
        }
    }

    /// Appends the encoding of the value to `out`.
    pub fn serialize(&self, out: &mut Vec<u8>)
        ensures
            final(out)@ == old(out)@ + Self::wire(*self),
    {
        proof {
            reveal(createhow3::wire);
        }
        match self {
            createhow3::UNCHECKED(x) => {
                encode_u32(0, out);
                x.serialize(out);
                assert(out@ =~= old(out)@ + Self::wire(*self));
            },
            createhow3::GUARDED(x) => {
                encode_u32(1, out);
                x.serialize(out);
                assert(out@ =~= old(out)@ + Self::wire(*self));
            },
            createhow3::EXCLUSIVE => {
                encode_u32(2, out);
            },
        }
    }

    /// Decodes a value at the offset `at` of `input`, and returns it with the
    /// offset behind it.
    pub fn deserialize(input: &[u8], at: usize) -> (r: Result<(createhow3, usize), DecodeError>)
        ensures
            match Self::parse(input@, at as int) {
                Some((v, end)) => r matches Ok(p) && p.0 == v && p.1 == end && end <= input@.len(),
                None => r is Err,
            },
    {
        proof {
            reveal(createhow3::parse);
        }
        let (tag, at) = decode_u32(input, at)?;
        if tag == 0 {
            let (x, at) = sattr3::deserialize(input, at)?;
            Ok((createhow3::UNCHECKED(x), at))
        } else if tag == 1 {
            let (x, at) = sattr3::deserialize(input, at)?;
            Ok((createhow3::GUARDED(x), at))
        } else if tag == 2 {
            Ok((createhow3::EXCLUSIVE, at))
        } else {
            Err(DecodeError {  })
        }
    }
}

/// The arguments of CREATE.
#[derive(Clone, Debug, PartialEq, Eq)]
pub struct CREATE3args {
    pub where_dir: diropargs3,
    pub how: createhow3,
}

/// What a [`CREATE3args`] holds, as plain values.
pub struct CREATE3argsView {
    pub where_dir: diropargs3View,
    pub how: createhow3,
}

impl View for CREATE3args {
    type V = CREATE3argsView;

    open spec fn view(&self) -> CREATE3argsView {
        CREATE3argsView {
            where_dir: self.where_dir@,
            how: self.how,
        }
    }
}

impl CREATE3args {
    /// Every length in the value fits the 32 bits that the wire gives it.
    pub open spec fn encodable(v: CREATE3argsView) -> bool {
        diropargs3::encodable(v.where_dir)
    }

    /// The fields one behind the other, in the order of their declaration.
    #[verifier::opaque]
    pub open spec fn wire(v: CREATE3argsView) -> Seq<u8> {
        diropargs3::wire(v.where_dir) + createhow3::wire(v.how)
    }

    /// What a decoder reads at the offset `at` of `s`, with the offset behind
    /// it; `None` where a field does not decode.
    #[verifier::opaque]
    pub open spec fn parse(s: Seq<u8>, at: int) -> Option<(CREATE3argsView, int)> {
        match diropargs3::parse(s, at) {
            None => None,
            Some((where_dir, a1)) => match createhow3::parse(s, a1) {
                None => None,
                Some((how, a2)) => Some((CREATE3argsView { where_dir, how }, a2)),
            },
        }
    }

    /// Round trip: wherever the encoding of `v` stands in a buffer, the
    /// decoder reads `v` there and stops right behind it.
    pub proof fn lemma_roundtrip(v: CREATE3argsView, s: Seq<u8>, at: int)
        requires
            Self::encodable(v),
            holds_at(s, at, Self::wire(v)),
        ensures
            Self::parse(s, at) == Some((v, at + Self::wire(v).len())),
    {
        reveal(CREATE3args::wire);
        reveal(CREATE3args::parse);
        let w0 = diropargs3::wire(v.where_dir);
        let w1 = createhow3::wire(v.how);
        lemma_holds_at_concat(s, at, w0, w1);
        diropargs3::lemma_roundtrip(v.where_dir, s, at);
        createhow3::lemma_roundtrip(v.how, s, at + w0.len());
    }

    /// Whether the value has an encoding.
    pub fn fits(&self) -> (b: bool)
        ensures
            b == Self::encodable(self@),
    {
        self.where_dir.fits()
    }

    /// Appends the encoding of the value to `out`.
    pub fn serialize(&self, out: &mut Vec<u8>)
        requires
            Self::encodable(self@),
        ensures
            final(out)@ == old(out)@ + Self::wire(self@),
    {
        proof {
            reveal(CREATE3args::wire);
        }
        let ghost base = out@;
        self.where_dir.serialize(out);
        self.how.serialize(out);
        proof {
            lemma_concat_assoc(base, diropargs3::wire(self.where_dir@), createhow3::wire(self.how));
        }
    }

    /// Decodes a value at the offset `at` of `input`, and returns it with the
    /// offset behind it.
    pub fn deserialize(input: &[u8], at: usize) -> (r: Result<(CREATE3args, usize), DecodeError>)
        ensures
            match Self::parse(input@, at as int) {
                Some((v, end)) => r matches Ok(p) && p.0@ == v && p.1 == end && end <= input@.len(),
                None => r is Err,
            },
    {
        proof {
            reveal(CREATE3args::parse);
        }
        let (where_dir, at) = diropargs3::deserialize(input, at)?;
        let (how, at) = createhow3::deserialize(input, at)?;
        Ok((CREATE3args { where_dir, how }, at))
    }
}

/// The result of a WRITE that succeeded.
#[derive(Clone, Debug, PartialEq, Eq)]
pub struct WRITE3resok {
    pub file_wcc: wcc_data,
    pub count: count3,
    pub committed: stable_how,
    pub verf: writeverf3,
}

/// What a [`WRITE3resok`] holds, as plain values.
pub struct WRITE3resokView {
    pub file_wcc: wcc_data,
    pub count: u32,
    pub committed: stable_how,
    pub verf: Seq<u8>,
}

impl View for WRITE3resok {
    type V = WRITE3resokView;

    open spec fn view(&self) -> WRITE3resokView {
        WRITE3resokView {
            file_wcc: self.file_wcc,
            count: self.count,
            committed: self.committed,
            verf: self.verf@,
        }
    }
}

impl WRITE3resok {
    /// Every length in the value fits the 32 bits that the wire gives it.
    pub open spec fn encodable(v: WRITE3resokView) -> bool {
        v.verf.len() == 8
    }

    /// The fields one behind the other, in the order of their declaration.
    #[verifier::opaque]
    pub open spec fn wire(v: WRITE3resokView) -> Seq<u8> {
        wcc_data::wire(v.file_wcc) + u32_wire(v.count) + stable_how::wire(v.committed) + v.verf
    }

    /// What a decoder reads at the offset `at` of `s`, with the offset behind
    /// it; `None` where a field does not decode.
    #[verifier::opaque]
    pub open spec fn parse(s: Seq<u8>, at: int) -> Option<(WRITE3resokView, int)> {
        match wcc_data::parse(s, at) {
            None => None,
            Some((file_wcc, a1)) => match parse_u32(s, a1) {
                None => None,
                Some((count, a2)) => match stable_how::parse(s, a2) {
                    None => None,
                    Some((committed, a3)) => match parse_fixed8(s, a3) {
                        None => None,
                        Some((verf, a4)) => Some(
                            (
                                WRITE3resokView {
                                    file_wcc,
                                    count,
                                    committed,
                                    verf,
                                },
                                a4,
                            ),
                        ),
                    },
                },
            },
        }
    }

    /// Round trip: wherever the encoding of `v` stands in a buffer, the
    /// decoder reads `v` there and stops right behind it.
    pub proof fn lemma_roundtrip(v: WRITE3resokView, s: Seq<u8>, at: int)
        requires
            Self::encodable(v),
            holds_at(s, at, Self::wire(v)),
        ensures
            Self::parse(s, at) == Some((v, at + Self::wire(v).len())),
    {
        reveal(WRITE3resok::wire);
        reveal(WRITE3resok::parse);
        let w0 = wcc_data::wire(v.file_wcc);
        let w1 = u32_wire(v.count);
        let w2 = stable_how::wire(v.committed);
        let w3 = v.verf;
        let p1 = w0 + w1;
        let p2 = p1 + w2;
        lemma_holds_at_concat(s, at, p2, w3);
        lemma_holds_at_concat(s, at, p1, w2);
        lemma_holds_at_concat(s, at, w0, w1);
        wcc_data::lemma_roundtrip(v.file_wcc, s, at);
        lemma_roundtrip_u32(v.count, s, at + w0.len());
        stable_how::lemma_roundtrip(v.committed, s, at + p1.len());
        lemma_roundtrip_fixed8(v.verf, s, at + p2.len());
    }

    /// Whether the value has an encoding.
    pub fn fits(&self) -> (b: bool)
        ensures
            b == Self::encodable(self@),
    {
        true
    }

    /// Appends the encoding of the value to `out`.
    pub fn serialize(&self, out: &mut Vec<u8>)
        requires
            Self::encodable(self@),
        ensures
            final(out)@ == old(out)@ + Self::wire(self@),
    {
        proof {
            reveal(WRITE3resok::wire);
        }
        let ghost base = out@;
        self.file_wcc.serialize(out);
        encode_u32(self.count, out);
        proof {
            lemma_concat_assoc(base, wcc_data::wire(self.file_wcc), u32_wire(self.count));
        }
        self.committed.serialize(out);
        proof {
            lemma_concat_assoc(
                base,
                wcc_data::wire(self.file_wcc) + u32_wire(self.count),
                stable_how::wire(self.committed),
            );
        }
        encode_fixed8(&self.verf, out);
        proof {
            lemma_concat_assoc(
                base,
                wcc_data::wire(self.file_wcc) + u32_wire(self.count)
                    + stable_how::wire(self.committed),
                self.verf@,
            );
        }
    }

    /// Decodes a value at the offset `at` of `input`, and returns it with the
    /// offset behind it.
    pub fn deserialize(input: &[u8], at: usize) -> (r: Result<(WRITE3resok, usize), DecodeError>)
        ensures
            match Self::parse(input@, at as int) {
                Some((v, end)) => r matches Ok(p) && p.0@ == v && p.1 == end && end <= input@.len(),
                None => r is Err,
            },
    {
        proof {
            reveal(WRITE3resok::parse);
        }
        let (file_wcc, at) = wcc_data::deserialize(input, at)?;
        let (count, at) = decode_u32(input, at)?;
        let (committed, at) = stable_how::deserialize(input, at)?;
        let (verf, at) = decode_fixed8(input, at)?;
        Ok((WRITE3resok { file_wcc, count, committed, verf }, at))
    }
}

} // verus!
