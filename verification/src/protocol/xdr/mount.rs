//! The data types of the MOUNT protocol, version 3 (RFC 1813, appendix I).
#![allow(non_camel_case_types)]

use crate::protocol::xdr::{
    decode_opaque, decode_u32, decode_u32_array, encode_opaque, encode_u32, encode_u32_array,
    holds_at, lemma_concat_assoc, lemma_holds_at_concat, lemma_roundtrip_opaque,
    lemma_roundtrip_u32, lemma_roundtrip_u32_array, opaque_encodable, opaque_fits, opaque_wire,
    parse_opaque, parse_u32, parse_u32_array, u32_array_encodable, u32_array_fits, u32_array_wire,
    u32_wire, DecodeError,
};
use vstd::prelude::*;

verus! {

/// The RPC program number of MOUNT.
pub const PROGRAM: u32 = 100005;

/// The version of MOUNT that is served.
pub const VERSION: u32 = 3;

/// The largest number of bytes in a path name.
pub const MNTPATHLEN: u32 = 1024;

/// The largest number of bytes in a name.
pub const MNTNAMLEN: u32 = 255;

/// The largest number of bytes in a file handle of version 3.
pub const FHSIZE3: u32 = 64;

/// A file handle, as MOUNT hands it out.
pub type fhandle3 = Vec<u8>;

/// The path of a directory on the server.
pub type dirpath = Vec<u8>;

/// The name of a client or of a group of clients.
pub type name = Vec<u8>;

/// The status of a MOUNT procedure.
#[derive(Copy, Clone, Debug, PartialEq, Eq, Structural)]
pub enum mountstat3 {
    MNT3_OK,
    MNT3ERR_PERM,
    MNT3ERR_NOENT,
    MNT3ERR_IO,
    MNT3ERR_ACCES,
    MNT3ERR_NOTDIR,
    MNT3ERR_INVAL,
    MNT3ERR_NAMETOOLONG,
    MNT3ERR_NOTSUPP,
    MNT3ERR_SERVERFAULT,
}

impl mountstat3 {
    /// The number that stands for the variant on the wire.
    pub open spec fn code(self) -> u32 {
        match self {
            mountstat3::MNT3_OK => 0,
            mountstat3::MNT3ERR_PERM => 1,
            mountstat3::MNT3ERR_NOENT => 2,
            mountstat3::MNT3ERR_IO => 5,
            mountstat3::MNT3ERR_ACCES => 13,
            mountstat3::MNT3ERR_NOTDIR => 20,
            mountstat3::MNT3ERR_INVAL => 22,
            mountstat3::MNT3ERR_NAMETOOLONG => 63,
            mountstat3::MNT3ERR_NOTSUPP => 10004,
            mountstat3::MNT3ERR_SERVERFAULT => 10006,
        }
    }

    /// The variant that a number stands for, if any.
    pub open spec fn from_code(c: u32) -> Option<mountstat3> {
        if c == 0 {
            Some(mountstat3::MNT3_OK)
        } else if c == 1 {
            Some(mountstat3::MNT3ERR_PERM)
        } else if c == 2 {
            Some(mountstat3::MNT3ERR_NOENT)
        } else if c == 5 {
            Some(mountstat3::MNT3ERR_IO)
        } else if c == 13 {
            Some(mountstat3::MNT3ERR_ACCES)
        } else if c == 20 {
            Some(mountstat3::MNT3ERR_NOTDIR)
        } else if c == 22 {
            Some(mountstat3::MNT3ERR_INVAL)
        } else if c == 63 {
            Some(mountstat3::MNT3ERR_NAMETOOLONG)
        } else if c == 10004 {
            Some(mountstat3::MNT3ERR_NOTSUPP)
        } else if c == 10006 {
            Some(mountstat3::MNT3ERR_SERVERFAULT)
        } else {
            None
        }
    }

    /// Every variant is found again from its number.
    pub proof fn lemma_code_roundtrip(self)
        ensures
            Self::from_code(self.code()) == Some(self),
    {
    }

    /// The number that stands for the variant on the wire.
    pub fn to_u32(self) -> (c: u32)
        ensures
            c == self.code(),
    {
        match self {
            mountstat3::MNT3_OK => 0,
            mountstat3::MNT3ERR_PERM => 1,
            mountstat3::MNT3ERR_NOENT => 2,
            mountstat3::MNT3ERR_IO => 5,
            mountstat3::MNT3ERR_ACCES => 13,
            mountstat3::MNT3ERR_NOTDIR => 20,
            mountstat3::MNT3ERR_INVAL => 22,
            mountstat3::MNT3ERR_NAMETOOLONG => 63,
            mountstat3::MNT3ERR_NOTSUPP => 10004,
            mountstat3::MNT3ERR_SERVERFAULT => 10006,
        }
    }

    /// The variant that a number stands for, if any.
    pub fn from_u32(c: u32) -> (r: Option<mountstat3>)
        ensures
            r == Self::from_code(c),
    {
        if c == 0 {
            Some(mountstat3::MNT3_OK)
        } else if c == 1 {
            Some(mountstat3::MNT3ERR_PERM)
        } else if c == 2 {
            Some(mountstat3::MNT3ERR_NOENT)
        } else if c == 5 {
            Some(mountstat3::MNT3ERR_IO)
        } else if c == 13 {
            Some(mountstat3::MNT3ERR_ACCES)
        } else if c == 20 {
            Some(mountstat3::MNT3ERR_NOTDIR)
        } else if c == 22 {
            Some(mountstat3::MNT3ERR_INVAL)
        } else if c == 63 {
            Some(mountstat3::MNT3ERR_NAMETOOLONG)
        } else if c == 10004 {
            Some(mountstat3::MNT3ERR_NOTSUPP)
        } else if c == 10006 {
            Some(mountstat3::MNT3ERR_SERVERFAULT)
        } else {
            None
        }
    }

    /// The number of the variant, as 32 bits.
    pub open spec fn wire(v: mountstat3) -> Seq<u8> {
        u32_wire(v.code())
    }

    /// A number that names no variant does not decode.
    pub open spec fn parse(s: Seq<u8>, at: int) -> Option<(mountstat3, int)> {
        match parse_u32(s, at) {
            None => None,
            Some((c, end)) => match Self::from_code(c) {
                None => None,
                Some(v) => Some((v, end)),
            },
        }
    }

    /// Round trip: wherever the encoding of `v` stands in a buffer, the
    /// decoder reads `v` there and stops right behind it.
    pub proof fn lemma_roundtrip(v: mountstat3, s: Seq<u8>, at: int)
        requires
            holds_at(s, at, Self::wire(v)),
        ensures
            Self::parse(s, at) == Some((v, at + Self::wire(v).len())),
    {
        lemma_roundtrip_u32(v.code(), s, at);
    }

    /// Appends the encoding of the value to `out`.
    pub fn serialize(&self, out: &mut Vec<u8>)
        ensures
            final(out)@ == old(out)@ + Self::wire(*self),
    {
        encode_u32(self.to_u32(), out);
    }

    /// Decodes a value at the offset `at` of `input`, and returns it with the
    /// offset behind it.
    pub fn deserialize(input: &[u8], at: usize) -> (r: Result<(mountstat3, usize), DecodeError>)
        ensures
            match Self::parse(input@, at as int) {
                Some((v, end)) => r matches Ok(p) && p.0 == v && p.1 == end && end <= input@.len(),
                None => r is Err,
            },
    {
        let (c, end) = decode_u32(input, at)?;
        match Self::from_u32(c) {
            Some(v) => Ok((v, end)),
            None => Err(DecodeError {  }),
        }
    }
}

/// The result of a MNT that succeeded: the handle of the mounted directory
/// and the authentication flavors that the server takes.
#[derive(Clone, Debug, PartialEq, Eq)]
pub struct mountres3_ok {
    pub fhandle: fhandle3,
    pub auth_flavors: Vec<u32>,
}

/// What a [`mountres3_ok`] holds, as plain values.
pub struct mountres3_okView {
    pub fhandle: Seq<u8>,
    pub auth_flavors: Seq<u32>,
}

impl View for mountres3_ok {
    type V = mountres3_okView;

    open spec fn view(&self) -> mountres3_okView {
        mountres3_okView {
            fhandle: self.fhandle@,
            auth_flavors: self.auth_flavors@,
        }
    }
}

impl mountres3_ok {
    /// Every length in the value fits the 32 bits that the wire gives it.
    pub open spec fn encodable(v: mountres3_okView) -> bool {
        &&& opaque_encodable(v.fhandle)
        &&& u32_array_encodable(v.auth_flavors)
    }

    /// The fields one behind the other, in the order of their declaration.
    #[verifier::opaque]
    pub open spec fn wire(v: mountres3_okView) -> Seq<u8> {
        opaque_wire(v.fhandle) + u32_array_wire(v.auth_flavors)
    }

    /// What a decoder reads at the offset `at` of `s`, with the offset behind
    /// it; `None` where a field does not decode.
    #[verifier::opaque]
    pub open spec fn parse(s: Seq<u8>, at: int) -> Option<(mountres3_okView, int)> {
        match parse_opaque(s, at) {
            None => None,
            Some((fhandle, a1)) => match parse_u32_array(s, a1) {
                None => None,
                Some((auth_flavors, a2)) => Some((mountres3_okView { fhandle, auth_flavors }, a2)),
            },
        }
    }

    /// Round trip: wherever the encoding of `v` stands in a buffer, the
    /// decoder reads `v` there and stops right behind it.
    pub proof fn lemma_roundtrip(v: mountres3_okView, s: Seq<u8>, at: int)
        requires
            Self::encodable(v),
            holds_at(s, at, Self::wire(v)),
        ensures
            Self::parse(s, at) == Some((v, at + Self::wire(v).len())),
    {
        reveal(mountres3_ok::wire);
        reveal(mountres3_ok::parse);
        let w0 = opaque_wire(v.fhandle);
        let w1 = u32_array_wire(v.auth_flavors);
        lemma_holds_at_concat(s, at, w0, w1);
        lemma_roundtrip_opaque(v.fhandle, s, at);
        lemma_roundtrip_u32_array(v.auth_flavors, s, at + w0.len());
    }

    /// Whether the value has an encoding.
    pub fn fits(&self) -> (b: bool)
        ensures
            b == Self::encodable(self@),
    {
        opaque_fits(self.fhandle.as_slice()) && u32_array_fits(&self.auth_flavors)
    }

    /// Appends the encoding of the value to `out`.
    pub fn serialize(&self, out: &mut Vec<u8>)
        requires
            Self::encodable(self@),
        ensures
            final(out)@ == old(out)@ + Self::wire(self@),
    {
        proof {
            reveal(mountres3_ok::wire);
        }
        let ghost base = out@;
        encode_opaque(self.fhandle.as_slice(), out);
        encode_u32_array(&self.auth_flavors, out);
        proof {
            lemma_concat_assoc(
                base,
                opaque_wire(self.fhandle@),
                u32_array_wire(self.auth_flavors@),
            );
        }
    }

    /// Decodes a value at the offset `at` of `input`, and returns it with the
    /// offset behind it.
    pub fn deserialize(input: &[u8], at: usize) -> (r: Result<(mountres3_ok, usize), DecodeError>)
        ensures
            match Self::parse(input@, at as int) {
                Some((v, end)) => r matches Ok(p) && p.0@ == v && p.1 == end && end <= input@.len(),
                None => r is Err,
            },
    {
        proof {
            reveal(mountres3_ok::parse);
        }
        let (fhandle, at) = decode_opaque(input, at)?;
        let (auth_flavors, at) = decode_u32_array(input, at)?;
        Ok((mountres3_ok { fhandle, auth_flavors }, at))
    }
}

/// The procedures of the MOUNT program, by number. `INVALID` stands for every
/// number that names none.
#[derive(Copy, Clone, Debug, PartialEq, Eq, Structural)]
pub enum MountProgram {
    MOUNTPROC3_NULL,
    MOUNTPROC3_MNT,
    MOUNTPROC3_DUMP,
    MOUNTPROC3_UMNT,
    MOUNTPROC3_UMNTALL,
    MOUNTPROC3_EXPORT,
    INVALID,
}

impl MountProgram {
    /// The number that stands for the variant on the wire.
    pub open spec fn code(self) -> u32 {
        match self {
            MountProgram::MOUNTPROC3_NULL => 0,
            MountProgram::MOUNTPROC3_MNT => 1,
            MountProgram::MOUNTPROC3_DUMP => 2,
            MountProgram::MOUNTPROC3_UMNT => 3,
            MountProgram::MOUNTPROC3_UMNTALL => 4,
            MountProgram::MOUNTPROC3_EXPORT => 5,
            MountProgram::INVALID => 6,
        }
    }

    /// The variant that a number stands for, if any.
    pub open spec fn from_code(c: u32) -> Option<MountProgram> {
        if c == 0 {
            Some(MountProgram::MOUNTPROC3_NULL)
        } else if c == 1 {
            Some(MountProgram::MOUNTPROC3_MNT)
        } else if c == 2 {
            Some(MountProgram::MOUNTPROC3_DUMP)
        } else if c == 3 {
            Some(MountProgram::MOUNTPROC3_UMNT)
        } else if c == 4 {
            Some(MountProgram::MOUNTPROC3_UMNTALL)
        } else if c == 5 {
            Some(MountProgram::MOUNTPROC3_EXPORT)
        } else if c == 6 {
            Some(MountProgram::INVALID)
        } else {
            None
        }
    }

    /// Every variant is found again from its number.
    pub proof fn lemma_code_roundtrip(self)
        ensures
            Self::from_code(self.code()) == Some(self),
    {
    }

    /// The number that stands for the variant on the wire.
    pub fn to_u32(self) -> (c: u32)
        ensures
            c == self.code(),
    {
        match self {
            MountProgram::MOUNTPROC3_NULL => 0,
            MountProgram::MOUNTPROC3_MNT => 1,
            MountProgram::MOUNTPROC3_DUMP => 2,
            MountProgram::MOUNTPROC3_UMNT => 3,
            MountProgram::MOUNTPROC3_UMNTALL => 4,
            MountProgram::MOUNTPROC3_EXPORT => 5,
            MountProgram::INVALID => 6,
        }
    }

    /// The variant that a number stands for, if any.
    pub fn from_u32(c: u32) -> (r: Option<MountProgram>)
        ensures
            r == Self::from_code(c),
    {
        if c == 0 {
            Some(MountProgram::MOUNTPROC3_NULL)
        } else if c == 1 {
            Some(MountProgram::MOUNTPROC3_MNT)
        } else if c == 2 {
            Some(MountProgram::MOUNTPROC3_DUMP)
        } else if c == 3 {
            Some(MountProgram::MOUNTPROC3_UMNT)
        } else if c == 4 {
            Some(MountProgram::MOUNTPROC3_UMNTALL)
        } else if c == 5 {
            Some(MountProgram::MOUNTPROC3_EXPORT)
        } else if c == 6 {
            Some(MountProgram::INVALID)
        } else {
            None
        }
    }

    /// The number of the variant, as 32 bits.
    pub open spec fn wire(v: MountProgram) -> Seq<u8> {
        u32_wire(v.code())
    }

    /// A number that names no variant does not decode.
    pub open spec fn parse(s: Seq<u8>, at: int) -> Option<(MountProgram, int)> {
        match parse_u32(s, at) {
            None => None,
            Some((c, end)) => match Self::from_code(c) {
                None => None,
                Some(v) => Some((v, end)),
            },
        }
    }

    /// Round trip: wherever the encoding of `v` stands in a buffer, the
    /// decoder reads `v` there and stops right behind it.
    pub proof fn lemma_roundtrip(v: MountProgram, s: Seq<u8>, at: int)
        requires
            holds_at(s, at, Self::wire(v)),
        ensures
            Self::parse(s, at) == Some((v, at + Self::wire(v).len())),
    {
        lemma_roundtrip_u32(v.code(), s, at);
    }

    /// Appends the encoding of the value to `out`.
    pub fn serialize(&self, out: &mut Vec<u8>)
        ensures
            final(out)@ == old(out)@ + Self::wire(*self),
    {
        encode_u32(self.to_u32(), out);
    }

    /// Decodes a value at the offset `at` of `input`, and returns it with the
    /// offset behind it.
    pub fn deserialize(input: &[u8], at: usize) -> (r: Result<(MountProgram, usize), DecodeError>)
        ensures
            match Self::parse(input@, at as int) {
                Some((v, end)) => r matches Ok(p) && p.0 == v && p.1 == end && end <= input@.len(),
                None => r is Err,
            },
    {
        let (c, end) = decode_u32(input, at)?;
        match Self::from_u32(c) {
            Some(v) => Ok((v, end)),
            None => Err(DecodeError {  }),
        }
    }
}

} // verus!
