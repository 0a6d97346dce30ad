//! The data types of the port mapper, version 2 (RFC 1057, appendix A).
#![allow(non_camel_case_types)]

use crate::protocol::xdr::{
    decode_u32, encode_u32, holds_at, lemma_concat_assoc, lemma_holds_at_concat,
    lemma_roundtrip_u32, parse_u32, u32_wire, DecodeError,
};
use vstd::prelude::*;

verus! {

/// A program, its version and transport protocol, and the port where it
/// listens.
#[derive(Copy, Clone, Debug, PartialEq, Eq)]
pub struct mapping {
    pub prog: u32,
    pub vers: u32,
    pub prot: u32,
    pub port: u32,
}

impl mapping {
    /// The fields one behind the other, in the order of their declaration.
    #[verifier::opaque]
    pub open spec fn wire(v: mapping) -> Seq<u8> {
        u32_wire(v.prog) + u32_wire(v.vers) + u32_wire(v.prot) + u32_wire(v.port)
    }

    /// What a decoder reads at the offset `at` of `s`, with the offset behind
    /// it; `None` where a field does not decode.
    #[verifier::opaque]
    pub open spec fn parse(s: Seq<u8>, at: int) -> Option<(mapping, int)> {
        match parse_u32(s, at) {
            None => None,
            Some((prog, a1)) => match parse_u32(s, a1) {
                None => None,
                Some((vers, a2)) => match parse_u32(s, a2) {
                    None => None,
                    Some((prot, a3)) => match parse_u32(s, a3) {
                        None => None,
                        Some((port, a4)) => Some((mapping { prog, vers, prot, port }, a4)),
                    },
                },
            },
        }
    }

    /// Round trip: wherever the encoding of `v` stands in a buffer, the
    /// decoder reads `v` there and stops right behind it.
    pub proof fn lemma_roundtrip(v: mapping, s: Seq<u8>, at: int)
        requires
            holds_at(s, at, Self::wire(v)),
        ensures
            Self::parse(s, at) == Some((v, at + Self::wire(v).len())),
    {
        reveal(mapping::wire);
        reveal(mapping::parse);
        let w0 = u32_wire(v.prog);
        let w1 = u32_wire(v.vers);
        let w2 = u32_wire(v.prot);
        let w3 = u32_wire(v.port);
        let p1 = w0 + w1;
        let p2 = p1 + w2;
        lemma_holds_at_concat(s, at, p2, w3);
        lemma_holds_at_concat(s, at, p1, w2);
        lemma_holds_at_concat(s, at, w0, w1);
        lemma_roundtrip_u32(v.prog, s, at);
        lemma_roundtrip_u32(v.vers, s, at + w0.len());
        lemma_roundtrip_u32(v.prot, s, at + p1.len());
        lemma_roundtrip_u32(v.port, s, at + p2.len());
    }

    /// Appends the encoding of the value to `out`.
    pub fn serialize(&self, out: &mut Vec<u8>)
        ensures
            final(out)@ == old(out)@ + Self::wire(*self),
    {
        proof {
            reveal(mapping::wire);
        }
        let ghost base = out@;
        encode_u32(self.prog, out);
        encode_u32(self.vers, out);
        proof {
            lemma_concat_assoc(base, u32_wire(self.prog), u32_wire(self.vers));
        }
        encode_u32(self.prot, out);
        proof {
            lemma_concat_assoc(
                base,
                u32_wire(self.prog) + u32_wire(self.vers),
                u32_wire(self.prot),
            );
        }
        encode_u32(self.port, out);
        proof {
            lemma_concat_assoc(
                base,
                u32_wire(self.prog) + u32_wire(self.vers) + u32_wire(self.prot),
                u32_wire(self.port),
            );
        }
    }

    /// Decodes a value at the offset `at` of `input`, and returns it with the
    /// offset behind it.
    pub fn deserialize(input: &[u8], at: usize) -> (r: Result<(mapping, usize), DecodeError>)
        ensures
            match Self::parse(input@, at as int) {
                Some((v, end)) => r matches Ok(p) && p.0 == v && p.1 == end && end <= input@.len(),
                None => r is Err,
            },
    {
        proof {
            reveal(mapping::parse);
        }
        let (prog, at) = decode_u32(input, at)?;
        let (vers, at) = decode_u32(input, at)?;
        let (prot, at) = decode_u32(input, at)?;
        let (port, at) = decode_u32(input, at)?;
        Ok((mapping { prog, vers, prot, port }, at))
    }
}

impl mapping {
    /// The value with every number zero, every list empty and every choice
    /// at its first arm.
    pub open spec fn zero() -> mapping {
        mapping {
            prog: 0,
            vers: 0,
            prot: 0,
            port: 0,
        }
    }
}

impl Default for mapping {
    fn default() -> (r: Self)
        ensures
            r == Self::zero(),
    {
        mapping {
            prog: 0,
            vers: 0,
            prot: 0,
            port: 0,
        }
    }
}

/// The protocol number of TCP.
pub const IPPROTO_TCP: u32 = 6;

/// The protocol number of UDP.
pub const IPPROTO_UDP: u32 = 17;

/// The RPC program number of the port mapper.
pub const PROGRAM: u32 = 100000;

/// The version of the port mapper that is served.
pub const VERSION: u32 = 2;

/// The procedures of the port mapper, by number. `INVALID` stands for every
/// number that names none.
#[derive(Copy, Clone, Debug, PartialEq, Eq, Structural)]
pub enum PortmapProgram {
    PMAPPROC_NULL,
    PMAPPROC_SET,
    PMAPPROC_UNSET,
    PMAPPROC_GETPORT,
    PMAPPROC_DUMP,
    PMAPPROC_CALLIT,
    INVALID,
}

impl PortmapProgram {
    /// The number that stands for the variant on the wire.
    pub open spec fn code(self) -> u32 {
        match self {
            PortmapProgram::PMAPPROC_NULL => 0,
            PortmapProgram::PMAPPROC_SET => 1,
            PortmapProgram::PMAPPROC_UNSET => 2,
            PortmapProgram::PMAPPROC_GETPORT => 3,
            PortmapProgram::PMAPPROC_DUMP => 4,
            PortmapProgram::PMAPPROC_CALLIT => 5,
            PortmapProgram::INVALID => 6,
        }
    }

    /// The variant that a number stands for, if any.
    pub open spec fn from_code(c: u32) -> Option<PortmapProgram> {
        if c == 0 {
            Some(PortmapProgram::PMAPPROC_NULL)
        } else if c == 1 {
            Some(PortmapProgram::PMAPPROC_SET)
        } else if c == 2 {
            Some(PortmapProgram::PMAPPROC_UNSET)
        } else if c == 3 {
            Some(PortmapProgram::PMAPPROC_GETPORT)
        } else if c == 4 {
            Some(PortmapProgram::PMAPPROC_DUMP)
        } else if c == 5 {
            Some(PortmapProgram::PMAPPROC_CALLIT)
        } else if c == 6 {
            Some(PortmapProgram::INVALID)
        } else {
            None
        }
    }

    /// Every variant is found again from its number.
    pub proof fn lemma_code_roundtrip(self)
        ensures
            Self::from_code(self.code()) == Some(self),
    {
    }

    /// The number that stands for the variant on the wire.
    pub fn to_u32(self) -> (c: u32)
        ensures
            c == self.code(),
    {
        match self {
            PortmapProgram::PMAPPROC_NULL => 0,
            PortmapProgram::PMAPPROC_SET => 1,
            PortmapProgram::PMAPPROC_UNSET => 2,
            PortmapProgram::PMAPPROC_GETPORT => 3,
            PortmapProgram::PMAPPROC_DUMP => 4,
            PortmapProgram::PMAPPROC_CALLIT => 5,
            PortmapProgram::INVALID => 6,
        }
    }

    /// The variant that a number stands for, if any.
    pub fn from_u32(c: u32) -> (r: Option<PortmapProgram>)
        ensures
            r == Self::from_code(c),
    {
        if c == 0 {
            Some(PortmapProgram::PMAPPROC_NULL)
        } else if c == 1 {
            Some(PortmapProgram::PMAPPROC_SET)
        } else if c == 2 {
            Some(PortmapProgram::PMAPPROC_UNSET)
        } else if c == 3 {
            Some(PortmapProgram::PMAPPROC_GETPORT)
        } else if c == 4 {
            Some(PortmapProgram::PMAPPROC_DUMP)
        } else if c == 5 {
            Some(PortmapProgram::PMAPPROC_CALLIT)
        } else if c == 6 {
            Some(PortmapProgram::INVALID)
        } else {
            None
        }
    }
}

} // verus!
