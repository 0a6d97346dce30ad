//! The results of the file-system procedures of NFS version 3.
#![allow(non_camel_case_types)]

use crate::protocol::xdr::nfs3::{
    nfstime3, post_op_attr, size3,
};
use crate::protocol::xdr::{
    bool_wire, decode_bool, decode_u32, decode_u64, encode_bool, encode_u32, encode_u64, holds_at,
    lemma_concat_assoc, lemma_holds_at_concat, lemma_roundtrip_bool, lemma_roundtrip_u32,
    lemma_roundtrip_u64, parse_bool, parse_u32, parse_u64, u32_wire, u64_wire, DecodeError,
};
use vstd::prelude::*;

verus! {

/// The file system supports hard links.
pub const FSF_LINK: u32 = 0x0001;

/// The file system supports symbolic links.
pub const FSF_SYMLINK: u32 = 0x0002;

/// What PATHCONF reports is the same for every file and directory of the
/// file system.
pub const FSF_HOMOGENEOUS: u32 = 0x0008;

/// The server sets the times of a file through SETATTR, to the accuracy
/// that `time_delta` gives.
pub const FSF_CANSETTIME: u32 = 0x0010;

/// The result of an FSINFO that succeeded: what does not change about the
/// file system.
#[derive(Copy, Clone, Debug, PartialEq, Eq)]
pub struct fsinfo3 {
    pub obj_attributes: post_op_attr,
    pub rtmax: u32,
    pub rtpref: u32,
    pub rtmult: u32,
    pub wtmax: u32,
    pub wtpref: u32,
    pub wtmult: u32,
    pub dtpref: u32,
    pub maxfilesize: size3,
    pub time_delta: nfstime3,
    pub properties: u32,
}

impl fsinfo3 {
    /// The fields one behind the other, in the order of their declaration.
    #[verifier::opaque]
    pub open spec fn wire(v: fsinfo3) -> Seq<u8> {
        post_op_attr::wire(v.obj_attributes) + u32_wire(v.rtmax) + u32_wire(v.rtpref)
            + u32_wire(v.rtmult) + u32_wire(v.wtmax) + u32_wire(v.wtpref) + u32_wire(v.wtmult)
            + u32_wire(v.dtpref) + u64_wire(v.maxfilesize) + nfstime3::wire(v.time_delta)
            + u32_wire(v.properties)
    }

    /// What a decoder reads at the offset `at` of `s`, with the offset behind
    /// it; `None` where a field does not decode.
    #[verifier::opaque]
    pub open spec fn parse(s: Seq<u8>, at: int) -> Option<(fsinfo3, int)> {
        match post_op_attr::parse(s, at) {
            None => None,
            Some((obj_attributes, a1)) => match parse_u32(s, a1) {
                None => None,
                Some((rtmax, a2)) => match parse_u32(s, a2) {
                    None => None,
                    Some((rtpref, a3)) => match parse_u32(s, a3) {
                        None => None,
                        Some((rtmult, a4)) => match parse_u32(s, a4) {
                            None => None,
                            Some((wtmax, a5)) => match parse_u32(s, a5) {
                                None => None,
                                Some((wtpref, a6)) => match parse_u32(s, a6) {
                                    None => None,
                                    Some((wtmult, a7)) => match parse_u32(s, a7) {
                                        None => None,
                                        Some((dtpref, a8)) => match parse_u64(s, a8) {
                                            None => None,
                                            Some((maxfilesize, a9)) => match nfstime3::parse(s, a9) {
                                                None => None,
                                                Some((time_delta, a10)) => match parse_u32(s, a10) {
                                                    None => None,
                                                    Some((properties, a11)) => Some(
                                                        (
                                                            fsinfo3 {
                                                                obj_attributes,
                                                                rtmax,
                                                                rtpref,
                                                                rtmult,
                                                                wtmax,
                                                                wtpref,
                                                                wtmult,
                                                                dtpref,
                                                                maxfilesize,
                                                                time_delta,
                                                                properties,
                                                            },
                                                            a11,
                                                        ),
                                                    ),
                                                },
                                            },
                                        },
                                    },
                                },
                            },
                        },
                    },
                },
            },
        }
    }

    /// Round trip: wherever the encoding of `v` stands in a buffer, the
    /// decoder reads `v` there and stops right behind it.
    pub proof fn lemma_roundtrip(v: fsinfo3, s: Seq<u8>, at: int)
        requires
            holds_at(s, at, Self::wire(v)),
        ensures
            Self::parse(s, at) == Some((v, at + Self::wire(v).len())),
    {
        reveal(fsinfo3::wire);
        reveal(fsinfo3::parse);
        let w0 = post_op_attr::wire(v.obj_attributes);
        let w1 = u32_wire(v.rtmax);
        let w2 = u32_wire(v.rtpref);
        let w3 = u32_wire(v.rtmult);
        let w4 = u32_wire(v.wtmax);
        let w5 = u32_wire(v.wtpref);
        let w6 = u32_wire(v.wtmult);
        let w7 = u32_wire(v.dtpref);
        let w8 = u64_wire(v.maxfilesize);
        let w9 = nfstime3::wire(v.time_delta);
        let w10 = u32_wire(v.properties);
        let p1 = w0 + w1;
        let p2 = p1 + w2;
        let p3 = p2 + w3;
        let p4 = p3 + w4;
        let p5 = p4 + w5;
        let p6 = p5 + w6;
        let p7 = p6 + w7;
        let p8 = p7 + w8;
        let p9 = p8 + w9;
        lemma_holds_at_concat(s, at, p9, w10);
        lemma_holds_at_concat(s, at, p8, w9);
        lemma_holds_at_concat(s, at, p7, w8);
        lemma_holds_at_concat(s, at, p6, w7);
        lemma_holds_at_concat(s, at, p5, w6);
        lemma_holds_at_concat(s, at, p4, w5);
        lemma_holds_at_concat(s, at, p3, w4);
        lemma_holds_at_concat(s, at, p2, w3);
        lemma_holds_at_concat(s, at, p1, w2);
        lemma_holds_at_concat(s, at, w0, w1);
        post_op_attr::lemma_roundtrip(v.obj_attributes, s, at);
        lemma_roundtrip_u32(v.rtmax, s, at + w0.len());
        lemma_roundtrip_u32(v.rtpref, s, at + p1.len());
        lemma_roundtrip_u32(v.rtmult, s, at + p2.len());
        lemma_roundtrip_u32(v.wtmax, s, at + p3.len());
        lemma_roundtrip_u32(v.wtpref, s, at + p4.len());
        lemma_roundtrip_u32(v.wtmult, s, at + p5.len());
        lemma_roundtrip_u32(v.dtpref, s, at + p6.len());
        lemma_roundtrip_u64(v.maxfilesize, s, at + p7.len());
        nfstime3::lemma_roundtrip(v.time_delta, s, at + p8.len());
        lemma_roundtrip_u32(v.properties, s, at + p9.len());
    }

    /// Appends the encoding of the value to `out`.
    pub fn serialize(&self, out: &mut Vec<u8>)
        ensures
            final(out)@ == old(out)@ + Self::wire(*self),
    {
        proof {
            reveal(fsinfo3::wire);
        }
        let ghost base = out@;
        self.obj_attributes.serialize(out);
        encode_u32(self.rtmax, out);
        proof {
            lemma_concat_assoc(base, post_op_attr::wire(self.obj_attributes), u32_wire(self.rtmax));
        }
        encode_u32(self.rtpref, out);
        proof {
            lemma_concat_assoc(
                base,
                post_op_attr::wire(self.obj_attributes) + u32_wire(self.rtmax),
                u32_wire(self.rtpref),
            );
        }
        encode_u32(self.rtmult, out);
        proof {
            lemma_concat_assoc(
                base,
                post_op_attr::wire(self.obj_attributes) + u32_wire(self.rtmax)
                    + u32_wire(self.rtpref),
                u32_wire(self.rtmult),
            );
        }
        encode_u32(self.wtmax, out);
        proof {
            lemma_concat_assoc(
                base,
                post_op_attr::wire(self.obj_attributes) + u32_wire(self.rtmax)
                    + u32_wire(self.rtpref) + u32_wire(self.rtmult),
                u32_wire(self.wtmax),
            );
        }
        encode_u32(self.wtpref, out);
        proof {
            lemma_concat_assoc(
                base,
                post_op_attr::wire(self.obj_attributes) + u32_wire(self.rtmax)
                    + u32_wire(self.rtpref) + u32_wire(self.rtmult) + u32_wire(self.wtmax),
                u32_wire(self.wtpref),
            );
        }
        encode_u32(self.wtmult, out);
        proof {
            lemma_concat_assoc(
                base,
                post_op_attr::wire(self.obj_attributes) + u32_wire(self.rtmax)
                    + u32_wire(self.rtpref) + u32_wire(self.rtmult) + u32_wire(self.wtmax)
                    + u32_wire(self.wtpref),
                u32_wire(self.wtmult),
            );
        }
        encode_u32(self.dtpref, out);
        proof {
            lemma_concat_assoc(
                base,
                post_op_attr::wire(self.obj_attributes) + u32_wire(self.rtmax)
                    + u32_wire(self.rtpref) + u32_wire(self.rtmult) + u32_wire(self.wtmax)
                    + u32_wire(self.wtpref) + u32_wire(self.wtmult),
                u32_wire(self.dtpref),
            );
        }
        encode_u64(self.maxfilesize, out);
        proof {
            lemma_concat_assoc(
                base,
                post_op_attr::wire(self.obj_attributes) + u32_wire(self.rtmax)
                    + u32_wire(self.rtpref) + u32_wire(self.rtmult) + u32_wire(self.wtmax)
                    + u32_wire(self.wtpref) + u32_wire(self.wtmult) + u32_wire(self.dtpref),
                u64_wire(self.maxfilesize),
            );
        }
        self.time_delta.serialize(out);
        proof {
            lemma_concat_assoc(
                base,
                post_op_attr::wire(self.obj_attributes) + u32_wire(self.rtmax)
                    + u32_wire(self.rtpref) + u32_wire(self.rtmult) + u32_wire(self.wtmax)
                    + u32_wire(self.wtpref) + u32_wire(self.wtmult) + u32_wire(self.dtpref)
                    + u64_wire(self.maxfilesize),
                nfstime3::wire(self.time_delta),
            );
        }
        encode_u32(self.properties, out);
        proof {
            lemma_concat_assoc(
                base,
                post_op_attr::wire(self.obj_attributes) + u32_wire(self.rtmax)
                    + u32_wire(self.rtpref) + u32_wire(self.rtmult) + u32_wire(self.wtmax)
                    + u32_wire(self.wtpref) + u32_wire(self.wtmult) + u32_wire(self.dtpref)
                    + u64_wire(self.maxfilesize) + nfstime3::wire(self.time_delta),
                u32_wire(self.properties),
            );
        }
    }

    /// Decodes a value at the offset `at` of `input`, and returns it with the
    /// offset behind it.
    pub fn deserialize(input: &[u8], at: usize) -> (r: Result<(fsinfo3, usize), DecodeError>)
        ensures
            match Self::parse(input@, at as int) {
                Some((v, end)) => r matches Ok(p) && p.0 == v && p.1 == end && end <= input@.len(),
                None => r is Err,
            },
    {
        proof {
            reveal(fsinfo3::parse);
        }
        let (obj_attributes, at) = post_op_attr::deserialize(input, at)?;
        let (rtmax, at) = decode_u32(input, at)?;
        let (rtpref, at) = decode_u32(input, at)?;
        let (rtmult, at) = decode_u32(input, at)?;
        let (wtmax, at) = decode_u32(input, at)?;
        let (wtpref, at) = decode_u32(input, at)?;
        let (wtmult, at) = decode_u32(input, at)?;
        let (dtpref, at) = decode_u32(input, at)?;
        let (maxfilesize, at) = decode_u64(input, at)?;
        let (time_delta, at) = nfstime3::deserialize(input, at)?;
        let (properties, at) = decode_u32(input, at)?;
        Ok(
            (
                fsinfo3 {
                    obj_attributes,
                    rtmax,
                    rtpref,
                    rtmult,
                    wtmax,
                    wtpref,
                    wtmult,
                    dtpref,
                    maxfilesize,
                    time_delta,
                    properties,
                },
                at,
            ),
        )
    }
}

impl fsinfo3 {
    /// The value with every number zero, every list empty and every choice
    /// at its first arm.
    pub open spec fn zero() -> fsinfo3 {
        fsinfo3 {
            obj_attributes: post_op_attr::Void,
            rtmax: 0,
            rtpref: 0,
            rtmult: 0,
            wtmax: 0,
            wtpref: 0,
            wtmult: 0,
            dtpref: 0,
            maxfilesize: 0,
            time_delta: nfstime3::zero(),
            properties: 0,
        }
    }
}

impl Default for fsinfo3 {
    fn default() -> (r: Self)
        ensures
            r == Self::zero(),
    {
        fsinfo3 {
            obj_attributes: post_op_attr::default(),
            rtmax: 0,
            rtpref: 0,
            rtmult: 0,
            wtmax: 0,
            wtpref: 0,
            wtmult: 0,
            dtpref: 0,
            maxfilesize: 0,
            time_delta: nfstime3::default(),
            properties: 0,
        }
    }
}

/// The result of an FSSTAT that succeeded: how full the file system is.
#[derive(Copy, Clone, Debug, PartialEq, Eq)]
pub struct FSSTAT3resok {
    pub obj_attributes: post_op_attr,
    pub tbytes: size3,
    pub fbytes: size3,
    pub abytes: size3,
    pub tfiles: size3,
    pub ffiles: size3,
    pub afiles: size3,
    pub invarsec: u32,
}

impl FSSTAT3resok {
    /// The fields one behind the other, in the order of their declaration.
    #[verifier::opaque]
    pub open spec fn wire(v: FSSTAT3resok) -> Seq<u8> {
        post_op_attr::wire(v.obj_attributes) + u64_wire(v.tbytes) + u64_wire(v.fbytes)
            + u64_wire(v.abytes) + u64_wire(v.tfiles) + u64_wire(v.ffiles) + u64_wire(v.afiles)
            + u32_wire(v.invarsec)
    }

    /// What a decoder reads at the offset `at` of `s`, with the offset behind
    /// it; `None` where a field does not decode.
    #[verifier::opaque]
    pub open spec fn parse(s: Seq<u8>, at: int) -> Option<(FSSTAT3resok, int)> {
        match post_op_attr::parse(s, at) {
            None => None,
            Some((obj_attributes, a1)) => match parse_u64(s, a1) {
                None => None,
                Some((tbytes, a2)) => match parse_u64(s, a2) {
                    None => None,
                    Some((fbytes, a3)) => match parse_u64(s, a3) {
                        None => None,
                        Some((abytes, a4)) => match parse_u64(s, a4) {
                            None => None,
                            Some((tfiles, a5)) => match parse_u64(s, a5) {
                                None => None,
                                Some((ffiles, a6)) => match parse_u64(s, a6) {
                                    None => None,
                                    Some((afiles, a7)) => match parse_u32(s, a7) {
                                        None => None,
                                        Some((invarsec, a8)) => Some(
                                            (
                                                FSSTAT3resok {
                                                    obj_attributes,
                                                    tbytes,
                                                    fbytes,
                                                    abytes,
                                                    tfiles,
                                                    ffiles,
                                                    afiles,
                                                    invarsec,
                                                },
                                                a8,
                                            ),
                                        ),
                                    },
                                },
                            },
                        },
                    },
                },
            },
        }
    }

    /// Round trip: wherever the encoding of `v` stands in a buffer, the
    /// decoder reads `v` there and stops right behind it.
    pub proof fn lemma_roundtrip(v: FSSTAT3resok, s: Seq<u8>, at: int)
        requires
            holds_at(s, at, Self::wire(v)),
        ensures
            Self::parse(s, at) == Some((v, at + Self::wire(v).len())),
    {
        reveal(FSSTAT3resok::wire);
        reveal(FSSTAT3resok::parse);
        let w0 = post_op_attr::wire(v.obj_attributes);
        let w1 = u64_wire(v.tbytes);
        let w2 = u64_wire(v.fbytes);
        let w3 = u64_wire(v.abytes);
        let w4 = u64_wire(v.tfiles);
        let w5 = u64_wire(v.ffiles);
        let w6 = u64_wire(v.afiles);
        let w7 = u32_wire(v.invarsec);
        let p1 = w0 + w1;
        let p2 = p1 + w2;
        let p3 = p2 + w3;
        let p4 = p3 + w4;
        let p5 = p4 + w5;
        let p6 = p5 + w6;
        lemma_holds_at_concat(s, at, p6, w7);
        lemma_holds_at_concat(s, at, p5, w6);
        lemma_holds_at_concat(s, at, p4, w5);
        lemma_holds_at_concat(s, at, p3, w4);
        lemma_holds_at_concat(s, at, p2, w3);
        lemma_holds_at_concat(s, at, p1, w2);
        lemma_holds_at_concat(s, at, w0, w1);
        post_op_attr::lemma_roundtrip(v.obj_attributes, s, at);
        lemma_roundtrip_u64(v.tbytes, s, at + w0.len());
        lemma_roundtrip_u64(v.fbytes, s, at + p1.len());
        lemma_roundtrip_u64(v.abytes, s, at + p2.len());
        lemma_roundtrip_u64(v.tfiles, s, at + p3.len());
        lemma_roundtrip_u64(v.ffiles, s, at + p4.len());
        lemma_roundtrip_u64(v.afiles, s, at + p5.len());
        lemma_roundtrip_u32(v.invarsec, s, at + p6.len());
    }

    /// Appends the encoding of the value to `out`.
    pub fn serialize(&self, out: &mut Vec<u8>)
        ensures
            final(out)@ == old(out)@ + Self::wire(*self),
    {
        proof {
            reveal(FSSTAT3resok::wire);
        }
        let ghost base = out@;
        self.obj_attributes.serialize(out);
        encode_u64(self.tbytes, out);
        proof {
            lemma_concat_assoc(
                base,
                post_op_attr::wire(self.obj_attributes),
                u64_wire(self.tbytes),
            );
        }
        encode_u64(self.fbytes, out);
        proof {
            lemma_concat_assoc(
                base,
                post_op_attr::wire(self.obj_attributes) + u64_wire(self.tbytes),
                u64_wire(self.fbytes),
            );
        }
        encode_u64(self.abytes, out);
        proof {
            lemma_concat_assoc(
                base,
                post_op_attr::wire(self.obj_attributes) + u64_wire(self.tbytes)
                    + u64_wire(self.fbytes),
                u64_wire(self.abytes),
            );
        }
        encode_u64(self.tfiles, out);
        proof {
            lemma_concat_assoc(
                base,
                post_op_attr::wire(self.obj_attributes) + u64_wire(self.tbytes)
                    + u64_wire(self.fbytes) + u64_wire(self.abytes),
                u64_wire(self.tfiles),
            );
        }
        encode_u64(self.ffiles, out);
        proof {
            lemma_concat_assoc(
                base,
                post_op_attr::wire(self.obj_attributes) + u64_wire(self.tbytes)
                    + u64_wire(self.fbytes) + u64_wire(self.abytes) + u64_wire(self.tfiles),
                u64_wire(self.ffiles),
            );
        }
        encode_u64(self.afiles, out);
        proof {
            lemma_concat_assoc(
                base,
                post_op_attr::wire(self.obj_attributes) + u64_wire(self.tbytes)
                    + u64_wire(self.fbytes) + u64_wire(self.abytes) + u64_wire(self.tfiles)
                    + u64_wire(self.ffiles),
                u64_wire(self.afiles),
            );
        }
        encode_u32(self.invarsec, out);
        proof {
            lemma_concat_assoc(
                base,
                post_op_attr::wire(self.obj_attributes) + u64_wire(self.tbytes)
                    + u64_wire(self.fbytes) + u64_wire(self.abytes) + u64_wire(self.tfiles)
                    + u64_wire(self.ffiles) + u64_wire(self.afiles),
                u32_wire(self.invarsec),
            );
        }
    }

    /// Decodes a value at the offset `at` of `input`, and returns it with the
    /// offset behind it.
    pub fn deserialize(input: &[u8], at: usize) -> (r: Result<(FSSTAT3resok, usize), DecodeError>)
        ensures
            match Self::parse(input@, at as int) {
                Some((v, end)) => r matches Ok(p) && p.0 == v && p.1 == end && end <= input@.len(),
                None => r is Err,
            },
    {
        proof {
            reveal(FSSTAT3resok::parse);
        }
        let (obj_attributes, at) = post_op_attr::deserialize(input, at)?;
        let (tbytes, at) = decode_u64(input, at)?;
        let (fbytes, at) = decode_u64(input, at)?;
        let (abytes, at) = decode_u64(input, at)?;
        let (tfiles, at) = decode_u64(input, at)?;
        let (ffiles, at) = decode_u64(input, at)?;
        let (afiles, at) = decode_u64(input, at)?;
        let (invarsec, at) = decode_u32(input, at)?;
        Ok(
            (
                FSSTAT3resok {
                    obj_attributes,
                    tbytes,
                    fbytes,
                    abytes,
                    tfiles,
                    ffiles,
                    afiles,
                    invarsec,
                },
                at,
            ),
        )
    }
}

impl FSSTAT3resok {
    /// The value with every number zero, every list empty and every choice
    /// at its first arm.
    pub open spec fn zero() -> FSSTAT3resok {
        FSSTAT3resok {
            obj_attributes: post_op_attr::Void,
            tbytes: 0,
            fbytes: 0,
            abytes: 0,
            tfiles: 0,
            ffiles: 0,
            afiles: 0,
            invarsec: 0,
        }
    }
}

impl Default for FSSTAT3resok {
    fn default() -> (r: Self)
        ensures
            r == Self::zero(),
    {
        FSSTAT3resok {
            obj_attributes: post_op_attr::default(),
            tbytes: 0,
            fbytes: 0,
            abytes: 0,
            tfiles: 0,
            ffiles: 0,
            afiles: 0,
            invarsec: 0,
        }
    }
}

/// The result of a PATHCONF that succeeded.
#[derive(Copy, Clone, Debug, PartialEq, Eq)]
pub struct PATHCONF3resok {
    pub obj_attributes: post_op_attr,
    pub linkmax: u32,
    pub name_max: u32,
    pub no_trunc: bool,
    pub chown_restricted: bool,
    pub case_insensitive: bool,
    pub case_preserving: bool,
}

impl PATHCONF3resok {
    /// The fields one behind the other, in the order of their declaration.
    #[verifier::opaque]
    pub open spec fn wire(v: PATHCONF3resok) -> Seq<u8> {
        post_op_attr::wire(v.obj_attributes) + u32_wire(v.linkmax) + u32_wire(v.name_max)
            + bool_wire(v.no_trunc) + bool_wire(v.chown_restricted)
            + bool_wire(v.case_insensitive) + bool_wire(v.case_preserving)
    }

    /// What a decoder reads at the offset `at` of `s`, with the offset behind
    /// it; `None` where a field does not decode.
    #[verifier::opaque]
    pub open spec fn parse(s: Seq<u8>, at: int) -> Option<(PATHCONF3resok, int)> {
        match post_op_attr::parse(s, at) {
            None => None,
            Some((obj_attributes, a1)) => match parse_u32(s, a1) {
                None => None,
                Some((linkmax, a2)) => match parse_u32(s, a2) {
                    None => None,
                    Some((name_max, a3)) => match parse_bool(s, a3) {
                        None => None,
                        Some((no_trunc, a4)) => match parse_bool(s, a4) {
                            None => None,
                            Some((chown_restricted, a5)) => match parse_bool(s, a5) {
                                None => None,
                                Some((case_insensitive, a6)) => match parse_bool(s, a6) {
                                    None => None,
                                    Some((case_preserving, a7)) => Some(
                                        (
                                            PATHCONF3resok {
                                                obj_attributes,
                                                linkmax,
                                                name_max,
                                                no_trunc,
                                                chown_restricted,
                                                case_insensitive,
                                                case_preserving,
                                            },
                                            a7,
                                        ),
                                    ),
                                },
                            },
                        },
                    },
                },
            },
        }
    }

    /// Round trip: wherever the encoding of `v` stands in a buffer, the
    /// decoder reads `v` there and stops right behind it.
    pub proof fn lemma_roundtrip(v: PATHCONF3resok, s: Seq<u8>, at: int)
        requires
            holds_at(s, at, Self::wire(v)),
        ensures
            Self::parse(s, at) == Some((v, at + Self::wire(v).len())),
    {
        reveal(PATHCONF3resok::wire);
        reveal(PATHCONF3resok::parse);
        let w0 = post_op_attr::wire(v.obj_attributes);
        let w1 = u32_wire(v.linkmax);
        let w2 = u32_wire(v.name_max);
        let w3 = bool_wire(v.no_trunc);
        let w4 = bool_wire(v.chown_restricted);
        let w5 = bool_wire(v.case_insensitive);
        let w6 = bool_wire(v.case_preserving);
        let p1 = w0 + w1;
        let p2 = p1 + w2;
        let p3 = p2 + w3;
        let p4 = p3 + w4;
        let p5 = p4 + w5;
        lemma_holds_at_concat(s, at, p5, w6);
        lemma_holds_at_concat(s, at, p4, w5);
        lemma_holds_at_concat(s, at, p3, w4);
        lemma_holds_at_concat(s, at, p2, w3);
        lemma_holds_at_concat(s, at, p1, w2);
        lemma_holds_at_concat(s, at, w0, w1);
        post_op_attr::lemma_roundtrip(v.obj_attributes, s, at);
        lemma_roundtrip_u32(v.linkmax, s, at + w0.len());
        lemma_roundtrip_u32(v.name_max, s, at + p1.len());
        lemma_roundtrip_bool(v.no_trunc, s, at + p2.len());
        lemma_roundtrip_bool(v.chown_restricted, s, at + p3.len());
        lemma_roundtrip_bool(v.case_insensitive, s, at + p4.len());
        lemma_roundtrip_bool(v.case_preserving, s, at + p5.len());
    }

    /// Appends the encoding of the value to `out`.
    pub fn serialize(&self, out: &mut Vec<u8>)
        ensures
            final(out)@ == old(out)@ + Self::wire(*self),
    {
        proof {
            reveal(PATHCONF3resok::wire);
        }
        let ghost base = out@;
        self.obj_attributes.serialize(out);
        encode_u32(self.linkmax, out);
        proof {
            lemma_concat_assoc(
                base,
                post_op_attr::wire(self.obj_attributes),
                u32_wire(self.linkmax),
            );
        }
        encode_u32(self.name_max, out);
        proof {
            lemma_concat_assoc(
                base,
                post_op_attr::wire(self.obj_attributes) + u32_wire(self.linkmax),
                u32_wire(self.name_max),
            );
        }
        encode_bool(self.no_trunc, out);
        proof {
            lemma_concat_assoc(
                base,
                post_op_attr::wire(self.obj_attributes) + u32_wire(self.linkmax)
                    + u32_wire(self.name_max),
                bool_wire(self.no_trunc),
            );
        }
        encode_bool(self.chown_restricted, out);
        proof {
            lemma_concat_assoc(
                base,
                post_op_attr::wire(self.obj_attributes) + u32_wire(self.linkmax)
                    + u32_wire(self.name_max) + bool_wire(self.no_trunc),
                bool_wire(self.chown_restricted),
            );
        }
        encode_bool(self.case_insensitive, out);
        proof {
            lemma_concat_assoc(
                base,
                post_op_attr::wire(self.obj_attributes) + u32_wire(self.linkmax)
                    + u32_wire(self.name_max) + bool_wire(self.no_trunc)
                    + bool_wire(self.chown_restricted),
                bool_wire(self.case_insensitive),
            );
        }
        encode_bool(self.case_preserving, out);
        proof {
            lemma_concat_assoc(
                base,
                post_op_attr::wire(self.obj_attributes) + u32_wire(self.linkmax)
                    + u32_wire(self.name_max) + bool_wire(self.no_trunc)
                    + bool_wire(self.chown_restricted) + bool_wire(self.case_insensitive),
                bool_wire(self.case_preserving),
            );
        }
    }

    /// Decodes a value at the offset `at` of `input`, and returns it with the
    /// offset behind it.
    pub fn deserialize(input: &[u8], at: usize) -> (r: Result<(PATHCONF3resok, usize), DecodeError>)
        ensures
            match Self::parse(input@, at as int) {
                Some((v, end)) => r matches Ok(p) && p.0 == v && p.1 == end && end <= input@.len(),
                None => r is Err,
            },
    {
        proof {
            reveal(PATHCONF3resok::parse);
        }
        let (obj_attributes, at) = post_op_attr::deserialize(input, at)?;
        let (linkmax, at) = decode_u32(input, at)?;
        let (name_max, at) = decode_u32(input, at)?;
        let (no_trunc, at) = decode_bool(input, at)?;
        let (chown_restricted, at) = decode_bool(input, at)?;
        let (case_insensitive, at) = decode_bool(input, at)?;
        let (case_preserving, at) = decode_bool(input, at)?;
        Ok(
            (
                PATHCONF3resok {
                    obj_attributes,
                    linkmax,
                    name_max,
                    no_trunc,
                    chown_restricted,
                    case_insensitive,
                    case_preserving,
                },
                at,
            ),
        )
    }
}

impl PATHCONF3resok {
    /// The value with every number zero, every list empty and every choice
    /// at its first arm.
    pub open spec fn zero() -> PATHCONF3resok {
        PATHCONF3resok {
            obj_attributes: post_op_attr::Void,
            linkmax: 0,
            name_max: 0,
            no_trunc: false,
            chown_restricted: false,
            case_insensitive: false,
            case_preserving: false,
        }
    }
}

impl Default for PATHCONF3resok {
    fn default() -> (r: Self)
        ensures
            r == Self::zero(),
    {
        PATHCONF3resok {
            obj_attributes: post_op_attr::default(),
            linkmax: 0,
            name_max: 0,
            no_trunc: false,
            chown_restricted: false,
            case_insensitive: false,
            case_preserving: false,
        }
    }
}

} // verus!
