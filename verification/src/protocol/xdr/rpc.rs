//! The ONC RPC message envelope (RFC 1057, RFC 5531) and the replies the
//! server builds from it.
#![allow(non_camel_case_types)]

use crate::protocol::xdr::{
    decode_opaque, decode_u32, decode_u32_array, encode_opaque, encode_u32, encode_u32_array,
    holds_at, lemma_concat_assoc, lemma_holds_at_concat, lemma_roundtrip_opaque,
    lemma_roundtrip_u32, lemma_roundtrip_u32_array, opaque_encodable, opaque_fits, opaque_wire,
    parse_opaque, parse_u32, parse_u32_array, u32_array_encodable, u32_array_fits, u32_array_wire,
    u32_wire, DecodeError,
};
use vstd::prelude::*;

verus! {

/// How a caller identifies itself. Only `AUTH_NULL` and `AUTH_UNIX` are acted
/// upon.
#[derive(Copy, Clone, Debug, PartialEq, Eq, Structural)]
pub enum auth_flavor {
    AUTH_NULL,
    AUTH_UNIX,
    AUTH_SHORT,
    AUTH_DES,
}

impl auth_flavor {
    /// The number that stands for the variant on the wire.
    pub open spec fn code(self) -> u32 {
        match self {
            auth_flavor::AUTH_NULL => 0,
            auth_flavor::AUTH_UNIX => 1,
            auth_flavor::AUTH_SHORT => 2,
            auth_flavor::AUTH_DES => 3,
        }
    }

    /// The variant that a number stands for, if any.
    pub open spec fn from_code(c: u32) -> Option<auth_flavor> {
        if c == 0 {
            Some(auth_flavor::AUTH_NULL)
        } else if c == 1 {
            Some(auth_flavor::AUTH_UNIX)
        } else if c == 2 {
            Some(auth_flavor::AUTH_SHORT)
        } else if c == 3 {
            Some(auth_flavor::AUTH_DES)
        } else {
            None
        }
    }

    /// Every variant is found again from its number.
    pub proof fn lemma_code_roundtrip(self)
        ensures
            Self::from_code(self.code()) == Some(self),
    {
    }

    /// The number that stands for the variant on the wire.
    pub fn to_u32(self) -> (c: u32)
        ensures
            c == self.code(),
    {
        match self {
            auth_flavor::AUTH_NULL => 0,
            auth_flavor::AUTH_UNIX => 1,
            auth_flavor::AUTH_SHORT => 2,
            auth_flavor::AUTH_DES => 3,
        }
    }

    /// The variant that a number stands for, if any.
    pub fn from_u32(c: u32) -> (r: Option<auth_flavor>)
        ensures
            r == Self::from_code(c),
    {
        if c == 0 {
            Some(auth_flavor::AUTH_NULL)
        } else if c == 1 {
            Some(auth_flavor::AUTH_UNIX)
        } else if c == 2 {
            Some(auth_flavor::AUTH_SHORT)
        } else if c == 3 {
            Some(auth_flavor::AUTH_DES)
        } else {
            None
        }
    }

    /// The number of the variant, as 32 bits.
    pub open spec fn wire(v: auth_flavor) -> Seq<u8> {
        u32_wire(v.code())
    }

    /// A number that names no variant does not decode.
    pub open spec fn parse(s: Seq<u8>, at: int) -> Option<(auth_flavor, int)> {
        match parse_u32(s, at) {
            None => None,
            Some((c, end)) => match Self::from_code(c) {
                None => None,
                Some(v) => Some((v, end)),
            },
        }
    }

    /// Round trip: wherever the encoding of `v` stands in a buffer, the
    /// decoder reads `v` there and stops right behind it.
    pub proof fn lemma_roundtrip(v: auth_flavor, s: Seq<u8>, at: int)
        requires
            holds_at(s, at, Self::wire(v)),
        ensures
            Self::parse(s, at) == Some((v, at + Self::wire(v).len())),
    {
        lemma_roundtrip_u32(v.code(), s, at);
    }

    /// Appends the encoding of the value to `out`.
    pub fn serialize(&self, out: &mut Vec<u8>)
        ensures
            final(out)@ == old(out)@ + Self::wire(*self),
    {
        encode_u32(self.to_u32(), out);
    }

    /// Decodes a value at the offset `at` of `input`, and returns it with the
    /// offset behind it.
    pub fn deserialize(input: &[u8], at: usize) -> (r: Result<(auth_flavor, usize), DecodeError>)
        ensures
            match Self::parse(input@, at as int) {
                Some((v, end)) => r matches Ok(p) && p.0 == v && p.1 == end && end <= input@.len(),
                None => r is Err,
            },
    {
        let (c, end) = decode_u32(input, at)?;
        match Self::from_u32(c) {
            Some(v) => Ok((v, end)),
            None => Err(DecodeError {  }),
        }
    }
}

impl Default for auth_flavor {
    fn default() -> (r: Self)
        ensures
            r == auth_flavor::AUTH_NULL,
    {
        auth_flavor::AUTH_NULL
    }
}

/// Why authentication failed.
#[derive(Copy, Clone, Debug, PartialEq, Eq, Structural)]
pub enum auth_stat {
    AUTH_BADCRED,
    AUTH_REJECTEDCRED,
    AUTH_BADVERF,
    AUTH_REJECTEDVERF,
    AUTH_TOOWEAK,
}

impl auth_stat {
    /// The number that stands for the variant on the wire.
    pub open spec fn code(self) -> u32 {
        match self {
            auth_stat::AUTH_BADCRED => 1,
            auth_stat::AUTH_REJECTEDCRED => 2,
            auth_stat::AUTH_BADVERF => 3,
            auth_stat::AUTH_REJECTEDVERF => 4,
            auth_stat::AUTH_TOOWEAK => 5,
        }
    }

    /// The variant that a number stands for, if any.
    pub open spec fn from_code(c: u32) -> Option<auth_stat> {
        if c == 1 {
            Some(auth_stat::AUTH_BADCRED)
        } else if c == 2 {
            Some(auth_stat::AUTH_REJECTEDCRED)
        } else if c == 3 {
            Some(auth_stat::AUTH_BADVERF)
        } else if c == 4 {
            Some(auth_stat::AUTH_REJECTEDVERF)
        } else if c == 5 {
            Some(auth_stat::AUTH_TOOWEAK)
        } else {
            None
        }
    }

    /// Every variant is found again from its number.
    pub proof fn lemma_code_roundtrip(self)
        ensures
            Self::from_code(self.code()) == Some(self),
    {
    }

    /// The number that stands for the variant on the wire.
    pub fn to_u32(self) -> (c: u32)
        ensures
            c == self.code(),
    {
        match self {
            auth_stat::AUTH_BADCRED => 1,
            auth_stat::AUTH_REJECTEDCRED => 2,
            auth_stat::AUTH_BADVERF => 3,
            auth_stat::AUTH_REJECTEDVERF => 4,
            auth_stat::AUTH_TOOWEAK => 5,
        }
    }

    /// The variant that a number stands for, if any.
    pub fn from_u32(c: u32) -> (r: Option<auth_stat>)
        ensures
            r == Self::from_code(c),
    {
        if c == 1 {
            Some(auth_stat::AUTH_BADCRED)
        } else if c == 2 {
            Some(auth_stat::AUTH_REJECTEDCRED)
        } else if c == 3 {
            Some(auth_stat::AUTH_BADVERF)
        } else if c == 4 {
            Some(auth_stat::AUTH_REJECTEDVERF)
        } else if c == 5 {
            Some(auth_stat::AUTH_TOOWEAK)
        } else {
            None
        }
    }

    /// The number of the variant, as 32 bits.
    pub open spec fn wire(v: auth_stat) -> Seq<u8> {
        u32_wire(v.code())
    }

    /// A number that names no variant does not decode.
    pub open spec fn parse(s: Seq<u8>, at: int) -> Option<(auth_stat, int)> {
        match parse_u32(s, at) {
            None => None,
            Some((c, end)) => match Self::from_code(c) {
                None => None,
                Some(v) => Some((v, end)),
            },
        }
    }

    /// Round trip: wherever the encoding of `v` stands in a buffer, the
    /// decoder reads `v` there and stops right behind it.
    pub proof fn lemma_roundtrip(v: auth_stat, s: Seq<u8>, at: int)
        requires
            holds_at(s, at, Self::wire(v)),
        ensures
            Self::parse(s, at) == Some((v, at + Self::wire(v).len())),
    {
        lemma_roundtrip_u32(v.code(), s, at);
    }

    /// Appends the encoding of the value to `out`.
    pub fn serialize(&self, out: &mut Vec<u8>)
        ensures
            final(out)@ == old(out)@ + Self::wire(*self),
    {
        encode_u32(self.to_u32(), out);
    }

    /// Decodes a value at the offset `at` of `input`, and returns it with the
    /// offset behind it.
    pub fn deserialize(input: &[u8], at: usize) -> (r: Result<(auth_stat, usize), DecodeError>)
        ensures
            match Self::parse(input@, at as int) {
                Some((v, end)) => r matches Ok(p) && p.0 == v && p.1 == end && end <= input@.len(),
                None => r is Err,
            },
    {
        let (c, end) = decode_u32(input, at)?;
        match Self::from_u32(c) {
            Some(v) => Ok((v, end)),
            None => Err(DecodeError {  }),
        }
    }
}

impl Default for auth_stat {
    fn default() -> (r: Self)
        ensures
            r == auth_stat::AUTH_BADCRED,
    {
        auth_stat::AUTH_BADCRED
    }
}

/// The body of an `AUTH_UNIX` credential.
#[derive(Clone, Debug, PartialEq, Eq)]
pub struct auth_unix {
    pub stamp: u32,
    pub machinename: Vec<u8>,
    pub uid: u32,
    pub gid: u32,
    pub gids: Vec<u32>,
}

/// What a [`auth_unix`] holds, as plain values.
pub struct auth_unixView {
    pub stamp: u32,
    pub machinename: Seq<u8>,
    pub uid: u32,
    pub gid: u32,
    pub gids: Seq<u32>,
}

impl View for auth_unix {
    type V = auth_unixView;

    open spec fn view(&self) -> auth_unixView {
        auth_unixView {
            stamp: self.stamp,
            machinename: self.machinename@,
            uid: self.uid,
            gid: self.gid,
            gids: self.gids@,
        }
    }
}

impl auth_unix {
    /// Every length in the value fits the 32 bits that the wire gives it.
    pub open spec fn encodable(v: auth_unixView) -> bool {
        &&& opaque_encodable(v.machinename)
        &&& u32_array_encodable(v.gids)
    }

    /// The fields one behind the other, in the order of their declaration.
    #[verifier::opaque]
    pub open spec fn wire(v: auth_unixView) -> Seq<u8> {
        u32_wire(v.stamp) + opaque_wire(v.machinename) + u32_wire(v.uid) + u32_wire(v.gid)
            + u32_array_wire(v.gids)
    }

    /// What a decoder reads at the offset `at` of `s`, with the offset behind
    /// it; `None` where a field does not decode.
    #[verifier::opaque]
    pub open spec fn parse(s: Seq<u8>, at: int) -> Option<(auth_unixView, int)> {
        match parse_u32(s, at) {
            None => None,
            Some((stamp, a1)) => match parse_opaque(s, a1) {
                None => None,
                Some((machinename, a2)) => match parse_u32(s, a2) {
                    None => None,
                    Some((uid, a3)) => match parse_u32(s, a3) {
                        None => None,
                        Some((gid, a4)) => match parse_u32_array(s, a4) {
                            None => None,
                            Some((gids, a5)) => Some(
                                (
                                    auth_unixView {
                                        stamp,
                                        machinename,
                                        uid,
                                        gid,
                                        gids,
                                    },
                                    a5,
                                ),
                            ),
                        },
                    },
                },
            },
        }
    }

    /// Round trip: wherever the encoding of `v` stands in a buffer, the
    /// decoder reads `v` there and stops right behind it.
    pub proof fn lemma_roundtrip(v: auth_unixView, s: Seq<u8>, at: int)
        requires
            Self::encodable(v),
            holds_at(s, at, Self::wire(v)),
        ensures
            Self::parse(s, at) == Some((v, at + Self::wire(v).len())),
    {
        reveal(auth_unix::wire);
        reveal(auth_unix::parse);
        let w0 = u32_wire(v.stamp);
        let w1 = opaque_wire(v.machinename);
        let w2 = u32_wire(v.uid);
        let w3 = u32_wire(v.gid);
        let w4 = u32_array_wire(v.gids);
        let p1 = w0 + w1;
        let p2 = p1 + w2;
        let p3 = p2 + w3;
        lemma_holds_at_concat(s, at, p3, w4);
        lemma_holds_at_concat(s, at, p2, w3);
        lemma_holds_at_concat(s, at, p1, w2);
        lemma_holds_at_concat(s, at, w0, w1);
        lemma_roundtrip_u32(v.stamp, s, at);
        lemma_roundtrip_opaque(v.machinename, s, at + w0.len());
        lemma_roundtrip_u32(v.uid, s, at + p1.len());
        lemma_roundtrip_u32(v.gid, s, at + p2.len());
        lemma_roundtrip_u32_array(v.gids, s, at + p3.len());
    }

    /// Whether the value has an encoding.
    pub fn fits(&self) -> (b: bool)
        ensures
            b == Self::encodable(self@),
    {
        opaque_fits(self.machinename.as_slice()) && u32_array_fits(&self.gids)
    }

    /// Appends the encoding of the value to `out`.
    pub fn serialize(&self, out: &mut Vec<u8>)
        requires
            Self::encodable(self@),
        ensures
            final(out)@ == old(out)@ + Self::wire(self@),
    {
        proof {
            reveal(auth_unix::wire);
        }
        let ghost base = out@;
        encode_u32(self.stamp, out);
        encode_opaque(self.machinename.as_slice(), out);
        proof {
            lemma_concat_assoc(base, u32_wire(self.stamp), opaque_wire(self.machinename@));
        }
        encode_u32(self.uid, out);
        proof {
            lemma_concat_assoc(
                base,
                u32_wire(self.stamp) + opaque_wire(self.machinename@),
                u32_wire(self.uid),
            );
        }
        encode_u32(self.gid, out);
        proof {
            lemma_concat_assoc(
                base,
                u32_wire(self.stamp) + opaque_wire(self.machinename@) + u32_wire(self.uid),
                u32_wire(self.gid),
            );
        }
        encode_u32_array(&self.gids, out);
        proof {
            lemma_concat_assoc(
                base,
                u32_wire(self.stamp) + opaque_wire(self.machinename@) + u32_wire(self.uid)
                    + u32_wire(self.gid),
                u32_array_wire(self.gids@),
            );
        }
    }

    /// Decodes a value at the offset `at` of `input`, and returns it with the
    /// offset behind it.
    pub fn deserialize(input: &[u8], at: usize) -> (r: Result<(auth_unix, usize), DecodeError>)
        ensures
            match Self::parse(input@, at as int) {
                Some((v, end)) => r matches Ok(p) && p.0@ == v && p.1 == end && end <= input@.len(),
                None => r is Err,
            },
    {
        proof {
            reveal(auth_unix::parse);
        }
        let (stamp, at) = decode_u32(input, at)?;
        let (machinename, at) = decode_opaque(input, at)?;
        let (uid, at) = decode_u32(input, at)?;
        let (gid, at) = decode_u32(input, at)?;
        let (gids, at) = decode_u32_array(input, at)?;
        Ok((auth_unix { stamp, machinename, uid, gid, gids }, at))
    }
}

impl auth_unix {
    /// The value with every number zero, every list empty and every choice
    /// at its first arm.
    pub open spec fn zero() -> auth_unixView {
        auth_unixView {
            stamp: 0,
            machinename: Seq::<u8>::empty(),
            uid: 0,
            gid: 0,
            gids: Seq::<u32>::empty(),
        }
    }
}

impl Default for auth_unix {
    fn default() -> (r: Self)
        ensures
            r@ == Self::zero(),
    {
        auth_unix {
            stamp: 0,
            machinename: Vec::new(),
            uid: 0,
            gid: 0,
            gids: Vec::new(),
        }
    }
}

/// A credential or verifier: its flavor and a body that only the flavor
/// explains.
#[derive(Clone, Debug, PartialEq, Eq)]
pub struct opaque_auth {
    pub flavor: auth_flavor,
    pub body: Vec<u8>,
}

/// What a [`opaque_auth`] holds, as plain values.
pub struct opaque_authView {
    pub flavor: auth_flavor,
    pub body: Seq<u8>,
}

impl View for opaque_auth {
    type V = opaque_authView;

    open spec fn view(&self) -> opaque_authView {
        opaque_authView {
            flavor: self.flavor,
            body: self.body@,
        }
    }
}

impl opaque_auth {
    /// Every length in the value fits the 32 bits that the wire gives it.
    pub open spec fn encodable(v: opaque_authView) -> bool {
        opaque_encodable(v.body)
    }

    /// The fields one behind the other, in the order of their declaration.
    #[verifier::opaque]
    pub open spec fn wire(v: opaque_authView) -> Seq<u8> {
        auth_flavor::wire(v.flavor) + opaque_wire(v.body)
    }

    /// What a decoder reads at the offset `at` of `s`, with the offset behind
    /// it; `None` where a field does not decode.
    #[verifier::opaque]
    pub open spec fn parse(s: Seq<u8>, at: int) -> Option<(opaque_authView, int)> {
        match auth_flavor::parse(s, at) {
            None => None,
            Some((flavor, a1)) => match parse_opaque(s, a1) {
                None => None,
                Some((body, a2)) => Some((opaque_authView { flavor, body }, a2)),
            },
        }
    }

    /// Round trip: wherever the encoding of `v` stands in a buffer, the
    /// decoder reads `v` there and stops right behind it.
    pub proof fn lemma_roundtrip(v: opaque_authView, s: Seq<u8>, at: int)
        requires
            Self::encodable(v),
            holds_at(s, at, Self::wire(v)),
        ensures
            Self::parse(s, at) == Some((v, at + Self::wire(v).len())),
    {
        reveal(opaque_auth::wire);
        reveal(opaque_auth::parse);
        let w0 = auth_flavor::wire(v.flavor);
        let w1 = opaque_wire(v.body);
        lemma_holds_at_concat(s, at, w0, w1);
        auth_flavor::lemma_roundtrip(v.flavor, s, at);
        lemma_roundtrip_opaque(v.body, s, at + w0.len());
    }

    /// Whether the value has an encoding.
    pub fn fits(&self) -> (b: bool)
        ensures
            b == Self::encodable(self@),
    {
        opaque_fits(self.body.as_slice())
    }

    /// Appends the encoding of the value to `out`.
    pub fn serialize(&self, out: &mut Vec<u8>)
        requires
            Self::encodable(self@),
        ensures
            final(out)@ == old(out)@ + Self::wire(self@),
    {
        proof {
            reveal(opaque_auth::wire);
        }
        let ghost base = out@;
        self.flavor.serialize(out);
        encode_opaque(self.body.as_slice(), out);
        proof {
            lemma_concat_assoc(base, auth_flavor::wire(self.flavor), opaque_wire(self.body@));
        }
    }

    /// Decodes a value at the offset `at` of `input`, and returns it with the
    /// offset behind it.
    pub fn deserialize(input: &[u8], at: usize) -> (r: Result<(opaque_auth, usize), DecodeError>)
        ensures
            match Self::parse(input@, at as int) {
                Some((v, end)) => r matches Ok(p) && p.0@ == v && p.1 == end && end <= input@.len(),
                None => r is Err,
            },
    {
        proof {
            reveal(opaque_auth::parse);
        }
        let (flavor, at) = auth_flavor::deserialize(input, at)?;
        let (body, at) = decode_opaque(input, at)?;
        Ok((opaque_auth { flavor, body }, at))
    }
}

impl opaque_auth {
    /// The value with every number zero, every list empty and every choice
    /// at its first arm.
    pub open spec fn zero() -> opaque_authView {
        opaque_authView {
            flavor: auth_flavor::AUTH_NULL,
            body: Seq::<u8>::empty(),
        }
    }
}

impl Default for opaque_auth {
    fn default() -> (r: Self)
        ensures
            r@ == Self::zero(),
    {
        opaque_auth {
            flavor: auth_flavor::default(),
            body: Vec::new(),
        }
    }
}

/// The lowest and highest version that the server supports.
#[derive(Copy, Clone, Debug, PartialEq, Eq)]
pub struct mismatch_info {
    pub low: u32,
    pub high: u32,
}

impl mismatch_info {
    /// The fields one behind the other, in the order of their declaration.
    #[verifier::opaque]
    pub open spec fn wire(v: mismatch_info) -> Seq<u8> {
        u32_wire(v.low) + u32_wire(v.high)
    }

    /// What a decoder reads at the offset `at` of `s`, with the offset behind
    /// it; `None` where a field does not decode.
    #[verifier::opaque]
    pub open spec fn parse(s: Seq<u8>, at: int) -> Option<(mismatch_info, int)> {
        match parse_u32(s, at) {
            None => None,
            Some((low, a1)) => match parse_u32(s, a1) {
                None => None,
                Some((high, a2)) => Some((mismatch_info { low, high }, a2)),
            },
        }
    }

    /// Round trip: wherever the encoding of `v` stands in a buffer, the
    /// decoder reads `v` there and stops right behind it.
    pub proof fn lemma_roundtrip(v: mismatch_info, s: Seq<u8>, at: int)
        requires
            holds_at(s, at, Self::wire(v)),
        ensures
            Self::parse(s, at) == Some((v, at + Self::wire(v).len())),
    {
        reveal(mismatch_info::wire);
        reveal(mismatch_info::parse);
        let w0 = u32_wire(v.low);
        let w1 = u32_wire(v.high);
        lemma_holds_at_concat(s, at, w0, w1);
        lemma_roundtrip_u32(v.low, s, at);
        lemma_roundtrip_u32(v.high, s, at + w0.len());
    }

    /// Appends the encoding of the value to `out`.
    pub fn serialize(&self, out: &mut Vec<u8>)
        ensures
            final(out)@ == old(out)@ + Self::wire(*self),
    {
        proof {
            reveal(mismatch_info::wire);
        }
        let ghost base = out@;
        encode_u32(self.low, out);
        encode_u32(self.high, out);
        proof {
            lemma_concat_assoc(base, u32_wire(self.low), u32_wire(self.high));
        }
    }

    /// Decodes a value at the offset `at` of `input`, and returns it with the
    /// offset behind it.
    pub fn deserialize(input: &[u8], at: usize) -> (r: Result<(mismatch_info, usize), DecodeError>)
        ensures
            match Self::parse(input@, at as int) {
                Some((v, end)) => r matches Ok(p) && p.0 == v && p.1 == end && end <= input@.len(),
                None => r is Err,
            },
    {
        proof {
            reveal(mismatch_info::parse);
        }
        let (low, at) = decode_u32(input, at)?;
        let (high, at) = decode_u32(input, at)?;
        Ok((mismatch_info { low, high }, at))
    }
}

impl mismatch_info {
    /// The value with every number zero, every list empty and every choice
    /// at its first arm.
    pub open spec fn zero() -> mismatch_info {
        mismatch_info {
            low: 0,
            high: 0,
        }
    }
}

impl Default for mismatch_info {
    fn default() -> (r: Self)
        ensures
            r == Self::zero(),
    {
        mismatch_info {
            low: 0,
            high: 0,
        }
    }
}

/// The header of a call: RPC version, program, version and procedure, then
/// the caller's credential and verifier.
#[derive(Clone, Debug, PartialEq, Eq)]
pub struct call_body {
    pub rpcvers: u32,
    pub prog: u32,
    pub vers: u32,
    pub proc: u32,
    pub cred: opaque_auth,
    pub verf: opaque_auth,
}

/// What a [`call_body`] holds, as plain values.
pub struct call_bodyView {
    pub rpcvers: u32,
    pub prog: u32,
    pub vers: u32,
    pub proc: u32,
    pub cred: opaque_authView,
    pub verf: opaque_authView,
}

impl View for call_body {
    type V = call_bodyView;

    open spec fn view(&self) -> call_bodyView {
        call_bodyView {
            rpcvers: self.rpcvers,
            prog: self.prog,
            vers: self.vers,
            proc: self.proc,
            cred: self.cred@,
            verf: self.verf@,
        }
    }
}

impl call_body {
    /// Every length in the value fits the 32 bits that the wire gives it.
    pub open spec fn encodable(v: call_bodyView) -> bool {
        &&& opaque_auth::encodable(v.cred)
        &&& opaque_auth::encodable(v.verf)
    }

    /// The fields one behind the other, in the order of their declaration.
    #[verifier::opaque]
    pub open spec fn wire(v: call_bodyView) -> Seq<u8> {
        u32_wire(v.rpcvers) + u32_wire(v.prog) + u32_wire(v.vers) + u32_wire(v.proc)
            + opaque_auth::wire(v.cred) + opaque_auth::wire(v.verf)
    }

    /// What a decoder reads at the offset `at` of `s`, with the offset behind
    /// it; `None` where a field does not decode.
    #[verifier::opaque]
    pub open spec fn parse(s: Seq<u8>, at: int) -> Option<(call_bodyView, int)> {
        match parse_u32(s, at) {
            None => None,
            Some((rpcvers, a1)) => match parse_u32(s, a1) {
                None => None,
                Some((prog, a2)) => match parse_u32(s, a2) {
                    None => None,
                    Some((vers, a3)) => match parse_u32(s, a3) {
                        None => None,
                        Some((proc, a4)) => match opaque_auth::parse(s, a4) {
                            None => None,
                            Some((cred, a5)) => match opaque_auth::parse(s, a5) {
                                None => None,
                                Some((verf, a6)) => Some(
                                    (
                                        call_bodyView {
                                            rpcvers,
                                            prog,
                                            vers,
                                            proc,
                                            cred,
                                            verf,
                                        },
                                        a6,
                                    ),
                                ),
                            },
                        },
                    },
                },
            },
        }
    }

    /// Round trip: wherever the encoding of `v` stands in a buffer, the
    /// decoder reads `v` there and stops right behind it.
    pub proof fn lemma_roundtrip(v: call_bodyView, s: Seq<u8>, at: int)
        requires
            Self::encodable(v),
            holds_at(s, at, Self::wire(v)),
        ensures
            Self::parse(s, at) == Some((v, at + Self::wire(v).len())),
    {
        reveal(call_body::wire);
        reveal(call_body::parse);
        let w0 = u32_wire(v.rpcvers);
        let w1 = u32_wire(v.prog);
        let w2 = u32_wire(v.vers);
        let w3 = u32_wire(v.proc);
        let w4 = opaque_auth::wire(v.cred);
        let w5 = opaque_auth::wire(v.verf);
        let p1 = w0 + w1;
        let p2 = p1 + w2;
        let p3 = p2 + w3;
        let p4 = p3 + w4;
        lemma_holds_at_concat(s, at, p4, w5);
        lemma_holds_at_concat(s, at, p3, w4);
        lemma_holds_at_concat(s, at, p2, w3);
        lemma_holds_at_concat(s, at, p1, w2);
        lemma_holds_at_concat(s, at, w0, w1);
        lemma_roundtrip_u32(v.rpcvers, s, at);
        lemma_roundtrip_u32(v.prog, s, at + w0.len());
        lemma_roundtrip_u32(v.vers, s, at + p1.len());
        lemma_roundtrip_u32(v.proc, s, at + p2.len());
        opaque_auth::lemma_roundtrip(v.cred, s, at + p3.len());
        opaque_auth::lemma_roundtrip(v.verf, s, at + p4.len());
    }

    /// Whether the value has an encoding.
    pub fn fits(&self) -> (b: bool)
        ensures
            b == Self::encodable(self@),
    {
        self.cred.fits() && self.verf.fits()
    }

    /// Appends the encoding of the value to `out`.
    pub fn serialize(&self, out: &mut Vec<u8>)
        requires
            Self::encodable(self@),
        ensures
            final(out)@ == old(out)@ + Self::wire(self@),
    {
        proof {
            reveal(call_body::wire);
        }
        let ghost base = out@;
        encode_u32(self.rpcvers, out);
        encode_u32(self.prog, out);
        proof {
            lemma_concat_assoc(base, u32_wire(self.rpcvers), u32_wire(self.prog));
        }
        encode_u32(self.vers, out);
        proof {
            lemma_concat_assoc(
                base,
                u32_wire(self.rpcvers) + u32_wire(self.prog),
                u32_wire(self.vers),
            );
        }
        encode_u32(self.proc, out);
        proof {
            lemma_concat_assoc(
                base,
                u32_wire(self.rpcvers) + u32_wire(self.prog) + u32_wire(self.vers),
                u32_wire(self.proc),
            );
        }
        self.cred.serialize(out);
        proof {
            lemma_concat_assoc(
                base,
                u32_wire(self.rpcvers) + u32_wire(self.prog) + u32_wire(self.vers)
                    + u32_wire(self.proc),
                opaque_auth::wire(self.cred@),
            );
        }
        self.verf.serialize(out);
        proof {
            lemma_concat_assoc(
                base,
                u32_wire(self.rpcvers) + u32_wire(self.prog) + u32_wire(self.vers)
                    + u32_wire(self.proc) + opaque_auth::wire(self.cred@),
                opaque_auth::wire(self.verf@),
            );
        }
    }

    /// Decodes a value at the offset `at` of `input`, and returns it with the
    /// offset behind it.
    pub fn deserialize(input: &[u8], at: usize) -> (r: Result<(call_body, usize), DecodeError>)
        ensures
            match Self::parse(input@, at as int) {
                Some((v, end)) => r matches Ok(p) && p.0@ == v && p.1 == end && end <= input@.len(),
                None => r is Err,
            },
    {
        proof {
            reveal(call_body::parse);
        }
        let (rpcvers, at) = decode_u32(input, at)?;
        let (prog, at) = decode_u32(input, at)?;
        let (vers, at) = decode_u32(input, at)?;
        let (proc, at) = decode_u32(input, at)?;
        let (cred, at) = opaque_auth::deserialize(input, at)?;
        let (verf, at) = opaque_auth::deserialize(input, at)?;
        Ok((call_body { rpcvers, prog, vers, proc, cred, verf }, at))
    }
}

impl call_body {
    /// The value with every number zero, every list empty and every choice
    /// at its first arm.
    pub open spec fn zero() -> call_bodyView {
        call_bodyView {
            rpcvers: 0,
            prog: 0,
            vers: 0,
            proc: 0,
            cred: opaque_auth::zero(),
            verf: opaque_auth::zero(),
        }
    }
}

impl Default for call_body {
    fn default() -> (r: Self)
        ensures
            r@ == Self::zero(),
    {
        call_body {
            rpcvers: 0,
            prog: 0,
            vers: 0,
            proc: 0,
            cred: opaque_auth::default(),
            verf: opaque_auth::default(),
        }
    }
}

/// The status of a call that was accepted.
#[derive(Copy, Clone, Debug, PartialEq, Eq)]
pub enum accept_body {
    SUCCESS,
    PROG_UNAVAIL,
    PROG_MISMATCH(mismatch_info),
    PROC_UNAVAIL,
    GARBAGE_ARGS,
}

impl accept_body {
    /// The discriminant, then the contents of the arm.
    #[verifier::opaque]
    pub open spec fn wire(v: accept_body) -> Seq<u8> {
        match v {
            accept_body::SUCCESS => u32_wire(0),
            accept_body::PROG_UNAVAIL => u32_wire(1),
            accept_body::PROG_MISMATCH(x) => u32_wire(2) + mismatch_info::wire(x),
            accept_body::PROC_UNAVAIL => u32_wire(3),
            accept_body::GARBAGE_ARGS => u32_wire(4),
        }
    }

    /// What a decoder reads at the offset `at` of `s`, with the offset behind
    /// it; `None` where the discriminant or the arm does not decode.
    #[verifier::opaque]
    pub open spec fn parse(s: Seq<u8>, at: int) -> Option<(accept_body, int)> {
        match parse_u32(s, at) {
            None => None,
            Some((tag, a1)) => if tag == 0 {
                Some((accept_body::SUCCESS, a1))
            } else if tag == 1 {
                Some((accept_body::PROG_UNAVAIL, a1))
            } else if tag == 2 {
                match mismatch_info::parse(s, a1) {
                    None => None,
                    Some((x, end)) => Some((accept_body::PROG_MISMATCH(x), end)),
                }
            } else if tag == 3 {
                Some((accept_body::PROC_UNAVAIL, a1))
            } else if tag == 4 {
                Some((accept_body::GARBAGE_ARGS, a1))
            } else {
                None
            },
        }
    }

    /// Round trip: wherever the encoding of `v` stands in a buffer, the
    /// decoder reads `v` there and stops right behind it.
    pub proof fn lemma_roundtrip(v: accept_body, s: Seq<u8>, at: int)
        requires
            holds_at(s, at, Self::wire(v)),
        ensures
            Self::parse(s, at) == Some((v, at + Self::wire(v).len())),
    {
        reveal(accept_body::wire);
        reveal(accept_body::parse);
        match v {
            accept_body::SUCCESS => {
                lemma_roundtrip_u32(0, s, at);
            },
            accept_body::PROG_UNAVAIL => {
                lemma_roundtrip_u32(1, s, at);
            },
            accept_body::PROG_MISMATCH(x) => {
                lemma_holds_at_concat(s, at, u32_wire(2), mismatch_info::wire(x));
                lemma_roundtrip_u32(2, s, at);
                mismatch_info::lemma_roundtrip(x, s, at + 4);
            },
            accept_body::PROC_UNAVAIL => {
                lemma_roundtrip_u32(3, s, at);
            },
            accept_body::GARBAGE_ARGS => {
                lemma_roundtrip_u32(4, s, at);
            },
        }
    }

    /// Appends the encoding of the value to `out`.
    pub fn serialize(&self, out: &mut Vec<u8>)
        ensures
            final(out)@ == old(out)@ + Self::wire(*self),
    {
        proof {
            reveal(accept_body::wire);
        }
        match self {
            accept_body::SUCCESS => {
                encode_u32(0, out);
            },
            accept_body::PROG_UNAVAIL => {
                encode_u32(1, out);
            },
            accept_body::PROG_MISMATCH(x) => {
                encode_u32(2, out);
                x.serialize(out);
                assert(out@ =~= old(out)@ + Self::wire(*self));
            },
            accept_body::PROC_UNAVAIL => {
                encode_u32(3, out);
            },
            accept_body::GARBAGE_ARGS => {
                encode_u32(4, out);
            },
        }
    }

    /// Decodes a value at the offset `at` of `input`, and returns it with the
    /// offset behind it.
    pub fn deserialize(input: &[u8], at: usize) -> (r: Result<(accept_body, usize), DecodeError>)
        ensures
            match Self::parse(input@, at as int) {
                Some((v, end)) => r matches Ok(p) && p.0 == v && p.1 == end && end <= input@.len(),
                None => r is Err,
            },
    {
        proof {
            reveal(accept_body::parse);
        }
        let (tag, at) = decode_u32(input, at)?;
        if tag == 0 {
            Ok((accept_body::SUCCESS, at))
        } else if tag == 1 {
            Ok((accept_body::PROG_UNAVAIL, at))
        } else if tag == 2 {
            let (x, at) = mismatch_info::deserialize(input, at)?;
            Ok((accept_body::PROG_MISMATCH(x), at))
        } else if tag == 3 {
            Ok((accept_body::PROC_UNAVAIL, at))
        } else if tag == 4 {
            Ok((accept_body::GARBAGE_ARGS, at))
        } else {
            Err(DecodeError {  })
        }
    }
}

impl Default for accept_body {
    fn default() -> (r: Self)
        ensures
            r == accept_body::SUCCESS,
    {
        accept_body::SUCCESS
    }
}

/// A reply to a call that passed authentication.
#[derive(Clone, Debug, PartialEq, Eq)]
pub struct accepted_reply {
    pub verf: opaque_auth,
    pub reply_data: accept_body,
}

/// What a [`accepted_reply`] holds, as plain values.
pub struct accepted_replyView {
    pub verf: opaque_authView,
    pub reply_data: accept_body,
}

impl View for accepted_reply {
    type V = accepted_replyView;

    open spec fn view(&self) -> accepted_replyView {
        accepted_replyView {
            verf: self.verf@,
            reply_data: self.reply_data,
        }
    }
}

impl accepted_reply {
    /// Every length in the value fits the 32 bits that the wire gives it.
    pub open spec fn encodable(v: accepted_replyView) -> bool {
        opaque_auth::encodable(v.verf)
    }

    /// The fields one behind the other, in the order of their declaration.
    #[verifier::opaque]
    pub open spec fn wire(v: accepted_replyView) -> Seq<u8> {
        opaque_auth::wire(v.verf) + accept_body::wire(v.reply_data)
    }

    /// What a decoder reads at the offset `at` of `s`, with the offset behind
    /// it; `None` where a field does not decode.
    #[verifier::opaque]
    pub open spec fn parse(s: Seq<u8>, at: int) -> Option<(accepted_replyView, int)> {
        match opaque_auth::parse(s, at) {
            None => None,
            Some((verf, a1)) => match accept_body::parse(s, a1) {
                None => None,
                Some((reply_data, a2)) => Some((accepted_replyView { verf, reply_data }, a2)),
            },
        }
    }

    /// Round trip: wherever the encoding of `v` stands in a buffer, the
    /// decoder reads `v` there and stops right behind it.
    pub proof fn lemma_roundtrip(v: accepted_replyView, s: Seq<u8>, at: int)
        requires
            Self::encodable(v),
            holds_at(s, at, Self::wire(v)),
        ensures
            Self::parse(s, at) == Some((v, at + Self::wire(v).len())),
    {
        reveal(accepted_reply::wire);
        reveal(accepted_reply::parse);
        let w0 = opaque_auth::wire(v.verf);
        let w1 = accept_body::wire(v.reply_data);
        lemma_holds_at_concat(s, at, w0, w1);
        opaque_auth::lemma_roundtrip(v.verf, s, at);
        accept_body::lemma_roundtrip(v.reply_data, s, at + w0.len());
    }

    /// Whether the value has an encoding.
    pub fn fits(&self) -> (b: bool)
        ensures
            b == Self::encodable(self@),
    {
        self.verf.fits()
    }

    /// Appends the encoding of the value to `out`.
    pub fn serialize(&self, out: &mut Vec<u8>)
        requires
            Self::encodable(self@),
        ensures
            final(out)@ == old(out)@ + Self::wire(self@),
    {
        proof {
            reveal(accepted_reply::wire);
        }
        let ghost base = out@;
        self.verf.serialize(out);
        self.reply_data.serialize(out);
        proof {
            lemma_concat_assoc(
                base,
                opaque_auth::wire(self.verf@),
                accept_body::wire(self.reply_data),
            );
        }
    }

    /// Decodes a value at the offset `at` of `input`, and returns it with the
    /// offset behind it.
    pub fn deserialize(input: &[u8], at: usize) -> (r: Result<(accepted_reply, usize), DecodeError>)
        ensures
            match Self::parse(input@, at as int) {
                Some((v, end)) => r matches Ok(p) && p.0@ == v && p.1 == end && end <= input@.len(),
                None => r is Err,
            },
    {
        proof {
            reveal(accepted_reply::parse);
        }
        let (verf, at) = opaque_auth::deserialize(input, at)?;
        let (reply_data, at) = accept_body::deserialize(input, at)?;
        Ok((accepted_reply { verf, reply_data }, at))
    }
}

impl accepted_reply {
    /// The value with every number zero, every list empty and every choice
    /// at its first arm.
    pub open spec fn zero() -> accepted_replyView {
        accepted_replyView {
            verf: opaque_auth::zero(),
            reply_data: accept_body::SUCCESS,
        }
    }
}

impl Default for accepted_reply {
    fn default() -> (r: Self)
        ensures
            r@ == Self::zero(),
    {
        accepted_reply {
            verf: opaque_auth::default(),
            reply_data: accept_body::default(),
        }
    }
}

/// A reply to a call that was refused.
#[derive(Copy, Clone, Debug, PartialEq, Eq)]
pub enum rejected_reply {
    RPC_MISMATCH(mismatch_info),
    AUTH_ERROR(auth_stat),
}

impl rejected_reply {
    /// The discriminant, then the contents of the arm.
    #[verifier::opaque]
    pub open spec fn wire(v: rejected_reply) -> Seq<u8> {
        match v {
            rejected_reply::RPC_MISMATCH(x) => u32_wire(0) + mismatch_info::wire(x),
            rejected_reply::AUTH_ERROR(x) => u32_wire(1) + auth_stat::wire(x),
        }
    }

    /// What a decoder reads at the offset `at` of `s`, with the offset behind
    /// it; `None` where the discriminant or the arm does not decode.
    #[verifier::opaque]
    pub open spec fn parse(s: Seq<u8>, at: int) -> Option<(rejected_reply, int)> {
        match parse_u32(s, at) {
            None => None,
            Some((tag, a1)) => if tag == 0 {
                match mismatch_info::parse(s, a1) {
                    None => None,
                    Some((x, end)) => Some((rejected_reply::RPC_MISMATCH(x), end)),
                }
            } else if tag == 1 {
                match auth_stat::parse(s, a1) {
                    None => None,
                    Some((x, end)) => Some((rejected_reply::AUTH_ERROR(x), end)),
                }
            } else {
                None
            },
        }
    }

    /// Round trip: wherever the encoding of `v` stands in a buffer, the
    /// decoder reads `v` there and stops right behind it.
    pub proof fn lemma_roundtrip(v: rejected_reply, s: Seq<u8>, at: int)
        requires
            holds_at(s, at, Self::wire(v)),
        ensures
            Self::parse(s, at) == Some((v, at + Self::wire(v).len())),
    {
        reveal(rejected_reply::wire);
        reveal(rejected_reply::parse);
        match v {
            rejected_reply::RPC_MISMATCH(x) => {
                lemma_holds_at_concat(s, at, u32_wire(0), mismatch_info::wire(x));
                lemma_roundtrip_u32(0, s, at);
                mismatch_info::lemma_roundtrip(x, s, at + 4);
            },
            rejected_reply::AUTH_ERROR(x) => {
                lemma_holds_at_concat(s, at, u32_wire(1), auth_stat::wire(x));
                lemma_roundtrip_u32(1, s, at);
                auth_stat::lemma_roundtrip(x, s, at + 4);
            },
        }
    }

    /// Appends the encoding of the value to `out`.
    pub fn serialize(&self, out: &mut Vec<u8>)
        ensures
            final(out)@ == old(out)@ + Self::wire(*self),
    {
        proof {
            reveal(rejected_reply::wire);
        }
        match self {
            rejected_reply::RPC_MISMATCH(x) => {
                encode_u32(0, out);
                x.serialize(out);
                assert(out@ =~= old(out)@ + Self::wire(*self));
            },
            rejected_reply::AUTH_ERROR(x) => {
                encode_u32(1, out);
                x.serialize(out);
                assert(out@ =~= old(out)@ + Self::wire(*self));
            },
        }
    }

    /// Decodes a value at the offset `at` of `input`, and returns it with the
    /// offset behind it.
    pub fn deserialize(input: &[u8], at: usize) -> (r: Result<(rejected_reply, usize), DecodeError>)
        ensures
            match Self::parse(input@, at as int) {
                Some((v, end)) => r matches Ok(p) && p.0 == v && p.1 == end && end <= input@.len(),
                None => r is Err,
            },
    {
        proof {
            reveal(rejected_reply::parse);
        }
        let (tag, at) = decode_u32(input, at)?;
        if tag == 0 {
            let (x, at) = mismatch_info::deserialize(input, at)?;
            Ok((rejected_reply::RPC_MISMATCH(x), at))
        } else if tag == 1 {
            let (x, at) = auth_stat::deserialize(input, at)?;
            Ok((rejected_reply::AUTH_ERROR(x), at))
        } else {
            Err(DecodeError {  })
        }
    }
}

/// The body of a reply.
#[derive(Clone, Debug, PartialEq, Eq)]
pub enum reply_body {
    MSG_ACCEPTED(accepted_reply),
    MSG_DENIED(rejected_reply),
}

/// What a [`reply_body`] holds, as plain values.
pub enum reply_bodyView {
    MSG_ACCEPTED(accepted_replyView),
    MSG_DENIED(rejected_reply),
}

impl View for reply_body {
    type V = reply_bodyView;

    open spec fn view(&self) -> reply_bodyView {
        match *self {
            reply_body::MSG_ACCEPTED(x) => reply_bodyView::MSG_ACCEPTED(x@),
            reply_body::MSG_DENIED(x) => reply_bodyView::MSG_DENIED(x),
        }
    }
}

impl reply_body {
    /// Every length in the value fits the 32 bits that the wire gives it.
    pub open spec fn encodable(v: reply_bodyView) -> bool {
        match v {
            reply_bodyView::MSG_ACCEPTED(x) => accepted_reply::encodable(x),
            reply_bodyView::MSG_DENIED(_) => true,
        }
    }

    /// The discriminant, then the contents of the arm.
    #[verifier::opaque]
    pub open spec fn wire(v: reply_bodyView) -> Seq<u8> {
        match v {
            reply_bodyView::MSG_ACCEPTED(x) => u32_wire(0) + accepted_reply::wire(x),
            reply_bodyView::MSG_DENIED(x) => u32_wire(1) + rejected_reply::wire(x),
        }
    }

    /// What a decoder reads at the offset `at` of `s`, with the offset behind
    /// it; `None` where the discriminant or the arm does not decode.
    #[verifier::opaque]
    pub open spec fn parse(s: Seq<u8>, at: int) -> Option<(reply_bodyView, int)> {
        match parse_u32(s, at) {
            None => None,
            Some((tag, a1)) => if tag == 0 {
                match accepted_reply::parse(s, a1) {
                    None => None,
                    Some((x, end)) => Some((reply_bodyView::MSG_ACCEPTED(x), end)),
                }
            } else if tag == 1 {
                match rejected_reply::parse(s, a1) {
                    None => None,
                    Some((x, end)) => Some((reply_bodyView::MSG_DENIED(x), end)),
                }
            } else {
                None
            },
        }
    }

    /// Round trip: wherever the encoding of `v` stands in a buffer, the
    /// decoder reads `v` there and stops right behind it.
    pub proof fn lemma_roundtrip(v: reply_bodyView, s: Seq<u8>, at: int)
        requires
            Self::encodable(v),
            holds_at(s, at, Self::wire(v)),
        ensures
            Self::parse(s, at) == Some((v, at + Self::wire(v).len())),
    {
        reveal(reply_body::wire);
        reveal(reply_body::parse);
        match v {
            reply_bodyView::MSG_ACCEPTED(x) => {
                lemma_holds_at_concat(s, at, u32_wire(0), accepted_reply::wire(x));
                lemma_roundtrip_u32(0, s, at);
                accepted_reply::lemma_roundtrip(x, s, at + 4);
            },
            reply_bodyView::MSG_DENIED(x) => {
                lemma_holds_at_concat(s, at, u32_wire(1), rejected_reply::wire(x));
                lemma_roundtrip_u32(1, s, at);
                rejected_reply::lemma_roundtrip(x, s, at + 4);
            },
        }
    }

    /// Whether the value has an encoding.
    pub fn fits(&self) -> (b: bool)
        ensures
            b == Self::encodable(self@),
    {
        match self {
            reply_body::MSG_ACCEPTED(x) => x.fits(),
            reply_body::MSG_DENIED(_) => true,
        }
    }

    /// Appends the encoding of the value to `out`.
    pub fn serialize(&self, out: &mut Vec<u8>)
        requires
            Self::encodable(self@),
        ensures
            final(out)@ == old(out)@ + Self::wire(self@),
    {
        proof {
            reveal(reply_body::wire);
        }
        match self {
            reply_body::MSG_ACCEPTED(x) => {
                encode_u32(0, out);
                x.serialize(out);
                assert(out@ =~= old(out)@ + Self::wire(self@));
            },
            reply_body::MSG_DENIED(x) => {
                encode_u32(1, out);
                x.serialize(out);
                assert(out@ =~= old(out)@ + Self::wire(self@));
            },
        }
    }

    /// Decodes a value at the offset `at` of `input`, and returns it with the
    /// offset behind it.
    pub fn deserialize(input: &[u8], at: usize) -> (r: Result<(reply_body, usize), DecodeError>)
        ensures
            match Self::parse(input@, at as int) {
                Some((v, end)) => r matches Ok(p) && p.0@ == v && p.1 == end && end <= input@.len(),
                None => r is Err,
            },
    {
        proof {
            reveal(reply_body::parse);
        }
        let (tag, at) = decode_u32(input, at)?;
        if tag == 0 {
            let (x, at) = accepted_reply::deserialize(input, at)?;
            Ok((reply_body::MSG_ACCEPTED(x), at))
        } else if tag == 1 {
            let (x, at) = rejected_reply::deserialize(input, at)?;
            Ok((reply_body::MSG_DENIED(x), at))
        } else {
            Err(DecodeError {  })
        }
    }
}

/// The body of a message: a call or a reply.
#[derive(Clone, Debug, PartialEq, Eq)]
pub enum rpc_body {
    CALL(call_body),
    REPLY(reply_body),
}

/// What a [`rpc_body`] holds, as plain values.
pub enum rpc_bodyView {
    CALL(call_bodyView),
    REPLY(reply_bodyView),
}

impl View for rpc_body {
    type V = rpc_bodyView;

    open spec fn view(&self) -> rpc_bodyView {
        match *self {
            rpc_body::CALL(x) => rpc_bodyView::CALL(x@),
            rpc_body::REPLY(x) => rpc_bodyView::REPLY(x@),
        }
    }
}

impl rpc_body {
    /// Every length in the value fits the 32 bits that the wire gives it.
    pub open spec fn encodable(v: rpc_bodyView) -> bool {
        match v {
            rpc_bodyView::CALL(x) => call_body::encodable(x),
            rpc_bodyView::REPLY(x) => reply_body::encodable(x),
        }
    }

    /// The discriminant, then the contents of the arm.
    #[verifier::opaque]
    pub open spec fn wire(v: rpc_bodyView) -> Seq<u8> {
        match v {
            rpc_bodyView::CALL(x) => u32_wire(0) + call_body::wire(x),
            rpc_bodyView::REPLY(x) => u32_wire(1) + reply_body::wire(x),
        }
    }

    /// What a decoder reads at the offset `at` of `s`, with the offset behind
    /// it; `None` where the discriminant or the arm does not decode.
    #[verifier::opaque]
    pub open spec fn parse(s: Seq<u8>, at: int) -> Option<(rpc_bodyView, int)> {
        match parse_u32(s, at) {
            None => None,
            Some((tag, a1)) => if tag == 0 {
                match call_body::parse(s, a1) {
                    None => None,
                    Some((x, end)) => Some((rpc_bodyView::CALL(x), end)),
                }
            } else if tag == 1 {
                match reply_body::parse(s, a1) {
                    None => None,
                    Some((x, end)) => Some((rpc_bodyView::REPLY(x), end)),
                }
            } else {
                None
            },
        }
    }

    /// Round trip: wherever the encoding of `v` stands in a buffer, the
    /// decoder reads `v` there and stops right behind it.
    pub proof fn lemma_roundtrip(v: rpc_bodyView, s: Seq<u8>, at: int)
        requires
            Self::encodable(v),
            holds_at(s, at, Self::wire(v)),
        ensures
            Self::parse(s, at) == Some((v, at + Self::wire(v).len())),
    {
        reveal(rpc_body::wire);
        reveal(rpc_body::parse);
        match v {
            rpc_bodyView::CALL(x) => {
                lemma_holds_at_concat(s, at, u32_wire(0), call_body::wire(x));
                lemma_roundtrip_u32(0, s, at);
                call_body::lemma_roundtrip(x, s, at + 4);
            },
            rpc_bodyView::REPLY(x) => {
                lemma_holds_at_concat(s, at, u32_wire(1), reply_body::wire(x));
                lemma_roundtrip_u32(1, s, at);
                reply_body::lemma_roundtrip(x, s, at + 4);
            },
        }
    }

    /// Whether the value has an encoding.
    pub fn fits(&self) -> (b: bool)
        ensures
            b == Self::encodable(self@),
    {
        match self {
            rpc_body::CALL(x) => x.fits(),
            rpc_body::REPLY(x) => x.fits(),
        }
    }

    /// Appends the encoding of the value to `out`.
    pub fn serialize(&self, out: &mut Vec<u8>)
        requires
            Self::encodable(self@),
        ensures
            final(out)@ == old(out)@ + Self::wire(self@),
    {
        proof {
            reveal(rpc_body::wire);
        }
        match self {
            rpc_body::CALL(x) => {
                encode_u32(0, out);
                x.serialize(out);
                assert(out@ =~= old(out)@ + Self::wire(self@));
            },
            rpc_body::REPLY(x) => {
                encode_u32(1, out);
                x.serialize(out);
                assert(out@ =~= old(out)@ + Self::wire(self@));
            },
        }
    }

    /// Decodes a value at the offset `at` of `input`, and returns it with the
    /// offset behind it.
    pub fn deserialize(input: &[u8], at: usize) -> (r: Result<(rpc_body, usize), DecodeError>)
        ensures
            match Self::parse(input@, at as int) {
                Some((v, end)) => r matches Ok(p) && p.0@ == v && p.1 == end && end <= input@.len(),
                None => r is Err,
            },
    {
        proof {
            reveal(rpc_body::parse);
        }
        let (tag, at) = decode_u32(input, at)?;
        if tag == 0 {
            let (x, at) = call_body::deserialize(input, at)?;
            Ok((rpc_body::CALL(x), at))
        } else if tag == 1 {
            let (x, at) = reply_body::deserialize(input, at)?;
            Ok((rpc_body::REPLY(x), at))
        } else {
            Err(DecodeError {  })
        }
    }
}

/// An RPC message. A reply carries the transaction id of the call it answers.
#[derive(Clone, Debug, PartialEq, Eq)]
pub struct rpc_msg {
    pub xid: u32,
    pub body: rpc_body,
}

/// What a [`rpc_msg`] holds, as plain values.
pub struct rpc_msgView {
    pub xid: u32,
    pub body: rpc_bodyView,
}

impl View for rpc_msg {
    type V = rpc_msgView;

    open spec fn view(&self) -> rpc_msgView {
        rpc_msgView {
            xid: self.xid,
            body: self.body@,
        }
    }
}

impl rpc_msg {
    /// Every length in the value fits the 32 bits that the wire gives it.
    pub open spec fn encodable(v: rpc_msgView) -> bool {
        rpc_body::encodable(v.body)
    }

    /// The fields one behind the other, in the order of their declaration.
    #[verifier::opaque]
    pub open spec fn wire(v: rpc_msgView) -> Seq<u8> {
        u32_wire(v.xid) + rpc_body::wire(v.body)
    }

    /// What a decoder reads at the offset `at` of `s`, with the offset behind
    /// it; `None` where a field does not decode.
    #[verifier::opaque]
    pub open spec fn parse(s: Seq<u8>, at: int) -> Option<(rpc_msgView, int)> {
        match parse_u32(s, at) {
            None => None,
            Some((xid, a1)) => match rpc_body::parse(s, a1) {
                None => None,
                Some((body, a2)) => Some((rpc_msgView { xid, body }, a2)),
            },
        }
    }

    /// Round trip: wherever the encoding of `v` stands in a buffer, the
    /// decoder reads `v` there and stops right behind it.
    pub proof fn lemma_roundtrip(v: rpc_msgView, s: Seq<u8>, at: int)
        requires
            Self::encodable(v),
            holds_at(s, at, Self::wire(v)),
        ensures
            Self::parse(s, at) == Some((v, at + Self::wire(v).len())),
    {
        reveal(rpc_msg::wire);
        reveal(rpc_msg::parse);
        let w0 = u32_wire(v.xid);
        let w1 = rpc_body::wire(v.body);
        lemma_holds_at_concat(s, at, w0, w1);
        lemma_roundtrip_u32(v.xid, s, at);
        rpc_body::lemma_roundtrip(v.body, s, at + w0.len());
    }

    /// Whether the value has an encoding.
    pub fn fits(&self) -> (b: bool)
        ensures
            b == Self::encodable(self@),
    {
        self.body.fits()
    }

    /// Appends the encoding of the value to `out`.
    pub fn serialize(&self, out: &mut Vec<u8>)
        requires
            Self::encodable(self@),
        ensures
            final(out)@ == old(out)@ + Self::wire(self@),
    {
        proof {
            reveal(rpc_msg::wire);
        }
        let ghost base = out@;
        encode_u32(self.xid, out);
        self.body.serialize(out);
        proof {
            lemma_concat_assoc(base, u32_wire(self.xid), rpc_body::wire(self.body@));
        }
    }

    /// Decodes a value at the offset `at` of `input`, and returns it with the
    /// offset behind it.
    pub fn deserialize(input: &[u8], at: usize) -> (r: Result<(rpc_msg, usize), DecodeError>)
        ensures
            match Self::parse(input@, at as int) {
                Some((v, end)) => r matches Ok(p) && p.0@ == v && p.1 == end && end <= input@.len(),
                None => r is Err,
            },
    {
        proof {
            reveal(rpc_msg::parse);
        }
        let (xid, at) = decode_u32(input, at)?;
        let (body, at) = rpc_body::deserialize(input, at)?;
        Ok((rpc_msg { xid, body }, at))
    }
}

/// The message of an accepted reply with transaction id `xid` and status
/// `status`. The verifier is `AUTH_NULL` with an empty body.
pub open spec fn accepted_msg(xid: u32, status: accept_body) -> rpc_msgView {
    rpc_msgView {
        xid,
        body: rpc_bodyView::REPLY(
            reply_bodyView::MSG_ACCEPTED(
                accepted_replyView {
                    verf: opaque_authView { flavor: auth_flavor::AUTH_NULL, body: Seq::empty() },
                    reply_data: status,
                },
            ),
        ),
    }
}

/// The message that denies a call for its RPC version. It reports the
/// one version that is supported, 2, as the lowest and the highest.
pub open spec fn denied_msg(xid: u32) -> rpc_msgView {
    rpc_msgView {
        xid,
        body: rpc_bodyView::REPLY(
            reply_bodyView::MSG_DENIED(
                rejected_reply::RPC_MISMATCH(mismatch_info { low: 2, high: 2 }),
            ),
        ),
    }
}

fn accepted(xid: u32, status: accept_body) -> (r: rpc_msg)
    ensures
        r@ == accepted_msg(xid, status),
        rpc_msg::encodable(r@),
{
    let reply = reply_body::MSG_ACCEPTED(
        accepted_reply { verf: opaque_auth::default(), reply_data: status },
    );
    rpc_msg { xid, body: rpc_body::REPLY(reply) }
}

/// The envelope in front of every result: the call was accepted and
/// carried out.
pub fn make_success_reply(xid: u32) -> (r: rpc_msg)
    ensures
        r@ == accepted_msg(xid, accept_body::SUCCESS),
        rpc_msg::encodable(r@),
{
    accepted(xid, accept_body::SUCCESS)
}

/// The program does not offer the procedure.
pub fn proc_unavail_reply_message(xid: u32) -> (r: rpc_msg)
    ensures
        r@ == accepted_msg(xid, accept_body::PROC_UNAVAIL),
        rpc_msg::encodable(r@),
{
    accepted(xid, accept_body::PROC_UNAVAIL)
}

/// The server does not offer the program.
pub fn prog_unavail_reply_message(xid: u32) -> (r: rpc_msg)
    ensures
        r@ == accepted_msg(xid, accept_body::PROG_UNAVAIL),
        rpc_msg::encodable(r@),
{
    accepted(xid, accept_body::PROG_UNAVAIL)
}

/// The server offers the program in the version `accepted_ver` only.
pub fn prog_mismatch_reply_message(xid: u32, accepted_ver: u32) -> (r: rpc_msg)
    ensures
        r@ == accepted_msg(
            xid,
            accept_body::PROG_MISMATCH(mismatch_info { low: accepted_ver, high: accepted_ver }),
        ),
        rpc_msg::encodable(r@),
{
    accepted(
        xid,
        accept_body::PROG_MISMATCH(mismatch_info { low: accepted_ver, high: accepted_ver }),
    )
}

/// The arguments of the call could not be understood.
pub fn garbage_args_reply_message(xid: u32) -> (r: rpc_msg)
    ensures
        r@ == accepted_msg(xid, accept_body::GARBAGE_ARGS),
        rpc_msg::encodable(r@),
{
    accepted(xid, accept_body::GARBAGE_ARGS)
}

/// The call was not of RPC version 2.
pub fn rpc_vers_mismatch(xid: u32) -> (r: rpc_msg)
    ensures
        r@ == denied_msg(xid),
        rpc_msg::encodable(r@),
{
    let reply = reply_body::MSG_DENIED(
        rejected_reply::RPC_MISMATCH(mismatch_info { low: 2, high: 2 }),
    );
    rpc_msg { xid, body: rpc_body::REPLY(reply) }
}

/// The 24 bytes of the envelope that stands in front of every result.
pub open spec fn success_reply_wire(xid: u32) -> Seq<u8> {
    rpc_msg::wire(accepted_msg(xid, accept_body::SUCCESS))
}

/// The envelope in front of a result is 24 bytes long.
pub proof fn lemma_success_reply_len(xid: u32)
    ensures
        success_reply_wire(xid).len() == 24,
{
    reveal(rpc_msg::wire);
    reveal(rpc_body::wire);
    reveal(reply_body::wire);
    reveal(accepted_reply::wire);
    reveal(opaque_auth::wire);
    reveal(accept_body::wire);
    assert(crate::protocol::xdr::pad_len(0) == 0);
}

/// Every message starts with the four bytes of its transaction id.
pub proof fn lemma_wire_starts_with_xid(m: rpc_msgView)
    ensures
        rpc_msg::wire(m).len() >= 4,
        rpc_msg::wire(m).subrange(0, 4) == u32_wire(m.xid),
{
    reveal(rpc_msg::wire);
    let head = u32_wire(m.xid);
    let body = rpc_body::wire(m.body);
    assert((head + body).subrange(0, 4) =~= head);
}

/// An accepted reply decodes as a reply that carries the transaction id
/// it was built with.
pub proof fn lemma_accepted_reply_keeps_xid(xid: u32, status: accept_body)
    ensures
        rpc_msg::parse(rpc_msg::wire(accepted_msg(xid, status)), 0) == Some(
            (accepted_msg(xid, status), rpc_msg::wire(accepted_msg(xid, status)).len() as int),
        ),
        accepted_msg(xid, status).xid == xid,
{
    let m = accepted_msg(xid, status);
    assert(opaque_encodable(Seq::<u8>::empty()));
    assert(rpc_msg::encodable(m));
    crate::protocol::xdr::lemma_holds_at_self(rpc_msg::wire(m));
    rpc_msg::lemma_roundtrip(m, rpc_msg::wire(m), 0);
}

/// A denial decodes as a reply that carries the transaction id it was
/// built with.
pub proof fn lemma_denied_reply_keeps_xid(xid: u32)
    ensures
        rpc_msg::parse(rpc_msg::wire(denied_msg(xid)), 0) == Some(
            (denied_msg(xid), rpc_msg::wire(denied_msg(xid)).len() as int),
        ),
        denied_msg(xid).xid == xid,
{
    let m = denied_msg(xid);
    assert(rpc_msg::encodable(m));
    crate::protocol::xdr::lemma_holds_at_self(rpc_msg::wire(m));
    rpc_msg::lemma_roundtrip(m, rpc_msg::wire(m), 0);
}

} // verus!
