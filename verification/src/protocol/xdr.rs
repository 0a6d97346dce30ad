//! XDR primitives (RFC 4506).
//!
//! Every wire type is described by two specification functions: its
//! canonical encoding, and what a decoder reads at a given offset of a
//! buffer. The executable encoders and decoders are proved against them,
//! and a round-trip lemma relates the two.

use byteorder::{BigEndian, ByteOrder};
use vstd::prelude::*;
use vstd::slice::slice_subrange;

pub mod mount;
pub mod nfs3;
pub mod portmap;
pub mod rpc;

verus! {

/// The input ended early, a length ran past the end of the input, or a
/// discriminant named no known variant.
#[derive(Clone, Copy, Debug, PartialEq, Eq)]
pub struct DecodeError {}

/// The bytes `w` stand in `s` at offset `at`.
#[verifier::opaque]
pub open spec fn holds_at(s: Seq<u8>, at: int, w: Seq<u8>) -> bool {
    &&& 0 <= at
    &&& at + w.len() <= s.len()
    &&& s.subrange(at, at + w.len()) == w
}

/// A concatenation stands at `at` exactly when its two parts stand one
/// behind the other.
pub proof fn lemma_holds_at_concat(s: Seq<u8>, at: int, a: Seq<u8>, b: Seq<u8>)
    ensures
        holds_at(s, at, a + b) <==> holds_at(s, at, a) && holds_at(s, at + a.len(), b),
{
    reveal(holds_at);
    if holds_at(s, at, a + b) {
        assert(s.subrange(at, at + a.len()) =~= (a + b).subrange(0, a.len() as int));
        assert((a + b).subrange(0, a.len() as int) =~= a);
        assert(s.subrange(at + a.len(), at + a.len() + b.len()) =~= (a + b).subrange(
            a.len() as int,
            (a + b).len() as int,
        ));
        assert((a + b).subrange(a.len() as int, (a + b).len() as int) =~= b);
    }
    if holds_at(s, at, a) && holds_at(s, at + a.len(), b) {
        assert(s.subrange(at, at + (a + b).len()) =~= s.subrange(at, at + a.len()) + s.subrange(
            at + a.len(),
            at + a.len() + b.len(),
        ));
    }
}

/// Concatenation is associative.
pub proof fn lemma_concat_assoc(a: Seq<u8>, b: Seq<u8>, c: Seq<u8>)
    ensures
        (a + b) + c == a + (b + c),
{
    assert((a + b) + c =~= a + (b + c));
}

/// Where `w` stands, each of its parts stands too.
pub proof fn lemma_holds_at_part(s: Seq<u8>, at: int, w: Seq<u8>, i: int, j: int)
    requires
        holds_at(s, at, w),
        0 <= i <= j <= w.len(),
    ensures
        holds_at(s, at + i, w.subrange(i, j)),
{
    reveal(holds_at);
    assert(s.subrange(at + i, at + i + (j - i)) =~= s.subrange(at, at + w.len()).subrange(i, j));
}

/// What stands in a buffer lies within it.
pub proof fn lemma_holds_at_bounds(s: Seq<u8>, at: int, w: Seq<u8>)
    requires
        holds_at(s, at, w),
    ensures
        0 <= at,
        at + w.len() <= s.len(),
{
    reveal(holds_at);
}

/// Every sequence stands at offset 0 of itself.
pub proof fn lemma_holds_at_self(w: Seq<u8>)
    ensures
        holds_at(w, 0, w),
{
    reveal(holds_at);
    assert(w.subrange(0, w.len() as int) =~= w);
}

// ---------------------------------------------------------------------
// unsigned 32-bit integers
// ---------------------------------------------------------------------

/// The four bytes of `v`, from the most significant to the least.
#[verifier::opaque]
pub open spec fn u32_bytes(v: u32) -> (u8, u8, u8, u8) {
    (
        (v / 0x100_0000) as u8,
        ((v / 0x1_0000) % 0x100) as u8,
        ((v / 0x100) % 0x100) as u8,
        (v % 0x100) as u8,
    )
}

/// The number whose bytes are `b0` to `b3`, from the most significant to
/// the least.
#[verifier::opaque]
pub open spec fn u32_of_bytes(b0: u8, b1: u8, b2: u8, b3: u8) -> u32 {
    (b0 as int * 0x100_0000 + b1 as int * 0x1_0000 + b2 as int * 0x100 + b3 as int) as u32
}

/// A number is found again from its bytes.
pub proof fn lemma_u32_bytes(v: u32)
    ensures
        u32_of_bytes(u32_bytes(v).0, u32_bytes(v).1, u32_bytes(v).2, u32_bytes(v).3) == v,
{
    reveal(u32_bytes);
    reveal(u32_of_bytes);
}

/// The four bytes of `v`, most significant first.
pub open spec fn u32_wire(v: u32) -> Seq<u8> {
    seq![u32_bytes(v).0, u32_bytes(v).1, u32_bytes(v).2, u32_bytes(v).3]
}

/// The big-endian value of the four bytes of `s` that start at `at`.
pub open spec fn be_u32(s: Seq<u8>, at: int) -> u32 {
    u32_of_bytes(s[at], s[at + 1], s[at + 2], s[at + 3])
}

/// What a decoder reads at the offset `at` of `s`, with the offset behind
/// it; `None` where the input ends early.
pub open spec fn parse_u32(s: Seq<u8>, at: int) -> Option<(u32, int)> {
    if 0 <= at && at + 4 <= s.len() {
        Some((be_u32(s, at), at + 4))
    } else {
        None
    }
}

/// Round trip: wherever the encoding of `v` stands in a buffer, the decoder
/// reads `v` there and stops right behind it.
pub proof fn lemma_roundtrip_u32(v: u32, s: Seq<u8>, at: int)
    requires
        holds_at(s, at, u32_wire(v)),
    ensures
        parse_u32(s, at) == Some((v, at + 4)),
{
    reveal(holds_at);
    lemma_u32_bytes(v);
    let w = u32_wire(v);
    assert(s.subrange(at, at + 4)[0] == w[0]);
    assert(s.subrange(at, at + 4)[1] == w[1]);
    assert(s.subrange(at, at + 4)[2] == w[2]);
    assert(s.subrange(at, at + 4)[3] == w[3]);
}

/// `byteorder::BigEndian::read_u32`: the value of the first four bytes of
/// `buf`, read most significant byte first. The outside function panics on
/// a shorter buffer, which the precondition excludes.
#[verifier::external_body]
fn read_be_u32(buf: &[u8]) -> (v: u32)
    requires
        buf@.len() >= 4,
    ensures
        v == be_u32(buf@, 0),
{
    BigEndian::read_u32(buf)
}

/// `byteorder::BigEndian::write_u32`: the four bytes it stores for `n`,
/// most significant byte first.
#[verifier::external_body]
fn be_bytes_u32(n: u32) -> (r: [u8; 4])
    ensures
        r@ == u32_wire(n),
{
    let mut buf = [0u8; 4];
    BigEndian::write_u32(&mut buf, n);
    buf
}

/// Appends the encoding of a 32-bit integer to `out`.
pub fn encode_u32(v: u32, out: &mut Vec<u8>)
    ensures
        final(out)@ == old(out)@ + u32_wire(v),
{
    let bytes = be_bytes_u32(v);
    out.extend_from_slice(bytes.as_slice());
    assert(out@ =~= old(out)@ + u32_wire(v));
}

/// Decodes a 32-bit integer at the offset `at` of `input`, and returns it with the
/// offset behind it.
pub fn decode_u32(input: &[u8], at: usize) -> (r: Result<(u32, usize), DecodeError>)
    ensures
        match parse_u32(input@, at as int) {
            Some((v, end)) => r matches Ok(p) && p.0 == v && p.1 == end && end <= input@.len(),
            None => r is Err,
        },
{
    if input.len() < 4 || at > input.len() - 4 {
        return Err(DecodeError {  });
    }
    let v = read_be_u32(slice_subrange(input, at, at + 4));
    Ok((v, at + 4))
}

// ---------------------------------------------------------------------
// unsigned 64-bit integers
// ---------------------------------------------------------------------

/// The eight bytes of `v`, most significant first.
pub open spec fn u64_wire(v: u64) -> Seq<u8> {
    u32_wire((v / 0x1_0000_0000) as u32) + u32_wire((v % 0x1_0000_0000) as u32)
}

/// The big-endian value of the eight bytes of `s` that start at `at`.
pub open spec fn be_u64(s: Seq<u8>, at: int) -> u64 {
    (be_u32(s, at) as int * 0x1_0000_0000 + be_u32(s, at + 4) as int) as u64
}

/// What a decoder reads at the offset `at` of `s`, with the offset behind
/// it; `None` where the input ends early.
pub open spec fn parse_u64(s: Seq<u8>, at: int) -> Option<(u64, int)> {
    if 0 <= at && at + 8 <= s.len() {
        Some((be_u64(s, at), at + 8))
    } else {
        None
    }
}

/// Round trip: wherever the encoding of `v` stands in a buffer, the decoder
/// reads `v` there and stops right behind it.
pub proof fn lemma_roundtrip_u64(v: u64, s: Seq<u8>, at: int)
    requires
        holds_at(s, at, u64_wire(v)),
    ensures
        parse_u64(s, at) == Some((v, at + 8)),
{
    let hi = (v / 0x1_0000_0000) as u32;
    let lo = (v % 0x1_0000_0000) as u32;
    lemma_holds_at_concat(s, at, u32_wire(hi), u32_wire(lo));
    lemma_roundtrip_u32(hi, s, at);
    lemma_roundtrip_u32(lo, s, at + 4);
}

/// `byteorder::BigEndian::read_u64`: the value of the first eight bytes of
/// `buf`, read most significant byte first. The outside function panics on
/// a shorter buffer, which the precondition excludes.
#[verifier::external_body]
fn read_be_u64(buf: &[u8]) -> (v: u64)
    requires
        buf@.len() >= 8,
    ensures
        v == be_u64(buf@, 0),
{
    BigEndian::read_u64(buf)
}

/// `byteorder::BigEndian::write_u64`: the eight bytes it stores for `n`,
/// most significant byte first.
#[verifier::external_body]
fn be_bytes_u64(n: u64) -> (r: [u8; 8])
    ensures
        r@ == u64_wire(n),
{
    let mut buf = [0u8; 8];
    BigEndian::write_u64(&mut buf, n);
    buf
}

/// Appends the encoding of a 64-bit integer to `out`.
pub fn encode_u64(v: u64, out: &mut Vec<u8>)
    ensures
        final(out)@ == old(out)@ + u64_wire(v),
{
    let bytes = be_bytes_u64(v);
    out.extend_from_slice(bytes.as_slice());
    assert(out@ =~= old(out)@ + u64_wire(v));
}

/// Decodes a 64-bit integer at the offset `at` of `input`, and returns it with the
/// offset behind it.
pub fn decode_u64(input: &[u8], at: usize) -> (r: Result<(u64, usize), DecodeError>)
    ensures
        match parse_u64(input@, at as int) {
            Some((v, end)) => r matches Ok(p) && p.0 == v && p.1 == end && end <= input@.len(),
            None => r is Err,
        },
{
    if input.len() < 8 || at > input.len() - 8 {
        return Err(DecodeError {  });
    }
    let v = read_be_u64(slice_subrange(input, at, at + 8));
    Ok((v, at + 8))
}

// ---------------------------------------------------------------------
// booleans
// ---------------------------------------------------------------------

/// A boolean is the 32-bit integer 1 or 0.
pub open spec fn bool_wire(b: bool) -> Seq<u8> {
    u32_wire(if b { 1u32 } else { 0u32 })
}

/// A decoder takes every non-zero integer for `true`.
pub open spec fn parse_bool(s: Seq<u8>, at: int) -> Option<(bool, int)> {
    match parse_u32(s, at) {
        None => None,
        Some((v, end)) => Some((v > 0, end)),
    }
}

/// Round trip: wherever the encoding of `v` stands in a buffer, the decoder
/// reads `v` there and stops right behind it.
pub proof fn lemma_roundtrip_bool(b: bool, s: Seq<u8>, at: int)
    requires
        holds_at(s, at, bool_wire(b)),
    ensures
        parse_bool(s, at) == Some((b, at + 4)),
{
    lemma_roundtrip_u32(if b { 1u32 } else { 0u32 }, s, at);
}

/// Appends the encoding of a boolean to `out`.
pub fn encode_bool(b: bool, out: &mut Vec<u8>)
    ensures
        final(out)@ == old(out)@ + bool_wire(b),
{
    encode_u32(if b { 1 } else { 0 }, out);
}

/// Decodes a boolean at the offset `at` of `input`, and returns it with the
/// offset behind it.
pub fn decode_bool(input: &[u8], at: usize) -> (r: Result<(bool, usize), DecodeError>)
    ensures
        match parse_bool(input@, at as int) {
            Some((v, end)) => r matches Ok(p) && p.0 == v && p.1 == end && end <= input@.len(),
            None => r is Err,
        },
{
    let (v, end) = decode_u32(input, at)?;
    Ok((v > 0, end))
}

// ---------------------------------------------------------------------
// opaque data of fixed length 8 (verifiers)
// ---------------------------------------------------------------------

/// What a decoder reads at the offset `at` of `s`, with the offset behind
/// it; `None` where the input ends early.
pub open spec fn parse_fixed8(s: Seq<u8>, at: int) -> Option<(Seq<u8>, int)> {
    if 0 <= at && at + 8 <= s.len() {
        Some((s.subrange(at, at + 8), at + 8))
    } else {
        None
    }
}

/// Fixed-length opaque data is written as it is, with no length in front; a
/// length of 8 needs no padding.
pub proof fn lemma_roundtrip_fixed8(v: Seq<u8>, s: Seq<u8>, at: int)
    requires
        v.len() == 8,
        holds_at(s, at, v),
    ensures
        parse_fixed8(s, at) == Some((v, at + 8)),
{
    reveal(holds_at);
}

/// Appends eight bytes to `out`.
pub fn encode_fixed8(v: &[u8; 8], out: &mut Vec<u8>)
    ensures
        final(out)@ == old(out)@ + v@,
{
    out.extend_from_slice(v.as_slice());
    assert(out@ =~= old(out)@ + v@);
}

/// Reads eight bytes at the offset `at` of `input`, and returns them with
/// the offset behind them.
pub fn decode_fixed8(input: &[u8], at: usize) -> (r: Result<([u8; 8], usize), DecodeError>)
    ensures
        match parse_fixed8(input@, at as int) {
            Some((v, end)) => r matches Ok(p) && p.0@ == v && p.1 == end && end <= input@.len(),
            None => r is Err,
        },
{
    if input.len() < 8 || at > input.len() - 8 {
        return Err(DecodeError {  });
    }
    let v: [u8; 8] = [
        input[at],
        input[at + 1],
        input[at + 2],
        input[at + 3],
        input[at + 4],
        input[at + 5],
        input[at + 6],
        input[at + 7],
    ];
    assert(v@ =~= input@.subrange(at as int, at + 8));
    Ok((v, at + 8))
}

// ---------------------------------------------------------------------
// opaque data and strings of variable length
// ---------------------------------------------------------------------

/// The number of zero bytes that bring `n` bytes up to a multiple of four.
pub open spec fn pad_len(n: int) -> int {
    (4 - n % 4) % 4
}

/// `n` zero bytes.
pub open spec fn zeros(n: int) -> Seq<u8> {
    Seq::new(n as nat, |i: int| 0u8)
}

/// Variable-length data has a length that fits 32 bits.
pub open spec fn opaque_encodable(data: Seq<u8>) -> bool {
    data.len() <= u32::MAX
}

/// Length, data, and zero bytes up to a multiple of four.
pub open spec fn opaque_wire(data: Seq<u8>) -> Seq<u8> {
    u32_wire(data.len() as u32) + data + zeros(pad_len(data.len() as int))
}

/// A decoder skips the padding without looking at it, and fails when
/// the length or the padding runs past the end of the input.
pub open spec fn parse_opaque(s: Seq<u8>, at: int) -> Option<(Seq<u8>, int)> {
    match parse_u32(s, at) {
        None => None,
        Some((n, start)) => if start + n + pad_len(n as int) <= s.len() {
            Some((s.subrange(start, start + n), start + n + pad_len(n as int)))
        } else {
            None
        },
    }
}

/// Round trip: wherever the encoding of `data` stands in a buffer, the decoder
/// reads `data` there and stops right behind it.
pub proof fn lemma_roundtrip_opaque(data: Seq<u8>, s: Seq<u8>, at: int)
    requires
        opaque_encodable(data),
        holds_at(s, at, opaque_wire(data)),
    ensures
        parse_opaque(s, at) == Some((data, at + opaque_wire(data).len())),
{
    let head = u32_wire(data.len() as u32);
    let pad = zeros(pad_len(data.len() as int));
    lemma_holds_at_concat(s, at, head + data, pad);
    lemma_holds_at_concat(s, at, head, data);
    lemma_roundtrip_u32(data.len() as u32, s, at);
    reveal(holds_at);
}

/// Whether the data has an encoding.
pub fn opaque_fits(data: &[u8]) -> (b: bool)
    ensures
        b == opaque_encodable(data@),
{
    data.len() <= 0xffff_ffff
}

/// Appends the encoding of variable-length data to `out`.
pub fn encode_opaque(data: &[u8], out: &mut Vec<u8>)
    requires
        opaque_encodable(data@),
    ensures
        final(out)@ == old(out)@ + opaque_wire(data@),
{
    let n = data.len();
    encode_u32(n as u32, out);
    out.extend_from_slice(data);
    let pad = (4 - n % 4) % 4;
    let ghost body = out@;
    assert(body =~= old(out)@ + u32_wire(n as u32) + data@);
    let mut i: usize = 0;
    while i < pad
        invariant
            i <= pad,
            pad == pad_len(n as int),
            out@ == body + zeros(i as int),
        decreases pad - i,
    {
        out.push(0);
        i += 1;
        assert(out@ =~= body + zeros(i as int));
    }
    assert(out@ =~= old(out)@ + opaque_wire(data@));
}

/// Decodes variable-length data at the offset `at` of `input`, and returns
/// it with the offset behind its padding.
pub fn decode_opaque(input: &[u8], at: usize) -> (r: Result<(Vec<u8>, usize), DecodeError>)
    ensures
        match parse_opaque(input@, at as int) {
            Some((v, end)) => r matches Ok(p) && p.0@ == v && p.1 == end && end <= input@.len(),
            None => r is Err,
        },
{
    let (n, start) = decode_u32(input, at)?;
    let n = n as usize;
    let pad = (4 - n % 4) % 4;
    let rest = input.len() - start;
    if rest < n || rest - n < pad {
        return Err(DecodeError {  });
    }
    let mut data: Vec<u8> = Vec::new();
    data.extend_from_slice(slice_subrange(input, start, start + n));
    assert(data@ =~= input@.subrange(start as int, start + n));
    Ok((data, start + n + pad))
}

// ---------------------------------------------------------------------
// variable-length arrays of 32-bit integers
// ---------------------------------------------------------------------

/// An array has a number of elements that fits 32 bits.
pub open spec fn u32_array_encodable(v: Seq<u32>) -> bool {
    v.len() <= u32::MAX
}

/// The elements one behind the other, four bytes each.
pub open spec fn u32_items_wire(v: Seq<u32>) -> Seq<u8> {
    Seq::new(4 * v.len(), |i: int| u32_wire(v[i / 4])[i % 4])
}

/// The number of elements, then each element.
pub open spec fn u32_array_wire(v: Seq<u32>) -> Seq<u8> {
    u32_wire(v.len() as u32) + u32_items_wire(v)
}

/// What a decoder reads at the offset `at` of `s`, with the offset behind
/// it; `None` where the count or an element runs past the end of the
/// input.
pub open spec fn parse_u32_array(s: Seq<u8>, at: int) -> Option<(Seq<u32>, int)> {
    match parse_u32(s, at) {
        None => None,
        Some((n, start)) => if start + 4 * n <= s.len() {
            Some((Seq::new(n as nat, |i: int| be_u32(s, start + 4 * i)), start + 4 * n))
        } else {
            None
        },
    }
}

/// The four bytes of element `i` stand at offset `4 * i` of the items.
pub proof fn lemma_u32_items_chunk(v: Seq<u32>, i: int)
    requires
        0 <= i < v.len(),
    ensures
        u32_items_wire(v).subrange(4 * i, 4 * i + 4) == u32_wire(v[i]),
{
    let w = u32_items_wire(v);
    let c = w.subrange(4 * i, 4 * i + 4);
    assert forall|k: int| 0 <= k < 4 implies c[k] == u32_wire(v[i])[k] by {
        assert((4 * i + k) / 4 == i);
        assert((4 * i + k) % 4 == k);
        assert(c[k] == w[4 * i + k]);
    }
    assert(c =~= u32_wire(v[i]));
}

/// Round trip: wherever the encoding of `v` stands in a buffer, the decoder
/// reads `v` there and stops right behind it.
pub proof fn lemma_roundtrip_u32_array(v: Seq<u32>, s: Seq<u8>, at: int)
    requires
        u32_array_encodable(v),
        holds_at(s, at, u32_array_wire(v)),
    ensures
        parse_u32_array(s, at) == Some((v, at + u32_array_wire(v).len())),
{
    let items = u32_items_wire(v);
    lemma_holds_at_concat(s, at, u32_wire(v.len() as u32), items);
    lemma_roundtrip_u32(v.len() as u32, s, at);
    lemma_holds_at_bounds(s, at + 4, items);
    let start = at + 4;
    let got = Seq::new(v.len(), |i: int| be_u32(s, start + 4 * i));
    assert forall|i: int| 0 <= i < v.len() implies got[i] == v[i] by {
        lemma_u32_items_chunk(v, i);
        lemma_holds_at_part(s, start, items, 4 * i, 4 * i + 4);
        lemma_roundtrip_u32(v[i], s, start + 4 * i);
    }
    assert(got =~= v);
}

/// Whether the array has an encoding.
pub fn u32_array_fits(v: &Vec<u32>) -> (b: bool)
    ensures
        b == u32_array_encodable(v@),
{
    v.len() <= 0xffff_ffff
}

/// Appends the encoding of an array of 32-bit integers to `out`.
pub fn encode_u32_array(v: &Vec<u32>, out: &mut Vec<u8>)
    requires
        u32_array_encodable(v@),
    ensures
        final(out)@ == old(out)@ + u32_array_wire(v@),
{
    let n = v.len();
    encode_u32(n as u32, out);
    let ghost head = out@;
    let mut i: usize = 0;
    while i < n
        invariant
            i <= n,
            n == v@.len(),
            out@ == head + u32_items_wire(v@.subrange(0, i as int)),
        decreases n - i,
    {
        proof {
            lemma_u32_items_chunk(v@.subrange(0, i + 1), i as int);
        }
        encode_u32(v[i], out);
        i += 1;
        assert(u32_items_wire(v@.subrange(0, i as int)) =~= u32_items_wire(
            v@.subrange(0, i - 1),
        ) + u32_items_wire(v@.subrange(0, i as int)).subrange(4 * (i - 1), 4 * i));
    }
    assert(v@.subrange(0, n as int) =~= v@);
}

/// Decodes an array of 32-bit integers at the offset `at` of `input`, and
/// returns it with the offset behind it.
pub fn decode_u32_array(input: &[u8], at: usize) -> (r: Result<(Vec<u32>, usize), DecodeError>)
    ensures
        match parse_u32_array(input@, at as int) {
            Some((v, end)) => r matches Ok(p) && p.0@ == v && p.1 == end && end <= input@.len(),
            None => r is Err,
        },
{
    let (n, start) = decode_u32(input, at)?;
    let n = n as usize;
    if (input.len() - start) / 4 < n {
        return Err(DecodeError {  });
    }
    let mut items: Vec<u32> = Vec::new();
    let mut i: usize = 0;
    let mut pos = start;
    while i < n
        invariant
            i <= n,
            start + 4 * n <= input@.len() <= usize::MAX,
            pos == start + 4 * i,
            items@ == Seq::new(i as nat, |k: int| be_u32(input@, start + 4 * k)),
        decreases n - i,
    {
        let (v, next) = match decode_u32(input, pos) {
            Ok(p) => p,
            Err(e) => {
                return Err(e);
            },
        };
        items.push(v);
        i += 1;
        pos = next;
        assert(items@ =~= Seq::new(i as nat, |k: int| be_u32(input@, start + 4 * k)));
    }
    Ok((items, pos))
}

} // verus!
