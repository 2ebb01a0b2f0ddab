//! Big-endian integers on the wire.
//!
//! Every multi-byte integer of a frame is written most significant byte first. Signed integers
//! travel as their two's complement bit pattern. The spec functions say what the bytes are; the
//! executable functions append to or read from a byte buffer and are proved against them.

use vstd::prelude::*;

verus! {

/// The two bytes of `v`, most significant first.
pub open spec fn be16(v: u16) -> Seq<u8> {
    seq![(v / 0x100) as u8, (v % 0x100) as u8]
}

/// The four bytes of `v`, most significant first.
pub open spec fn be32(v: u32) -> Seq<u8> {
    seq![
        (v / 0x100_0000) as u8,
        ((v / 0x1_0000) % 0x100) as u8,
        ((v / 0x100) % 0x100) as u8,
        (v % 0x100) as u8,
    ]
}

/// The eight bytes of `v`, most significant first.
pub open spec fn be64(v: u64) -> Seq<u8> {
    be32((v / 0x1_0000_0000) as u32) + be32((v % 0x1_0000_0000) as u32)
}

/// The number whose big-endian bytes are the first two of `s`.
pub open spec fn from_be16(s: Seq<u8>) -> u16
    recommends
        s.len() >= 2,
{
    (s[0] * 0x100 + s[1]) as u16
}

/// The number whose big-endian bytes are the first four of `s`.
pub open spec fn from_be32(s: Seq<u8>) -> u32
    recommends
        s.len() >= 4,
{
    (s[0] * 0x100_0000 + s[1] * 0x1_0000 + s[2] * 0x100 + s[3]) as u32
}

/// The number whose big-endian bytes are the first eight of `s`.
pub open spec fn from_be64(s: Seq<u8>) -> u64
    recommends
        s.len() >= 8,
{
    (from_be32(s) * 0x1_0000_0000 + from_be32(s.skip(4))) as u64
}

/// The bit pattern of a signed 16-bit integer.
pub open spec fn bits16(v: i16) -> u16 {
    if v >= 0 {
        v as u16
    } else {
        (v + 0x1_0000) as u16
    }
}

/// The bit pattern of a signed 32-bit integer.
pub open spec fn bits32(v: i32) -> u32 {
    if v >= 0 {
        v as u32
    } else {
        (v + 0x1_0000_0000) as u32
    }
}

/// The bit pattern of a signed 64-bit integer.
pub open spec fn bits64(v: i64) -> u64 {
    if v >= 0 {
        v as u64
    } else {
        (v + 0x1_0000_0000_0000_0000) as u64
    }
}

/// The signed 16-bit integer with the bit pattern `u`.
pub open spec fn signed16(u: u16) -> i16 {
    if u < 0x8000 {
        u as i16
    } else {
        (u - 0x1_0000) as i16
    }
}

/// The signed 32-bit integer with the bit pattern `u`.
pub open spec fn signed32(u: u32) -> i32 {
    if u < 0x8000_0000 {
        u as i32
    } else {
        (u - 0x1_0000_0000) as i32
    }
}

/// The signed 64-bit integer with the bit pattern `u`.
pub open spec fn signed64(u: u64) -> i64 {
    if u < 0x8000_0000_0000_0000 {
        u as i64
    } else {
        (u - 0x1_0000_0000_0000_0000) as i64
    }
}

proof fn lemma_split16(v: u16)
    ensures
        v / 0x100 < 0x100,
        (v / 0x100) * 0x100 + v % 0x100 == v,
{
}

proof fn lemma_split32(v: u32)
    ensures
        v / 0x100_0000 < 0x100,
        (v / 0x100_0000) * 0x100_0000 + ((v / 0x1_0000) % 0x100) * 0x1_0000 + ((v / 0x100) % 0x100)
            * 0x100 + v % 0x100 == v,
{
    assert(v / 0x100_0000 < 0x100 && (v / 0x100_0000) * 0x100_0000 + ((v / 0x1_0000) % 0x100)
        * 0x1_0000 + ((v / 0x100) % 0x100) * 0x100 + v % 0x100 == v) by (bit_vector);
}

proof fn lemma_join32(a: u8, b: u8, c: u8, d: u8)
    ensures
        ({
            let v = a * 0x100_0000 + b * 0x1_0000 + c * 0x100 + d;
            &&& v <= u32::MAX
            &&& v / 0x100_0000 == a
            &&& (v / 0x1_0000) % 0x100 == b
            &&& (v / 0x100) % 0x100 == c
            &&& v % 0x100 == d
        }),
{
    let (a, b, c, d) = (a as u32, b as u32, c as u32, d as u32);
    assert(a < 0x100 && b < 0x100 && c < 0x100 && d < 0x100 ==> ({
        let v = a * 0x100_0000 + b * 0x1_0000 + c * 0x100 + d;
        &&& v <= 0xffff_ffff
        &&& v / 0x100_0000 == a
        &&& (v / 0x1_0000) % 0x100 == b
        &&& (v / 0x100) % 0x100 == c
        &&& v % 0x100 == d
    })) by (bit_vector);
}

/// Reading back two bytes that were written gives the number that was written.
pub proof fn lemma_be16_round_trip(v: u16, rest: Seq<u8>)
    ensures
        be16(v).len() == 2,
        from_be16(be16(v) + rest) == v,
{
    lemma_split16(v);
}

/// Reading back four bytes that were written gives the number that was written.
pub proof fn lemma_be32_round_trip(v: u32, rest: Seq<u8>)
    ensures
        be32(v).len() == 4,
        from_be32(be32(v) + rest) == v,
{
    lemma_split32(v);
}

/// Reading back eight bytes that were written gives the number that was written.
pub proof fn lemma_be64_round_trip(v: u64, rest: Seq<u8>)
    ensures
        be64(v).len() == 8,
        from_be64(be64(v) + rest) == v,
{
    let hi = (v / 0x1_0000_0000) as u32;
    let lo = (v % 0x1_0000_0000) as u32;
    let s = be64(v) + rest;
    lemma_be32_round_trip(hi, be32(lo) + rest);
    lemma_be32_round_trip(lo, rest);
    assert(s =~= be32(hi) + (be32(lo) + rest));
    assert(s.skip(4) =~= be32(lo) + rest);
}

/// Writing the number that two bytes stand for gives those bytes.
pub proof fn lemma_be16_bytes_round_trip(s: Seq<u8>)
    requires
        s.len() >= 2,
    ensures
        be16(from_be16(s)) == s.subrange(0, 2),
{
    assert(be16(from_be16(s)) =~= s.subrange(0, 2));
}

/// Writing the number that four bytes stand for gives those bytes.
pub proof fn lemma_be32_bytes_round_trip(s: Seq<u8>)
    requires
        s.len() >= 4,
    ensures
        be32(from_be32(s)) == s.subrange(0, 4),
{
    lemma_join32(s[0], s[1], s[2], s[3]);
    assert(be32(from_be32(s)) =~= s.subrange(0, 4));
}

/// Writing the number that eight bytes stand for gives those bytes.
pub proof fn lemma_be64_bytes_round_trip(s: Seq<u8>)
    requires
        s.len() >= 8,
    ensures
        be64(from_be64(s)) == s.subrange(0, 8),
{
    let hi = from_be32(s);
    let lo = from_be32(s.skip(4));
    lemma_be32_bytes_round_trip(s);
    lemma_be32_bytes_round_trip(s.skip(4));
    lemma_join32(s[0], s[1], s[2], s[3]);
    lemma_join32(s[4], s[5], s[6], s[7]);
    let v = from_be64(s);
    assert(v == hi * 0x1_0000_0000 + lo);
    assert((v / 0x1_0000_0000) as u32 == hi);
    assert((v % 0x1_0000_0000) as u32 == lo);
    assert(be64(v) =~= s.subrange(0, 8));
}

/// A signed integer and its bit pattern determine each other.
pub proof fn lemma_signed_round_trip(a: i16, b: i32, c: i64)
    ensures
        signed16(bits16(a)) == a,
        signed32(bits32(b)) == b,
        signed64(bits64(c)) == c,
{
}

/// A bit pattern and the signed integer it stands for determine each other.
pub proof fn lemma_bits_round_trip(a: u16, b: u32, c: u64)
    ensures
        bits16(signed16(a)) == a,
        bits32(signed32(b)) == b,
        bits64(signed64(c)) == c,
{
}

pub(crate) fn put_u16(out: &mut Vec<u8>, v: u16)
    ensures
        final(out)@ == old(out)@ + be16(v),
{
    out.push((v / 0x100) as u8);
    out.push((v % 0x100) as u8);
    assert(out@ =~= old(out)@ + be16(v));
}

pub(crate) fn put_u32(out: &mut Vec<u8>, v: u32)
    ensures
        final(out)@ == old(out)@ + be32(v),
{
    out.push((v / 0x100_0000) as u8);
    out.push(((v / 0x1_0000) % 0x100) as u8);
    out.push(((v / 0x100) % 0x100) as u8);
    out.push((v % 0x100) as u8);
    assert(out@ =~= old(out)@ + be32(v));
}

pub(crate) fn put_u64(out: &mut Vec<u8>, v: u64)
    ensures
        final(out)@ == old(out)@ + be64(v),
{
    put_u32(out, (v / 0x1_0000_0000) as u32);
    put_u32(out, (v % 0x1_0000_0000) as u32);
    assert(out@ =~= old(out)@ + be64(v));
}

pub(crate) fn put_i16(out: &mut Vec<u8>, v: i16)
    ensures
        final(out)@ == old(out)@ + be16(bits16(v)),
{
    let u: u16 = if v >= 0 {
        v as u16
    } else {
        (v as i32 + 0x1_0000) as u16
    };
    put_u16(out, u);
}

pub(crate) fn put_i32(out: &mut Vec<u8>, v: i32)
    ensures
        final(out)@ == old(out)@ + be32(bits32(v)),
{
    put_u32(out, as_bits32(v));
}

pub(crate) fn put_i64(out: &mut Vec<u8>, v: i64)
    ensures
        final(out)@ == old(out)@ + be64(bits64(v)),
{
    let u: u64 = if v >= 0 {
        v as u64
    } else {
        (v as i128 + 0x1_0000_0000_0000_0000) as u64
    };
    put_u64(out, u);
}

pub(crate) fn get_u16(s: &[u8], at: usize) -> (r: u16)
    requires
        at + 2 <= s@.len(),
    ensures
        r == from_be16(s@.skip(at as int)),
{
    (s[at] as u16) * 0x100 + (s[at + 1] as u16)
}

pub(crate) fn get_u32(s: &[u8], at: usize) -> (r: u32)
    requires
        at + 4 <= s@.len(),
    ensures
        r == from_be32(s@.skip(at as int)),
{
    (s[at] as u32) * 0x100_0000 + (s[at + 1] as u32) * 0x1_0000 + (s[at + 2] as u32) * 0x100 + (s[at
        + 3] as u32)
}

pub(crate) fn get_u64(s: &[u8], at: usize) -> (r: u64)
    requires
        at + 8 <= s@.len(),
    ensures
        r == from_be64(s@.skip(at as int)),
{
    let n = s.len();
    let hi = get_u32(s, at);
    let lo = get_u32(s, at + 4);
    (hi as u64) * 0x1_0000_0000 + (lo as u64)
}

/// The signed 32-bit integer with the bit pattern `u`.
pub(crate) fn as_signed32(u: u32) -> (r: i32)
    ensures
        r == signed32(u),
{
    if u < 0x8000_0000 {
        u as i32
    } else {
        (u as i64 - 0x1_0000_0000) as i32
    }
}

/// The bit pattern of a signed 32-bit integer.
pub(crate) fn as_bits32(v: i32) -> (u: u32)
    ensures
        u == bits32(v),
{
    if v >= 0 {
        v as u32
    } else {
        (v as i64 + 0x1_0000_0000) as u32
    }
}

pub(crate) fn get_i16(s: &[u8], at: usize) -> (r: i16)
    requires
        at + 2 <= s@.len(),
    ensures
        r == signed16(from_be16(s@.skip(at as int))),
{
    let u = get_u16(s, at);
    if u < 0x8000 {
        u as i16
    } else {
        (u as i32 - 0x1_0000) as i16
    }
}

pub(crate) fn get_i32(s: &[u8], at: usize) -> (r: i32)
    requires
        at + 4 <= s@.len(),
    ensures
        r == signed32(from_be32(s@.skip(at as int))),
{
    as_signed32(get_u32(s, at))
}

pub(crate) fn get_i64(s: &[u8], at: usize) -> (r: i64)
    requires
        at + 8 <= s@.len(),
    ensures
        r == signed64(from_be64(s@.skip(at as int))),
{
    let u = get_u64(s, at);
    if u < 0x8000_0000_0000_0000 {
        u as i64
    } else {
        (u as i128 - 0x1_0000_0000_0000_0000) as i64
    }
}

} // verus!
