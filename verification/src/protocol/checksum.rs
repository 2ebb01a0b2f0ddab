//! CRC-32/ISO-HDLC, the checksum of the prelude and of the whole frame.
//!
//! The checksum is defined bit by bit: a 32-bit register starts with all bits set, takes in each
//! byte least significant bit first with the reflected polynomial `0xEDB88320`, and is inverted at
//! the end. [`checksum`] computes it; the lemmas show that it notices every change of one byte.

use vstd::prelude::*;

verus! {

/// The reflected generator polynomial.
pub const POLYNOMIAL: u32 = 0xEDB8_8320;

/// One step of the register: shift out the lowest bit and, if it was set, fold the polynomial in.
pub open spec fn crc_shift(c: u32) -> u32 {
    if c & 1 == 1 {
        (c >> 1) ^ POLYNOMIAL
    } else {
        c >> 1
    }
}

/// The register after it has taken in the byte `b`.
pub open spec fn crc_feed(c: u32, b: u8) -> u32 {
    crc_shift(
        crc_shift(
            crc_shift(crc_shift(crc_shift(crc_shift(crc_shift(crc_shift(c ^ (b as u32))))))),
        ),
    )
}

/// The register after it has taken in all of `s`.
pub open spec fn crc_register(s: Seq<u8>) -> u32
    decreases s.len(),
{
    if s.len() == 0 {
        0xFFFF_FFFF
    } else {
        crc_feed(crc_register(s.drop_last()), s.last())
    }
}

/// The CRC-32/ISO-HDLC checksum of `s`.
pub open spec fn crc32(s: Seq<u8>) -> u32 {
    crc_register(s) ^ 0xFFFF_FFFF
}

/// Two registers that agree after a byte each had the same bits going in.
proof fn lemma_feed_injective(c1: u32, b1: u8, c2: u32, b2: u8)
    requires
        crc_feed(c1, b1) == crc_feed(c2, b2),
    ensures
        c1 == c2 ==> b1 == b2,
        b1 == b2 ==> c1 == c2,
{
    assert(crc_feed(c1, b1) == crc_feed(c2, b2) ==> (c1 == c2 ==> b1 == b2) && (b1 == b2 ==> c1
        == c2)) by (bit_vector);
}

/// Changing one byte of the input changes the register.
proof fn lemma_register_notices(s: Seq<u8>, i: int, b: u8)
    requires
        0 <= i < s.len(),
        b != s[i],
    ensures
        crc_register(s.update(i, b)) != crc_register(s),
    decreases s.len(),
{
    let t = s.update(i, b);
    if i == s.len() - 1 {
        assert(t.drop_last() =~= s.drop_last());
        if crc_register(t) == crc_register(s) {
            lemma_feed_injective(crc_register(s.drop_last()), b, crc_register(s.drop_last()), s[i]);
        }
    } else {
        assert(t.drop_last() =~= s.drop_last().update(i, b));
        lemma_register_notices(s.drop_last(), i, b);
        if crc_register(t) == crc_register(s) {
            lemma_feed_injective(
                crc_register(t.drop_last()),
                s.last(),
                crc_register(s.drop_last()),
                s.last(),
            );
        }
    }
}

/// The checksum notices every change of a single byte: two inputs that differ in exactly one
/// byte never have the same checksum.
pub proof fn lemma_crc32_notices_one_byte(s: Seq<u8>, i: int, b: u8)
    requires
        0 <= i < s.len(),
        b != s[i],
    ensures
        crc32(s.update(i, b)) != crc32(s),
{
    lemma_register_notices(s, i, b);
    let x = crc_register(s.update(i, b));
    let y = crc_register(s);
    assert(x != y ==> x ^ 0xFFFF_FFFFu32 != y ^ 0xFFFF_FFFFu32) by (bit_vector);
}

fn shift(c: u32) -> (r: u32)
    ensures
        r == crc_shift(c),
{
    if c & 1 == 1 {
        (c >> 1) ^ POLYNOMIAL
    } else {
        c >> 1
    }
}

fn feed(c: u32, b: u8) -> (r: u32)
    ensures
        r == crc_feed(c, b),
{
    shift(shift(shift(shift(shift(shift(shift(shift(c ^ (b as u32)))))))))
}

/// Computes the CRC-32/ISO-HDLC checksum of `bytes`.
pub fn checksum(bytes: &[u8]) -> (r: u32)
    ensures
        r == crc32(bytes@),
{
    let mut c: u32 = 0xFFFF_FFFF;
    let mut i: usize = 0;
    while i < bytes.len()
        invariant
            i <= bytes@.len(),
            c == crc_register(bytes@.subrange(0, i as int)),
        decreases bytes@.len() - i,
    {
        proof {
            let next = bytes@.subrange(0, i + 1);
            assert(next.drop_last() =~= bytes@.subrange(0, i as int));
        }
        c = feed(c, bytes[i]);
        i += 1;
    }
    assert(bytes@.subrange(0, i as int) =~= bytes@);
    c ^ 0xFFFF_FFFF
}

} // verus!
