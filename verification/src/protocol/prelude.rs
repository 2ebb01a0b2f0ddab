//! The prelude is a part of the message that is used to determine the length of the message and
//! headers.
//!
//! It is twelve bytes: the length of the frame, the length of the headers, and the checksum of
//! those eight bytes, each a big-endian 32-bit number. A frame is never shorter than the prelude
//! and the checksum that follows the payload, and its headers fit in what is left.

use vstd::prelude::*;
use vstd::slice::slice_subrange;

use crate::error::{Error, ErrorKind};
use crate::protocol::checksum::{checksum, crc32};
use crate::protocol::wire::{
    be32, from_be32, get_u32, lemma_be32_bytes_round_trip, lemma_be32_round_trip, put_u32,
};

verus! {

/// The size of the prelude in bytes.
pub const PRELUDE_SIZE: usize = 12;

/// The size in bytes of the checksum that ends a frame.
pub const CHECKSUM_SIZE: usize = 4;

/// The size in bytes of the shortest frame: a prelude and the checksum of the frame.
pub const MIN_FRAME_SIZE: usize = 16;

/// The prelude.
#[derive(Debug, Clone, Copy, PartialEq, Eq)]
pub struct Prelude {
    headers_len: usize,
    total_len: usize,
    crc_checksum: u32,
}

/// What a [`Prelude`] holds: the two lengths. The checksum follows from them.
pub struct PreludeView {
    pub total_len: nat,
    pub headers_len: nat,
}

/// Whether the two lengths can stand in a prelude: the frame has room for the prelude, the
/// headers and its own checksum, and its length fits in 32 bits.
pub open spec fn valid_lengths(total_len: nat, headers_len: nat) -> bool {
    MIN_FRAME_SIZE <= total_len <= u32::MAX && headers_len + MIN_FRAME_SIZE <= total_len
}

/// The first eight bytes of a prelude: the two lengths.
pub open spec fn prelude_lengths(total_len: nat, headers_len: nat) -> Seq<u8> {
    be32(total_len as u32) + be32(headers_len as u32)
}

/// The checksum of a prelude with the given lengths.
pub open spec fn prelude_crc(total_len: nat, headers_len: nat) -> u32 {
    crc32(prelude_lengths(total_len, headers_len))
}

/// The encoding of a prelude.
pub open spec fn prelude_bytes(total_len: nat, headers_len: nat) -> Seq<u8> {
    prelude_lengths(total_len, headers_len) + be32(prelude_crc(total_len, headers_len))
}

/// The prelude that the bytes `s` begin with, or nothing where they begin with none: where
/// there are fewer than twelve bytes, the lengths cannot stand in a prelude, or the checksum
/// is not that of the first eight bytes.
pub open spec fn parse_prelude(s: Seq<u8>) -> Option<PreludeView> {
    if s.len() < PRELUDE_SIZE {
        None
    } else {
        let total_len = from_be32(s) as nat;
        let headers_len = from_be32(s.skip(4)) as nat;
        if valid_lengths(total_len, headers_len) && from_be32(s.skip(8)) == crc32(
            s.subrange(0, 8),
        ) {
            Some(PreludeView { total_len, headers_len })
        } else {
            None
        }
    }
}

/// What making a prelude of two lengths gives: the prelude, or the error that the lengths call
/// for. A length that does not fit in 32 bits is too large; lengths that leave no room for the
/// headers are a protocol error.
pub open spec fn prelude_of(total_len: nat, headers_len: nat) -> Result<PreludeView, ErrorKind> {
    if total_len > u32::MAX {
        Err(ErrorKind::BufferTooLarge { size: total_len, max_size: u32::MAX as nat })
    } else if headers_len > u32::MAX {
        Err(ErrorKind::BufferTooLarge { size: headers_len, max_size: u32::MAX as nat })
    } else if !valid_lengths(total_len, headers_len) {
        Err(ErrorKind::Protocol)
    } else {
        Ok(PreludeView { total_len, headers_len })
    }
}

/// A prelude that was written is read back as it was, whatever follows it.
pub proof fn lemma_prelude_round_trip(total_len: nat, headers_len: nat, rest: Seq<u8>)
    requires
        valid_lengths(total_len, headers_len),
    ensures
        prelude_bytes(total_len, headers_len).len() == PRELUDE_SIZE,
        parse_prelude(prelude_bytes(total_len, headers_len) + rest) == Some(
            PreludeView { total_len, headers_len },
        ),
{
    let t = total_len as u32;
    let h = headers_len as u32;
    let c = prelude_crc(total_len, headers_len);
    let s = prelude_bytes(total_len, headers_len) + rest;
    lemma_be32_round_trip(t, be32(h) + be32(c) + rest);
    lemma_be32_round_trip(h, be32(c) + rest);
    lemma_be32_round_trip(c, rest);
    assert(s =~= be32(t) + (be32(h) + be32(c) + rest));
    assert(s.skip(4) =~= be32(h) + (be32(c) + rest));
    assert(s.skip(8) =~= be32(c) + rest);
    assert(s.subrange(0, 8) =~= prelude_lengths(total_len, headers_len));
}

/// A prelude that was read is written as the twelve bytes that it was read from.
pub proof fn lemma_prelude_bytes_round_trip(s: Seq<u8>)
    requires
        parse_prelude(s) is Some,
    ensures
        ({
            let p = parse_prelude(s).unwrap();
            &&& valid_lengths(p.total_len, p.headers_len)
            &&& prelude_bytes(p.total_len, p.headers_len) == s.subrange(0, PRELUDE_SIZE as int)
        }),
{
    let p = parse_prelude(s).unwrap();
    lemma_be32_bytes_round_trip(s);
    lemma_be32_bytes_round_trip(s.skip(4));
    lemma_be32_bytes_round_trip(s.skip(8));
    assert(s.skip(4).subrange(0, 4) =~= s.subrange(4, 8));
    assert(s.skip(8).subrange(0, 4) =~= s.subrange(8, 12));
    assert(prelude_lengths(p.total_len, p.headers_len) =~= s.subrange(0, 8));
    assert(prelude_bytes(p.total_len, p.headers_len) =~= s.subrange(0, 12));
}

impl View for Prelude {
    type V = PreludeView;

    closed spec fn view(&self) -> PreludeView {
        PreludeView { total_len: self.total_len as nat, headers_len: self.headers_len as nat }
    }
}

impl Prelude {
    #[verifier::type_invariant]
    spec fn well_formed(self) -> bool {
        &&& valid_lengths(self.total_len as nat, self.headers_len as nat)
        &&& self.crc_checksum == prelude_crc(self.total_len as nat, self.headers_len as nat)
    }

    /// Create a new prelude.
    pub fn new(total_len: usize, headers_len: usize) -> (r: Result<Prelude, Error>)
        ensures
            match prelude_of(total_len as nat, headers_len as nat) {
                Ok(p) => r matches Ok(x) && x@ == p,
                Err(k) => r matches Err(e) && e@ == k,
            },
    {
        let max: usize = u32::MAX as usize;
        if total_len > max {
            return Err(Error::BufferTooLarge { size: total_len, max_size: max });
        }
        if headers_len > max {
            return Err(Error::BufferTooLarge { size: headers_len, max_size: max });
        }
        if total_len < MIN_FRAME_SIZE || headers_len > total_len - MIN_FRAME_SIZE {
            return Err(Error::Protocol("Invalid length".to_owned()));
        }
        let mut bytes: Vec<u8> = Vec::new();
        put_u32(&mut bytes, total_len as u32);
        put_u32(&mut bytes, headers_len as u32);
        assert(bytes@ =~= prelude_lengths(total_len as nat, headers_len as nat));
        let crc_checksum = checksum(bytes.as_slice());
        Ok(Prelude { total_len, headers_len, crc_checksum })
    }

    /// Parse a prelude from bytes.
    ///
    /// On success the prelude is taken off the front of `bytes`. Where the bytes begin with
    /// no prelude, they stay as they were.
    pub fn from_bytes(bytes: &mut &[u8]) -> (r: Result<Prelude, Error>)
        ensures
            match parse_prelude(old(bytes)@) {
                Some(p) => r matches Ok(x) && x@ == p && valid_lengths(p.total_len, p.headers_len)
                    && final(bytes)@ == old(bytes)@.skip(PRELUDE_SIZE as int),
                None => r matches Err(e) && e@ == ErrorKind::Protocol && final(bytes)@ == old(
                    bytes,
                )@,
            },
    {
        let s: &[u8] = *bytes;
        if s.len() < PRELUDE_SIZE {
            return Err(Error::Protocol("Invalid prelude: missing bytes".to_owned()));
        }
        assert(s@.skip(0) =~= s@);
        let prelude_checksum = checksum(slice_subrange(s, 0, 8));
        let total_len = get_u32(s, 0);
        let headers_len = get_u32(s, 4);
        let crc_checksum = get_u32(s, 8);
        if total_len < MIN_FRAME_SIZE as u32 || headers_len > total_len - MIN_FRAME_SIZE as u32 {
            return Err(Error::Protocol("Invalid length".to_owned()));
        }
        if prelude_checksum != crc_checksum {
            return Err(Error::Protocol("Invalid prelude checksum".to_owned()));
        }
        proof {
            lemma_prelude_bytes_round_trip(s@);
            assert(prelude_lengths(total_len as nat, headers_len as nat) =~= s@.subrange(0, 8)) by {
                assert(prelude_bytes(total_len as nat, headers_len as nat).subrange(0, 8)
                    =~= prelude_lengths(total_len as nat, headers_len as nat));
                assert(s@.subrange(0, 12).subrange(0, 8) =~= s@.subrange(0, 8));
            }
        }
        *bytes = slice_subrange(s, PRELUDE_SIZE, s.len());
        Ok(
            Prelude {
                total_len: total_len as usize,
                headers_len: headers_len as usize,
                crc_checksum,
            },
        )
    }

    /// Write the prelude as bytes.
    pub fn write_as_bytes(&self, writer: &mut Vec<u8>)
        ensures
            valid_lengths(self@.total_len, self@.headers_len),
            final(writer)@ == old(writer)@ + prelude_bytes(self@.total_len, self@.headers_len),
    {
        proof {
            use_type_invariant(self);
        }
        let ghost before = writer@;
        put_u32(writer, self.total_len as u32);
        put_u32(writer, self.headers_len as u32);
        put_u32(writer, self.crc_checksum);
        assert(writer@ =~= before + prelude_bytes(self@.total_len, self@.headers_len));
    }

    /// The length of the headers.
    pub fn headers_len(&self) -> (r: usize)
        ensures
            r == self@.headers_len,
            valid_lengths(self@.total_len, self@.headers_len),
    {
        proof {
            use_type_invariant(self);
        }
        self.headers_len
    }

    /// The total length of the message.
    pub fn total_len(&self) -> (r: usize)
        ensures
            r == self@.total_len,
            valid_lengths(self@.total_len, self@.headers_len),
    {
        proof {
            use_type_invariant(self);
        }
        self.total_len
    }

    /// The CRC checksum of the prelude.
    pub fn crc_checksum(&self) -> (r: u32)
        ensures
            r == prelude_crc(self@.total_len, self@.headers_len),
    {
        proof {
            use_type_invariant(self);
        }
        self.crc_checksum
    }
}

} // verus!
