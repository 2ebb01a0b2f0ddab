//! Frames: what travels on the wire.
//!
//! A frame is a prelude, the headers, the payload and the checksum of all that precedes it:
//!
//! ```text
//! prelude (12) | headers (headers_len) | payload (total_len - 16 - headers_len) | checksum (4)
//! ```
//!
//! This module writes and reads frames, whatever their payload holds, and shows that what was
//! written is read back, that a frame cut short is refused, and that a changed byte is noticed.

use vstd::prelude::*;
use vstd::slice::{slice_subrange, slice_to_vec};

use crate::error::{Error, ErrorKind};
use crate::protocol::checksum::{checksum, crc32, lemma_crc32_notices_one_byte};
use crate::protocol::headers::{
    decode_headers, headers_bytes, headers_size, insert_all, lemma_headers_round_trip,
    lemma_headers_size, lemma_headers_well_formed, lemma_insert_all_of_distinct, parse_headers,
    reported_size, Entry, Headers, HeadersView,
};
use crate::protocol::prelude::{
    lemma_prelude_round_trip, parse_prelude, prelude_bytes, valid_lengths, Prelude, PreludeView,
    CHECKSUM_SIZE, MIN_FRAME_SIZE, PRELUDE_SIZE,
};
use crate::protocol::wire::{
    be32, from_be32, get_u32, lemma_be32_bytes_round_trip, lemma_be32_round_trip, put_u32,
};

verus! {

/// A frame before its checksum: the prelude, the headers, the payload.
pub open spec fn frame_body(entries: Seq<Entry>, payload: Seq<u8>) -> Seq<u8> {
    let headers = headers_bytes(entries);
    prelude_bytes((MIN_FRAME_SIZE + headers.len() + payload.len()) as nat, headers.len())
        + headers + payload
}

/// A frame: its body, then the checksum of the body.
pub open spec fn frame_bytes(entries: Seq<Entry>, payload: Seq<u8>) -> Seq<u8> {
    frame_body(entries, payload) + be32(crc32(frame_body(entries, payload)))
}

/// The frame of headers and a payload, or the error that they call for. The headers are
/// measured first, and what keeps them from being written is reported. A payload or a frame
/// that is too long for a 32-bit length is too large.
pub open spec fn encode_frame(entries: Seq<Entry>, payload: Seq<u8>) -> Result<
    Seq<u8>,
    ErrorKind,
> {
    match headers_size(entries) {
        Err(k) => Err(k),
        Ok(headers_len) => {
            let total_len = (MIN_FRAME_SIZE + headers_len + payload.len()) as nat;
            if payload.len() > u32::MAX {
                Err(ErrorKind::BufferTooLarge { size: payload.len(), max_size: u32::MAX as nat })
            } else if total_len > u32::MAX {
                Err(
                    ErrorKind::BufferTooLarge {
                        size: reported_size(total_len),
                        max_size: u32::MAX as nat,
                    },
                )
            } else {
                Ok(frame_bytes(entries, payload))
            }
        },
    }
}

/// Whether the bytes `s` begin with a whole frame whose checksums are right, and the prelude
/// of that frame.
pub open spec fn sound_frame(s: Seq<u8>, p: PreludeView) -> bool {
    &&& parse_prelude(s) == Some(p)
    &&& s.len() >= p.total_len
    &&& from_be32(s.skip(p.total_len - CHECKSUM_SIZE)) == crc32(
        s.subrange(0, p.total_len - CHECKSUM_SIZE),
    )
}

/// The headers and the payload of the frame that the bytes `s` begin with, or the error that
/// they call for.
///
/// First the prelude is read: bytes that begin with no prelude, or that are fewer than the
/// prelude says, are a protocol error. Then the checksum of the frame is held against its
/// bytes. Then the headers are read, and their size is held against the prelude.
pub open spec fn decode_frame(s: Seq<u8>) -> Result<(HeadersView, Seq<u8>), ErrorKind> {
    match parse_prelude(s) {
        None => Err(ErrorKind::Protocol),
        Some(p) => {
            let headers_end = PRELUDE_SIZE + p.headers_len;
            let payload_end = p.total_len - CHECKSUM_SIZE;
            if s.len() < p.total_len {
                Err(ErrorKind::Protocol)
            } else if from_be32(s.skip(payload_end)) != crc32(s.subrange(0, payload_end)) {
                Err(ErrorKind::ChecksumMismatch)
            } else {
                match decode_headers(s.subrange(PRELUDE_SIZE as int, headers_end)) {
                    Err(k) => Err(k),
                    Ok(headers) => if headers_size(headers.entries) != Ok::<nat, ErrorKind>(
                        p.headers_len,
                    ) {
                        Err(ErrorKind::Protocol)
                    } else {
                        Ok((headers, s.subrange(headers_end, payload_end)))
                    },
                }
            }
        },
    }
}

/// The length of the frame that the bytes `s` begin with, where they begin with a prelude.
pub open spec fn frame_len(s: Seq<u8>) -> Option<nat> {
    match parse_prelude(s) {
        Some(p) => Some(p.total_len),
        None => None,
    }
}

/// Writes the frame of headers and a payload.
pub fn write_frame(headers: &Headers, payload: &[u8]) -> (r: Result<Vec<u8>, Error>)
    ensures
        match encode_frame(headers@.entries, payload@) {
            Ok(frame) => r matches Ok(bytes) && bytes@ == frame,
            Err(k) => r matches Err(e) && e@ == k,
        },
{
    let headers_len = match headers.size_in_bytes() {
        Ok(n) => n,
        Err(e) => {
            return Err(e);
        },
    };
    let max: usize = u32::MAX as usize;
    if payload.len() > max {
        return Err(Error::BufferTooLarge { size: payload.len(), max_size: max });
    }
    let total_len: u64 = MIN_FRAME_SIZE as u64 + headers_len as u64 + payload.len() as u64;
    if total_len > u32::MAX as u64 {
        let size: usize = if total_len > usize::MAX as u64 {
            usize::MAX
        } else {
            total_len as usize
        };
        return Err(Error::BufferTooLarge { size, max_size: max });
    }
    let prelude = match Prelude::new(total_len as usize, headers_len as usize) {
        Ok(prelude) => prelude,
        Err(e) => {
            return Err(e);
        },
    };
    let mut bytes: Vec<u8> = Vec::new();
    prelude.write_as_bytes(&mut bytes);
    match headers.write_as_bytes(&mut bytes) {
        Ok(_) => {},
        Err(e) => {
            return Err(e);
        },
    }
    bytes.extend_from_slice(payload);
    assert(bytes@ =~= frame_body(headers@.entries, payload@));
    let crc = checksum(bytes.as_slice());
    put_u32(&mut bytes, crc);
    Ok(bytes)
}

/// Reads the headers and the payload of the frame that `bytes` begin with.
///
/// On success the frame is taken off the front of `bytes`. On an error they stay as they
/// were.
pub fn read_frame(bytes: &mut &[u8]) -> (r: Result<(Headers, Vec<u8>), Error>)
    ensures
        match decode_frame(old(bytes)@) {
            Ok((h, p)) => r matches Ok((headers, payload)) && headers@ == h && payload@ == p
                && h.consistent() && frame_len(old(bytes)@) is Some && 0 < frame_len(
                old(bytes)@,
            ).unwrap() <= old(bytes)@.len() && final(bytes)@ == old(bytes)@.skip(
                frame_len(old(bytes)@).unwrap() as int,
            ),
            Err(k) => r matches Err(e) && e@ == k && final(bytes)@ == old(bytes)@,
        },
{
    let s: &[u8] = *bytes;
    let mut cursor: &[u8] = s;
    let prelude = match Prelude::from_bytes(&mut cursor) {
        Ok(prelude) => prelude,
        Err(_) => {
            return Err(Error::Protocol("Invalid prelude".to_owned()));
        },
    };
    let total_len = prelude.total_len();
    let headers_len = prelude.headers_len();
    if s.len() < total_len {
        return Err(Error::Protocol("Invalid message: missing bytes".to_owned()));
    }
    let payload_end = total_len - CHECKSUM_SIZE;
    let headers_end = PRELUDE_SIZE + headers_len;
    if checksum(slice_subrange(s, 0, payload_end)) != get_u32(s, payload_end) {
        return Err(Error::ChecksumMismatch);
    }
    let mut header_bytes: &[u8] = slice_subrange(s, PRELUDE_SIZE, headers_end);
    let headers = match Headers::from_bytes(&mut header_bytes) {
        Ok(headers) => headers,
        Err(e) => {
            return Err(e);
        },
    };
    match headers.size_in_bytes() {
        Ok(n) => {
            if n as usize != headers_len {
                return Err(Error::Protocol("Incorrect header length".to_owned()));
            }
        },
        Err(_) => {
            return Err(Error::Protocol("Incorrect header length".to_owned()));
        },
    }
    let payload = slice_to_vec(slice_subrange(s, headers_end, payload_end));
    *bytes = slice_subrange(s, total_len, s.len());
    Ok((headers, payload))
}

/// Where the parts of a frame stand in it.
proof fn lemma_frame_layout(
    prelude: Seq<u8>,
    headers: Seq<u8>,
    payload: Seq<u8>,
    crc: Seq<u8>,
    rest: Seq<u8>,
)
    ensures
        ({
            let s = prelude + headers + payload + crc + rest;
            let headers_end = (prelude.len() + headers.len()) as int;
            let payload_end = headers_end + payload.len();
            &&& s == prelude + (headers + payload + crc + rest)
            &&& s.subrange(0, payload_end) == prelude + headers + payload
            &&& s.skip(payload_end) == crc + rest
            &&& s.subrange(prelude.len() as int, headers_end) == headers
            &&& s.subrange(headers_end, payload_end) == payload
        }),
{
    let s = prelude + headers + payload + crc + rest;
    let headers_end = (prelude.len() + headers.len()) as int;
    let payload_end = headers_end + payload.len();
    assert(s =~= prelude + (headers + payload + crc + rest));
    assert(s.subrange(0, payload_end) =~= prelude + headers + payload);
    assert(s.skip(payload_end) =~= crc + rest);
    assert(s.subrange(prelude.len() as int, headers_end) =~= headers);
    assert(s.subrange(headers_end, payload_end) =~= payload);
}

/// The frame of headers and a payload is a whole frame whose checksums are right: its prelude
/// gives the length of the frame and of the headers, and its last four bytes are the checksum
/// of the rest.
pub proof fn lemma_encoded_frame_sound(entries: Seq<Entry>, payload: Seq<u8>, rest: Seq<u8>)
    requires
        encode_frame(entries, payload) is Ok,
    ensures
        ({
            let frame = encode_frame(entries, payload)->Ok_0;
            let headers = headers_bytes(entries);
            let p = PreludeView { total_len: frame.len(), headers_len: headers.len() };
            &&& frame.len() == MIN_FRAME_SIZE + headers.len() + payload.len()
            &&& sound_frame(frame + rest, p)
            &&& (frame + rest).subrange(PRELUDE_SIZE as int, PRELUDE_SIZE + headers.len())
                == headers
            &&& (frame + rest).subrange(
                PRELUDE_SIZE + headers.len(),
                frame.len() - CHECKSUM_SIZE,
            ) == payload
        }),
{
    let headers = headers_bytes(entries);
    let total_len = (MIN_FRAME_SIZE + headers.len() + payload.len()) as nat;
    let prelude = prelude_bytes(total_len, headers.len());
    let body = frame_body(entries, payload);
    let crc = be32(crc32(body));
    let frame = encode_frame(entries, payload)->Ok_0;
    lemma_headers_size(entries);
    assert(frame == body + crc);
    assert(body == prelude + headers + payload);
    assert(valid_lengths(total_len, headers.len()));
    lemma_prelude_round_trip(total_len, headers.len(), headers + payload + crc + rest);
    lemma_be32_round_trip(crc32(body), rest);
    lemma_frame_layout(prelude, headers, payload, crc, rest);
    assert(frame.len() == total_len);
}

/// Bytes that a frame was read from begin with a whole frame whose checksums are right.
pub proof fn lemma_decoded_frame_sound(s: Seq<u8>)
    requires
        decode_frame(s) is Ok,
    ensures
        parse_prelude(s) is Some,
        sound_frame(s, parse_prelude(s).unwrap()),
{
}

/// Reading the frame of headers and a payload gives them back, whatever follows the frame.
///
/// This holds of all headers that are those of a message and can be written.
pub proof fn lemma_frame_round_trip(headers: Headers, payload: Seq<u8>, rest: Seq<u8>)
    requires
        headers@.consistent(),
        encode_frame(headers@.entries, payload) is Ok,
    ensures
        decode_frame(encode_frame(headers@.entries, payload)->Ok_0 + rest) == Ok::<
            (HeadersView, Seq<u8>),
            ErrorKind,
        >((headers@, payload)),
{
    let entries = headers@.entries;
    let encoded = headers_bytes(entries);
    lemma_encoded_frame_sound(entries, payload, rest);
    lemma_headers_size(entries);
    lemma_headers_well_formed(headers);
    lemma_headers_round_trip(entries);
    lemma_insert_all_of_distinct(entries);
    assert(parse_headers(encoded) == Some(entries));
    assert(insert_all(entries) == entries);
    assert(decode_headers(encoded) == Ok::<HeadersView, ErrorKind>(headers@));
}

/// A frame that was cut short is not read: every beginning of a frame that is shorter than
/// the frame is a protocol error.
pub proof fn lemma_truncated_frame(s: Seq<u8>, k: int)
    requires
        parse_prelude(s) is Some,
        0 <= k <= s.len(),
        k < parse_prelude(s).unwrap().total_len,
    ensures
        decode_frame(s.subrange(0, k)) == Err::<(HeadersView, Seq<u8>), ErrorKind>(
            ErrorKind::Protocol,
        ),
{
    let t = s.subrange(0, k);
    if k >= PRELUDE_SIZE {
        assert(t.subrange(0, 8) =~= s.subrange(0, 8));
        assert(from_be32(t) == from_be32(s));
        assert(from_be32(t.skip(4)) == from_be32(s.skip(4)));
        assert(from_be32(t.skip(8)) == from_be32(s.skip(8)));
        assert(parse_prelude(t) == parse_prelude(s));
    }
}

/// Reading a frame looks at the bytes of the frame only: what the bytes `s` are read as is
/// what their beginning of the length of the frame is read as.
pub proof fn lemma_decode_frame_only(s: Seq<u8>)
    requires
        parse_prelude(s) is Some,
        s.len() >= parse_prelude(s).unwrap().total_len,
    ensures
        decode_frame(s.subrange(0, parse_prelude(s).unwrap().total_len as int)) == decode_frame(
            s,
        ),
        parse_prelude(s.subrange(0, parse_prelude(s).unwrap().total_len as int))
            == parse_prelude(s),
{
    let p = parse_prelude(s).unwrap();
    let t = s.subrange(0, p.total_len as int);
    let payload_end = p.total_len - CHECKSUM_SIZE;
    let headers_end = PRELUDE_SIZE + p.headers_len;
    assert(t.subrange(0, 8) =~= s.subrange(0, 8));
    assert(from_be32(t) == from_be32(s));
    assert(from_be32(t.skip(4)) == from_be32(s.skip(4)));
    assert(from_be32(t.skip(8)) == from_be32(s.skip(8)));
    assert(parse_prelude(t) == Some(p));
    assert(from_be32(t.skip(payload_end)) == from_be32(s.skip(payload_end)));
    assert(t.subrange(0, payload_end) =~= s.subrange(0, payload_end));
    assert(t.subrange(PRELUDE_SIZE as int, headers_end) =~= s.subrange(
        PRELUDE_SIZE as int,
        headers_end,
    ));
    assert(t.subrange(headers_end, payload_end) =~= s.subrange(headers_end, payload_end));
}

/// Four bytes that stand for the same number are the same bytes.
proof fn lemma_from_be32_injective(x: Seq<u8>, y: Seq<u8>)
    requires
        x.len() >= 4,
        y.len() >= 4,
        from_be32(x) == from_be32(y),
    ensures
        x.subrange(0, 4) == y.subrange(0, 4),
{
    lemma_be32_bytes_round_trip(x);
    lemma_be32_bytes_round_trip(y);
}

/// A change of one byte after the prelude is noticed: where a whole frame with the right
/// checksums has one byte between its prelude and its end changed, the result is read as a
/// checksum mismatch.
pub proof fn lemma_corruption_detected(s: Seq<u8>, p: PreludeView, i: int, b: u8)
    requires
        sound_frame(s, p),
        PRELUDE_SIZE <= i < p.total_len,
        b != s[i],
    ensures
        decode_frame(s.update(i, b)) == Err::<(HeadersView, Seq<u8>), ErrorKind>(
            ErrorKind::ChecksumMismatch,
        ),
{
    let t = s.update(i, b);
    let end = p.total_len - CHECKSUM_SIZE;
    assert(t.subrange(0, 8) =~= s.subrange(0, 8));
    assert(from_be32(t) == from_be32(s));
    assert(from_be32(t.skip(4)) == from_be32(s.skip(4)));
    assert(from_be32(t.skip(8)) == from_be32(s.skip(8)));
    assert(parse_prelude(t) == Some(p));
    if i < end {
        assert(t.subrange(0, end) =~= s.subrange(0, end).update(i, b));
        lemma_crc32_notices_one_byte(s.subrange(0, end), i, b);
        assert(from_be32(t.skip(end)) == from_be32(s.skip(end)));
    } else {
        assert(t.subrange(0, end) =~= s.subrange(0, end));
        if from_be32(t.skip(end)) == from_be32(s.skip(end)) {
            lemma_from_be32_injective(t.skip(end), s.skip(end));
            assert(t.skip(end).subrange(0, 4)[i - end] == b);
            assert(s.skip(end).subrange(0, 4)[i - end] == s[i]);
        }
    }
}

/// A change of one byte of the prelude is noticed: where bytes that begin with a prelude have
/// one of its twelve bytes changed, the result is read as a protocol error.
pub proof fn lemma_prelude_corruption_detected(s: Seq<u8>, i: int, b: u8)
    requires
        parse_prelude(s) is Some,
        0 <= i < PRELUDE_SIZE,
        b != s[i],
    ensures
        parse_prelude(s.update(i, b)) is None,
        decode_frame(s.update(i, b)) == Err::<(HeadersView, Seq<u8>), ErrorKind>(
            ErrorKind::Protocol,
        ),
{
    let t = s.update(i, b);
    if i < 8 {
        assert(t.subrange(0, 8) =~= s.subrange(0, 8).update(i, b));
        lemma_crc32_notices_one_byte(s.subrange(0, 8), i, b);
        assert(from_be32(t.skip(8)) == from_be32(s.skip(8)));
    } else {
        assert(t.subrange(0, 8) =~= s.subrange(0, 8));
        if from_be32(t.skip(8)) == from_be32(s.skip(8)) {
            lemma_from_be32_injective(t.skip(8), s.skip(8));
            assert(t.skip(8).subrange(0, 4)[i - 8] == b);
            assert(s.skip(8).subrange(0, 4)[i - 8] == s[i]);
        }
    }
}

} // verus!
