use vstd::prelude::*;
use vstd::slice::{slice_subrange, slice_to_vec};
use vstd::utf8::{decode_utf8, encode_utf8, valid_utf8};

use crate::error::{Error, ErrorKind};
use crate::protocol::identifier::Uuid;
use crate::protocol::text::text_between;
use crate::protocol::wire::{
    be16, be32, be64, bits16, bits32, bits64, from_be16, from_be32, from_be64, get_i16, get_i32,
    get_i64, get_u16, lemma_be16_bytes_round_trip, lemma_be16_round_trip,
    lemma_be32_bytes_round_trip, lemma_be32_round_trip, lemma_be64_bytes_round_trip,
    lemma_be64_round_trip, lemma_bits_round_trip, lemma_signed_round_trip, put_i16, put_i32,
    put_i64, put_u16, signed16, signed32, signed64,
};

verus! {

/// The largest number of bytes that a byte buffer or the UTF-8 encoding of a string may have.
pub const MAX_VALUE_LEN: usize = 65535;

/// A header value.
#[derive(Debug, Clone, PartialEq, Eq)]
pub enum Value {
    /// A boolean value.
    Bool(bool),
    /// A byte value.
    Byte(u8),
    /// A 16-bit integer value.
    Int16(i16),
    /// A 32-bit integer value.
    Int32(i32),
    /// A 64-bit integer value.
    Int64(i64),
    /// A byte buffer value.
    ByteBuffer(Vec<u8>),
    /// A string value.
    String(String),
    /// A timestamp value.
    Timestamp(i64),
    /// A UUID value.
    Uuid(Uuid),
}

/// What a [`Value`] holds.
pub enum ValueView {
    Bool(bool),
    Byte(u8),
    Int16(i16),
    Int32(i32),
    Int64(i64),
    ByteBuffer(Seq<u8>),
    String(Seq<char>),
    Timestamp(i64),
    Uuid(Seq<u8>),
}

impl View for Value {
    type V = ValueView;

    open spec fn view(&self) -> ValueView {
        match self {
            Value::Bool(b) => ValueView::Bool(*b),
            Value::Byte(b) => ValueView::Byte(*b),
            Value::Int16(i) => ValueView::Int16(*i),
            Value::Int32(i) => ValueView::Int32(*i),
            Value::Int64(i) => ValueView::Int64(*i),
            Value::ByteBuffer(b) => ValueView::ByteBuffer(b@),
            Value::String(s) => ValueView::String(s@),
            Value::Timestamp(t) => ValueView::Timestamp(*t),
            Value::Uuid(u) => ValueView::Uuid(u@),
        }
    }
}

/// The type code of a value: the first byte of its encoding.
pub open spec fn value_type_code(v: ValueView) -> u8 {
    match v {
        ValueView::Bool(b) => if b {
            1
        } else {
            0
        },
        ValueView::Byte(_) => 2,
        ValueView::Int16(_) => 3,
        ValueView::Int32(_) => 4,
        ValueView::Int64(_) => 5,
        ValueView::ByteBuffer(_) => 6,
        ValueView::String(_) => 7,
        ValueView::Timestamp(_) => 8,
        ValueView::Uuid(_) => 9,
    }
}

/// What follows the type code in the encoding of a value.
pub open spec fn value_body(v: ValueView) -> Seq<u8> {
    match v {
        ValueView::Bool(_) => Seq::empty(),
        ValueView::Byte(b) => seq![b],
        ValueView::Int16(i) => be16(bits16(i)),
        ValueView::Int32(i) => be32(bits32(i)),
        ValueView::Int64(i) => be64(bits64(i)),
        ValueView::ByteBuffer(b) => be16(b.len() as u16) + b,
        ValueView::String(s) => be16(encode_utf8(s).len() as u16) + encode_utf8(s),
        ValueView::Timestamp(t) => be64(bits64(t)),
        ValueView::Uuid(u) => u,
    }
}

/// The encoding of a value: its type code, then its body.
pub open spec fn value_bytes(v: ValueView) -> Seq<u8> {
    seq![value_type_code(v)] + value_body(v)
}

/// The size that keeps a value from being written, where it has one: the number of bytes of a
/// byte buffer or of a string's UTF-8 encoding that is over [`MAX_VALUE_LEN`].
pub open spec fn value_excess(v: ValueView) -> Option<nat> {
    match v {
        ValueView::ByteBuffer(b) => if b.len() > MAX_VALUE_LEN {
            Some(b.len())
        } else {
            None
        },
        ValueView::String(s) => if encode_utf8(s).len() > MAX_VALUE_LEN {
            Some(encode_utf8(s).len())
        } else {
            None
        },
        _ => None,
    }
}

/// Whether a value can be written: no byte buffer or string in it is too long, and an
/// identifier has its sixteen bytes.
pub open spec fn value_fits(v: ValueView) -> bool {
    &&& value_excess(v) is None
    &&& v matches ValueView::Uuid(u) ==> u.len() == 16
}

/// The value that the bytes `s` begin with and the number of bytes that it takes, or nothing
/// where they begin with no value: where a byte is missing, the type code is unknown or a
/// string is no UTF-8.
pub open spec fn parse_value(s: Seq<u8>) -> Option<(ValueView, int)> {
    if s.len() < 1 {
        None
    } else if s[0] == 0 {
        Some((ValueView::Bool(false), 1))
    } else if s[0] == 1 {
        Some((ValueView::Bool(true), 1))
    } else if s[0] == 2 {
        if s.len() < 2 {
            None
        } else {
            Some((ValueView::Byte(s[1]), 2))
        }
    } else if s[0] == 3 {
        if s.len() < 3 {
            None
        } else {
            Some((ValueView::Int16(signed16(from_be16(s.skip(1)))), 3))
        }
    } else if s[0] == 4 {
        if s.len() < 5 {
            None
        } else {
            Some((ValueView::Int32(signed32(from_be32(s.skip(1)))), 5))
        }
    } else if s[0] == 5 {
        if s.len() < 9 {
            None
        } else {
            Some((ValueView::Int64(signed64(from_be64(s.skip(1)))), 9))
        }
    } else if s[0] == 6 {
        if s.len() < 3 || s.len() < 3 + from_be16(s.skip(1)) {
            None
        } else {
            let n = from_be16(s.skip(1)) as int;
            Some((ValueView::ByteBuffer(s.subrange(3, 3 + n)), 3 + n))
        }
    } else if s[0] == 7 {
        if s.len() < 3 || s.len() < 3 + from_be16(s.skip(1)) {
            None
        } else {
            let n = from_be16(s.skip(1)) as int;
            if valid_utf8(s.subrange(3, 3 + n)) {
                Some((ValueView::String(decode_utf8(s.subrange(3, 3 + n))), 3 + n))
            } else {
                None
            }
        }
    } else if s[0] == 8 {
        if s.len() < 9 {
            None
        } else {
            Some((ValueView::Timestamp(signed64(from_be64(s.skip(1)))), 9))
        }
    } else if s[0] == 9 {
        if s.len() < 17 {
            None
        } else {
            Some((ValueView::Uuid(s.subrange(1, 17)), 17))
        }
    } else {
        None
    }
}

/// What a value holds can be written unless a byte buffer or a string in it is too long: an
/// identifier in a value has its sixteen bytes.
pub proof fn lemma_value_well_formed(v: Value)
    ensures
        value_excess(v@) is None ==> value_fits(v@),
{
    if let Value::Uuid(u) = v {
        u.lemma_len();
    }
}

/// A value that was written is read back as it was, whatever follows it.
pub proof fn lemma_value_round_trip(v: ValueView, rest: Seq<u8>)
    requires
        value_fits(v),
    ensures
        parse_value(value_bytes(v) + rest) == Some((v, value_bytes(v).len() as int)),
{
    let s = value_bytes(v) + rest;
    match v {
        ValueView::Bool(_) => {},
        ValueView::Byte(_) => {},
        ValueView::Int16(i) => {
            lemma_be16_round_trip(bits16(i), rest);
            lemma_signed_round_trip(i, 0, 0);
            assert(s.skip(1) =~= be16(bits16(i)) + rest);
        },
        ValueView::Int32(i) => {
            lemma_be32_round_trip(bits32(i), rest);
            lemma_signed_round_trip(0, i, 0);
            assert(s.skip(1) =~= be32(bits32(i)) + rest);
        },
        ValueView::Int64(i) => {
            lemma_be64_round_trip(bits64(i), rest);
            lemma_signed_round_trip(0, 0, i);
            assert(s.skip(1) =~= be64(bits64(i)) + rest);
        },
        ValueView::ByteBuffer(b) => {
            lemma_be16_round_trip(b.len() as u16, b + rest);
            assert(s.skip(1) =~= be16(b.len() as u16) + (b + rest));
            assert(s.subrange(3, 3 + b.len() as int) =~= b);
        },
        ValueView::String(t) => {
            let b = encode_utf8(t);
            lemma_be16_round_trip(b.len() as u16, b + rest);
            assert(s.skip(1) =~= be16(b.len() as u16) + (b + rest));
            assert(s.subrange(3, 3 + b.len() as int) =~= b);
            vstd::utf8::encode_utf8_valid_utf8(t);
            vstd::utf8::encode_utf8_decode_utf8(t);
        },
        ValueView::Timestamp(i) => {
            lemma_be64_round_trip(bits64(i), rest);
            lemma_signed_round_trip(0, 0, i);
            assert(s.skip(1) =~= be64(bits64(i)) + rest);
        },
        ValueView::Uuid(u) => {
            assert(s.subrange(1, 17) =~= u);
        },
    }
}

/// A value that was read is written as the bytes that it was read from.
pub proof fn lemma_value_bytes_round_trip(s: Seq<u8>)
    requires
        parse_value(s) is Some,
    ensures
        ({
            let (v, n) = parse_value(s).unwrap();
            &&& value_fits(v)
            &&& 1 <= n <= s.len()
            &&& value_bytes(v) == s.subrange(0, n)
        }),
{
    let (v, n) = parse_value(s).unwrap();
    let t = s.skip(1);
    match v {
        ValueView::Bool(_) => {
            assert(value_bytes(v) =~= s.subrange(0, n));
        },
        ValueView::Byte(_) => {
            assert(value_bytes(v) =~= s.subrange(0, n));
        },
        ValueView::Int16(i) => {
            lemma_be16_bytes_round_trip(t);
            lemma_bits_round_trip(from_be16(t), 0, 0);
            assert(value_bytes(v) =~= s.subrange(0, n));
        },
        ValueView::Int32(i) => {
            lemma_be32_bytes_round_trip(t);
            lemma_bits_round_trip(0, from_be32(t), 0);
            assert(value_bytes(v) =~= s.subrange(0, n));
        },
        ValueView::Int64(i) => {
            lemma_be64_bytes_round_trip(t);
            lemma_bits_round_trip(0, 0, from_be64(t));
            assert(value_bytes(v) =~= s.subrange(0, n));
        },
        ValueView::ByteBuffer(b) => {
            lemma_be16_bytes_round_trip(t);
            assert(value_bytes(v) =~= s.subrange(0, n));
        },
        ValueView::String(c) => {
            lemma_be16_bytes_round_trip(t);
            vstd::utf8::decode_utf8_encode_utf8(s.subrange(3, n));
            assert(value_bytes(v) =~= s.subrange(0, n));
        },
        ValueView::Timestamp(i) => {
            lemma_be64_bytes_round_trip(t);
            lemma_bits_round_trip(0, 0, from_be64(t));
            assert(value_bytes(v) =~= s.subrange(0, n));
        },
        ValueView::Uuid(u) => {
            assert(value_bytes(v) =~= s.subrange(0, n));
        },
    }
}

/// Reads the value that begins at `at`, and says where the next thing begins.
pub(crate) fn read_value(s: &[u8], at: usize) -> (r: Result<(Value, usize), Error>)
    requires
        at <= s@.len(),
    ensures
        match parse_value(s@.skip(at as int)) {
            Some((v, n)) => r matches Ok((x, next)) && x@ == v && next == at + n,
            None => r matches Err(e) && e@ == ErrorKind::Protocol,
        },
{
    let len = s.len();
    let ghost t = s@.skip(at as int);
    if len - at < 1 {
        return Err(Error::Protocol("Invalid header value: missing type".to_owned()));
    }
    let code = s[at];
    assert(code == t[0]);
    let left = len - at - 1;
    proof {
        assert(t.skip(1) =~= s@.skip(at + 1));
    }
    if code == 0 {
        Ok((Value::Bool(false), at + 1))
    } else if code == 1 {
        Ok((Value::Bool(true), at + 1))
    } else if code == 2 {
        if left < 1 {
            return Err(Error::Protocol("Invalid header value: missing byte".to_owned()));
        }
        assert(s@[at + 1] == t[1]);
        Ok((Value::Byte(s[at + 1]), at + 2))
    } else if code == 3 {
        if left < 2 {
            return Err(Error::Protocol("Invalid header value: missing int16".to_owned()));
        }
        Ok((Value::Int16(get_i16(s, at + 1)), at + 3))
    } else if code == 4 {
        if left < 4 {
            return Err(Error::Protocol("Invalid header value: missing int32".to_owned()));
        }
        Ok((Value::Int32(get_i32(s, at + 1)), at + 5))
    } else if code == 5 {
        if left < 8 {
            return Err(Error::Protocol("Invalid header value: missing int64".to_owned()));
        }
        Ok((Value::Int64(get_i64(s, at + 1)), at + 9))
    } else if code == 6 {
        if left < 2 {
            return Err(
                Error::Protocol("Invalid header value: missing byte buffer length".to_owned()),
            );
        }
        let n = get_u16(s, at + 1) as usize;
        if left - 2 < n {
            return Err(Error::Protocol("Invalid header value: missing byte buffer".to_owned()));
        }
        let buffer = slice_to_vec(slice_subrange(s, at + 3, at + 3 + n));
        assert(buffer@ =~= t.subrange(3, 3 + n));
        Ok((Value::ByteBuffer(buffer), at + 3 + n))
    } else if code == 7 {
        if left < 2 {
            return Err(Error::Protocol("Invalid header value: missing string length".to_owned()));
        }
        let n = get_u16(s, at + 1) as usize;
        if left - 2 < n {
            return Err(Error::Protocol("Invalid header value: missing string".to_owned()));
        }
        assert(s@.subrange(at + 3, at + 3 + n) =~= t.subrange(3, 3 + n));
        match text_between(s, at + 3, at + 3 + n) {
            Some(text) => Ok((Value::String(text), at + 3 + n)),
            None => Err(Error::Protocol("Invalid header value: invalid UTF-8".to_owned())),
        }
    } else if code == 8 {
        if left < 8 {
            return Err(Error::Protocol("Invalid header value: missing timestamp".to_owned()));
        }
        Ok((Value::Timestamp(get_i64(s, at + 1)), at + 9))
    } else if code == 9 {
        if left < 16 {
            return Err(Error::Protocol("Invalid header value: missing UUID".to_owned()));
        }
        assert(s@.subrange(at + 1, at + 17) =~= t.subrange(1, 17));
        match Uuid::from_slice(slice_subrange(s, at + 1, at + 17)) {
            Some(id) => Ok((Value::Uuid(id), at + 17)),
            None => Err(Error::Protocol("Invalid header value: invalid UUID".to_owned())),
        }
    } else {
        Err(Error::Protocol("Invalid header value: unknown type".to_owned()))
    }
}

impl Value {
    /// Get the type code of the value.
    pub fn type_code(&self) -> (r: u8)
        ensures
            r == value_type_code(self@),
    {
        match self {
            Value::Bool(b) => {
                if *b {
                    1
                } else {
                    0
                }
            },
            Value::Byte(_) => 2,
            Value::Int16(_) => 3,
            Value::Int32(_) => 4,
            Value::Int64(_) => 5,
            Value::ByteBuffer(_) => 6,
            Value::String(_) => 7,
            Value::Timestamp(_) => 8,
            Value::Uuid(_) => 9,
        }
    }

    /// Write the value into the given buffer in the IPC wire format.
    ///
    /// Returns the number of bytes written. A byte buffer or a string of more than
    /// [`MAX_VALUE_LEN`] bytes is not written: the buffer stays as it was.
    pub fn write_as_bytes(&self, writer: &mut Vec<u8>) -> (r: Result<usize, Error>)
        ensures
            match value_excess(self@) {
                None => r == Ok::<usize, Error>(value_bytes(self@).len() as usize)
                    && final(writer)@ == old(writer)@ + value_bytes(self@),
                Some(size) => r matches Err(e) && e@ == (ErrorKind::BufferTooLarge {
                    size,
                    max_size: MAX_VALUE_LEN as nat,
                }) && final(writer)@ == old(writer)@,
            },
    {
        let ghost before = writer@;
        match self {
            Value::Bool(_) => {
                writer.push(self.type_code());
                assert(writer@ =~= before + value_bytes(self@));
                Ok(1)
            },
            Value::Byte(b) => {
                writer.push(2);
                writer.push(*b);
                assert(writer@ =~= before + value_bytes(self@));
                Ok(2)
            },
            Value::Int16(i) => {
                writer.push(3);
                put_i16(writer, *i);
                assert(writer@ =~= before + value_bytes(self@));
                Ok(3)
            },
            Value::Int32(i) => {
                writer.push(4);
                put_i32(writer, *i);
                assert(writer@ =~= before + value_bytes(self@));
                Ok(5)
            },
            Value::Int64(i) => {
                writer.push(5);
                put_i64(writer, *i);
                assert(writer@ =~= before + value_bytes(self@));
                Ok(9)
            },
            Value::ByteBuffer(bytes) => {
                let len = bytes.len();
                if len > MAX_VALUE_LEN {
                    return Err(Error::BufferTooLarge { size: len, max_size: MAX_VALUE_LEN });
                }
                writer.push(6);
                put_u16(writer, len as u16);
                writer.extend_from_slice(bytes.as_slice());
                assert(writer@ =~= before + value_bytes(self@));
                Ok(3 + len)
            },
            Value::String(s) => {
                let bytes = s.as_str().as_bytes();
                let len = bytes.len();
                if len > MAX_VALUE_LEN {
                    return Err(Error::BufferTooLarge { size: len, max_size: MAX_VALUE_LEN });
                }
                writer.push(7);
                put_u16(writer, len as u16);
                writer.extend_from_slice(bytes);
                assert(writer@ =~= before + value_bytes(self@));
                Ok(3 + len)
            },
            Value::Timestamp(ts) => {
                writer.push(8);
                put_i64(writer, *ts);
                assert(writer@ =~= before + value_bytes(self@));
                Ok(9)
            },
            Value::Uuid(uuid) => {
                writer.push(9);
                writer.extend_from_slice(uuid.as_bytes().as_slice());
                assert(writer@ =~= before + value_bytes(self@));
                Ok(17)
            },
        }
    }

    /// Get the size of the value in bytes when serialized in the IPC wire format: the type
    /// code and what follows it. A byte buffer or a string of more than [`MAX_VALUE_LEN`]
    /// bytes has none.
    pub fn size_in_bytes(&self) -> (r: Result<u32, Error>)
        ensures
            match value_excess(self@) {
                None => r == Ok::<u32, Error>(value_bytes(self@).len() as u32) && value_bytes(
                    self@,
                ).len() <= MAX_VALUE_LEN + 3,
                Some(size) => r matches Err(e) && e@ == (ErrorKind::BufferTooLarge {
                    size,
                    max_size: MAX_VALUE_LEN as nat,
                }),
            },
    {
        match self {
            Value::Bool(_) => Ok(1),
            Value::Byte(_) => Ok(2),
            Value::Int16(_) => Ok(3),
            Value::Int32(_) => Ok(5),
            Value::Int64(_) => Ok(9),
            Value::Timestamp(_) => Ok(9),
            Value::ByteBuffer(bytes) => {
                let len = bytes.len();
                if len > MAX_VALUE_LEN {
                    return Err(Error::BufferTooLarge { size: len, max_size: MAX_VALUE_LEN });
                }
                Ok(len as u32 + 3)
            },
            Value::String(s) => {
                let len = s.as_str().as_bytes().len();
                if len > MAX_VALUE_LEN {
                    return Err(Error::BufferTooLarge { size: len, max_size: MAX_VALUE_LEN });
                }
                Ok(len as u32 + 3)
            },
            Value::Uuid(uuid) => {
                proof {
                    uuid.lemma_len();
                }
                Ok(17)
            },
        }
    }

    /// A copy of the value.
    pub fn to_owned(&self) -> (r: Value)
        ensures
            r@ == self@,
    {
        match self {
            Value::Bool(b) => Value::Bool(*b),
            Value::Byte(b) => Value::Byte(*b),
            Value::Int16(i) => Value::Int16(*i),
            Value::Int32(i) => Value::Int32(*i),
            Value::Int64(i) => Value::Int64(*i),
            Value::ByteBuffer(bytes) => Value::ByteBuffer(slice_to_vec(bytes.as_slice())),
            Value::String(s) => Value::String(s.clone()),
            Value::Timestamp(ts) => Value::Timestamp(*ts),
            Value::Uuid(uuid) => Value::Uuid(*uuid),
        }
    }

    /// Get the value as a boolean if it is one.
    pub fn as_bool(&self) -> (r: Option<bool>)
        ensures
            match self@ {
                ValueView::Bool(b) => r == Some(b),
                _ => r is None,
            },
    {
        match self {
            Value::Bool(b) => Some(*b),
            _ => None,
        }
    }

    /// Get the value as a byte if it is one.
    pub fn as_byte(&self) -> (r: Option<u8>)
        ensures
            match self@ {
                ValueView::Byte(b) => r == Some(b),
                _ => r is None,
            },
    {
        match self {
            Value::Byte(b) => Some(*b),
            _ => None,
        }
    }

    /// Get the value as a 16-bit integer if it is one.
    pub fn as_int16(&self) -> (r: Option<i16>)
        ensures
            match self@ {
                ValueView::Int16(i) => r == Some(i),
                _ => r is None,
            },
    {
        match self {
            Value::Int16(i) => Some(*i),
            _ => None,
        }
    }

    /// Get the value as a 32-bit integer if it is one.
    pub fn as_int32(&self) -> (r: Option<i32>)
        ensures
            match self@ {
                ValueView::Int32(i) => r == Some(i),
                _ => r is None,
            },
    {
        match self {
            Value::Int32(i) => Some(*i),
            _ => None,
        }
    }

    /// Get the value as a 64-bit integer if it is one.
    pub fn as_int64(&self) -> (r: Option<i64>)
        ensures
            match self@ {
                ValueView::Int64(i) => r == Some(i),
                _ => r is None,
            },
    {
        match self {
            Value::Int64(i) => Some(*i),
            _ => None,
        }
    }

    /// Get the value as a byte buffer if it is one.
    pub fn as_byte_buffer(&self) -> (r: Option<&[u8]>)
        ensures
            match self@ {
                ValueView::ByteBuffer(b) => r matches Some(x) && x@ == b,
                _ => r is None,
            },
    {
        match self {
            Value::ByteBuffer(bytes) => Some(bytes.as_slice()),
            _ => None,
        }
    }

    /// Get the value as a string if it is one.
    pub fn as_str(&self) -> (r: Option<&str>)
        ensures
            match self@ {
                ValueView::String(s) => r matches Some(x) && x@ == s,
                _ => r is None,
            },
    {
        match self {
            Value::String(s) => Some(s.as_str()),
            _ => None,
        }
    }

    /// Get the value as a timestamp if it is one.
    pub fn as_timestamp(&self) -> (r: Option<i64>)
        ensures
            match self@ {
                ValueView::Timestamp(t) => r == Some(t),
                _ => r is None,
            },
    {
        match self {
            Value::Timestamp(ts) => Some(*ts),
            _ => None,
        }
    }

    /// Get the value as a UUID if it is one.
    pub fn as_uuid(&self) -> (r: Option<Uuid>)
        ensures
            match self@ {
                ValueView::Uuid(u) => r matches Some(x) && x@ == u,
                _ => r is None,
            },
    {
        match self {
            Value::Uuid(uuid) => Some(*uuid),
            _ => None,
        }
    }

    /// Read a header value from the given bytes in the IPC wire format.
    ///
    /// On success the value is taken off the front of `bytes`. Where the bytes begin with no
    /// value, they stay as they were.
    pub fn from_bytes(bytes: &mut &[u8]) -> (r: Result<Value, Error>)
        ensures
            match parse_value(old(bytes)@) {
                Some((v, n)) => r matches Ok(x) && x@ == v && final(bytes)@ == old(bytes)@.skip(n),
                None => r matches Err(e) && e@ == ErrorKind::Protocol
                    && final(bytes)@ == old(bytes)@,
            },
    {
        let s: &[u8] = *bytes;
        assert(s@.skip(0) =~= s@);
        match read_value(s, 0) {
            Ok((value, next)) => {
                proof {
                    lemma_value_bytes_round_trip(s@);
                }
                *bytes = slice_subrange(s, next, s.len());
                Ok(value)
            },
            Err(e) => Err(e),
        }
    }
}

} // verus!
