//! Typed headers: the names and values that stand between the prelude and the payload.
//!
//! A header is a name of at most 255 bytes and a typed value. Three names are reserved and
//! stand in every message: `:message-type`, `:message-flags` and `:stream-id`, each with a
//! 32-bit integer. [`Headers`] keeps the headers in the order in which they were inserted,
//! with no name twice, and writes them in that order.

use vstd::prelude::*;
use vstd::slice::slice_subrange;
use vstd::utf8::{decode_utf8, encode_utf8, valid_utf8};

use crate::error::{Error, ErrorKind};
use crate::protocol::text::{same_text, text_between};
use crate::protocol::wire::{as_bits32, as_signed32, bits32, lemma_bits_round_trip, signed32};

mod message_flags;
mod message_type;
mod value;

pub use message_flags::{has_flag, lemma_flags, BitFlags, MessageFlags};
pub use message_type::{lemma_message_type_code, MessageType};
pub(crate) use value::read_value;
pub use value::{
    lemma_value_bytes_round_trip, lemma_value_round_trip, lemma_value_well_formed, parse_value,
    value_body, value_bytes, value_excess, value_fits, value_type_code, Value, ValueView,
    MAX_VALUE_LEN,
};

verus! {

/// The largest number of bytes that the UTF-8 encoding of a header name may have.
pub const MAX_NAME_LEN: usize = 255;

/// The name of the header that holds the stream id.
pub const STREAM_ID: &'static str = ":stream-id";

/// The name of the header that holds the message type.
pub const MESSAGE_TYPE: &'static str = ":message-type";

/// The name of the header that holds the message flags.
pub const MESSAGE_FLAGS: &'static str = ":message-flags";

/// A header as a name and what its value holds.
pub type Entry = (Seq<char>, ValueView);

/// The headers of a message.
#[derive(Debug, Clone, PartialEq, Eq)]
pub struct Headers {
    stream_id: i32,
    message_type: MessageType,
    message_flags: BitFlags,
    headers: Vec<(String, Value)>,
}

/// What [`Headers`] hold: the three reserved values, and every header in order, the reserved
/// ones among them.
pub struct HeadersView {
    pub stream_id: i32,
    pub message_type: MessageType,
    pub message_flags: u32,
    pub entries: Seq<Entry>,
}

/// The headers of a vector, each by what it holds.
pub open spec fn entries_view(v: Seq<(String, Value)>) -> Seq<Entry> {
    Seq::new(v.len(), |i: int| (v[i].0@, v[i].1@))
}

impl View for Headers {
    type V = HeadersView;

    closed spec fn view(&self) -> HeadersView {
        HeadersView {
            stream_id: self.stream_id,
            message_type: self.message_type,
            message_flags: self.message_flags@,
            entries: entries_view(self.headers@),
        }
    }
}

/// The place of the first header called `name`, if there is one.
pub open spec fn position(entries: Seq<Entry>, name: Seq<char>) -> Option<int>
    decreases entries.len(),
{
    if entries.len() == 0 {
        None
    } else if entries[0].0 == name {
        Some(0)
    } else {
        match position(entries.drop_first(), name) {
            Some(i) => Some(i + 1),
            None => None,
        }
    }
}

/// The value of the first header called `name`, if there is one.
pub open spec fn lookup(entries: Seq<Entry>, name: Seq<char>) -> Option<ValueView> {
    match position(entries, name) {
        Some(i) => Some(entries[i].1),
        None => None,
    }
}

/// The headers after a header was inserted: it takes the place of the first one of its name,
/// or comes last where there is none.
pub open spec fn insert_entry(entries: Seq<Entry>, name: Seq<char>, value: ValueView) -> Seq<
    Entry,
> {
    match position(entries, name) {
        Some(i) => entries.update(i, (name, value)),
        None => entries.push((name, value)),
    }
}

/// The headers after each of `raw` was inserted in turn, starting with none.
pub open spec fn insert_all(raw: Seq<Entry>) -> Seq<Entry>
    decreases raw.len(),
{
    if raw.len() == 0 {
        Seq::empty()
    } else {
        insert_entry(insert_all(raw.drop_last()), raw.last().0, raw.last().1)
    }
}

/// Whether no name occurs twice.
pub open spec fn distinct_names(entries: Seq<Entry>) -> bool {
    forall|i: int, j: int| 0 <= i < j < entries.len() ==> entries[i].0 != entries[j].0
}

/// The encoding of a header: the length of its name in one byte, the name, the value.
pub open spec fn header_bytes(e: Entry) -> Seq<u8> {
    seq![encode_utf8(e.0).len() as u8] + encode_utf8(e.0) + value_bytes(e.1)
}

/// The sizes that keep a header from being written, where there are any: the size that is over
/// its limit, and the limit.
pub open spec fn header_excess(e: Entry) -> Option<(nat, nat)> {
    if encode_utf8(e.0).len() > MAX_NAME_LEN {
        Some((encode_utf8(e.0).len(), MAX_NAME_LEN as nat))
    } else {
        match value_excess(e.1) {
            Some(size) => Some((size, MAX_VALUE_LEN as nat)),
            None => None,
        }
    }
}

/// Whether a header can be written.
pub open spec fn header_fits(e: Entry) -> bool {
    encode_utf8(e.0).len() <= MAX_NAME_LEN && value_fits(e.1)
}

/// The encoding of headers: the encoding of each, in order.
pub open spec fn headers_bytes(entries: Seq<Entry>) -> Seq<u8>
    decreases entries.len(),
{
    if entries.len() == 0 {
        Seq::empty()
    } else {
        header_bytes(entries[0]) + headers_bytes(entries.drop_first())
    }
}

/// A size as a `usize` reports it: the size itself, or the largest `usize` where the size is
/// larger.
pub open spec fn reported_size(size: nat) -> nat {
    if size <= usize::MAX {
        size
    } else {
        usize::MAX as nat
    }
}

/// The size of the encoding of headers, as a pass over them finds it, or the error that the
/// pass ends with: at the first header that cannot be written, the size that is over its limit;
/// at the first header with which the headers are too long for a 32-bit length, the size of
/// the headers up to that one.
pub open spec fn headers_size(entries: Seq<Entry>) -> Result<nat, ErrorKind>
    decreases entries.len(),
{
    if entries.len() == 0 {
        Ok(0)
    } else {
        match headers_size(entries.drop_last()) {
            Err(e) => Err(e),
            Ok(n) => match header_excess(entries.last()) {
                Some((size, max_size)) => Err(ErrorKind::BufferTooLarge { size, max_size }),
                None => if n + header_bytes(entries.last()).len() > u32::MAX {
                    Err(
                        ErrorKind::BufferTooLarge {
                            size: reported_size(n + header_bytes(entries.last()).len()),
                            max_size: u32::MAX as nat,
                        },
                    )
                } else {
                    Ok(n + header_bytes(entries.last()).len())
                },
            },
        }
    }
}

/// Whether every header can be written.
pub open spec fn headers_fit(entries: Seq<Entry>) -> bool {
    forall|i: int| 0 <= i < entries.len() ==> header_fits(#[trigger] entries[i])
}

/// The header that the bytes `s` begin with and the number of bytes that it takes, or nothing
/// where they begin with no header.
pub open spec fn parse_header(s: Seq<u8>) -> Option<(Entry, int)> {
    if s.len() < 1 || s.len() < 1 + s[0] {
        None
    } else {
        let n = s[0] as int;
        if !valid_utf8(s.subrange(1, 1 + n)) {
            None
        } else {
            match parse_value(s.skip(1 + n)) {
                Some((v, m)) => Some(((decode_utf8(s.subrange(1, 1 + n)), v), 1 + n + m)),
                None => None,
            }
        }
    }
}

/// The headers that the bytes `s` are the encoding of, one after the other, or nothing where
/// they are not a sequence of headers.
pub open spec fn parse_headers(s: Seq<u8>) -> Option<Seq<Entry>>
    decreases s.len(),
{
    if s.len() == 0 {
        Some(Seq::empty())
    } else {
        match parse_header(s) {
            Some((e, n)) => if 0 < n <= s.len() {
                match parse_headers(s.skip(n)) {
                    Some(rest) => Some(seq![e] + rest),
                    None => None,
                }
            } else {
                None
            },
            None => None,
        }
    }
}

/// The three reserved values among `entries`, or the error that they call for: a reserved
/// header that is absent or is no 32-bit integer is missing; a message type that stands for
/// nothing is a protocol error. The flags are the bits of their integer, whatever they are.
/// The stream id is looked at first, then the message type, then the flags.
pub open spec fn reserved_values(entries: Seq<Entry>) -> Result<
    (i32, MessageType, u32),
    ErrorKind,
> {
    match lookup(entries, STREAM_ID@) {
        Some(ValueView::Int32(stream_id)) => match lookup(entries, MESSAGE_TYPE@) {
            Some(ValueView::Int32(code)) => match MessageType::of_code(code) {
                Some(message_type) => match lookup(entries, MESSAGE_FLAGS@) {
                    Some(ValueView::Int32(bits)) => Ok((stream_id, message_type, bits32(bits))),
                    _ => Err(ErrorKind::MissingHeader(MESSAGE_FLAGS@)),
                },
                None => Err(ErrorKind::Protocol),
            },
            _ => Err(ErrorKind::MissingHeader(MESSAGE_TYPE@)),
        },
        _ => Err(ErrorKind::MissingHeader(STREAM_ID@)),
    }
}

/// The headers that the bytes `s` stand for, or the error that they call for: a protocol error
/// where the bytes are not a sequence of headers. Of two headers of one name the later one
/// takes the place of the earlier.
pub open spec fn decode_headers(s: Seq<u8>) -> Result<HeadersView, ErrorKind> {
    match parse_headers(s) {
        None => Err(ErrorKind::Protocol),
        Some(raw) => match reserved_values(insert_all(raw)) {
            Ok((stream_id, message_type, message_flags)) => Ok(
                HeadersView { stream_id, message_type, message_flags, entries: insert_all(raw) },
            ),
            Err(e) => Err(e),
        },
    }
}

impl HeadersView {
    /// Whether the headers are those of a message: no name occurs twice, and the three
    /// reserved headers stand among them with the three reserved values.
    pub open spec fn consistent(self) -> bool {
        &&& distinct_names(self.entries)
        &&& reserved_values(self.entries) == Ok::<_, ErrorKind>(
            (self.stream_id, self.message_type, self.message_flags),
        )
    }
}

/// Where the first header of a name stands: at a place where that name stands, with no header
/// of that name before it.
pub proof fn lemma_position(entries: Seq<Entry>, name: Seq<char>)
    ensures
        match position(entries, name) {
            Some(i) => 0 <= i < entries.len() && entries[i].0 == name && forall|j: int|
                0 <= j < i ==> entries[j].0 != name,
            None => forall|j: int| 0 <= j < entries.len() ==> entries[j].0 != name,
        },
    decreases entries.len(),
{
    if entries.len() > 0 && entries[0].0 != name {
        let rest = entries.drop_first();
        lemma_position(rest, name);
        match position(rest, name) {
            Some(i) => {
                assert forall|j: int| 0 <= j < i + 1 implies entries[j].0 != name by {
                    if j > 0 {
                        assert(entries[j] == rest[j - 1]);
                    }
                }
            },
            None => {
                assert forall|j: int| 0 <= j < entries.len() implies entries[j].0 != name by {
                    if j > 0 {
                        assert(entries[j] == rest[j - 1]);
                    }
                }
            },
        }
    }
}

/// The first header of a name stands at the first place where that name stands.
pub proof fn lemma_position_is(entries: Seq<Entry>, name: Seq<char>, i: int)
    requires
        0 <= i < entries.len(),
        entries[i].0 == name,
        forall|j: int| 0 <= j < i ==> entries[j].0 != name,
    ensures
        position(entries, name) == Some(i),
{
    lemma_position(entries, name);
}

/// Inserting a header keeps the names distinct.
pub proof fn lemma_insert_keeps_distinct(entries: Seq<Entry>, name: Seq<char>, value: ValueView)
    requires
        distinct_names(entries),
    ensures
        distinct_names(insert_entry(entries, name, value)),
{
    lemma_position(entries, name);
}

/// Inserting a header leaves the headers of other names where they are.
pub proof fn lemma_insert_keeps_others(
    entries: Seq<Entry>,
    name: Seq<char>,
    value: ValueView,
    other: Seq<char>,
)
    requires
        other != name,
    ensures
        lookup(insert_entry(entries, name, value), other) == lookup(entries, other),
        lookup(insert_entry(entries, name, value), name) == Some(value),
{
    let after = insert_entry(entries, name, value);
    lemma_position(entries, name);
    lemma_position(entries, other);
    lemma_position(after, other);
    lemma_position(after, name);
    match position(entries, other) {
        Some(i) => {
            assert(after[i].0 == other);
            assert forall|j: int| 0 <= j < i implies after[j].0 != other by {}
            lemma_position_is(after, other, i);
        },
        None => {
            assert forall|j: int| 0 <= j < after.len() implies after[j].0 != other by {}
        },
    }
    match position(entries, name) {
        Some(i) => {
            assert forall|j: int| 0 <= j < i implies after[j].0 != name by {}
            lemma_position_is(after, name, i);
        },
        None => {
            assert forall|j: int| 0 <= j < entries.len() implies after[j].0 != name by {}
            lemma_position_is(after, name, entries.len() as int);
        },
    }
}

/// Inserting a header under a name that is not reserved leaves the headers those of a
/// message.
pub proof fn lemma_insert_keeps_consistent(h: HeadersView, name: Seq<char>, value: ValueView)
    requires
        h.consistent(),
        name != STREAM_ID@,
        name != MESSAGE_TYPE@,
        name != MESSAGE_FLAGS@,
    ensures
        (HeadersView { entries: insert_entry(h.entries, name, value), ..h }).consistent(),
{
    lemma_insert_keeps_distinct(h.entries, name, value);
    lemma_insert_keeps_others(h.entries, name, value, STREAM_ID@);
    lemma_insert_keeps_others(h.entries, name, value, MESSAGE_TYPE@);
    lemma_insert_keeps_others(h.entries, name, value, MESSAGE_FLAGS@);
}

/// Headers that were inserted one by one have distinct names.
pub proof fn lemma_insert_all_distinct(raw: Seq<Entry>)
    ensures
        distinct_names(insert_all(raw)),
    decreases raw.len(),
{
    if raw.len() > 0 {
        lemma_insert_all_distinct(raw.drop_last());
        lemma_insert_keeps_distinct(insert_all(raw.drop_last()), raw.last().0, raw.last().1);
    }
}

/// Inserting headers of distinct names one by one gives those headers, in their order.
pub proof fn lemma_insert_all_of_distinct(raw: Seq<Entry>)
    requires
        distinct_names(raw),
    ensures
        insert_all(raw) == raw,
    decreases raw.len(),
{
    if raw.len() > 0 {
        let front = raw.drop_last();
        lemma_insert_all_of_distinct(front);
        lemma_position(front, raw.last().0);
        assert(front.push(raw.last()) =~= raw);
    }
}

/// The encoding of headers with one more header at the end is the encoding of the headers,
/// then that of the header.
pub proof fn lemma_headers_bytes_push(entries: Seq<Entry>, e: Entry)
    ensures
        headers_bytes(entries.push(e)) == headers_bytes(entries) + header_bytes(e),
    decreases entries.len(),
{
    let all = entries.push(e);
    if entries.len() == 0 {
        assert(all.drop_first() =~= entries);
        assert(all[0] == e);
        assert(headers_bytes(all) == header_bytes(e) + headers_bytes(entries));
        assert(headers_bytes(entries) =~= Seq::<u8>::empty());
        assert(headers_bytes(all) =~= headers_bytes(entries) + header_bytes(e));
    } else {
        lemma_headers_bytes_push(entries.drop_first(), e);
        assert(all.drop_first() =~= entries.drop_first().push(e));
        assert(headers_bytes(all) =~= headers_bytes(entries) + header_bytes(e));
    }
}

/// Where the pass over the headers finds a size, every header can be written and the size is
/// that of the encoding, which a frame can hold; and where every header can be written and a
/// frame can hold the encoding, the pass finds its size.
pub proof fn lemma_headers_size(entries: Seq<Entry>)
    ensures
        headers_size(entries) matches Ok(n) ==> n == headers_bytes(entries).len() && n <= u32::MAX
            && forall|i: int| 0 <= i < entries.len() ==> header_excess(#[trigger] entries[i])
            is None,
        (forall|i: int| 0 <= i < entries.len() ==> header_excess(#[trigger] entries[i]) is None)
            && headers_bytes(entries).len() <= u32::MAX ==> headers_size(entries) is Ok,
    decreases entries.len(),
{
    if entries.len() > 0 {
        let front = entries.drop_last();
        lemma_headers_size(front);
        lemma_headers_bytes_push(front, entries.last());
        assert(front.push(entries.last()) =~= entries);
        assert forall|i: int| 0 <= i < front.len() implies front[i] == entries[i] by {}
        if headers_size(entries) is Ok {
            assert forall|i: int| 0 <= i < entries.len() implies header_excess(
                #[trigger] entries[i],
            ) is None by {
                if i < front.len() {
                    assert(front[i] == entries[i]);
                }
            }
        }
        if (forall|i: int| 0 <= i < entries.len() ==> header_excess(#[trigger] entries[i])
            is None) && headers_bytes(entries).len() <= u32::MAX {
            assert forall|i: int| 0 <= i < front.len() implies header_excess(
                #[trigger] front[i],
            ) is None by {
                assert(front[i] == entries[i]);
            }
            assert(header_excess(entries[entries.len() - 1]) is None);
        }
    }
}

/// Headers of which none is kept from being written by its size can all be written.
pub proof fn lemma_headers_well_formed(h: Headers)
    requires
        forall|i: int|
            0 <= i < h@.entries.len() ==> header_excess(#[trigger] h@.entries[i]) is None,
    ensures
        headers_fit(h@.entries),
{
    assert forall|i: int| 0 <= i < h@.entries.len() implies header_fits(
        #[trigger] h@.entries[i],
    ) by {
        assert(header_excess(h@.entries[i]) is None);
        lemma_value_well_formed(h.headers@[i].1);
    }
}

/// A header that was written is read back as it was, whatever follows it.
pub proof fn lemma_header_round_trip(e: Entry, rest: Seq<u8>)
    requires
        header_fits(e),
    ensures
        parse_header(header_bytes(e) + rest) == Some((e, header_bytes(e).len() as int)),
{
    let name = encode_utf8(e.0);
    let s = header_bytes(e) + rest;
    let n = name.len() as int;
    assert(s[0] == n);
    assert(s.subrange(1, 1 + n) =~= name);
    assert(s.skip(1 + n) =~= value_bytes(e.1) + rest);
    vstd::utf8::encode_utf8_valid_utf8(e.0);
    vstd::utf8::encode_utf8_decode_utf8(e.0);
    lemma_value_round_trip(e.1, rest);
}

/// A header that was read is written as the bytes that it was read from.
pub proof fn lemma_header_bytes_round_trip(s: Seq<u8>)
    requires
        parse_header(s) is Some,
    ensures
        ({
            let (e, n) = parse_header(s).unwrap();
            &&& header_fits(e)
            &&& header_excess(e) is None
            &&& 2 <= n <= s.len()
            &&& header_bytes(e) == s.subrange(0, n)
        }),
{
    let (e, n) = parse_header(s).unwrap();
    let k = s[0] as int;
    let t = s.skip(1 + k);
    lemma_value_bytes_round_trip(t);
    vstd::utf8::decode_utf8_encode_utf8(s.subrange(1, 1 + k));
    let (v, m) = parse_value(t).unwrap();
    assert(t.subrange(0, m) =~= s.subrange(1 + k, n));
    assert(header_bytes(e) =~= s.subrange(0, n));
}

/// Headers that were written are read back as they were.
pub proof fn lemma_headers_round_trip(entries: Seq<Entry>)
    requires
        headers_fit(entries),
    ensures
        parse_headers(headers_bytes(entries)) == Some(entries),
    decreases entries.len(),
{
    if entries.len() > 0 {
        let rest = entries.drop_first();
        let s = headers_bytes(entries);
        assert(header_fits(entries[0]));
        assert forall|i: int| 0 <= i < rest.len() implies header_fits(#[trigger] rest[i]) by {
            assert(rest[i] == entries[i + 1]);
        }
        lemma_headers_round_trip(rest);
        lemma_header_round_trip(entries[0], headers_bytes(rest));
        let n = header_bytes(entries[0]).len() as int;
        assert(s.skip(n) =~= headers_bytes(rest));
        assert(seq![entries[0]] + rest =~= entries);
    } else {
        assert(entries =~= Seq::<Entry>::empty());
    }
}

/// Headers that were read are written as the bytes that they were read from, and each of them
/// can be written.
pub proof fn lemma_headers_bytes_round_trip(s: Seq<u8>)
    requires
        parse_headers(s) is Some,
    ensures
        headers_bytes(parse_headers(s).unwrap()) == s,
        headers_fit(parse_headers(s).unwrap()),
        forall|i: int|
            0 <= i < parse_headers(s).unwrap().len() ==> header_excess(
                #[trigger] parse_headers(s).unwrap()[i],
            ) is None,
    decreases s.len(),
{
    let raw = parse_headers(s).unwrap();
    if s.len() > 0 {
        let (e, n) = parse_header(s).unwrap();
        let rest = parse_headers(s.skip(n)).unwrap();
        lemma_header_bytes_round_trip(s);
        lemma_headers_bytes_round_trip(s.skip(n));
        assert(raw.drop_first() =~= rest);
        assert(raw[0] == e);
        assert(headers_bytes(raw) =~= s);
        assert forall|i: int| 0 <= i < raw.len() implies header_fits(#[trigger] raw[i])
            && header_excess(raw[i]) is None by {
            if i > 0 {
                assert(raw[i] == rest[i - 1]);
            }
        }
    } else {
        assert(headers_bytes(raw) =~= s);
    }
}

/// The three reserved names differ from one another.
pub proof fn lemma_reserved_names()
    ensures
        STREAM_ID@ != MESSAGE_TYPE@,
        STREAM_ID@ != MESSAGE_FLAGS@,
        MESSAGE_TYPE@ != MESSAGE_FLAGS@,
{
    reveal_strlit(":stream-id");
    reveal_strlit(":message-type");
    reveal_strlit(":message-flags");
    assert(STREAM_ID@.len() == 10);
    assert(MESSAGE_TYPE@.len() == 13);
    assert(MESSAGE_FLAGS@.len() == 14);
}

/// The place of the first header called `name`.
fn find(headers: &Vec<(String, Value)>, name: &str) -> (r: Option<usize>)
    ensures
        match r {
            Some(i) => i < headers@.len() && position(entries_view(headers@), name@) == Some(
                i as int,
            ),
            None => position(entries_view(headers@), name@) is None,
        },
{
    let mut i: usize = 0;
    while i < headers.len()
        invariant
            i <= headers@.len(),
            forall|j: int| 0 <= j < i ==> entries_view(headers@)[j].0 != name@,
        decreases headers@.len() - i,
    {
        if same_text(headers[i].0.as_str(), name) {
            proof {
                lemma_position_is(entries_view(headers@), name@, i as int);
            }
            return Some(i);
        }
        i += 1;
    }
    proof {
        lemma_position(entries_view(headers@), name@);
    }
    None
}

/// The 32-bit integer of the first header called `name`, if there is such a header and it
/// holds one.
fn find_int32(headers: &Vec<(String, Value)>, name: &str) -> (r: Option<i32>)
    ensures
        match lookup(entries_view(headers@), name@) {
            Some(ValueView::Int32(i)) => r == Some(i),
            _ => r is None,
        },
{
    proof {
        lemma_position(entries_view(headers@), name@);
    }
    match find(headers, name) {
        Some(i) => {
            assert(entries_view(headers@)[i as int].1 == headers@[i as int].1@);
            headers[i].1.as_int32()
        },
        None => None,
    }
}

/// Puts a header in the place of the first one of its name, or last where there is none.
fn put(headers: &mut Vec<(String, Value)>, name: String, value: Value)
    ensures
        entries_view(final(headers)@) == insert_entry(
            entries_view(old(headers)@),
            name@,
            value@,
        ),
{
    let ghost before = entries_view(headers@);
    let ghost entry = (name@, value@);
    proof {
        lemma_position(before, name@);
    }
    match find(headers, name.as_str()) {
        Some(i) => {
            headers.set(i, (name, value));
            assert(entries_view(headers@) =~= before.update(i as int, entry));
        },
        None => {
            headers.push((name, value));
            assert(entries_view(headers@) =~= before.push(entry));
        },
    }
}

/// Reads the header that begins at `at`, and says where the next thing begins.
fn read_header(s: &[u8], at: usize) -> (r: Result<(String, Value, usize), Error>)
    requires
        at < s@.len(),
    ensures
        match parse_header(s@.skip(at as int)) {
            Some((e, n)) => r matches Ok((name, value, next)) && name@ == e.0 && value@ == e.1
                && next == at + n,
            None => r matches Err(e) && e@ == ErrorKind::Protocol,
        },
{
    let len = s.len();
    let ghost t = s@.skip(at as int);
    let n = s[at] as usize;
    assert(t[0] == n);
    if len - at - 1 < n {
        return Err(Error::Protocol("Invalid header name: missing name".to_owned()));
    }
    assert(s@.subrange(at + 1, at + 1 + n) =~= t.subrange(1, 1 + n));
    assert(t.skip(1 + n) =~= s@.skip(at + 1 + n));
    let name = match text_between(s, at + 1, at + 1 + n) {
        Some(name) => name,
        None => {
            return Err(Error::Protocol("Invalid header name: invalid UTF-8".to_owned()));
        },
    };
    match read_value(s, at + 1 + n) {
        Ok((value, next)) => Ok((name, value, next)),
        Err(e) => Err(e),
    }
}

/// Reads the headers that `s` is the encoding of, each inserted in turn.
fn read_headers(s: &[u8]) -> (r: Result<Vec<(String, Value)>, Error>)
    ensures
        match parse_headers(s@) {
            Some(raw) => r matches Ok(headers) && entries_view(headers@) == insert_all(raw),
            None => r matches Err(e) && e@ == ErrorKind::Protocol,
        },
{
    let len = s.len();
    let mut headers: Vec<(String, Value)> = Vec::new();
    let mut at: usize = 0;
    let ghost mut raw: Seq<Entry> = Seq::empty();
    assert(s@.skip(0) =~= s@);
    assert(entries_view(headers@) =~= insert_all(raw));
    while at < len
        invariant
            at <= len == s@.len(),
            entries_view(headers@) == insert_all(raw),
            parse_headers(s@) == (match parse_headers(s@.skip(at as int)) {
                Some(rest) => Some(raw + rest),
                None => None,
            }),
        decreases len - at,
    {
        let ghost t = s@.skip(at as int);
        match read_header(s, at) {
            Err(e) => {
                return Err(e);
            },
            Ok((name, value, next)) => {
                proof {
                    lemma_header_bytes_round_trip(t);
                    let (e, n) = parse_header(t).unwrap();
                    assert(t.skip(n) =~= s@.skip(next as int));
                    assert(raw.push(e).drop_last() =~= raw);
                    match parse_headers(s@.skip(next as int)) {
                        Some(rest) => {
                            assert(raw + (seq![e] + rest) =~= raw.push(e) + rest);
                        },
                        None => {},
                    }
                    raw = raw.push(e);
                }
                put(&mut headers, name, value);
                at = next;
            },
        }
    }
    proof {
        assert(raw + Seq::<Entry>::empty() =~= raw);
    }
    Ok(headers)
}

impl Headers {
    /// The headers of a message of the given stream, type and flags: the three reserved
    /// headers, the message type first, then the flags, then the stream id.
    pub fn new(stream_id: i32, message_type: MessageType, message_flags: BitFlags) -> (r:
        Headers)
        ensures
            r@ == (HeadersView {
                stream_id,
                message_type,
                message_flags: message_flags@,
                entries: seq![
                    (MESSAGE_TYPE@, ValueView::Int32(message_type.spec_code())),
                    (MESSAGE_FLAGS@, ValueView::Int32(signed32(message_flags@))),
                    (STREAM_ID@, ValueView::Int32(stream_id)),
                ],
            }),
            r@.consistent(),
    {
        let mut headers: Vec<(String, Value)> = Vec::new();
        headers.push((MESSAGE_TYPE.to_owned(), Value::Int32(message_type.code())));
        headers.push((MESSAGE_FLAGS.to_owned(), Value::Int32(as_signed32(message_flags.bits()))));
        headers.push((STREAM_ID.to_owned(), Value::Int32(stream_id)));
        let r = Headers { stream_id, message_type, message_flags, headers };
        proof {
            let entries = seq![
                (MESSAGE_TYPE@, ValueView::Int32(message_type.spec_code())),
                (MESSAGE_FLAGS@, ValueView::Int32(signed32(message_flags@))),
                (STREAM_ID@, ValueView::Int32(stream_id)),
            ];
            assert(r@.entries =~= entries);
            lemma_reserved_names();
            lemma_position_is(entries, MESSAGE_TYPE@, 0);
            lemma_position_is(entries, MESSAGE_FLAGS@, 1);
            lemma_position_is(entries, STREAM_ID@, 2);
            lemma_message_type_code(message_type, 0);
            lemma_bits_round_trip(0, message_flags@, 0);
        }
        r
    }

    /// Inserts a header. It takes the place of the header of its name, where there is one,
    /// and comes last where there is none. The three reserved values stay as they are.
    pub fn insert(&mut self, name: &str, value: Value)
        ensures
            final(self)@ == (HeadersView {
                entries: insert_entry(old(self)@.entries, name@, value@),
                ..old(self)@
            }),
    {
        put(&mut self.headers, name.to_owned(), value);
    }

    /// The value of the header called `name`, if there is one.
    pub fn get(&self, name: &str) -> (r: Option<&Value>)
        ensures
            match lookup(self@.entries, name@) {
                Some(v) => r matches Some(x) && x@ == v,
                None => r is None,
            },
    {
        proof {
            lemma_position(self@.entries, name@);
        }
        match find(&self.headers, name) {
            Some(i) => {
                assert(self@.entries[i as int].1 == self.headers@[i as int].1@);
                Some(&self.headers[i].1)
            },
            None => None,
        }
    }

    /// The headers, each as its name and its value, in order.
    pub fn iter(&self) -> (r: Vec<(&str, &Value)>)
        ensures
            r@.len() == self@.entries.len(),
            forall|i: int|
                0 <= i < r@.len() ==> (#[trigger] r@[i]).0@ == self@.entries[i].0 && r@[i].1@
                    == self@.entries[i].1,
    {
        let mut out: Vec<(&str, &Value)> = Vec::new();
        let mut i: usize = 0;
        while i < self.headers.len()
            invariant
                i <= self.headers@.len(),
                out@.len() == i,
                forall|j: int|
                    0 <= j < i ==> (#[trigger] out@[j]).0@ == self.headers@[j].0@ && out@[j].1@
                        == self.headers@[j].1@,
            decreases self.headers@.len() - i,
        {
            out.push((self.headers[i].0.as_str(), &self.headers[i].1));
            i += 1;
        }
        out
    }

    /// The size in bytes of the headers in the IPC wire format.
    pub fn size_in_bytes(&self) -> (r: Result<u32, Error>)
        ensures
            match headers_size(self@.entries) {
                Ok(n) => r == Ok::<u32, Error>(n as u32) && n == headers_bytes(
                    self@.entries,
                ).len() && n <= u32::MAX,
                Err(k) => r matches Err(e) && e@ == k,
            },
    {
        let ghost entries = self@.entries;
        let mut total: u32 = 0;
        let mut i: usize = 0;
        assert(entries.subrange(0, 0) =~= Seq::<Entry>::empty());
        while i < self.headers.len()
            invariant
                i <= self.headers@.len(),
                entries == entries_view(self.headers@),
                headers_size(entries.subrange(0, i as int)) == Ok::<nat, ErrorKind>(total as nat),
            decreases self.headers@.len() - i,
        {
            let ghost front = entries.subrange(0, i as int);
            let ghost next = entries.subrange(0, i + 1);
            proof {
                assert(next.drop_last() =~= front);
                assert(next.last() == entries[i as int]);
                assert(entries[i as int] == (
                    self.headers@[i as int].0@,
                    self.headers@[i as int].1@,
                ));
                lemma_headers_size(front);
            }
            let name_len = self.headers[i].0.as_str().as_bytes().len();
            if name_len > MAX_NAME_LEN {
                proof {
                    lemma_headers_size_stays(entries, i + 1);
                }
                return Err(Error::BufferTooLarge { size: name_len, max_size: MAX_NAME_LEN });
            }
            let value_len = match self.headers[i].1.size_in_bytes() {
                Ok(n) => n,
                Err(e) => {
                    proof {
                        lemma_headers_size_stays(entries, i + 1);
                    }
                    return Err(e);
                },
            };
            let header_len: u32 = 1 + name_len as u32 + value_len;
            if header_len > u32::MAX - total {
                proof {
                    lemma_headers_size_stays(entries, i + 1);
                }
                let size: u64 = total as u64 + header_len as u64;
                return Err(
                    Error::BufferTooLarge {
                        size: if size > usize::MAX as u64 {
                            usize::MAX
                        } else {
                            size as usize
                        },
                        max_size: u32::MAX as usize,
                    },
                );
            }
            total = total + header_len;
            i += 1;
        }
        proof {
            assert(entries.subrange(0, i as int) =~= entries);
            lemma_headers_size(entries);
        }
        Ok(total)
    }

    /// Write into the given buffer the headers in the IPC wire format.
    ///
    /// Returns the number of bytes written. Where the headers have no size, nothing is
    /// written.
    pub fn write_as_bytes(&self, writer: &mut Vec<u8>) -> (r: Result<usize, Error>)
        ensures
            match headers_size(self@.entries) {
                Ok(n) => r == Ok::<usize, Error>(n as usize) && final(writer)@ == old(writer)@
                    + headers_bytes(self@.entries),
                Err(k) => r matches Err(e) && e@ == k && final(writer)@ == old(writer)@,
            },
    {
        let size = match self.size_in_bytes() {
            Ok(size) => size,
            Err(e) => {
                return Err(e);
            },
        };
        let ghost entries = self@.entries;
        let ghost before = writer@;
        proof {
            lemma_headers_size(entries);
            assert(entries.subrange(0, 0) =~= Seq::<Entry>::empty());
            assert(writer@ =~= before + headers_bytes(entries.subrange(0, 0)));
        }
        let mut i: usize = 0;
        while i < self.headers.len()
            invariant
                i <= self.headers@.len(),
                entries == entries_view(self.headers@),
                forall|j: int| 0 <= j < entries.len() ==> header_excess(#[trigger] entries[j])
                    is None,
                writer@ == before + headers_bytes(entries.subrange(0, i as int)),
            decreases self.headers@.len() - i,
        {
            let ghost front = entries.subrange(0, i as int);
            let ghost e = entries[i as int];
            proof {
                assert(header_excess(e) is None);
                lemma_headers_bytes_push(front, e);
                assert(front.push(e) =~= entries.subrange(0, i + 1));
            }
            let name = self.headers[i].0.as_str().as_bytes();
            let ghost mid = writer@;
            writer.push(name.len() as u8);
            writer.extend_from_slice(name);
            assert(writer@ =~= mid + seq![encode_utf8(e.0).len() as u8] + encode_utf8(e.0));
            let written = self.headers[i].1.write_as_bytes(writer);
            assert(writer@ =~= mid + header_bytes(e));
            i += 1;
        }
        proof {
            assert(entries.subrange(0, i as int) =~= entries);
        }
        Ok(size as usize)
    }

    /// Reads headers from bytes in the IPC wire format, to their end.
    ///
    /// On success all of `bytes` is taken. On an error they stay as they were.
    pub fn from_bytes(bytes: &mut &[u8]) -> (r: Result<Headers, Error>)
        ensures
            match decode_headers(old(bytes)@) {
                Ok(h) => r matches Ok(x) && x@ == h && h.consistent() && final(bytes)@
                    == Seq::<u8>::empty(),
                Err(k) => r matches Err(e) && e@ == k && final(bytes)@ == old(bytes)@,
            },
    {
        let s: &[u8] = *bytes;
        let headers = match read_headers(s) {
            Ok(headers) => headers,
            Err(e) => {
                return Err(e);
            },
        };
        proof {
            lemma_insert_all_distinct(parse_headers(s@).unwrap());
        }
        let stream_id = match find_int32(&headers, STREAM_ID) {
            Some(i) => i,
            None => {
                return Err(Error::MissingHeader(STREAM_ID));
            },
        };
        let message_type = match find_int32(&headers, MESSAGE_TYPE) {
            Some(code) => match MessageType::try_from(code) {
                Ok(t) => t,
                Err(e) => {
                    return Err(e);
                },
            },
            None => {
                return Err(Error::MissingHeader(MESSAGE_TYPE));
            },
        };
        let message_flags = match find_int32(&headers, MESSAGE_FLAGS) {
            Some(bits) => MessageFlags::from_bits(as_bits32(bits)),
            None => {
                return Err(Error::MissingHeader(MESSAGE_FLAGS));
            },
        };
        *bytes = slice_subrange(s, s.len(), s.len());
        Ok(Headers { stream_id, message_type, message_flags, headers })
    }

    /// A copy of the headers.
    pub fn to_owned(&self) -> (r: Headers)
        ensures
            r@ == self@,
    {
        let mut headers: Vec<(String, Value)> = Vec::new();
        let mut i: usize = 0;
        while i < self.headers.len()
            invariant
                i <= self.headers@.len(),
                entries_view(headers@) == entries_view(self.headers@).subrange(0, i as int),
            decreases self.headers@.len() - i,
        {
            let ghost before = entries_view(headers@);
            let name = self.headers[i].0.clone();
            let value = self.headers[i].1.to_owned();
            headers.push((name, value));
            proof {
                let after = entries_view(headers@);
                let want = entries_view(self.headers@).subrange(0, i + 1);
                assert(before.len() == i);
                assert(after.len() == want.len());
                assert forall|j: int| 0 <= j < after.len() implies after[j] == want[j] by {
                    if j < i {
                        assert(after[j] == before[j]);
                    } else {
                        assert(after[j] == (name@, value@));
                    }
                }
                assert(after =~= want);
            }
            i += 1;
        }
        assert(entries_view(headers@) =~= entries_view(self.headers@));
        Headers {
            stream_id: self.stream_id,
            message_type: self.message_type,
            message_flags: self.message_flags,
            headers,
        }
    }

    /// The stream id.
    pub fn stream_id(&self) -> (r: i32)
        ensures
            r == self@.stream_id,
    {
        self.stream_id
    }

    /// The message type.
    pub fn message_type(&self) -> (r: MessageType)
        ensures
            r == self@.message_type,
    {
        self.message_type
    }

    /// The message flags.
    pub fn message_flags(&self) -> (r: BitFlags)
        ensures
            r@ == self@.message_flags,
    {
        self.message_flags
    }
}

/// A pass over headers that has ended with an error ends with that error, however many
/// headers follow.
proof fn lemma_headers_size_stays(entries: Seq<Entry>, k: int)
    requires
        0 <= k <= entries.len(),
        headers_size(entries.subrange(0, k)) is Err,
    ensures
        headers_size(entries) == headers_size(entries.subrange(0, k)),
    decreases entries.len() - k,
{
    if k < entries.len() {
        let next = entries.subrange(0, k + 1);
        assert(next.drop_last() =~= entries.subrange(0, k));
        lemma_headers_size_stays(entries, k + 1);
    } else {
        assert(entries.subrange(0, k) =~= entries);
    }
}

} // verus!
