//! JSON, as far as the payloads of this protocol need it.
//!
//! Reading JSON and writing JSON strings is the work of `serde_json`: four functions hand it
//! bytes and take plain values back, and what they return has a name in contracts. Numbers and
//! the words `true`, `false` and `null` are read and written here.

use vstd::prelude::*;
use vstd::utf8::encode_utf8;

use crate::protocol::text::same_bytes;

verus! {

/// A member of a JSON object: its name, and its value as the text that stands for it in the
/// document.
pub type Member = (Seq<char>, Seq<u8>);

/// Whether `text` is one JSON value and nothing else, as `serde_json` reads it.
pub uninterp spec fn json_valid(text: Seq<u8>) -> bool;

/// The string that `text` stands for, where `text` is a JSON string, as `serde_json` reads it.
pub uninterp spec fn json_string(text: Seq<u8>) -> Option<Seq<char>>;

/// The members of the object that `text` stands for, where `text` is a JSON object, as
/// `serde_json` reads it: ordered by name, each name once, each value as its text in the
/// document.
pub uninterp spec fn json_object(text: Seq<u8>) -> Option<Seq<Member>>;

/// The JSON string that stands for `s`, as `serde_json` writes it: between quotes, with the
/// characters escaped that JSON wants escaped.
pub uninterp spec fn json_quote(s: Seq<char>) -> Seq<u8>;

/// The members of a vector, each by what it holds.
pub open spec fn members_view(v: Seq<(String, Vec<u8>)>) -> Seq<Member> {
    Seq::new(v.len(), |i: int| (v[i].0@, v[i].1@))
}

/// `serde_json::from_slice`, asked for any JSON value, of which only whether there is one is
/// kept. On bytes that are none it gives what `serde_json` says of the fault.
#[verifier::external_body]
pub(crate) fn check_json(text: &[u8]) -> (r: Result<(), String>)
    ensures
        r is Ok <==> json_valid(text@),
{
    match serde_json::from_slice::<serde_json::Value>(text) {
        Ok(_) => Ok(()),
        Err(e) => Err(e.to_string()),
    }
}

/// `serde_json::from_slice`, asked for a string.
#[verifier::external_body]
pub(crate) fn string_value(text: &[u8]) -> (r: Option<String>)
    ensures
        match r {
            Some(s) => json_string(text@) == Some(s@),
            None => json_string(text@) is None,
        },
{
    serde_json::from_slice::<String>(text).ok()
}

/// `serde_json::from_slice`, asked for the members of an object with each value left as it
/// stands in the document.
#[verifier::external_body]
pub(crate) fn object_members(text: &[u8]) -> (r: Option<Vec<(String, Vec<u8>)>>)
    ensures
        match r {
            Some(members) => json_object(text@) == Some(members_view(members@)),
            None => json_object(text@) is None,
        },
{
    serde_json::from_slice::<
        std::collections::BTreeMap<String, Box<serde_json::value::RawValue>>,
    >(text).ok().map(|m| m.into_iter().map(|(k, v)| (k, v.get().as_bytes().to_vec())).collect())
}

/// `serde_json::to_vec`, given a string.
#[verifier::external_body]
pub(crate) fn quote(s: &str) -> (r: Vec<u8>)
    ensures
        r@ == json_quote(s@),
{
    serde_json::to_vec(s).unwrap_or_default()
}

/// The UTF-8 bytes of a text.
pub open spec fn utf8(s: &str) -> Seq<u8> {
    encode_utf8(s@)
}

/// The value of the member called `name`: that of the first such member, if there is one.
pub open spec fn member(members: Seq<Member>, name: Seq<char>) -> Option<Seq<u8>>
    decreases members.len(),
{
    if members.len() == 0 {
        None
    } else if members[0].0 == name {
        Some(members[0].1)
    } else {
        member(members.drop_first(), name)
    }
}

/// The truth value that `text` stands for: that of the words `true` and `false`.
pub open spec fn json_bool(text: Seq<u8>) -> Option<bool> {
    if text == utf8("true") {
        Some(true)
    } else if text == utf8("false") {
        Some(false)
    } else {
        None
    }
}

/// Whether `text` is the word `null`.
pub open spec fn json_null(text: Seq<u8>) -> bool {
    text == utf8("null")
}

/// The decimal digits of `n`, the most significant first.
pub open spec fn decimal(n: nat) -> Seq<u8>
    decreases n,
{
    if n < 10 {
        seq![(0x30 + n) as u8]
    } else {
        decimal(n / 10).push((0x30 + n % 10) as u8)
    }
}

/// The number that the bytes `text` are the decimal digits of, where they are nothing but
/// digits, at least one.
pub open spec fn digits_value(text: Seq<u8>) -> Option<nat>
    decreases text.len(),
{
    if text.len() == 0 || !(0x30 <= text.last() <= 0x39) {
        None
    } else if text.len() == 1 {
        Some((text.last() - 0x30) as nat)
    } else {
        match digits_value(text.drop_last()) {
            Some(n) => Some(n * 10 + (text.last() - 0x30) as nat),
            None => None,
        }
    }
}

/// The unsigned 64-bit number that `text` stands for: `text` is nothing but decimal digits,
/// with no zero before another digit, and the number fits.
pub open spec fn json_u64(text: Seq<u8>) -> Option<u64> {
    match digits_value(text) {
        Some(n) => if n <= u64::MAX && (text.len() == 1 || text[0] != 0x30) {
            Some(n as u64)
        } else {
            None
        },
        None => None,
    }
}

/// The digits of a number stand for that number.
pub proof fn lemma_decimal_round_trip(n: nat)
    ensures
        digits_value(decimal(n)) == Some(n),
        decimal(n).len() >= 1,
        n > 0 ==> decimal(n)[0] != 0x30,
        n == 0 ==> decimal(n).len() == 1,
    decreases n,
{
    if n >= 10 {
        lemma_decimal_round_trip(n / 10);
        let front = decimal(n / 10);
        let all = decimal(n);
        assert(all.drop_last() =~= front);
        assert(all[0] == front[0]);
    }
}

/// A number that is written as JSON is read back as it was.
pub proof fn lemma_json_u64_round_trip(n: u64)
    ensures
        json_u64(decimal(n as nat)) == Some(n),
{
    lemma_decimal_round_trip(n as nat);
}

/// Appends the decimal digits of `n`.
pub fn write_decimal(n: u64, out: &mut Vec<u8>)
    ensures
        final(out)@ == old(out)@ + decimal(n as nat),
    decreases n,
{
    let ghost before = out@;
    if n >= 10 {
        write_decimal(n / 10, out);
    }
    out.push(0x30 + (n % 10) as u8);
    proof {
        if n >= 10 {
            assert(out@ =~= before + decimal(n as nat));
        } else {
            assert(out@ =~= before + decimal(n as nat));
        }
    }
}

/// Reads an unsigned 64-bit number.
pub fn read_u64(text: &[u8]) -> (r: Option<u64>)
    ensures
        r == json_u64(text@),
{
    let len = text.len();
    if len == 0 {
        return None;
    }
    let mut n: u64 = 0;
    let mut i: usize = 0;
    assert(text@.subrange(0, 0) =~= Seq::<u8>::empty());
    while i < len
        invariant
            i <= len == text@.len(),
            i > 0 ==> digits_value(text@.subrange(0, i as int)) == Some(n as nat),
            i == 0 ==> n == 0,
        decreases len - i,
    {
        let b = text[i];
        let ghost front = text@.subrange(0, i as int);
        let ghost next = text@.subrange(0, i + 1);
        proof {
            assert(next.drop_last() =~= front);
            assert(next.last() == b);
        }
        if b < 0x30 || b > 0x39 {
            proof {
                lemma_digits_none(text@, i + 1);
            }
            return None;
        }
        let d: u64 = (b - 0x30) as u64;
        if n > (u64::MAX - d) / 10 {
            proof {
                lemma_digits_grow(text@, i + 1);
            }
            return None;
        }
        n = n * 10 + d;
        i += 1;
    }
    assert(text@.subrange(0, len as int) =~= text@);
    if len > 1 && text[0] == 0x30 {
        return None;
    }
    Some(n)
}

/// Bytes whose beginning is no number are no number.
proof fn lemma_digits_none(text: Seq<u8>, k: int)
    requires
        0 < k <= text.len(),
        digits_value(text.subrange(0, k)) is None,
    ensures
        digits_value(text) is None,
    decreases text.len() - k,
{
    if k < text.len() {
        let next = text.subrange(0, k + 1);
        assert(next.drop_last() =~= text.subrange(0, k));
        lemma_digits_none(text, k + 1);
    } else {
        assert(text.subrange(0, k) =~= text);
    }
}

/// The number that digits stand for is no smaller than the number that their beginning
/// stands for.
proof fn lemma_digits_grow(text: Seq<u8>, k: int)
    requires
        0 < k <= text.len(),
    ensures
        match (digits_value(text.subrange(0, k)), digits_value(text)) {
            (Some(a), Some(b)) => a <= b,
            _ => true,
        },
    decreases text.len() - k,
{
    if k < text.len() {
        let next = text.subrange(0, k + 1);
        assert(next.drop_last() =~= text.subrange(0, k));
        lemma_digits_grow(text, k + 1);
        if digits_value(next) is None {
            lemma_digits_none(text, k + 1);
        } else if digits_value(text.subrange(0, k)) is Some {
            let a = digits_value(text.subrange(0, k)).unwrap();
            assert(digits_value(next) == Some(a * 10 + (next.last() - 0x30) as nat));
        }
    } else {
        assert(text.subrange(0, k) =~= text);
    }
}

/// Reads a truth value.
pub fn read_bool(text: &[u8]) -> (r: Option<bool>)
    ensures
        r == json_bool(text@),
{
    if same_bytes(text, "true".as_bytes()) {
        Some(true)
    } else if same_bytes(text, "false".as_bytes()) {
        Some(false)
    } else {
        None
    }
}

/// Whether `text` is the word `null`.
pub fn is_null(text: &[u8]) -> (r: bool)
    ensures
        r == json_null(text@),
{
    same_bytes(text, "null".as_bytes())
}

/// The value of the member called `name`.
pub fn find_member<'a>(members: &'a Vec<(String, Vec<u8>)>, name: &str) -> (r: Option<&'a [u8]>)
    ensures
        match member(members_view(members@), name@) {
            Some(v) => r matches Some(x) && x@ == v,
            None => r is None,
        },
{
    let ghost all = members_view(members@);
    let mut i: usize = 0;
    assert(all.skip(0) =~= all);
    while i < members.len()
        invariant
            i <= members@.len(),
            all == members_view(members@),
            member(all, name@) == member(all.skip(i as int), name@),
        decreases members@.len() - i,
    {
        proof {
            assert(all.skip(i as int)[0] == all[i as int]);
            assert(all.skip(i as int).drop_first() =~= all.skip(i + 1));
        }
        if crate::protocol::text::same_text(members[i].0.as_str(), name) {
            return Some(members[i].1.as_slice());
        }
        i += 1;
    }
    None
}

/// Appends the UTF-8 bytes of `s`.
pub(crate) fn push_text(out: &mut Vec<u8>, s: &str)
    ensures
        final(out)@ == old(out)@ + utf8(s),
{
    out.extend_from_slice(s.as_bytes());
}

/// Appends the JSON string that stands for `s`.
pub(crate) fn push_quoted(out: &mut Vec<u8>, s: &str)
    ensures
        final(out)@ == old(out)@ + json_quote(s@),
{
    let quoted = quote(s);
    out.extend_from_slice(quoted.as_slice());
}

} // verus!
