//! Universally unique identifiers: sixteen bytes, written in text as hexadecimal digits.

use vstd::prelude::*;

verus! {

/// A universally unique identifier.
#[derive(Debug, Clone, Copy, PartialEq, Eq, Hash)]
pub struct Uuid {
    bytes: [u8; 16],
}

/// The identifier that a text stands for, as the `uuid` crate reads it: its sixteen bytes, or
/// nothing where the text is no identifier.
pub uninterp spec fn uuid_of_text(text: Seq<char>) -> Option<Seq<u8>>;

/// The text of an identifier of sixteen bytes, as the `uuid` crate writes it: lower-case
/// hexadecimal digits in five groups with hyphens between them.
pub uninterp spec fn text_of_uuid(bytes: Seq<u8>) -> Seq<char>;

/// `Uuid::parse_str` of the `uuid` crate, which reads an identifier in any of the forms that the
/// crate writes. The result is the sixteen bytes of the identifier read.
#[verifier::external_body]
fn parse_uuid(text: &str) -> (r: Option<[u8; 16]>)
    ensures
        match r {
            Some(b) => uuid_of_text(text@) == Some(b@),
            None => uuid_of_text(text@) is None,
        },
{
    ::uuid::Uuid::parse_str(text).ok().map(::uuid::Uuid::into_bytes)
}

/// `Uuid::hyphenated` of the `uuid` crate, and the text that its result is written as.
#[verifier::external_body]
fn format_uuid(bytes: [u8; 16]) -> (r: String)
    ensures
        r@ == text_of_uuid(bytes@),
{
    ::uuid::Uuid::from_bytes(bytes).hyphenated().to_string()
}

impl View for Uuid {
    type V = Seq<u8>;

    closed spec fn view(&self) -> Seq<u8> {
        self.bytes@
    }
}

impl Uuid {
    /// An identifier has sixteen bytes.
    pub proof fn lemma_len(self)
        ensures
            self@.len() == 16,
    {
    }

    /// The identifier with the bytes `bytes`.
    pub fn from_bytes(bytes: [u8; 16]) -> (r: Uuid)
        ensures
            r@ == bytes@,
    {
        Uuid { bytes }
    }

    /// The identifier with the bytes `bytes`, which must be sixteen.
    pub fn from_slice(bytes: &[u8]) -> (r: Option<Uuid>)
        ensures
            r is Some <==> bytes@.len() == 16,
            r matches Some(u) ==> u@ == bytes@,
    {
        if bytes.len() != 16 {
            return None;
        }
        let mut copy = [0u8; 16];
        let mut i: usize = 0;
        while i < 16
            invariant
                i <= 16,
                bytes@.len() == 16,
                forall|j: int| 0 <= j < i ==> copy@[j] == bytes@[j],
            decreases 16 - i,
        {
            copy[i] = bytes[i];
            i += 1;
        }
        assert(copy@ =~= bytes@);
        Some(Uuid { bytes: copy })
    }

    /// The bytes of the identifier.
    pub fn as_bytes(&self) -> (r: &[u8; 16])
        ensures
            r@ == self@,
            r@.len() == 16,
    {
        &self.bytes
    }

    /// The identifier that `text` stands for, if it stands for one.
    pub fn parse_str(text: &str) -> (r: Option<Uuid>)
        ensures
            match r {
                Some(u) => uuid_of_text(text@) == Some(u@),
                None => uuid_of_text(text@) is None,
            },
    {
        match parse_uuid(text) {
            Some(bytes) => Some(Uuid { bytes }),
            None => None,
        }
    }

    /// The identifier in text, in hyphenated form.
    pub fn to_string(&self) -> (r: String)
        ensures
            r@ == text_of_uuid(self@),
    {
        format_uuid(self.bytes)
    }
}

} // verus!
