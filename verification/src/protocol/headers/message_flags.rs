use vstd::prelude::*;

verus! {

/// Flags that can be set on a message.
#[derive(Debug, Clone, Copy, PartialEq, Eq, Structural)]
pub enum MessageFlags {
    /// The connection has been accepted by the server.
    ConnectionAccepted,
    /// The stream should be terminated after this message.
    TerminateStream,
}

/// The flags of a message: the 32 bits of the `:message-flags` header. Two of the bits stand
/// for the two [`MessageFlags`]; the others mean nothing here and are kept as they are.
#[derive(Debug, Clone, Copy, PartialEq, Eq, Structural)]
pub struct BitFlags {
    bits: u32,
}

/// Whether the bit of `flag` is set in `bits`.
pub open spec fn has_flag(bits: u32, flag: MessageFlags) -> bool {
    match flag {
        MessageFlags::ConnectionAccepted => bits % 2 == 1,
        MessageFlags::TerminateStream => (bits / 2) % 2 == 1,
    }
}

impl MessageFlags {
    /// The bit that stands for the flag in the `:message-flags` header.
    pub open spec fn spec_bit(self) -> u32 {
        match self {
            MessageFlags::ConnectionAccepted => 1,
            MessageFlags::TerminateStream => 2,
        }
    }

    /// The bit that stands for the flag in the `:message-flags` header.
    #[verifier::when_used_as_spec(spec_bit)]
    pub fn bit(self) -> (r: u32)
        ensures
            r == self.spec_bit(),
    {
        match self {
            MessageFlags::ConnectionAccepted => 1,
            MessageFlags::TerminateStream => 2,
        }
    }

    /// Returns a `BitFlags` with no flags set.
    pub fn none() -> (r: BitFlags)
        ensures
            r@ == 0,
    {
        BitFlags { bits: 0 }
    }

    /// Returns a `BitFlags` with both flags set.
    pub fn both() -> (r: BitFlags)
        ensures
            r@ == 3,
    {
        BitFlags { bits: 3 }
    }

    /// The flags whose bits are `bits`.
    pub fn from_bits(bits: u32) -> (r: BitFlags)
        ensures
            r@ == bits,
    {
        BitFlags { bits }
    }
}

impl View for BitFlags {
    type V = u32;

    closed spec fn view(&self) -> u32 {
        self.bits
    }
}

impl BitFlags {
    /// The bits that stand for the flags in the `:message-flags` header.
    pub fn bits(&self) -> (r: u32)
        ensures
            r == self@,
    {
        self.bits
    }

    /// Whether `flag` is set.
    pub fn contains(&self, flag: MessageFlags) -> (r: bool)
        ensures
            r == has_flag(self@, flag),
    {
        match flag {
            MessageFlags::ConnectionAccepted => self.bits % 2 == 1,
            MessageFlags::TerminateStream => (self.bits / 2) % 2 == 1,
        }
    }

    /// Whether no bit is set.
    pub fn is_empty(&self) -> (r: bool)
        ensures
            r == (self@ == 0),
    {
        self.bits == 0
    }

    /// The flags with the bits of both: a flag is set in them if it is set in either.
    pub fn union(self, other: BitFlags) -> (r: BitFlags)
        ensures
            r@ == self@ | other@,
            forall|flag: MessageFlags|
                has_flag(r@, flag) == (has_flag(self@, flag) || has_flag(other@, flag)),
    {
        let a = self.bits;
        let b = other.bits;
        assert(((a | b) % 2 == 1) == (a % 2 == 1 || b % 2 == 1)) by (bit_vector);
        assert((((a | b) / 2) % 2 == 1) == ((a / 2) % 2 == 1 || (b / 2) % 2 == 1)) by (bit_vector);
        BitFlags { bits: a | b }
    }
}

impl From<MessageFlags> for BitFlags {
    fn from(flag: MessageFlags) -> (r: BitFlags) {
        BitFlags { bits: flag.bit() }
    }
}

impl vstd::std_specs::convert::FromSpecImpl<MessageFlags> for BitFlags {
    open spec fn obeys_from_spec() -> bool {
        true
    }

    closed spec fn from_spec(flag: MessageFlags) -> BitFlags {
        BitFlags { bits: flag.spec_bit() }
    }
}

/// No flag is set where no bit is; both are set where the two lowest bits are; and the
/// flags made from one flag have that flag set and not the other.
pub proof fn lemma_flags(flag: MessageFlags, other: MessageFlags)
    ensures
        !has_flag(0, flag),
        has_flag(3, flag),
        has_flag(flag.spec_bit(), other) == (flag == other),
        <BitFlags as vstd::std_specs::convert::FromSpec<MessageFlags>>::from_spec(flag)@
            == flag.spec_bit(),
{
}

} // verus!
