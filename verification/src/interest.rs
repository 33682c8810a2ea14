//! What a caller wants to hear about, and the token under which it hears it.

use vstd::prelude::*;

verus! {

/// The value that a caller gives at registration and finds again, unchanged,
/// in every event of that resource.
#[derive(Clone, Copy, Debug, PartialEq, Eq, Structural, Hash)]
pub struct Token(pub usize);

const READABLE_BIT: u8 = 0x1;

const WRITABLE_BIT: u8 = 0x2;

/// A set over readable and writable.
#[derive(Clone, Copy, Debug, PartialEq, Eq, Structural, Hash)]
pub struct Interest(u8);

impl Interest {
    /// Whether readable is in the set.
    pub closed spec fn spec_is_readable(self) -> bool {
        self.0 & READABLE_BIT != 0
    }

    /// Whether writable is in the set.
    pub closed spec fn spec_is_writable(self) -> bool {
        self.0 & WRITABLE_BIT != 0
    }

    /// Interest in data to read, and in nothing else.
    pub closed spec fn spec_readable() -> Interest {
        Interest(READABLE_BIT)
    }

    /// Interest in room to write, and in nothing else.
    pub closed spec fn spec_writable() -> Interest {
        Interest(WRITABLE_BIT)
    }

    /// What the two named sets hold.
    pub proof fn lemma_named_sets()
        ensures
            Interest::spec_readable().is_readable(),
            !Interest::spec_readable().is_writable(),
            Interest::spec_writable().is_writable(),
            !Interest::spec_writable().is_readable(),
    {
        assert(1u8 & 1u8 != 0) by (bit_vector);
        assert(1u8 & 2u8 == 0) by (bit_vector);
        assert(2u8 & 2u8 != 0) by (bit_vector);
        assert(2u8 & 1u8 == 0) by (bit_vector);
    }

    /// Interest in data to read, and in nothing else.
    #[verifier::when_used_as_spec(spec_readable)]
    pub fn readable() -> (interest: Interest)
        ensures
            interest == Interest::spec_readable(),
            interest.is_readable(),
            !interest.is_writable(),
    {
        assert(1u8 & 1u8 != 0) by (bit_vector);
        assert(1u8 & 2u8 == 0) by (bit_vector);
        Interest(READABLE_BIT)
    }

    /// Interest in room to write, and in nothing else.
    #[verifier::when_used_as_spec(spec_writable)]
    pub fn writable() -> (interest: Interest)
        ensures
            interest == Interest::spec_writable(),
            interest.is_writable(),
            !interest.is_readable(),
    {
        assert(2u8 & 2u8 != 0) by (bit_vector);
        assert(2u8 & 1u8 == 0) by (bit_vector);
        Interest(WRITABLE_BIT)
    }

    /// The union of two sets.
    pub fn add(self, other: Interest) -> (both: Interest)
        ensures
            both.is_readable() == (self.is_readable() || other.is_readable()),
            both.is_writable() == (self.is_writable() || other.is_writable()),
    {
        let a: u8 = self.0;
        let b: u8 = other.0;
        assert(((a | b) & 1u8 != 0) == ((a & 1u8 != 0) || (b & 1u8 != 0))) by (bit_vector);
        assert(((a | b) & 2u8 != 0) == ((a & 2u8 != 0) || (b & 2u8 != 0))) by (bit_vector);
        Interest(a | b)
    }

    /// Whether readable is in the set.
    #[verifier::when_used_as_spec(spec_is_readable)]
    pub fn is_readable(self) -> (yes: bool)
        ensures
            yes == self.is_readable(),
    {
        self.0 & READABLE_BIT != 0
    }

    /// Whether writable is in the set.
    #[verifier::when_used_as_spec(spec_is_writable)]
    pub fn is_writable(self) -> (yes: bool)
        ensures
            yes == self.is_writable(),
    {
        self.0 & WRITABLE_BIT != 0
    }
}

} // verus!
