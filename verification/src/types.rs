//! Newtypes for the small numeric domains of the instruction set: 12-bit
//! addresses, 4-bit register indices and 4-bit sprite heights.

use vstd::prelude::*;

verus! {

/// A 12-bit memory address: always below 4096.
#[derive(Debug, Clone, Copy, PartialEq, Eq, Structural)]
pub struct Address {
    value: u16,
}

impl View for Address {
    type V = u16;

    closed spec fn view(&self) -> u16 {
        self.value
    }
}

impl Address {
    #[verifier::type_invariant]
    spec fn inv(self) -> bool {
        self.value < 4096
    }

    /// Validated constructor: accepts exactly the values below 4096.
    pub fn try_new(value: u16) -> (r: Option<Address>)
        ensures
            r is Some <==> value < 4096,
            r is Some ==> r->0@ == value,
    {
        if value < 4096 {
            Some(Address { value })
        } else {
            None
        }
    }

    /// Internal fast path: the decoder always passes an in-range value.
    pub(crate) fn from_parts(value: u16) -> (r: Address)
        requires
            value < 4096,
        ensures
            r@ == value,
    {
        Address { value }
    }

    /// The raw 12-bit value.
    pub fn into_inner(self) -> (r: u16)
        ensures
            r == self@,
            r < 4096,
    {
        proof {
            use_type_invariant(self);
        }
        self.value
    }
}

/// A register index: one of the sixteen byte registers, always below 16.
#[derive(Debug, Clone, Copy, PartialEq, Eq, Structural)]
pub struct Index {
    value: u8,
}

impl View for Index {
    type V = u8;

    closed spec fn view(&self) -> u8 {
        self.value
    }
}

impl Index {
    #[verifier::type_invariant]
    spec fn inv(self) -> bool {
        self.value < 16
    }

    /// Validated constructor: accepts exactly the values below 16.
    pub fn try_new(value: u8) -> (r: Option<Index>)
        ensures
            r is Some <==> value < 16,
            r is Some ==> r->0@ == value,
    {
        if value < 16 {
            Some(Index { value })
        } else {
            None
        }
    }

    /// Internal fast path: the decoder always passes an in-range nibble.
    pub(crate) fn from_nibble(value: u8) -> (r: Index)
        requires
            value < 16,
        ensures
            r@ == value,
    {
        Index { value }
    }

    /// The raw 4-bit value.
    pub fn into_inner(self) -> (r: u8)
        ensures
            r == self@,
            r < 16,
    {
        proof {
            use_type_invariant(self);
        }
        self.value
    }
}

/// A sprite height in rows, always below 16.
#[derive(Debug, Clone, Copy, PartialEq, Eq, Structural)]
pub struct SpriteHeight {
    value: u8,
}

impl View for SpriteHeight {
    type V = u8;

    closed spec fn view(&self) -> u8 {
        self.value
    }
}

impl SpriteHeight {
    #[verifier::type_invariant]
    spec fn inv(self) -> bool {
        self.value < 16
    }

    /// Validated constructor: accepts exactly the values below 16.
    pub fn try_new(value: u8) -> (r: Option<SpriteHeight>)
        ensures
            r is Some <==> value < 16,
            r is Some ==> r->0@ == value,
    {
        if value < 16 {
            Some(SpriteHeight { value })
        } else {
            None
        }
    }

    /// Internal fast path: the decoder always passes an in-range nibble.
    pub(crate) fn from_nibble(value: u8) -> (r: SpriteHeight)
        requires
            value < 16,
        ensures
            r@ == value,
    {
        SpriteHeight { value }
    }

    /// The raw 4-bit value.
    pub fn into_inner(self) -> (r: u8)
        ensures
            r == self@,
            r < 16,
    {
        proof {
            use_type_invariant(self);
        }
        self.value
    }
}

} // verus!
