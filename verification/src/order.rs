//! The order in which the bits of one element are counted.
use vstd::prelude::*;

verus! {

/// Which physical bit of an element a bit index names.
///
/// Both orders are one-to-one between the indices and the positions of an
/// element. Physical positions are counted from the least significant bit.
#[derive(Clone, Copy, PartialEq, Eq, Debug, Structural)]
pub enum BitOrder {
    /// Index 0 is the least significant bit.
    Lsb0,
    /// Index 0 is the most significant bit.
    Msb0,
}

impl BitOrder {
    /// The physical position of the bit with the given index in an element
    /// `width` bits wide.
    pub open spec fn place(self, index: nat, width: nat) -> nat {
        match self {
            BitOrder::Lsb0 => index,
            BitOrder::Msb0 => (width - 1 - index) as nat,
        }
    }

    /// The number that stands for the order inside an encoded span.
    pub open spec fn tag(self) -> nat {
        match self {
            BitOrder::Lsb0 => 0,
            BitOrder::Msb0 => 1,
        }
    }

    /// The physical position of the bit with the given index.
    pub fn at(self, index: u8, width: u8) -> (pos: u8)
        requires
            index < width,
        ensures
            pos == self.place(index as nat, width as nat),
            pos < width,
    {
        match self {
            BitOrder::Lsb0 => index,
            BitOrder::Msb0 => width - 1 - index,
        }
    }

    /// Each order is its own inverse, so no two indices share a position and
    /// every position has an index.
    pub proof fn lemma_place_is_one_to_one(self, width: nat, i: nat, j: nat)
        requires
            i < width,
            j < width,
        ensures
            self.place(i, width) < width,
            self.place(self.place(i, width), width) == i,
            self.place(i, width) == self.place(j, width) ==> i == j,
    {
    }
}

} // verus!
