//! The element types a bit region can be made of.
use crate::mem::BitMemory;
use crate::plain::Plain;
use crate::radium::{IsBits, Radium};
use core::sync::atomic::Ordering;
use vstd::prelude::*;

verus! {

/// An element of bit storage: a cell that holds one integer and is reached
/// through the operations of [`Radium`].
pub trait BitStore: Radium<Self::Mem> {
    /// The integer that one element holds.
    type Mem: BitMemory;
}

impl<T: BitMemory> BitStore for Plain<T> {
    type Mem = T;
}

/// Reads the integer that an element holds, with the weakest ordering.
pub fn read<S: BitStore>(cell: &S) -> (word: S::Mem)
    ensures
        word == cell.value(),
{
    cell.load(Ordering::Relaxed)
}

/// Writes one bit of an element and keeps every other bit, by one step that
/// touches no other bit: an "or" with the bit to set it, an "and" with every
/// other bit to clear it.
pub fn write_bit<S: BitStore>(cell: &mut S, pos: u8, value: bool)
    requires
        pos < S::Mem::width(),
    ensures
        forall|p: nat|
            p < S::Mem::width() ==> #[trigger] final(cell).value().bit(p) == (if p == pos {
                value
            } else {
                old(cell).value().bit(p)
            }),
{
    let ghost word = cell.value();
    let mask = S::Mem::mask(pos);
    if value {
        proof {
            assert forall|p: nat| p < S::Mem::width() implies #[trigger] word.or_with(mask).bit(p)
                == (if p == pos {
                value
            } else {
                word.bit(p)
            }) by {
                S::Mem::lemma_bitwise(word, mask, p);
            }
        }
        let _ = cell.fetch_or(mask, Ordering::Relaxed);
    } else {
        proof {
            assert forall|p: nat| p < S::Mem::width() implies #[trigger] word.and_with(
                mask.complement(),
            ).bit(p) == (if p == pos {
                value
            } else {
                word.bit(p)
            }) by {
                S::Mem::lemma_bitwise(mask, mask, p);
                S::Mem::lemma_bitwise(word, mask.complement(), p);
            }
        }
        let _ = cell.fetch_and(mask.bit_not(), Ordering::Relaxed);
    }
}

} // verus!
