//! Vectors of bits.
use crate::boxed::{into_boxed_slice, BitBox};
use crate::mem::BitMemory;
use crate::order::BitOrder;
use crate::ptr::lemma_elements_is_ceiling;
use crate::slice::{bits_of, fits, values, write_at, BitSlice};
use crate::store::BitStore;
use vstd::prelude::*;

verus! {

/// A region of bits that owns its elements in a vector.
///
/// Its fields are kept consistent by [`BitVec::well_formed`], which every
/// constructor establishes and every method keeps.
pub struct BitVec<S: BitStore> {
    words: Vec<S>,
    order: BitOrder,
    head: u8,
    bits: usize,
}

impl<S: BitStore> View for BitVec<S> {
    type V = Seq<bool>;

    /// The live bits, in order.
    open spec fn view(&self) -> Seq<bool> {
        bits_of(values(self.storage()), self.spec_order(), self.spec_head(), self.spec_len())
    }
}

impl<S: BitStore> BitVec<S> {
    /// The elements that the vector owns.
    pub closed spec fn storage(self) -> Seq<S> {
        self.words@
    }

    /// The order in which the bits of an element are counted.
    pub closed spec fn spec_order(self) -> BitOrder {
        self.order
    }

    /// The index of the first live bit inside the first element.
    pub closed spec fn spec_head(self) -> nat {
        self.head as nat
    }

    /// The number of live bits.
    pub closed spec fn spec_len(self) -> nat {
        self.bits as nat
    }

    /// The vector begins inside its first element and ends in its last.
    pub open spec fn well_formed(self) -> bool {
        fits(self.spec_head(), self.spec_len(), S::Mem::width(), self.storage().len())
    }

    /// The vector of `bits` bits that begins at the bit with index `head` of
    /// the first of the elements given and ends in the last of them.
    pub(crate) fn from_elements(words: Vec<S>, order: BitOrder, head: u8, bits: usize) -> (v: Self)
        requires
            fits(head as nat, bits as nat, S::Mem::width(), words@.len()),
        ensures
            v.well_formed(),
            v.storage() == words@,
            v.spec_order() == order,
            v.spec_head() == head,
            v.spec_len() == bits,
    {
        BitVec { words, order, head, bits }
    }

    /// Gives up the bits and returns the elements they lay in.
    pub fn into_vec(self) -> (words: Vec<S>)
        ensures
            words@ == self.storage(),
    {
        self.words
    }

    /// Converts the vector into an owned region of the same bits, which owns
    /// the same elements; where the vector has no bits, the region owns no
    /// element and its head index is 0.
    pub fn into_boxed_bitslice(self) -> (b: BitBox<S>)
        requires
            self.well_formed(),
        ensures
            b@ == self@,
            b.span()@.order == self.spec_order(),
            b.span()@.bits == self.spec_len(),
            if self.spec_len() == 0 {
                b.span()@.head == 0 && b.storage().len() == 0
            } else {
                b.span()@.head == self.spec_head() && b.storage() == self.storage()
            },
    {
        let b = if self.bits == 0 {
            proof {
                S::Mem::lemma_width();
                lemma_elements_is_ceiling(0, 0, S::Mem::width());
            }
            BitBox::assemble(into_boxed_slice(Vec::new()), self.order, 0, 0)
        } else {
            BitBox::assemble(into_boxed_slice(self.words), self.order, self.head, self.bits)
        };
        proof {
            assert(b@ =~= self@);
        }
        b
    }

    /// The number of live bits.
    pub fn len(&self) -> (bits: usize)
        ensures
            bits == self.spec_len(),
    {
        self.bits
    }

    /// The bits of the vector, borrowed.
    pub fn as_bitslice(&self) -> (slice: BitSlice<'_, S>)
        requires
            self.well_formed(),
        ensures
            slice@ == self@,
            slice.storage() == self.storage(),
            slice.spec_order() == self.spec_order(),
            slice.spec_head() == self.spec_head(),
            slice.spec_len() == self.spec_len(),
    {
        match BitSlice::new(self.words.as_slice(), self.order, self.head, self.bits) {
            Some(slice) => slice,
            None => vstd::pervasive::unreached(),
        }
    }

    /// The bit with the given index, or `None` where the vector has no such
    /// bit.
    pub fn get(&self, index: usize) -> (bit: Option<bool>)
        requires
            self.well_formed(),
        ensures
            bit == (if index < self@.len() {
                Some(self@[index as int])
            } else {
                None
            }),
    {
        self.as_bitslice().get(index)
    }

    /// Writes the bit with the given index and keeps every other bit.
    pub fn set(&mut self, index: usize, value: bool)
        requires
            old(self).well_formed(),
            index < old(self)@.len(),
        ensures
            final(self).well_formed(),
            final(self)@ == old(self)@.update(index as int, value),
            final(self).spec_order() == old(self).spec_order(),
            final(self).spec_head() == old(self).spec_head(),
            final(self).storage().len() == old(self).storage().len(),
    {
        write_at(self.words.as_mut_slice(), self.order, self.head, self.bits, index, value);
    }
}

} // verus!
