//! Borrowed regions of bits.
//!
//! A region is a run of live bits in a run of elements. The bit with index
//! `i` of a region lies `head + i` bits after the start of the first element:
//! in the element `(head + i) div width`, at the index `(head + i) mod width`
//! of that element, counted in the order of the region.
use crate::mem::BitMemory;
use crate::order::BitOrder;
use crate::ptr::{elements_for, REGION_MAX_BITS};
use crate::store::{read, write_bit, BitStore};
use vstd::prelude::*;

verus! {

/// The integers that a run of elements holds.
pub open spec fn values<S: BitStore>(words: Seq<S>) -> Seq<S::Mem> {
    Seq::new(words.len(), |j: int| words[j].value())
}

/// The bit that lies `at` bits after the start of the first element, with
/// the bits of each element counted in the given order.
pub open spec fn bit_at<M: BitMemory>(words: Seq<M>, order: BitOrder, at: nat) -> bool {
    words[(at / M::width()) as int].bit(order.place(at % M::width(), M::width()))
}

/// The live bits of a region: `bits` of them, from the bit with index `head`
/// of the first element on.
pub open spec fn bits_of<M: BitMemory>(words: Seq<M>, order: BitOrder, head: nat, bits: nat) -> Seq<
    bool,
> {
    Seq::new(bits, |i: int| bit_at(words, order, (head + i) as nat))
}

/// Whether a region with the given head index and length lies in exactly
/// `elements` elements of the given width.
pub open spec fn fits(head: nat, bits: nat, width: nat, elements: nat) -> bool {
    &&& head < width
    &&& bits <= REGION_MAX_BITS
    &&& elements == elements_for(head, bits, width)
}

/// Every live bit of a region lies in one of the region's elements.
pub proof fn lemma_element_in_range(head: nat, bits: nat, width: nat, index: nat)
    requires
        width > 0,
        index < bits,
    ensures
        (head + index) / width < elements_for(head, bits, width),
{
    let w = width as int;
    vstd::arithmetic::div_mod::lemma_div_is_ordered((head + index) as int, head + bits - 1, w);
    vstd::arithmetic::div_mod::lemma_hoist_over_denominator(head + bits - 1, 1, width);
    assert((head + bits - 1) + 1 * w == head + bits + width - 1) by (nonlinear_arith)
        requires
            w == width,
    ;
}

/// Two live bits of a region with different indices lie in different
/// elements or at different positions of one element.
pub proof fn lemma_bits_lie_apart(order: BitOrder, head: nat, width: nat, i: nat, j: nat)
    requires
        width > 0,
        i != j,
    ensures
        (head + i) / width != (head + j) / width || order.place((head + i) % width, width)
            != order.place((head + j) % width, width),
{
    let w = width as int;
    vstd::arithmetic::div_mod::lemma_fundamental_div_mod((head + i) as int, w);
    vstd::arithmetic::div_mod::lemma_fundamental_div_mod((head + j) as int, w);
    vstd::arithmetic::div_mod::lemma_mod_pos_bound((head + i) as int, w);
    vstd::arithmetic::div_mod::lemma_mod_pos_bound((head + j) as int, w);
    order.lemma_place_is_one_to_one(width, (head + i) % width, (head + j) % width);
}

/// The element and the physical position of the bit that lies `at` bits after
/// the start of a region's first element.
pub fn locate<M: BitMemory>(order: BitOrder, at: usize) -> (r: (usize, u8))
    ensures
        r.0 == at as nat / M::width(),
        r.1 == order.place(at as nat % M::width(), M::width()),
        r.1 < M::width(),
{
    proof {
        M::lemma_width();
    }
    let width: usize = M::bits() as usize;
    (at / width, order.at((at % width) as u8, M::bits()))
}

/// Finds whether a region with the given head index and length lies in
/// exactly `elements` elements.
fn check_fit<M: BitMemory>(head: u8, bits: usize, elements: usize) -> (r: bool)
    ensures
        r == fits(head as nat, bits as nat, M::width(), elements as nat),
{
    proof {
        M::lemma_width();
    }
    let width: usize = M::bits() as usize;
    (head as usize) < width && bits <= REGION_MAX_BITS && (head as usize + bits + width - 1)
        / width == elements
}

/// Writes one live bit of a region that lies in the elements given, and
/// keeps every other bit.
///
/// One element is touched, by one step that changes no other bit of it.
pub fn write_at<S: BitStore>(
    words: &mut [S],
    order: BitOrder,
    head: u8,
    bits: usize,
    index: usize,
    value: bool,
)
    requires
        fits(head as nat, bits as nat, S::Mem::width(), old(words)@.len()),
        index < bits,
    ensures
        final(words)@.len() == old(words)@.len(),
        bits_of(values(final(words)@), order, head as nat, bits as nat) == bits_of(
            values(old(words)@),
            order,
            head as nat,
            bits as nat,
        ).update(index as int, value),
{
    proof {
        S::Mem::lemma_width();
        lemma_element_in_range(head as nat, bits as nat, S::Mem::width(), index as nat);
    }
    let (element, pos) = locate::<S::Mem>(order, head as usize + index);
    write_bit(&mut words[element], pos, value);
    proof {
        let was = bits_of(values(old(words)@), order, head as nat, bits as nat);
        let now = bits_of(values(words@), order, head as nat, bits as nat);
        assert forall|j: int| 0 <= j < bits implies #[trigger] now[j] == (if j == index {
            value
        } else {
            was[j]
        }) by {
            lemma_element_in_range(head as nat, bits as nat, S::Mem::width(), j as nat);
            if j != index {
                lemma_bits_lie_apart(order, head as nat, S::Mem::width(), j as nat, index as nat);
            }
        }
        assert(now =~= was.update(index as int, value));
    }
}

/// A borrowed region of bits.
pub struct BitSlice<'a, S: BitStore> {
    words: &'a [S],
    order: BitOrder,
    head: u8,
    bits: usize,
}

impl<'a, S: BitStore> View for BitSlice<'a, S> {
    type V = Seq<bool>;

    /// The live bits, in order.
    open spec fn view(&self) -> Seq<bool> {
        bits_of(values(self.storage()), self.spec_order(), self.spec_head(), self.spec_len())
    }
}

impl<'a, S: BitStore> BitSlice<'a, S> {
    #[verifier::type_invariant]
    spec fn well_formed(self) -> bool {
        fits(self.head as nat, self.bits as nat, S::Mem::width(), self.words@.len())
    }

    /// The elements that the region lies in.
    pub closed spec fn storage(self) -> Seq<S> {
        self.words@
    }

    /// The order in which the bits of an element are counted.
    pub closed spec fn spec_order(self) -> BitOrder {
        self.order
    }

    /// The index of the first live bit inside the first element.
    pub closed spec fn spec_head(self) -> nat {
        self.head as nat
    }

    /// The number of live bits.
    pub closed spec fn spec_len(self) -> nat {
        self.bits as nat
    }

    /// The region of `bits` bits that begins at the bit with index `head` of
    /// the first of the elements given and ends in the last of them, or
    /// `None` where there is no such region: where `head` is not an index
    /// into one element, where `bits` is over the maximum, or where the
    /// elements are more or fewer than the bits touch.
    pub fn new(words: &'a [S], order: BitOrder, head: u8, bits: usize) -> (r: Option<Self>)
        ensures
            r is Some <==> fits(head as nat, bits as nat, S::Mem::width(), words@.len()),
            r matches Some(slice) ==> {
                &&& slice.storage() == words@
                &&& slice.spec_order() == order
                &&& slice.spec_head() == head
                &&& slice.spec_len() == bits
            },
    {
        if check_fit::<S::Mem>(head, bits, words.len()) {
            Some(BitSlice { words, order, head, bits })
        } else {
            None
        }
    }

    /// The number of live bits.
    pub fn len(&self) -> (bits: usize)
        ensures
            bits == self.spec_len(),
            bits <= REGION_MAX_BITS,
    {
        proof {
            use_type_invariant(self);
        }
        self.bits
    }

    /// The order in which the bits of an element are counted.
    pub fn order(&self) -> (order: BitOrder)
        ensures
            order == self.spec_order(),
    {
        self.order
    }

    /// The index of the first live bit inside the first element.
    pub fn head(&self) -> (head: u8)
        ensures
            head == self.spec_head(),
            head < S::Mem::width(),
    {
        proof {
            use_type_invariant(self);
        }
        self.head
    }

    /// The elements that the region lies in.
    pub fn as_elements(&self) -> (words: &'a [S])
        ensures
            words@ == self.storage(),
            fits(self.spec_head(), self.spec_len(), S::Mem::width(), words@.len()),
    {
        proof {
            use_type_invariant(self);
        }
        self.words
    }

    /// The bit with the given index, or `None` where the region has no such
    /// bit.
    pub fn get(&self, index: usize) -> (bit: Option<bool>)
        ensures
            bit == (if index < self@.len() {
                Some(self@[index as int])
            } else {
                None
            }),
    {
        proof {
            use_type_invariant(self);
            S::Mem::lemma_width();
        }
        if index >= self.bits {
            return None;
        }
        let (element, pos) = locate::<S::Mem>(self.order, self.head as usize + index);
        proof {
            lemma_element_in_range(
                self.head as nat,
                self.bits as nat,
                S::Mem::width(),
                index as nat,
            );
        }
        Some(read(&self.words[element]).get_bit(pos))
    }
}

/// A region of bits borrowed for writing, with no other view of its elements.
///
/// Its fields are kept consistent by [`BitSliceMut::well_formed`], which every
/// constructor establishes and every method keeps.
pub struct BitSliceMut<'a, S: BitStore> {
    words: &'a mut [S],
    order: BitOrder,
    head: u8,
    bits: usize,
}

impl<'a, S: BitStore> View for BitSliceMut<'a, S> {
    type V = Seq<bool>;

    /// The live bits, in order.
    open spec fn view(&self) -> Seq<bool> {
        bits_of(values(self.storage()), self.spec_order(), self.spec_head(), self.spec_len())
    }
}

impl<'a, S: BitStore> BitSliceMut<'a, S> {
    /// The elements that the region lies in.
    pub closed spec fn storage(self) -> Seq<S> {
        self.words@
    }

    /// The order in which the bits of an element are counted.
    pub closed spec fn spec_order(self) -> BitOrder {
        self.order
    }

    /// The index of the first live bit inside the first element.
    pub closed spec fn spec_head(self) -> nat {
        self.head as nat
    }

    /// The number of live bits.
    pub closed spec fn spec_len(self) -> nat {
        self.bits as nat
    }

    /// The region begins inside its first element and ends in its last.
    pub open spec fn well_formed(self) -> bool {
        fits(self.spec_head(), self.spec_len(), S::Mem::width(), self.storage().len())
    }

    /// The region of `bits` bits that begins at the bit with index `head` of
    /// the first of the elements given and ends in the last of them, or
    /// `None` where there is no such region: where `head` is not an index
    /// into one element, where `bits` is over the maximum, or where the
    /// elements are more or fewer than the bits touch.
    pub fn new(words: &'a mut [S], order: BitOrder, head: u8, bits: usize) -> (r: Option<Self>)
        ensures
            r is Some <==> fits(head as nat, bits as nat, S::Mem::width(), old(words)@.len()),
            r matches Some(slice) ==> {
                &&& slice.well_formed()
                &&& slice.storage() == old(words)@
                &&& slice.spec_order() == order
                &&& slice.spec_head() == head
                &&& slice.spec_len() == bits
            },
    {
        if check_fit::<S::Mem>(head, bits, words.len()) {
            Some(BitSliceMut { words, order, head, bits })
        } else {
            None
        }
    }

    /// The number of live bits.
    pub fn len(&self) -> (bits: usize)
        ensures
            bits == self.spec_len(),
    {
        self.bits
    }

    /// The order in which the bits of an element are counted.
    pub fn order(&self) -> (order: BitOrder)
        ensures
            order == self.spec_order(),
    {
        self.order
    }

    /// The index of the first live bit inside the first element.
    pub fn head(&self) -> (head: u8)
        ensures
            head == self.spec_head(),
    {
        self.head
    }

    /// The elements that the region lies in.
    pub fn as_elements(&self) -> (words: &[S])
        ensures
            words@ == self.storage(),
    {
        &*self.words
    }

    /// The bit with the given index, or `None` where the region has no such
    /// bit.
    pub fn get(&self, index: usize) -> (bit: Option<bool>)
        requires
            self.well_formed(),
        ensures
            bit == (if index < self@.len() {
                Some(self@[index as int])
            } else {
                None
            }),
    {
        proof {
            S::Mem::lemma_width();
        }
        if index >= self.bits {
            return None;
        }
        let (element, pos) = locate::<S::Mem>(self.order, self.head as usize + index);
        proof {
            lemma_element_in_range(
                self.head as nat,
                self.bits as nat,
                S::Mem::width(),
                index as nat,
            );
        }
        Some(read(&self.words[element]).get_bit(pos))
    }

    /// Writes the bit with the given index and keeps every other bit.
    pub fn set(&mut self, index: usize, value: bool)
        requires
            old(self).well_formed(),
            index < old(self)@.len(),
        ensures
            final(self).well_formed(),
            final(self)@ == old(self)@.update(index as int, value),
            final(self).spec_order() == old(self).spec_order(),
            final(self).spec_head() == old(self).spec_head(),
            final(self).storage().len() == old(self).storage().len(),
    {
        write_at(self.words, self.order, self.head, self.bits, index, value);
    }
}

} // verus!
