//! Owned regions of bits.
//!
//! A [`BitBox`] owns the elements its bits lie in and frees them when it is
//! dropped. It holds exactly as many elements as its bits touch, and none
//! where it has no bits. It can be taken apart into the span that describes
//! it, which leaves the elements allocated for whoever rebuilds the region
//! from that span.
use crate::mem::BitMemory;
use crate::order::BitOrder;
use crate::ptr::{elements_for, Address, BitSpan, BitSpanError, REGION_MAX_BITS};
use crate::radium::{IsBits, Radium};
use crate::slice::{bits_of, fits, lemma_element_in_range, values, BitSlice, BitSliceMut};
use crate::store::{read, BitStore};
use crate::vec::BitVec;
use tap::pipe::Pipe;
use vstd::layout::align_of;
use vstd::prelude::*;

verus! {

/// `tap::pipe::Pipe::pipe`: the value is handed to the function, and what the
/// function returns is returned. The call is allowed where the function may
/// be called on the value, and its result is one the function can give.
#[verifier::external_body]
pub(crate) fn pipe<T, R, F: FnOnce(T) -> R>(value: T, func: F) -> (r: R)
    requires
        func.requires((value,)),
    ensures
        func.ensures((value,), r),
{
    value.pipe(func)
}

/// `Vec::into_boxed_slice`: the same elements in the same order, with no
/// capacity kept beyond them.
#[verifier::external_body]
pub(crate) fn into_boxed_slice<T>(elements: Vec<T>) -> (boxed: Box<[T]>)
    ensures
        boxed@ == elements@,
{
    elements.into_boxed_slice()
}

/// `Box::leak`: the elements are never freed, and the reference reaches the
/// same elements in the same order.
#[verifier::external_body]
pub(crate) fn leak_boxed<'a, T>(boxed: Box<[T]>) -> (leaked: &'a mut [T])
    ensures
        leaked@ == boxed@,
{
    Box::leak(boxed)
}

/// `<[T]>::as_ptr`, as a number: the address of the first element. It is
/// never null and is aligned for `T`, also where there is no element. Which
/// address it is depends on the allocator.
#[verifier::external_body]
pub(crate) fn address_of<T>(elements: &[T]) -> (addr: usize)
    ensures
        addr != 0,
        addr as nat % align_of::<T>() == 0,
{
    elements.as_ptr() as usize
}

/// A value that is promised not to be moved out of its place.
///
/// Bits never point into themselves, so the promise needs nothing kept
/// beside the value.
pub struct Pinned<P> {
    pointer: P,
}

impl<P> Pinned<P> {
    /// The value that is pinned.
    pub closed spec fn pointer(self) -> P {
        self.pointer
    }

    /// Pins a value.
    pub fn new(pointer: P) -> (pinned: Self)
        ensures
            pinned.pointer() == pointer,
    {
        Pinned { pointer }
    }

    /// The value that is pinned.
    pub fn get_ref(&self) -> (pointer: &P)
        ensures
            *pointer == self.pointer(),
    {
        &self.pointer
    }

    /// Gives up the promise and returns the value.
    pub fn into_inner(self) -> (pointer: P)
        ensures
            pointer == self.pointer(),
    {
        self.pointer
    }
}

/// An owned region of bits.
pub struct BitBox<S: BitStore> {
    words: Box<[S]>,
    span: BitSpan<S>,
}

impl<S: BitStore> View for BitBox<S> {
    type V = Seq<bool>;

    /// The live bits, in order.
    open spec fn view(&self) -> Seq<bool> {
        bits_of(values(self.storage()), self.span()@.order, self.span()@.head, self.span()@.bits)
    }
}

impl<S: BitStore> BitBox<S> {
    /// The region owns exactly the elements that its bits touch, and its head
    /// index is 0 where it has no bits. This holds of every region.
    #[verifier::type_invariant]
    pub closed spec fn well_formed(self) -> bool {
        &&& fits(self.span@.head, self.span@.bits, S::Mem::width(), self.words@.len())
        &&& self.span@.bits == 0 ==> self.span@.head == 0
    }

    /// The span that describes the region.
    pub closed spec fn span(self) -> BitSpan<S> {
        self.span
    }

    /// The elements that the region owns.
    pub closed spec fn storage(self) -> Seq<S> {
        self.words@
    }

    /// Whether the region is what allocating from the bits `x` gives: the
    /// same bits in the same order, in elements that hold what the elements
    /// of `x` hold, as many as the bits touch; and no element where `x` has no
    /// bit.
    pub open spec fn allocated_from(self, x: BitSlice<S>) -> bool {
        &&& self@ == x@
        &&& self.span()@.order == x.spec_order()
        &&& self.span()@.bits == x.spec_len()
        &&& if x.spec_len() == 0 {
            self.span()@.head == 0 && self.storage().len() == 0
        } else {
            &&& self.span()@.head == x.spec_head()
            &&& self.storage().len() == elements_for(
                x.spec_head(),
                x.spec_len(),
                S::Mem::width(),
            )
            &&& values(self.storage()) == values(x.storage())
        }
    }

    /// Whether `r` is what rebuilding a region from the span `raw` and the
    /// elements `words` gives: the region that owns those elements and has
    /// the order, the head index and the length of the span, where the
    /// elements are as many as the span touches (and the span, if it has no
    /// bits, has the head index 0); nothing otherwise.
    pub open spec fn rebuilds(raw: BitSpan<S>, words: Seq<S>, r: Option<Self>) -> bool {
        &&& r is Some <==> {
            &&& fits(raw@.head, raw@.bits, S::Mem::width(), words.len())
            &&& raw@.bits == 0 ==> raw@.head == 0
        }
        &&& r matches Some(b) ==> {
            &&& b.storage() == words
            &&& b.span()@.order == raw@.order
            &&& b.span()@.head == raw@.head
            &&& b.span()@.bits == raw@.bits
        }
    }

    /// The region that owns the given elements and whose bits begin at the
    /// bit with index `head` of the first.
    pub(crate) fn assemble(words: Box<[S]>, order: BitOrder, head: u8, bits: usize) -> (b: Self)
        requires
            fits(head as nat, bits as nat, S::Mem::width(), words@.len()),
            bits == 0 ==> head == 0,
        ensures
            b.storage() == words@,
            b.span()@.order == order,
            b.span()@.head == head,
            b.span()@.bits == bits,
    {
        let base = Address { raw: address_of(&words) };
        match BitSpan::encode(base, order, head, bits) {
            Ok(span) => BitBox { words, span },
            Err(_) => vstd::pervasive::unreached(),
        }
    }

    /// A region of its own for the bits of `x`, in freshly allocated elements.
    ///
    /// Where `x` has no bit, nothing is allocated.
    pub fn new(x: &BitSlice<S>) -> (b: Self)
        ensures
            b.allocated_from(*x),
    {
        Self::from_bitslice(x)
    }

    /// Copies the bits of `x` into a region of its own.
    ///
    /// The elements of `x` are copied whole, so the bits keep their place
    /// inside the elements. Where `x` has no bit, nothing is allocated.
    pub fn from_bitslice(x: &BitSlice<S>) -> (b: Self)
        ensures
            b.allocated_from(*x),
    {
        let bits = x.len();
        let source = x.as_elements();
        let (head, count) = if bits == 0 {
            (0u8, 0usize)
        } else {
            (x.head(), source.len())
        };
        let mut fresh: Vec<S> = Vec::with_capacity(count);
        let mut j: usize = 0;
        while j < count
            invariant
                j <= count <= source@.len(),
                fresh@.len() == j,
                forall|k: int| 0 <= k < j ==> (#[trigger] fresh@[k]).value() == source@[k].value(),
            decreases count - j,
        {
            fresh.push(S::new(read(&source[j])));
            j += 1;
        }
        proof {
            S::Mem::lemma_width();
            if bits != 0 {
                assert(values(fresh@) =~= values(source@));
            }
        }
        let b = Self::assemble(into_boxed_slice(fresh), x.order(), head, bits);
        proof {
            assert(b@ =~= x@);
        }
        b
    }

    /// Allocates a region of `len` bits, each of them `bit`, counted from the
    /// first bit of the first element.
    ///
    /// Fails with [`BitSpanError::TooLong`] where `len` is over the maximum,
    /// and on no other input.
    pub fn repeat(bit: bool, order: BitOrder, len: usize) -> (r: Result<Self, BitSpanError>)
        ensures
            match r {
                Ok(b) => {
                    &&& len <= REGION_MAX_BITS
                    &&& b@ == Seq::new(len as nat, |i: int| bit)
                    &&& b.span()@.order == order
                    &&& b.span()@.head == 0
                    &&& b.storage().len() == elements_for(0, len as nat, S::Mem::width())
                },
                Err(e) => e == BitSpanError::TooLong && len > REGION_MAX_BITS,
            },
    {
        if len > REGION_MAX_BITS {
            return Err(BitSpanError::TooLong);
        }
        proof {
            S::Mem::lemma_width();
        }
        let width: usize = S::Mem::bits() as usize;
        let count: usize = (len + width - 1) / width;
        let none = S::Mem::zero();
        let word = if bit {
            none.bit_not()
        } else {
            none
        };
        proof {
            assert forall|p: nat| p < S::Mem::width() implies #[trigger] word.bit(p) == bit by {
                S::Mem::lemma_bitwise(none, none, p);
            }
        }
        let mut fresh: Vec<S> = Vec::with_capacity(count);
        let mut j: usize = 0;
        while j < count
            invariant
                j <= count,
                fresh@.len() == j,
                forall|k: int| 0 <= k < j ==> (#[trigger] fresh@[k]).value() == word,
            decreases count - j,
        {
            fresh.push(S::new(word));
            j += 1;
        }
        let b = Self::assemble(into_boxed_slice(fresh), order, 0, len);
        proof {
            assert forall|i: int| 0 <= i < len implies #[trigger] b@[i] == bit by {
                let w = S::Mem::width();
                lemma_element_in_range(0, len as nat, w, i as nat);
                vstd::arithmetic::div_mod::lemma_mod_pos_bound(i, w as int);
                order.lemma_place_is_one_to_one(w, (i as nat) % w, 0);
            }
            assert(b@ =~= Seq::new(len as nat, |i: int| bit));
        }
        Ok(b)
    }

    /// A pinned region of its own for the bits of `x`.
    ///
    /// A region of bits may always be moved, so the pin adds nothing to
    /// [`BitBox::from_bitslice`].
    pub fn pin(x: &BitSlice<S>) -> (pinned: Pinned<Self>)
        ensures
            pinned.pointer().allocated_from(*x),
    {
        pipe(pipe(x, Self::from_bitslice), Pinned::new)
    }

    /// Rebuilds a region from the span that [`BitBox::into_raw`] gave and the
    /// elements it left allocated.
    ///
    /// Returns `None` where the elements are not as many as the span touches,
    /// or where the span has no bits and yet a head index above 0: no region
    /// was taken apart into such parts. The address in the span is not
    /// looked at: the region is wherever its elements are.
    pub fn from_raw(raw: BitSpan<S>, words: Box<[S]>) -> (r: Option<Self>)
        ensures
            Self::rebuilds(raw, words@, r),
    {
        let head = raw.head();
        let bits = raw.len();
        if raw.elements() != words.len() || (bits == 0 && head != 0) {
            return None;
        }
        Some(Self::assemble(words, raw.order(), head, bits))
    }

    /// Takes the region apart into the span that describes it and the
    /// elements it owned, which now belong to the caller.
    pub fn into_parts(self) -> (parts: (BitSpan<S>, Box<[S]>))
        ensures
            parts.0 == self.span(),
            parts.1@ == self.storage(),
            fits(parts.0@.head, parts.0@.bits, S::Mem::width(), parts.1@.len()),
            parts.0@.bits == 0 ==> parts.0@.head == 0,
    {
        proof {
            use_type_invariant(&self);
        }
        (self.span, self.words)
    }

    /// Taking a region apart and putting it together again gives the region
    /// back: the span that [`BitBox::into_raw`] returns and the elements that
    /// the region owned are accepted by [`BitBox::from_raw`], and the region
    /// rebuilt from them has the same elements and the same bits, as many of
    /// them, in the same order, from the same head index.
    pub proof fn lemma_ownership_round_trip(self, rebuilt: Option<Self>)
        requires
            self.well_formed(),
            Self::rebuilds(self.span(), self.storage(), rebuilt),
        ensures
            rebuilt matches Some(b) && b.storage() == self.storage() && b@ == self@ && b@.len()
                == self@.len() && b.span()@.order == self.span()@.order && b.span()@.head
                == self.span()@.head,
    {
    }

    /// A region allocated from bits that begin at the first bit of an element
    /// holds `ceil(len / width)` elements: enough for every bit, with less
    /// than one element to spare, and none where there is no bit.
    pub proof fn lemma_allocation_is_sized(self, x: BitSlice<S>)
        requires
            self.allocated_from(x),
            x.spec_head() == 0,
        ensures
            self.storage().len() * S::Mem::width() >= x.spec_len(),
            self.storage().len() * S::Mem::width() < x.spec_len() + S::Mem::width(),
            x.spec_len() == 0 ==> self.storage().len() == 0,
    {
        S::Mem::lemma_width();
        crate::ptr::lemma_elements_is_ceiling(0, x.spec_len(), S::Mem::width());
        if x.spec_len() == 0 {
            assert(0 * S::Mem::width() == 0) by (nonlinear_arith);
        }
    }

    /// Gives up the region for the span that describes it.
    ///
    /// The elements stay allocated. They are freed only if a region is
    /// rebuilt from this span and dropped.
    pub fn into_raw(b: Self) -> (raw: BitSpan<S>)
        ensures
            raw == b.span(),
    {
        let raw = b.bit_span();
        let _ = Self::leak(b);
        raw
    }

    /// Gives up the region for a writable borrow of its bits that may live as
    /// long as the program.
    ///
    /// The elements are never freed, unless a region is rebuilt over them and
    /// dropped.
    pub fn leak<'a>(b: Self) -> (leaked: BitSliceMut<'a, S>)
        ensures
            leaked.well_formed(),
            leaked@ == b@,
            leaked.storage() == b.storage(),
            leaked.spec_order() == b.span()@.order,
            leaked.spec_head() == b.span()@.head,
            leaked.spec_len() == b.span()@.bits,
    {
        proof {
            use_type_invariant(&b);
        }
        let order = b.span.order();
        let head = b.span.head();
        let bits = b.span.len();
        match BitSliceMut::new(pipe(b.words, leak_boxed), order, head, bits) {
            Some(leaked) => leaked,
            None => vstd::pervasive::unreached(),
        }
    }

    /// Converts the region into a vector of bits that owns the same elements.
    pub fn into_vec(self) -> (v: BitVec<S>)
        ensures
            v.well_formed(),
            v@ == self@,
            v.storage() == self.storage(),
            v.spec_order() == self.span()@.order,
            v.spec_head() == self.span()@.head,
            v.spec_len() == self.span()@.bits,
    {
        self.into_bitvec()
    }

    /// Converts the region into a vector of bits that owns the same elements.
    pub fn into_bitvec(self) -> (v: BitVec<S>)
        ensures
            v.well_formed(),
            v@ == self@,
            v.storage() == self.storage(),
            v.spec_order() == self.span()@.order,
            v.spec_head() == self.span()@.head,
            v.spec_len() == self.span()@.bits,
    {
        proof {
            use_type_invariant(&self);
        }
        let order = self.span.order();
        let head = self.span.head();
        let bits = self.span.len();
        BitVec::from_elements(self.words.into_vec(), order, head, bits)
    }

    /// The span that describes the region.
    pub fn bit_span(&self) -> (span: BitSpan<S>)
        ensures
            span == self.span(),
            fits(span@.head, span@.bits, S::Mem::width(), self.storage().len()),
            span@.bits == 0 ==> span@.head == 0,
    {
        proof {
            use_type_invariant(self);
        }
        self.span
    }

    /// The number of live bits.
    pub fn len(&self) -> (bits: usize)
        ensures
            bits == self@.len(),
    {
        self.span.len()
    }

    /// The bits of the region, borrowed.
    pub fn as_bitslice(&self) -> (slice: BitSlice<'_, S>)
        ensures
            slice@ == self@,
            slice.storage() == self.storage(),
            slice.spec_order() == self.span()@.order,
            slice.spec_head() == self.span()@.head,
            slice.spec_len() == self.span()@.bits,
    {
        proof {
            use_type_invariant(self);
        }
        match BitSlice::new(&self.words, self.span.order(), self.span.head(), self.span.len()) {
            Some(slice) => slice,
            None => vstd::pervasive::unreached(),
        }
    }

    /// The bit with the given index, or `None` where the region has no such
    /// bit.
    pub fn get(&self, index: usize) -> (bit: Option<bool>)
        ensures
            bit == (if index < self@.len() {
                Some(self@[index as int])
            } else {
                None
            }),
    {
        self.as_bitslice().get(index)
    }
}

} // verus!
