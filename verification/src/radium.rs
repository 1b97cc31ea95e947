//! One operation set over an element of storage, whatever the way it is held.
//!
//! An element holds one fundamental value. [`Radium`] is the operation set:
//! loads, stores, exchanges and read-modify-write steps, each taking a
//! memory-ordering hint. Every contract is stated over [`Radium::value`], the
//! value the element holds, so that any two implementors are told apart by
//! nothing a caller can observe through these operations.
//!
//! Whether an operation exists for an element type is decided by the
//! capabilities of the type: the bitwise steps are bounded by [`IsBits`], the
//! numeric steps by [`IsANum`], and a call on a type without the capability
//! does not compile.
use core::sync::atomic::Ordering;
use vstd::prelude::*;

verus! {

/// A value small enough to be held in one element and compared exactly.
pub trait Fundamental: Copy + Sized {
    /// Whether the two values are the same value.
    fn same(self, other: Self) -> (b: bool)
        ensures
            b == (self == other),
    ;
}

/// A fundamental that is a set of bits, with the bitwise operations on it.
///
/// Every integer and `bool` have this capability; an address does not.
pub trait IsBits: Fundamental {
    /// The bits set in both values.
    spec fn and_with(self, other: Self) -> Self;

    /// The bits set in either value.
    spec fn or_with(self, other: Self) -> Self;

    /// The bits set in exactly one of the values.
    spec fn xor_with(self, other: Self) -> Self;

    /// Every bit inverted.
    spec fn complement(self) -> Self;

    /// The bitwise "and" of the two values.
    fn bit_and(self, other: Self) -> (r: Self)
        ensures
            r == self.and_with(other),
    ;

    /// The bitwise "or" of the two values.
    fn bit_or(self, other: Self) -> (r: Self)
        ensures
            r == self.or_with(other),
    ;

    /// The bitwise "xor" of the two values.
    fn bit_xor(self, other: Self) -> (r: Self)
        ensures
            r == self.xor_with(other),
    ;

    /// The value with every bit inverted.
    fn bit_not(self) -> (r: Self)
        ensures
            r == self.complement(),
    ;

    /// Two masks may be merged into a value in either order: the result is the
    /// same, and it holds every bit of both masks.
    proof fn lemma_or_exchange(v: Self, a: Self, b: Self)
        ensures
            v.or_with(a).or_with(b) == v.or_with(b).or_with(a),
            v.or_with(a).or_with(b).and_with(a) == a,
            v.or_with(a).or_with(b).and_with(b) == b,
    ;
}

/// A fundamental that is a number, with arithmetic that wraps around.
///
/// Every integer has this capability; `bool` and an address do not.
pub trait IsANum: Fundamental {
    /// The sum, wrapped around at the boundary of the type.
    spec fn wrapped_sum(self, other: Self) -> Self;

    /// The difference, wrapped around at the boundary of the type.
    spec fn wrapped_difference(self, other: Self) -> Self;

    /// Adds, wrapping around on overflow.
    fn wrapped_add(self, other: Self) -> (r: Self)
        ensures
            r == self.wrapped_sum(other),
    ;

    /// Subtracts, wrapping around on underflow.
    fn wrapped_sub(self, other: Self) -> (r: Self)
        ensures
            r == self.wrapped_difference(other),
    ;
}

/// The ordering without its releasing half: what is left of it for a step
/// that writes nothing, such as a load or an exchange that failed.
pub open spec fn reading_part(order: Ordering) -> Ordering {
    match order {
        Ordering::Release => Ordering::Relaxed,
        Ordering::AcqRel => Ordering::Acquire,
        _ => order,
    }
}

/// The ordering without its acquiring half: what is left of it for a step
/// that reads nothing, such as a store.
pub open spec fn writing_part(order: Ordering) -> Ordering {
    match order {
        Ordering::Acquire => Ordering::Relaxed,
        Ordering::AcqRel => Ordering::Release,
        _ => order,
    }
}

/// The ordering for a load, or for the failure of an exchange, where the
/// whole step takes `order`.
pub fn without_release(order: Ordering) -> (part: Ordering)
    ensures
        part == reading_part(order),
{
    match order {
        Ordering::Release => Ordering::Relaxed,
        Ordering::AcqRel => Ordering::Acquire,
        _ => order,
    }
}

/// The ordering for a store where the whole step takes `order`.
pub fn without_acquire(order: Ordering) -> (part: Ordering)
    ensures
        part == writing_part(order),
{
    match order {
        Ordering::Acquire => Ordering::Relaxed,
        Ordering::AcqRel => Ordering::Release,
        _ => order,
    }
}

/// An element that holds one fundamental `T`, atomic or not.
///
/// The implementor decides how the element is reached: by an ordinary read and
/// write, or by one atomic instruction that honours the ordering hint. The
/// contracts do not tell the two apart. Each operation that changes the
/// element takes it by `&mut`, which is what lets its contract name the value
/// before and after the step.
pub trait Radium<T>: Sized {
    /// The value that the element holds.
    spec fn value(&self) -> T;

    /// An element that holds `value`.
    fn new(value: T) -> (cell: Self)
        ensures
            cell.value() == value,
    ;

    /// A memory fence of the given ordering where the element is atomic;
    /// otherwise nothing. No element changes.
    fn fence(order: Ordering);

    /// Lends the value itself; what the borrower leaves there is what the
    /// element holds afterwards.
    fn get_mut(&mut self) -> (slot: &mut T)
        ensures
            *slot == old(self).value(),
            final(self).value() == *final(slot),
    ;

    /// Gives up the element for the value it holds.
    fn into_inner(self) -> (value: T)
        ensures
            value == self.value(),
    ;

    /// Reads the value that the element holds.
    fn load(&self, order: Ordering) -> (value: T)
        ensures
            value == self.value(),
    ;

    /// Writes `value` into the element.
    fn store(&mut self, value: T, order: Ordering)
        ensures
            final(self).value() == value,
    ;

    /// Writes `value` into the element and returns what it held.
    fn swap(&mut self, value: T, order: Ordering) -> (prev: T)
        ensures
            prev == old(self).value(),
            final(self).value() == value,
    ;

    /// Writes `new` into the element if it holds `current`.
    ///
    /// What the element held is returned in either case; it equals `current`
    /// exactly when `new` was written.
    fn compare_and_swap(&mut self, current: T, new: T, order: Ordering) -> (prev: T)
        ensures
            prev == old(self).value(),
            final(self).value() == (if old(self).value() == current {
                new
            } else {
                old(self).value()
            }),
    ;

    /// Writes `new` into the element if it holds `current`.
    ///
    /// What the element held is returned: as `Ok` when `new` was written, as
    /// `Err` when the element held another value and is unchanged.
    fn compare_exchange(
        &mut self,
        current: T,
        new: T,
        success: Ordering,
        failure: Ordering,
    ) -> (r: Result<T, T>)
        ensures
            r == (if old(self).value() == current {
                Ok::<T, T>(old(self).value())
            } else {
                Err::<T, T>(old(self).value())
            }),
            final(self).value() == (if old(self).value() == current {
                new
            } else {
                old(self).value()
            }),
    ;

    /// Writes `new` into the element if it holds `current`, but may fail to do
    /// so even then.
    ///
    /// `Ok` is returned only when the element held `current` and now holds
    /// `new`; `Err` leaves the element as it was. Either way the value carried
    /// is what the element held.
    fn compare_exchange_weak(
        &mut self,
        current: T,
        new: T,
        success: Ordering,
        failure: Ordering,
    ) -> (r: Result<T, T>)
        ensures
            match r {
                Ok(prev) => prev == old(self).value() && prev == current && final(self).value()
                    == new,
                Err(prev) => prev == old(self).value() && final(self).value() == old(
                    self,
                ).value(),
            },
    ;

    /// Replaces the value by its bitwise "and" with `value`; returns what the
    /// element held.
    fn fetch_and(&mut self, value: T, order: Ordering) -> (prev: T) where T: IsBits
        ensures
            prev == old(self).value(),
            final(self).value() == old(self).value().and_with(value),
    ;

    /// Replaces the value by the complement of its bitwise "and" with `value`;
    /// returns what the element held.
    fn fetch_nand(&mut self, value: T, order: Ordering) -> (prev: T) where T: IsBits
        ensures
            prev == old(self).value(),
            final(self).value() == old(self).value().and_with(value).complement(),
    ;

    /// Replaces the value by its bitwise "or" with `value`; returns what the
    /// element held.
    fn fetch_or(&mut self, value: T, order: Ordering) -> (prev: T) where T: IsBits
        ensures
            prev == old(self).value(),
            final(self).value() == old(self).value().or_with(value),
    ;

    /// Replaces the value by its bitwise "xor" with `value`; returns what the
    /// element held.
    fn fetch_xor(&mut self, value: T, order: Ordering) -> (prev: T) where T: IsBits
        ensures
            prev == old(self).value(),
            final(self).value() == old(self).value().xor_with(value),
    ;

    /// Adds `value` to the element, wrapping on overflow; returns what the
    /// element held.
    fn fetch_add(&mut self, value: T, order: Ordering) -> (prev: T) where T: IsANum
        ensures
            prev == old(self).value(),
            final(self).value() == old(self).value().wrapped_sum(value),
    ;

    /// Subtracts `value` from the element, wrapping on underflow; returns what
    /// the element held.
    fn fetch_sub(&mut self, value: T, order: Ordering) -> (prev: T) where T: IsANum
        ensures
            prev == old(self).value(),
            final(self).value() == old(self).value().wrapped_difference(value),
    ;
}

} // verus!
