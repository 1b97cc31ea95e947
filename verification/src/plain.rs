//! Plain mode: an element that is reached by ordinary reads and writes.
use crate::radium::{Fundamental, IsANum, IsBits, Radium};
use core::sync::atomic::Ordering;
use vstd::prelude::*;

verus! {

/// An element held as an ordinary value.
///
/// Every operation is a read followed by a write; the ordering hint is
/// accepted and ignored, and a fence does nothing. It is the mode for an
/// element that no other view can reach.
pub struct Plain<T> {
    value: T,
}

impl<T: Fundamental> Radium<T> for Plain<T> {
    closed spec fn value(&self) -> T {
        self.value
    }

    fn new(value: T) -> (cell: Self) {
        Plain { value }
    }

    fn fence(order: Ordering) {
    }

    fn get_mut(&mut self) -> (slot: &mut T) {
        &mut self.value
    }

    fn into_inner(self) -> (value: T) {
        self.value
    }

    fn load(&self, order: Ordering) -> (value: T) {
        self.value
    }

    fn store(&mut self, value: T, order: Ordering) {
        self.value = value;
    }

    fn swap(&mut self, value: T, order: Ordering) -> (prev: T) {
        let prev = self.value;
        self.value = value;
        prev
    }

    fn compare_and_swap(&mut self, current: T, new: T, order: Ordering) -> (prev: T) {
        let prev = self.value;
        if prev.same(current) {
            self.value = new;
        }
        prev
    }

    fn compare_exchange(
        &mut self,
        current: T,
        new: T,
        success: Ordering,
        failure: Ordering,
    ) -> (r: Result<T, T>) {
        let prev = self.value;
        if prev.same(current) {
            self.value = new;
            Ok(prev)
        } else {
            Err(prev)
        }
    }

    /// In plain mode the weak exchange never fails without cause.
    fn compare_exchange_weak(
        &mut self,
        current: T,
        new: T,
        success: Ordering,
        failure: Ordering,
    ) -> (r: Result<T, T>)
        ensures
            r is Ok <==> old(self).value() == current,
    {
        self.compare_exchange(current, new, success, failure)
    }

    fn fetch_and(&mut self, value: T, order: Ordering) -> (prev: T) where T: IsBits {
        let prev = self.value;
        self.value = prev.bit_and(value);
        prev
    }

    fn fetch_nand(&mut self, value: T, order: Ordering) -> (prev: T) where T: IsBits {
        let prev = self.value;
        self.value = prev.bit_and(value).bit_not();
        prev
    }

    fn fetch_or(&mut self, value: T, order: Ordering) -> (prev: T) where T: IsBits {
        let prev = self.value;
        self.value = prev.bit_or(value);
        prev
    }

    fn fetch_xor(&mut self, value: T, order: Ordering) -> (prev: T) where T: IsBits {
        let prev = self.value;
        self.value = prev.bit_xor(value);
        prev
    }

    fn fetch_add(&mut self, value: T, order: Ordering) -> (prev: T) where T: IsANum {
        let prev = self.value;
        self.value = prev.wrapped_add(value);
        prev
    }

    fn fetch_sub(&mut self, value: T, order: Ordering) -> (prev: T) where T: IsANum {
        let prev = self.value;
        self.value = prev.wrapped_sub(value);
        prev
    }
}

} // verus!
