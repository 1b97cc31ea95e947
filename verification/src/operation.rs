//! The operation set as data: what each step does to the value an element
//! holds, and one routine that performs a step on any element.
use crate::radium::{without_acquire, without_release, IsANum, IsBits, Radium};
use core::sync::atomic::Ordering;
use vstd::prelude::*;

verus! {

/// One step against an element that holds an integer.
#[derive(Debug)]
pub enum Operation<T> {
    /// Read the value.
    Load,
    /// Write a value.
    Store(T),
    /// Write a value and take the one that was held.
    Swap(T),
    /// Write `new` if `current` is held; take the value that was held.
    CompareAndSwap { current: T, new: T },
    /// Write `new` if `current` is held; learn whether it was.
    CompareExchange { current: T, new: T },
    /// Keep the bits that the mask has too.
    FetchAnd(T),
    /// Keep the bits that the mask has too, then invert every bit.
    FetchNand(T),
    /// Add the bits of the mask.
    FetchOr(T),
    /// Invert the bits of the mask.
    FetchXor(T),
    /// Add a number, wrapping around.
    FetchAdd(T),
    /// Subtract a number, wrapping around.
    FetchSub(T),
}

impl<T: Copy> Clone for Operation<T> {
    fn clone(&self) -> (r: Self)
        ensures
            r == *self,
    {
        *self
    }
}

impl<T: Copy> Copy for Operation<T> {

}

/// What a step hands back to its caller.
#[derive(Debug)]
pub enum Outcome<T> {
    /// The step returns nothing.
    Stored,
    /// The value the element held before the step.
    Previous(T),
    /// The value the element held before an exchange: `Ok` where the new
    /// value was stored, `Err` where it was not.
    Exchanged(Result<T, T>),
}

impl<T: IsBits + IsANum> Operation<T> {
    /// The value an element holds after the step, given the value it held.
    pub open spec fn next(self, stored: T) -> T {
        match self {
            Operation::Load => stored,
            Operation::Store(value) => value,
            Operation::Swap(value) => value,
            Operation::CompareAndSwap { current, new } => if stored == current {
                new
            } else {
                stored
            },
            Operation::CompareExchange { current, new } => if stored == current {
                new
            } else {
                stored
            },
            Operation::FetchAnd(value) => stored.and_with(value),
            Operation::FetchNand(value) => stored.and_with(value).complement(),
            Operation::FetchOr(value) => stored.or_with(value),
            Operation::FetchXor(value) => stored.xor_with(value),
            Operation::FetchAdd(value) => stored.wrapped_sum(value),
            Operation::FetchSub(value) => stored.wrapped_difference(value),
        }
    }

    /// What the step returns, given the value the element held.
    pub open spec fn outcome(self, stored: T) -> Outcome<T> {
        match self {
            Operation::Store(_) => Outcome::Stored,
            Operation::CompareExchange { current, new } => Outcome::Exchanged(
                if stored == current {
                    Ok(stored)
                } else {
                    Err(stored)
                },
            ),
            _ => Outcome::Previous(stored),
        }
    }
}

/// The value an element holds after the steps `ops`, taken in order from
/// `start`.
pub open spec fn value_after<T: IsBits + IsANum>(ops: Seq<Operation<T>>, start: T) -> T
    decreases ops.len(),
{
    if ops.len() == 0 {
        start
    } else {
        ops.last().next(value_after(ops.drop_last(), start))
    }
}

/// What the steps `ops` return, taken in order from `start`.
pub open spec fn outcomes<T: IsBits + IsANum>(ops: Seq<Operation<T>>, start: T) -> Seq<
    Outcome<T>,
> {
    Seq::new(ops.len(), |i: int| ops[i].outcome(value_after(ops.take(i), start)))
}

/// The first `n` of the steps.
spec fn first<T>(ops: Seq<Operation<T>>, n: usize) -> Seq<Operation<T>> {
    ops.take(n as int)
}

/// Performs one step on an element, whichever way the element is held.
///
/// Each step takes as much of `order` as applies to it: a load and the
/// failure of an exchange take it without its releasing half, a store without
/// its acquiring half, every other step takes it whole.
pub fn apply<T: IsBits + IsANum, R: Radium<T>>(
    cell: &mut R,
    op: Operation<T>,
    order: Ordering,
) -> (out: Outcome<T>)
    ensures
        final(cell).value() == op.next(old(cell).value()),
        out == op.outcome(old(cell).value()),
{
    match op {
        Operation::Load => Outcome::Previous(cell.load(without_release(order))),
        Operation::Store(value) => {
            cell.store(value, without_acquire(order));
            Outcome::Stored
        },
        Operation::Swap(value) => Outcome::Previous(cell.swap(value, order)),
        Operation::CompareAndSwap { current, new } => Outcome::Previous(
            cell.compare_and_swap(current, new, order),
        ),
        Operation::CompareExchange { current, new } => Outcome::Exchanged(
            cell.compare_exchange(current, new, order, without_release(order)),
        ),
        Operation::FetchAnd(value) => Outcome::Previous(cell.fetch_and(value, order)),
        Operation::FetchNand(value) => Outcome::Previous(cell.fetch_nand(value, order)),
        Operation::FetchOr(value) => Outcome::Previous(cell.fetch_or(value, order)),
        Operation::FetchXor(value) => Outcome::Previous(cell.fetch_xor(value, order)),
        Operation::FetchAdd(value) => Outcome::Previous(cell.fetch_add(value, order)),
        Operation::FetchSub(value) => Outcome::Previous(cell.fetch_sub(value, order)),
    }
}

/// Performs the steps `ops` in order on one element and collects what they
/// return.
///
/// Neither the final value nor the outcomes depend on the implementor: an
/// element in plain mode and one in atomic mode, holding the same value and
/// reached by nobody else, end in the same state and return the same values.
pub fn run<T: IsBits + IsANum, R: Radium<T>>(
    cell: &mut R,
    ops: &Vec<Operation<T>>,
    order: Ordering,
) -> (outs: Vec<Outcome<T>>)
    ensures
        final(cell).value() == value_after(ops@, old(cell).value()),
        outs@ == outcomes(ops@, old(cell).value()),
{
    let ghost start = cell.value();
    let mut outs: Vec<Outcome<T>> = Vec::new();
    let mut i: usize = 0;
    while i < ops.len()
        invariant
            i <= ops.len(),
            cell.value() == value_after(first(ops@, i), start),
            outs@ == outcomes(first(ops@, i), start),
        decreases ops.len() - i,
    {
        let ghost before = first(ops@, i);
        let ghost done = i;
        outs.push(apply(cell, ops[i], order));
        i += 1;
        proof {
            let now = first(ops@, i);
            assert(now.drop_last() == before);
            assert(first(now, done) == before);
            assert forall|k: int| 0 <= k < before.len() implies #[trigger] now.take(k)
                == before.take(k) by {}
            assert(outs@ =~= outcomes(now, start));
        }
    }
    proof {
        assert(first(ops@, i) == ops@);
    }
    outs
}

/// Two elements that hold the same value and are each reached by one caller
/// only end in the same state and return the same values under the same
/// steps, whichever mode either of them is in.
pub proof fn lemma_modes_agree<T: IsBits + IsANum, A: Radium<T>, B: Radium<T>>(
    a: A,
    b: B,
    ops: Seq<Operation<T>>,
)
    requires
        a.value() == b.value(),
    ensures
        value_after(ops, a.value()) == value_after(ops, b.value()),
        outcomes(ops, a.value()) == outcomes(ops, b.value()),
{
}

/// No update is lost when two callers each merge a mask into one element by
/// an atomic "or": in whichever order the two steps take effect, the element
/// ends holding the bitwise "or" of the value it held and of both masks, and
/// so every bit of either mask.
pub proof fn lemma_no_lost_update<T: IsBits + IsANum>(start: T, a: T, b: T)
    ensures
        value_after(seq![Operation::FetchOr(a), Operation::FetchOr(b)], start) == start.or_with(
            a,
        ).or_with(b),
        value_after(seq![Operation::FetchOr(b), Operation::FetchOr(a)], start) == start.or_with(
            a,
        ).or_with(b),
        start.or_with(a).or_with(b).and_with(a) == a,
        start.or_with(a).or_with(b).and_with(b) == b,
{
    T::lemma_or_exchange(start, a, b);
    let first_a = seq![Operation::FetchOr(a), Operation::FetchOr(b)];
    let first_b = seq![Operation::FetchOr(b), Operation::FetchOr(a)];
    reveal_with_fuel(value_after, 3);
    assert(first_a.drop_last().drop_last().len() == 0);
    assert(first_b.drop_last().drop_last().len() == 0);
}

} // verus!
