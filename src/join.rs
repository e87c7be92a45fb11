//! Aggregates that drive a fixed set of operations to completion.
//!
//! Each aggregate answers one poll call as a sequence of steps: `begin` opens
//! the pass, and every `Step::Advance(i)` asks the driver to advance operation
//! `i` once and to hand back what it gave through `advanced`. The pass ends
//! with `Step::Ready` (the aggregate has resolved) or `Step::NotReady`.
use vstd::prelude::*;

use crate::maybe_done::MaybeDone;

pub mod actions;
pub mod error_race;
pub mod try_actions;

pub use actions::Actions;
pub use error_race::ErrorRace;
pub use try_actions::TryActions;

verus! {

/// What an aggregate asks of its driver next, within one poll call.
pub enum Step<R> {
    /// Advance the operation of this slot once and report what it gave.
    Advance(usize),
    /// The aggregate has resolved with this value.
    Ready(R),
    /// Not every operation has completed: poll again on the next wake-up.
    NotReady,
}

/// The first slot at or after `i` whose operation has not completed, or the
/// length of `slots` when there is none.
pub open spec fn next_pending<F, O>(slots: Seq<MaybeDone<F, O>>, i: int) -> int
    decreases slots.len() - i,
{
    if i >= slots.len() {
        slots.len() as int
    } else if slots[i] is Future {
        i
    } else {
        next_pending(slots, i + 1)
    }
}

/// How a pass that has looked at every slot ends.
pub open spec fn pass_end<R>(done: bool, value: R) -> Step<R> {
    if done {
        Step::Ready(value)
    } else {
        Step::NotReady
    }
}

/// The step at `cursor`: advance that slot, or end the pass.
pub open spec fn step_at<R>(len: int, cursor: int, done: bool, value: R) -> Step<R> {
    if cursor < len {
        Step::Advance(cursor as usize)
    } else {
        pass_end(done, value)
    }
}

/// `next_pending` finds the first pending slot: none before it is pending.
pub proof fn lemma_next_pending<F, O>(slots: Seq<MaybeDone<F, O>>, i: int)
    requires
        0 <= i <= slots.len(),
    ensures
        i <= next_pending(slots, i) <= slots.len(),
        next_pending(slots, i) < slots.len() ==> slots[next_pending(slots, i)] is Future,
        forall|k: int| i <= k < next_pending(slots, i) ==> !(#[trigger] slots[k] is Future),
    decreases slots.len() - i,
{
    if i < slots.len() && !(slots[i] is Future) {
        lemma_next_pending(slots, i + 1);
    }
}

/// Puts each operation in a slot of its own, in order, in a vector allocated
/// once at its final size.
pub fn collect_slots<F, O>(ops: Vec<F>) -> (slots: Vec<MaybeDone<F, O>>)
    ensures
        slots@.len() == ops@.len(),
        forall|i: int| 0 <= i < ops@.len() ==> slots@[i] == MaybeDone::<F, O>::Future(ops@[i]),
{
    let n = ops.len();
    let ghost orig = ops@;
    let mut ops = ops;
    let mut reversed: Vec<F> = Vec::with_capacity(n);
    while ops.len() > 0
        invariant
            ops@ == orig.subrange(0, ops@.len() as int),
            reversed@.len() + ops@.len() == orig.len(),
            forall|i: int| 0 <= i < reversed@.len() ==> reversed@[i] == orig[orig.len() - 1 - i],
        decreases ops@.len(),
    {
        let op = ops.pop().unwrap();
        reversed.push(op);
    }
    let mut slots: Vec<MaybeDone<F, O>> = Vec::with_capacity(n);
    while reversed.len() > 0
        invariant
            reversed@.len() + slots@.len() == orig.len(),
            forall|i: int| 0 <= i < reversed@.len() ==> reversed@[i] == orig[orig.len() - 1 - i],
            forall|i: int| 0 <= i < slots@.len() ==> slots@[i] == MaybeDone::<F, O>::Future(orig[i]),
        decreases reversed@.len(),
    {
        let op = reversed.pop().unwrap();
        slots.push(MaybeDone::Future(op));
    }
    slots
}

} // verus!
