use vstd::prelude::*;

use crate::join::{collect_slots, lemma_next_pending, next_pending, pass_end, step_at, Step};
use crate::maybe_done::{after_advance, MaybeDone};

verus! {

/// Resolves once every one of its operations has completed. Its operations
/// have no output and no error; nothing is cancelled.
pub struct Actions<F> {
    tasks: Vec<MaybeDone<F, ()>>,
    cursor: usize,
    done: bool,
}

/// One step of a pass: slot `c` of `slots` was advanced and gave `out`. The
/// result is the new slots, cursor and completion flag, and the next step.
pub open spec fn actions_next<F>(slots: Seq<MaybeDone<F, ()>>, c: int, done: bool, out: Option<()>) -> (
    Seq<MaybeDone<F, ()>>,
    int,
    bool,
    Step<()>,
) {
    match out {
        Some(()) => {
            let s = slots.update(c, MaybeDone::Done(()));
            let n = next_pending(s, c + 1);
            (s, n, done, step_at(s.len() as int, n, done, ()))
        },
        None => {
            let n = next_pending(slots, c + 1);
            (slots, n, false, step_at(slots.len() as int, n, false, ()))
        },
    }
}

/// A whole pass, from slot `i` on, where advancing slot `k` gives `outs[k]`:
/// the slots afterwards and how the pass ends.
pub open spec fn actions_run<F>(slots: Seq<MaybeDone<F, ()>>, i: nat, done: bool, outs: Seq<Option<()>>) -> (
    Seq<MaybeDone<F, ()>>,
    Step<()>,
)
    decreases slots.len() - i,
{
    if i >= slots.len() {
        (slots, pass_end(done, ()))
    } else if !(slots[i as int] is Future) {
        actions_run(slots, i + 1, done, outs)
    } else {
        match outs[i as int] {
            Some(()) => actions_run(slots.update(i as int, MaybeDone::Done(())), i + 1, done, outs),
            None => actions_run(slots, i + 1, false, outs),
        }
    }
}

/// Every slot from `i` on whose operation is pending gets an output in `outs`.
pub open spec fn all_complete_from<F>(slots: Seq<MaybeDone<F, ()>>, i: int, outs: Seq<Option<()>>) -> bool {
    forall|k: int| i <= k < slots.len() && #[trigger] slots[k] is Future ==> outs[k] is Some
}

impl<F> View for Actions<F> {
    /// The slots, the slot the current pass waits on (the length when none),
    /// and whether every slot looked at in the current pass was complete.
    type V = (Seq<MaybeDone<F, ()>>, int, bool);

    closed spec fn view(&self) -> Self::V {
        (self.tasks@, self.cursor as int, self.done)
    }
}

impl<F> Actions<F> {
    /// The cursor stands on a pending slot or past the last one.
    pub open spec fn wf(&self) -> bool {
        &&& 0 <= self@.1 <= self@.0.len()
        &&& self@.1 == next_pending(self@.0, self@.1)
    }

    /// An aggregate over `ops`, each in a pending slot of its own, in order.
    pub fn new(ops: Vec<F>) -> (r: Self)
        ensures
            r.wf(),
            r@.0.len() == ops@.len(),
            forall|i: int| 0 <= i < ops@.len() ==> r@.0[i] == MaybeDone::<F, ()>::Future(ops@[i]),
            r@.1 == ops@.len(),
    {
        let tasks = collect_slots(ops);
        let cursor = tasks.len();
        Actions { tasks, cursor, done: true }
    }

    /// The number of slots.
    pub fn len(&self) -> (n: usize)
        ensures
            n == self@.0.len(),
    {
        self.tasks.len()
    }

    /// The slot at `i`.
    pub fn slot(&self, i: usize) -> (s: &MaybeDone<F, ()>)
        requires
            i < self@.0.len(),
        ensures
            *s == self@.0[i as int],
    {
        &self.tasks[i]
    }

    /// The operation of slot `i`, when it is pending, so that the driver can
    /// advance it in place.
    pub fn operation_mut(&mut self, i: usize) -> (r: Option<&mut F>)
        requires
            i < old(self)@.0.len(),
        ensures
            match old(self)@.0[i as int] {
                MaybeDone::Future(f) => r is Some && *r->0 == f && final(self)@ == (
                    old(self)@.0.update(i as int, MaybeDone::Future(*final(r->0))),
                    old(self)@.1,
                    old(self)@.2,
                ),
                _ => r is None && final(self)@ == old(self)@,
            },
    {
        self.tasks[i].operation_mut()
    }

    /// Moves the cursor to the first pending slot at or after `from`.
    fn seek(&mut self, from: usize) -> (s: Step<()>)
        requires
            from <= old(self)@.0.len(),
        ensures
            final(self).wf(),
            final(self)@ == (old(self)@.0, next_pending(old(self)@.0, from as int), old(self)@.2),
            s == step_at(old(self)@.0.len() as int, final(self)@.1, old(self)@.2, ()),
    {
        proof {
            lemma_next_pending(self@.0, from as int);
        }
        let mut c = from;
        while c < self.tasks.len() && !self.tasks[c].is_pending()
            invariant
                from <= c <= self@.0.len(),
                self@ == (old(self)@.0, old(self)@.1, old(self)@.2),
                next_pending(self@.0, from as int) == next_pending(self@.0, c as int),
            decreases self@.0.len() - c,
        {
            c = c + 1;
        }
        self.cursor = c;
        proof {
            lemma_next_pending(self@.0, c as int);
        }
        if c < self.tasks.len() {
            Step::Advance(c)
        } else if self.done {
            Step::Ready(())
        } else {
            Step::NotReady
        }
    }

    /// Opens a poll pass and says what to do first.
    pub fn begin(&mut self) -> (s: Step<()>)
        requires
            old(self).wf(),
        ensures
            final(self).wf(),
            final(self)@ == (old(self)@.0, next_pending(old(self)@.0, 0), true),
            s == step_at(old(self)@.0.len() as int, final(self)@.1, true, ()),
    {
        self.done = true;
        self.seek(0)
    }

    /// Takes what advancing the slot at the cursor gave, and says what to do
    /// next.
    pub fn advanced(&mut self, out: Option<()>) -> (s: Step<()>)
        requires
            old(self).wf(),
            old(self)@.1 < old(self)@.0.len(),
        ensures
            final(self).wf(),
            (final(self)@.0, final(self)@.1, final(self)@.2, s) == actions_next(
                old(self)@.0,
                old(self)@.1,
                old(self)@.2,
                out,
            ),
    {
        let c = self.cursor;
        proof {
            lemma_next_pending(self@.0, c as int);
        }
        let ready = self.tasks[c].advance(out);
        let n = self.tasks.len();
        assert(self@.0 =~= old(self)@.0.update(c as int, after_advance(old(self)@.0[c as int], out)));
        if !ready {
            self.done = false;
            assert(self@.0 =~= old(self)@.0);
        }
        assert(c < n);
        self.seek(c + 1)
    }
}

/// A pass skips the slots that need no advancing.
pub proof fn lemma_actions_run_skips<F>(slots: Seq<MaybeDone<F, ()>>, i: nat, done: bool, outs: Seq<Option<()>>)
    requires
        i <= slots.len(),
    ensures
        actions_run(slots, i, done, outs) == actions_run(
            slots,
            next_pending(slots, i as int) as nat,
            done,
            outs,
        ),
    decreases slots.len() - i,
{
    if i < slots.len() && !(slots[i as int] is Future) {
        lemma_actions_run_skips(slots, i + 1, done, outs);
    }
}

/// Driving a pass with `begin` and `advanced`, answering each `Advance(k)`
/// with `outs[k]`, ends as `actions_run` says: each step leaves a state from
/// which the rest of the pass is the rest of the run.
pub proof fn lemma_actions_steps_follow_run<F>(
    slots: Seq<MaybeDone<F, ()>>,
    c: nat,
    done: bool,
    outs: Seq<Option<()>>,
)
    requires
        c < slots.len(),
        slots[c as int] is Future,
    ensures
        ({
            let (s, n, d, st) = actions_next(slots, c as int, done, outs[c as int]);
            &&& st is Advance ==> n > c && n == next_pending(s, n) && actions_run(slots, c, done, outs)
                == actions_run(s, n as nat, d, outs)
            &&& !(st is Advance) ==> actions_run(slots, c, done, outs) == (s, st)
        }),
        actions_run(slots, 0, true, outs) == actions_run(
            slots,
            next_pending(slots, 0) as nat,
            true,
            outs,
        ),
{
    lemma_actions_run_skips(slots, 0, true, outs);
    let s = slots.update(c as int, MaybeDone::Done(()));
    lemma_next_pending(s, c + 1 as int);
    lemma_next_pending(slots, c + 1 as int);
    lemma_actions_run_skips(s, c + 1, done, outs);
    lemma_actions_run_skips(slots, c + 1, false, outs);
    let n1 = next_pending(s, c + 1 as int);
    let n2 = next_pending(slots, c + 1 as int);
    lemma_next_pending(s, n1);
    lemma_next_pending(slots, n2);
}

/// A pass resolves exactly when every operation still pending completes in
/// it, and each slot afterwards is what advancing it gave.
pub proof fn lemma_actions_run_exact<F>(slots: Seq<MaybeDone<F, ()>>, i: nat, done: bool, outs: Seq<Option<()>>)
    requires
        i <= slots.len(),
    ensures
        actions_run(slots, i, done, outs).1 == pass_end(done && all_complete_from(slots, i as int, outs), ()),
        actions_run(slots, i, done, outs).0.len() == slots.len(),
        forall|k: int|
            0 <= k < i ==> #[trigger] actions_run(slots, i, done, outs).0[k] == slots[k],
        forall|k: int|
            i <= k < slots.len() ==> #[trigger] actions_run(slots, i, done, outs).0[k] == after_advance(
                slots[k],
                outs[k],
            ),
    decreases slots.len() - i,
{
    if i < slots.len() {
        if !(slots[i as int] is Future) {
            lemma_actions_run_exact(slots, i + 1, done, outs);
            assert(all_complete_from(slots, i as int, outs) == all_complete_from(slots, i + 1 as int, outs));
        } else {
            match outs[i as int] {
                Some(()) => {
                    let s = slots.update(i as int, MaybeDone::Done(()));
                    lemma_actions_run_exact(s, i + 1, done, outs);
                    if all_complete_from(slots, i as int, outs) {
                        assert forall|k: int| i + 1 <= k < s.len() && #[trigger] s[k] is Future implies outs[k] is Some by {
                            assert(s[k] == slots[k]);
                        }
                    }
                    if all_complete_from(s, i + 1 as int, outs) {
                        assert forall|k: int| i <= k < slots.len() && #[trigger] slots[k] is Future implies outs[k] is Some by {
                            if k > i {
                                assert(s[k] == slots[k]);
                            }
                        }
                    }
                },
                None => {
                    lemma_actions_run_exact(slots, i + 1, false, outs);
                },
            }
        }
    }
}

/// However many operations there are, when all of them are complete at the
/// first poll, that poll resolves.
pub proof fn lemma_actions_complete_resolve_at_once<F>(ops: Seq<F>, outs: Seq<Option<()>>)
    requires
        outs.len() == ops.len(),
        forall|k: int| 0 <= k < outs.len() ==> #[trigger] outs[k] is Some,
    ensures
        actions_run(Seq::new(ops.len(), |k: int| MaybeDone::<F, ()>::Future(ops[k])), 0, true, outs).1
            == Step::Ready(()),
{
    let slots = Seq::new(ops.len(), |k: int| MaybeDone::<F, ()>::Future(ops[k]));
    lemma_actions_run_exact(slots, 0, true, outs);
}

/// When one operation has not completed, the poll reports not ready and keeps
/// what the others gave; once that operation completes, the next poll
/// resolves, without advancing the others again.
pub proof fn lemma_actions_wait_for_one<F>(
    slots: Seq<MaybeDone<F, ()>>,
    j: int,
    first: Seq<Option<()>>,
    second: Seq<Option<()>>,
)
    requires
        0 <= j < slots.len(),
        slots[j] is Future,
        first[j] is None,
        forall|k: int| 0 <= k < slots.len() && k != j && #[trigger] slots[k] is Future ==> first[k] is Some,
        second[j] is Some,
    ensures
        actions_run(slots, 0, true, first).1 == Step::<()>::NotReady,
        forall|k: int|
            0 <= k < slots.len() && k != j ==> !(#[trigger] actions_run(slots, 0, true, first).0[k] is Future),
        actions_run(actions_run(slots, 0, true, first).0, 0, true, second).1 == Step::Ready(()),
{
    lemma_actions_run_exact(slots, 0, true, first);
    let mid = actions_run(slots, 0, true, first).0;
    lemma_actions_run_exact(mid, 0, true, second);
    assert(!all_complete_from(slots, 0, first));
    assert(all_complete_from(mid, 0, second)) by {
        assert forall|k: int| 0 <= k < mid.len() && #[trigger] mid[k] is Future implies second[k] is Some by {
            if k != j && slots[k] is Future {
                assert(mid[k] == after_advance(slots[k], first[k]));
            }
        }
    }
}

} // verus!
