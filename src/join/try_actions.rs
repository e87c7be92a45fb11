use vstd::prelude::*;

use crate::join::error_race::{no_unclaimed, race_run};
use crate::join::{collect_slots, lemma_next_pending, next_pending, pass_end, step_at, Step};
use crate::maybe_done::{after_advance, after_take, MaybeDone};

verus! {

/// Resolves with the first error that one of its operations reports, and with
/// success once every operation has completed without one.
///
/// When an error resolves it, every slot is cancelled first, so that no
/// operation is advanced on its behalf any more.
pub struct TryActions<F, E> {
    tasks: Vec<MaybeDone<F, Result<(), E>>>,
    cursor: usize,
    done: bool,
}

/// One step of a pass: slot `c` of `slots` was advanced and gave `out`. The
/// result is the new slots, cursor and completion flag, and the next step.
pub open spec fn try_next<F, E>(
    slots: Seq<MaybeDone<F, Result<(), E>>>,
    c: int,
    done: bool,
    out: Option<Result<(), E>>,
) -> (Seq<MaybeDone<F, Result<(), E>>>, int, bool, Step<Result<(), E>>) {
    match out {
        Some(Err(e)) => (
            all_cancelled(slots),
            slots.len() as int,
            done,
            Step::Ready(Err(e)),
        ),
        Some(Ok(())) => {
            let s = slots.update(c, MaybeDone::Taken);
            let n = next_pending(s, c + 1);
            (s, n, done, step_at(s.len() as int, n, done, Ok(())))
        },
        None => {
            let n = next_pending(slots, c + 1);
            (slots, n, false, step_at(slots.len() as int, n, false, Ok(())))
        },
    }
}

/// A whole pass, from slot `i` on, where advancing slot `k` gives `outs[k]`:
/// the slots afterwards and how the pass ends.
pub open spec fn try_run<F, E>(
    slots: Seq<MaybeDone<F, Result<(), E>>>,
    i: nat,
    done: bool,
    outs: Seq<Option<Result<(), E>>>,
) -> (Seq<MaybeDone<F, Result<(), E>>>, Step<Result<(), E>>)
    decreases slots.len() - i,
{
    if i >= slots.len() {
        (slots, pass_end(done, Ok(())))
    } else if !(slots[i as int] is Future) {
        try_run(slots, i + 1, done, outs)
    } else {
        match outs[i as int] {
            Some(Err(e)) => (all_cancelled(slots), Step::Ready(Err(e))),
            Some(Ok(())) => try_run(slots.update(i as int, MaybeDone::Taken), i + 1, done, outs),
            None => try_run(slots, i + 1, false, outs),
        }
    }
}

/// `slots` with every slot cancelled.
pub open spec fn all_cancelled<F, O>(slots: Seq<MaybeDone<F, O>>) -> Seq<MaybeDone<F, O>> {
    Seq::new(slots.len(), |k: int| MaybeDone::Taken)
}

impl<F, E> View for TryActions<F, E> {
    /// The slots, the slot the current pass waits on (the length when none),
    /// and whether every slot looked at in the current pass was complete.
    type V = (Seq<MaybeDone<F, Result<(), E>>>, int, bool);

    closed spec fn view(&self) -> Self::V {
        (self.tasks@, self.cursor as int, self.done)
    }
}

impl<F, E> TryActions<F, E> {
    /// The cursor stands on a pending slot or past the last one, and no
    /// slot holds an output that was not claimed.
    pub open spec fn wf(&self) -> bool {
        &&& 0 <= self@.1 <= self@.0.len()
        &&& self@.1 == next_pending(self@.0, self@.1)
        &&& no_unclaimed(self@.0)
    }

    /// An aggregate over `ops`, each in a pending slot of its own, in order.
    pub fn new(ops: Vec<F>) -> (r: Self)
        ensures
            r.wf(),
            r@.0.len() == ops@.len(),
            forall|i: int| 0 <= i < ops@.len() ==> r@.0[i] == MaybeDone::<F, Result<(), E>>::Future(ops@[i]),
            r@.1 == ops@.len(),
    {
        let tasks = collect_slots(ops);
        let cursor = tasks.len();
        let r = TryActions { tasks, cursor, done: true };
        assert(no_unclaimed(r@.0));
        r
    }

    /// The number of slots.
    pub fn len(&self) -> (n: usize)
        ensures
            n == self@.0.len(),
    {
        self.tasks.len()
    }

    /// The slot at `i`.
    pub fn slot(&self, i: usize) -> (s: &MaybeDone<F, Result<(), E>>)
        requires
            i < self@.0.len(),
        ensures
            *s == self@.0[i as int],
    {
        &self.tasks[i]
    }

    /// The operation of slot `i`, when it is pending, so that the driver can
    /// advance it in place.
    pub fn operation_mut(&mut self, i: usize) -> (r: Option<&mut F>)
        requires
            i < old(self)@.0.len(),
        ensures
            match old(self)@.0[i as int] {
                MaybeDone::Future(f) => r is Some && *r->0 == f && final(self)@ == (
                    old(self)@.0.update(i as int, MaybeDone::Future(*final(r->0))),
                    old(self)@.1,
                    old(self)@.2,
                ),
                _ => r is None && final(self)@ == old(self)@,
            },
    {
        self.tasks[i].operation_mut()
    }

    /// Moves the cursor to the first pending slot at or after `from`.
    fn seek(&mut self, from: usize) -> (s: Step<Result<(), E>>)
        requires
            from <= old(self)@.0.len(),
            no_unclaimed(old(self)@.0),
        ensures
            final(self).wf(),
            final(self)@ == (old(self)@.0, next_pending(old(self)@.0, from as int), old(self)@.2),
            s == step_at(old(self)@.0.len() as int, final(self)@.1, old(self)@.2, Ok::<(), E>(())),
    {
        proof {
            lemma_next_pending(self@.0, from as int);
        }
        let mut c = from;
        while c < self.tasks.len() && !self.tasks[c].is_pending()
            invariant
                from <= c <= self@.0.len(),
                self@ == (old(self)@.0, old(self)@.1, old(self)@.2),
                next_pending(self@.0, from as int) == next_pending(self@.0, c as int),
            decreases self@.0.len() - c,
        {
            c = c + 1;
        }
        self.cursor = c;
        proof {
            lemma_next_pending(self@.0, c as int);
        }
        if c < self.tasks.len() {
            Step::Advance(c)
        } else if self.done {
            Step::Ready(Ok(()))
        } else {
            Step::NotReady
        }
    }

    /// Cancels every slot.
    fn cancel_all(&mut self)
        ensures
            final(self)@ == (all_cancelled(old(self)@.0), old(self)@.1, old(self)@.2),
    {
        let n = self.tasks.len();
        let mut i: usize = 0;
        while i < n
            invariant
                n == self@.0.len(),
                n == old(self)@.0.len(),
                i <= n,
                self@.1 == old(self)@.1,
                self@.2 == old(self)@.2,
                forall|k: int| 0 <= k < i ==> #[trigger] self@.0[k] is Taken,
            decreases n - i,
        {
            self.tasks[i].cancel();
            i = i + 1;
        }
        assert(self@.0 =~= all_cancelled(old(self)@.0));
    }

    /// Opens a poll pass and says what to do first.
    pub fn begin(&mut self) -> (s: Step<Result<(), E>>)
        requires
            old(self).wf(),
        ensures
            final(self).wf(),
            final(self)@ == (old(self)@.0, next_pending(old(self)@.0, 0), true),
            s == step_at(old(self)@.0.len() as int, final(self)@.1, true, Ok::<(), E>(())),
    {
        self.done = true;
        self.seek(0)
    }

    /// Takes what advancing the slot at the cursor gave, and says what to do
    /// next. An error resolves the aggregate at once.
    pub fn advanced(&mut self, out: Option<Result<(), E>>) -> (s: Step<Result<(), E>>)
        requires
            old(self).wf(),
            old(self)@.1 < old(self)@.0.len(),
        ensures
            final(self).wf(),
            (final(self)@.0, final(self)@.1, final(self)@.2, s) == try_next(
                old(self)@.0,
                old(self)@.1,
                old(self)@.2,
                out,
            ),
    {
        let c = self.cursor;
        proof {
            lemma_next_pending(self@.0, c as int);
        }
        self.tasks[c].advance(out);
        let taken = self.tasks[c].take_output();
        let n = self.tasks.len();
        assert(self@.0 =~= old(self)@.0.update(c as int, after_take(after_advance(old(self)@.0[c as int], out))));
        match taken {
            Some(Err(e)) => {
                self.cancel_all();
                self.cursor = n;
                proof {
                    assert(self@.0 =~= all_cancelled(old(self)@.0));
                }
                Step::Ready(Err(e))
            },
            Some(Ok(())) => {
                proof {
                    assert(self@.0 =~= old(self)@.0.update(c as int, MaybeDone::Taken));
                }
                self.seek(c + 1)
            },
            None => {
                self.done = false;
                proof {
                    assert(self@.0 =~= old(self)@.0);
                }
                self.seek(c + 1)
            },
        }
    }
}

/// A pass skips the slots that need no advancing.
pub proof fn lemma_try_run_skips<F, E>(
    slots: Seq<MaybeDone<F, Result<(), E>>>,
    i: nat,
    done: bool,
    outs: Seq<Option<Result<(), E>>>,
)
    requires
        i <= slots.len(),
    ensures
        try_run(slots, i, done, outs) == try_run(
            slots,
            next_pending(slots, i as int) as nat,
            done,
            outs,
        ),
    decreases slots.len() - i,
{
    if i < slots.len() && !(slots[i as int] is Future) {
        lemma_try_run_skips(slots, i + 1, done, outs);
    }
}

/// Driving a pass with `begin` and `advanced`, answering each `Advance(k)`
/// with `outs[k]`, ends as `try_run` says: each step leaves a state from
/// which the rest of the pass is the rest of the run.
pub proof fn lemma_try_steps_follow_run<F, E>(
    slots: Seq<MaybeDone<F, Result<(), E>>>,
    c: nat,
    done: bool,
    outs: Seq<Option<Result<(), E>>>,
)
    requires
        c < slots.len(),
        slots[c as int] is Future,
    ensures
        ({
            let (s, n, d, st) = try_next(slots, c as int, done, outs[c as int]);
            &&& st is Advance ==> n > c && n == next_pending(s, n) && try_run(slots, c, done, outs)
                == try_run(s, n as nat, d, outs)
            &&& !(st is Advance) ==> try_run(slots, c, done, outs) == (s, st)
        }),
        try_run(slots, 0, true, outs) == try_run(slots, next_pending(slots, 0) as nat, true, outs),
{
    lemma_try_run_skips(slots, 0, true, outs);
    let s = slots.update(c as int, MaybeDone::Taken);
    lemma_next_pending(s, c + 1 as int);
    lemma_next_pending(slots, c + 1 as int);
    lemma_try_run_skips(s, c + 1, done, outs);
    lemma_try_run_skips(slots, c + 1, false, outs);
    let n1 = next_pending(s, c + 1 as int);
    let n2 = next_pending(slots, c + 1 as int);
    lemma_next_pending(s, n1);
    lemma_next_pending(slots, n2);
}

/// A pass that resolves with an error leaves every slot cancelled, so that no
/// later pass has an operation to advance.
pub proof fn lemma_try_error_cancels_all<F, E>(
    slots: Seq<MaybeDone<F, Result<(), E>>>,
    i: nat,
    done: bool,
    outs: Seq<Option<Result<(), E>>>,
)
    ensures
        try_run(slots, i, done, outs).1 matches Step::Ready(Err(_)) ==> forall|k: int|
            0 <= k < slots.len() ==> #[trigger] try_run(slots, i, done, outs).0[k] is Taken,
        try_run(slots, i, done, outs).0.len() == slots.len(),
        try_run(slots, i, done, outs).1 matches Step::Ready(Err(_)) ==> next_pending(
            try_run(slots, i, done, outs).0,
            0,
        ) == slots.len(),
{
    lemma_try_error_cancels_all_slots(slots, i, done, outs);
    let r = try_run(slots, i, done, outs).0;
    lemma_next_pending(r, 0);
}

proof fn lemma_try_error_cancels_all_slots<F, E>(
    slots: Seq<MaybeDone<F, Result<(), E>>>,
    i: nat,
    done: bool,
    outs: Seq<Option<Result<(), E>>>,
)
    ensures
        try_run(slots, i, done, outs).1 matches Step::Ready(Err(_)) ==> forall|k: int|
            0 <= k < slots.len() ==> #[trigger] try_run(slots, i, done, outs).0[k] is Taken,
        try_run(slots, i, done, outs).0.len() == slots.len(),
    decreases slots.len() - i,
{
    if i < slots.len() {
        if !(slots[i as int] is Future) {
            lemma_try_error_cancels_all_slots(slots, i + 1, done, outs);
        } else {
            match outs[i as int] {
                Some(Err(_)) => {},
                Some(Ok(())) => {
                    lemma_try_error_cancels_all_slots(
                        slots.update(i as int, MaybeDone::Taken),
                        i + 1,
                        done,
                        outs,
                    );
                },
                None => {
                    lemma_try_error_cancels_all_slots(slots, i + 1, false, outs);
                },
            }
        }
    }
}

/// Where no operation reports an error, a pass of `ErrorRace` and one of
/// `TryActions` over the same slots leave the same slots and end alike.
pub proof fn lemma_success_paths_agree<F, E>(
    slots: Seq<MaybeDone<F, Result<(), E>>>,
    i: nat,
    done: bool,
    outs: Seq<Option<Result<(), E>>>,
)
    requires
        forall|k: int|
            i <= k < slots.len() && #[trigger] slots[k] is Future ==> !(outs[k] matches Some(
                Err(_),
            )),
    ensures
        race_run(slots, i, done, outs) == try_run(slots, i, done, outs),
    decreases slots.len() - i,
{
    if i < slots.len() {
        if !(slots[i as int] is Future) {
            lemma_success_paths_agree(slots, i + 1, done, outs);
        } else {
            match outs[i as int] {
                Some(Err(_)) => {},
                Some(Ok(())) => {
                    let s = slots.update(i as int, MaybeDone::Taken);
                    assert forall|k: int| i + 1 <= k < s.len() && #[trigger] s[k] is Future implies !(
                    outs[k] matches Some(Err(_))) by {
                        assert(s[k] == slots[k]);
                    }
                    lemma_success_paths_agree(
                        slots.update(i as int, MaybeDone::Taken),
                        i + 1,
                        done,
                        outs,
                    );
                },
                None => {
                    lemma_success_paths_agree(slots, i + 1, false, outs);
                },
            }
        }
    }
}

/// When every pending operation completes with success in a pass, both
/// `ErrorRace` and `TryActions` resolve with success in it.
pub proof fn lemma_all_success_resolves<F, E>(
    slots: Seq<MaybeDone<F, Result<(), E>>>,
    outs: Seq<Option<Result<(), E>>>,
)
    requires
        forall|k: int|
            0 <= k < slots.len() && #[trigger] slots[k] is Future ==> outs[k] == Some(
                Ok::<(), E>(()),
            ),
    ensures
        race_run(slots, 0, true, outs).1 == Step::<Result<(), E>>::Ready(Ok(())),
        try_run(slots, 0, true, outs).1 == Step::<Result<(), E>>::Ready(Ok(())),
{
    lemma_success_paths_agree(slots, 0, true, outs);
    lemma_race_all_ok(slots, 0, outs);
}

proof fn lemma_race_all_ok<F, E>(
    slots: Seq<MaybeDone<F, Result<(), E>>>,
    i: nat,
    outs: Seq<Option<Result<(), E>>>,
)
    requires
        forall|k: int|
            i <= k < slots.len() && #[trigger] slots[k] is Future ==> outs[k] == Some(
                Ok::<(), E>(()),
            ),
    ensures
        race_run(slots, i, true, outs).1 == Step::<Result<(), E>>::Ready(Ok(())),
    decreases slots.len() - i,
{
    if i < slots.len() {
        if !(slots[i as int] is Future) {
            lemma_race_all_ok(slots, i + 1, outs);
        } else {
            let s = slots.update(i as int, MaybeDone::Taken);
            assert forall|k: int| i + 1 <= k < s.len() && #[trigger] s[k] is Future implies outs[k]
                == Some(Ok::<(), E>(())) by {
                assert(s[k] == slots[k]);
            }
            lemma_race_all_ok(s, i + 1, outs);
        }
    }
}

} // verus!
