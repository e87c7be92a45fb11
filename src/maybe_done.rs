use vstd::prelude::*;

verus! {

/// One operation of an aggregate and what has become of it.
///
/// `Future` holds the operation while it has not completed, `Done` holds its
/// output until that is claimed, and `Taken` is the terminal state: the output
/// was claimed, or the slot was cancelled. States only move forward.
pub enum MaybeDone<F, O> {
    Future(F),
    Done(O),
    Taken,
}

/// What `take_output` hands back from a slot in state `s`.
pub open spec fn output_of<F, O>(s: MaybeDone<F, O>) -> Option<O> {
    match s {
        MaybeDone::Done(v) => Some(v),
        _ => None,
    }
}

/// The state of a slot in state `s` after `take_output`.
pub open spec fn after_take<F, O>(s: MaybeDone<F, O>) -> MaybeDone<F, O> {
    match s {
        MaybeDone::Done(_) => MaybeDone::Taken,
        _ => s,
    }
}

/// The state of a slot in state `s` after its operation was advanced once and
/// gave `out` (`None`: not finished yet).
pub open spec fn after_advance<F, O>(s: MaybeDone<F, O>, out: Option<O>) -> MaybeDone<F, O> {
    match (s, out) {
        (MaybeDone::Future(_), Some(v)) => MaybeDone::Done(v),
        _ => s,
    }
}

impl<F, O> MaybeDone<F, O> {
    /// Claims the output of a completed slot, which becomes `Taken`; any other
    /// slot gives nothing and stays as it is.
    pub fn take_output(&mut self) -> (r: Option<O>)
        ensures
            r == output_of(*old(self)),
            *final(self) == after_take(*old(self)),
    {
        match self {
            MaybeDone::Done(_) => {},
            _ => {
                return None;
            },
        }
        let mut prev = MaybeDone::Taken;
        core::mem::swap(self, &mut prev);
        match prev {
            MaybeDone::Done(v) => Some(v),
            _ => None,
        }
    }

    /// Abandons the slot: whatever it held is released and it becomes `Taken`.
    pub fn cancel(&mut self)
        ensures
            *final(self) == MaybeDone::<F, O>::Taken,
    {
        *self = MaybeDone::Taken
    }

    /// Whether the slot was claimed or cancelled, and so needs no more polling.
    pub fn is_taken(&self) -> (r: bool)
        ensures
            r == (*self is Taken),
    {
        match self {
            MaybeDone::Taken => true,
            _ => false,
        }
    }

    /// Whether the slot's operation has not completed yet.
    pub fn is_pending(&self) -> (r: bool)
        ensures
            r == (*self is Future),
    {
        match self {
            MaybeDone::Future(_) => true,
            _ => false,
        }
    }

    /// Records what advancing the held operation once gave, and reports whether
    /// the slot is now complete. A completed slot stays as it is and reports
    /// complete again.
    pub fn advance(&mut self, out: Option<O>) -> (ready: bool)
        requires
            !(*old(self) is Taken),
            *old(self) is Done ==> out is None,
        ensures
            *final(self) == after_advance(*old(self), out),
            ready == (*final(self) is Done),
    {
        match out {
            Some(v) => {
                *self = MaybeDone::Done(v);
                true
            },
            None => !self.is_pending(),
        }
    }

    /// The held operation, so that it can be advanced in place.
    pub fn operation_mut(&mut self) -> (r: Option<&mut F>)
        ensures
            match *old(self) {
                MaybeDone::Future(f) => r is Some && *r->0 == f && *final(self)
                    == MaybeDone::<F, O>::Future(*final(r->0)),
                _ => r is None && *final(self) == *old(self),
            },
    {
        match self {
            MaybeDone::Future(f) => Some(f),
            _ => None,
        }
    }
}

/// A completed slot hands out its output exactly once: the first claim gives
/// the output, and every later claim gives nothing and changes nothing.
pub proof fn lemma_output_taken_once<F, O>(s: MaybeDone<F, O>)
    ensures
        s is Done ==> output_of(s) == Some(s->Done_0),
        output_of(after_take(s)) is None,
        after_take(after_take(s)) == after_take(s),
{
}

/// A slot whose operation has not completed hands out nothing, and stays pending.
pub proof fn lemma_no_output_before_completion<F, O>(s: MaybeDone<F, O>)
    requires
        s is Future,
    ensures
        output_of(s) is None,
        after_take(s) == s,
        after_advance(s, None) == s,
{
}

/// A cancelled slot reports cancelled, and every claim on it gives nothing
/// and leaves it cancelled.
pub proof fn lemma_cancelled_gives_nothing<F, O>(s: MaybeDone<F, O>)
    requires
        s is Taken,
    ensures
        output_of(s) is None,
        after_take(s) == s,
{
}

} // verus!
