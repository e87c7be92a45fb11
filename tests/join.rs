use slice_ops::join::{Actions, ErrorRace, Step, TryActions};
use slice_ops::maybe_done::MaybeDone;

fn is_advance<R>(s: &Step<R>, i: usize) -> bool {
    matches!(s, Step::Advance(k) if *k == i)
}

#[test]
fn slot_take_output_before_completion_gives_nothing() {
    let mut slot: MaybeDone<u8, u32> = MaybeDone::Future(7);
    assert!(slot.take_output().is_none());
    assert!(slot.is_pending());
    assert!(!slot.is_taken());
}

#[test]
fn slot_output_is_taken_once() {
    let mut slot: MaybeDone<u8, u32> = MaybeDone::Future(7);
    assert!(!slot.advance(None));
    assert!(slot.advance(Some(42)));
    assert!(slot.advance(None));
    assert_eq!(slot.take_output(), Some(42));
    assert!(slot.is_taken());
    assert_eq!(slot.take_output(), None);
    assert_eq!(slot.take_output(), None);
}

#[test]
fn slot_cancel_on_pending_slot() {
    let mut slot: MaybeDone<u8, u32> = MaybeDone::Future(7);
    slot.cancel();
    assert!(slot.is_taken());
    assert_eq!(slot.take_output(), None);
    assert_eq!(slot.take_output(), None);
    slot.cancel();
    assert!(slot.is_taken());
}

#[test]
fn slot_cancel_on_completed_slot_discards_output() {
    let mut slot: MaybeDone<u8, u32> = MaybeDone::Done(5);
    slot.cancel();
    assert!(slot.is_taken());
    assert_eq!(slot.take_output(), None);
}

#[test]
fn slot_operation_mut_reaches_pending_operation() {
    let mut slot: MaybeDone<u8, u32> = MaybeDone::Future(7);
    if let Some(op) = slot.operation_mut() {
        *op = 9;
    }
    assert!(matches!(slot, MaybeDone::Future(9)));
    let mut done: MaybeDone<u8, u32> = MaybeDone::Done(1);
    assert!(done.operation_mut().is_none());
}

#[test]
fn actions_all_complete_resolve_on_first_poll() {
    for n in 0..6usize {
        let mut agg: Actions<usize> = Actions::new((0..n).collect());
        let mut step = agg.begin();
        let mut advanced = 0;
        let resolved = loop {
            match step {
                Step::Advance(i) => {
                    assert_eq!(i, advanced);
                    advanced += 1;
                    step = agg.advanced(Some(()));
                }
                Step::Ready(()) => break true,
                Step::NotReady => break false,
            }
        };
        assert!(resolved);
        assert_eq!(advanced, n);
    }
}

#[test]
fn actions_wait_for_external_event() {
    let mut agg: Actions<u8> = Actions::new(vec![0, 1, 2]);
    // First poll: slot 1 has not completed yet.
    let mut step = agg.begin();
    assert!(is_advance(&step, 0));
    step = agg.advanced(Some(()));
    assert!(is_advance(&step, 1));
    step = agg.advanced(None);
    assert!(is_advance(&step, 2));
    step = agg.advanced(Some(()));
    assert!(matches!(step, Step::NotReady));
    // Still waiting: only slot 1 is advanced again.
    step = agg.begin();
    assert!(is_advance(&step, 1));
    step = agg.advanced(None);
    assert!(matches!(step, Step::NotReady));
    // The event fires: slot 1 completes and the aggregate resolves.
    step = agg.begin();
    assert!(is_advance(&step, 1));
    step = agg.advanced(Some(()));
    assert!(matches!(step, Step::Ready(())));
    assert!(matches!(agg.slot(0), MaybeDone::Done(())));
    assert!(matches!(agg.slot(1), MaybeDone::Done(())));
    assert!(matches!(agg.slot(2), MaybeDone::Done(())));
}

#[test]
fn error_race_resolves_with_error_of_slot_two() {
    let outcomes: [Result<(), &str>; 4] = [Ok(()), Ok(()), Err("e2"), Ok(())];
    let mut agg: ErrorRace<u8, &str> = ErrorRace::new(vec![0, 1, 2, 3]);
    let mut step = agg.begin();
    let result = loop {
        match step {
            Step::Advance(i) => step = agg.advanced(Some(outcomes[i])),
            Step::Ready(r) => break Some(r),
            Step::NotReady => break None,
        }
    };
    assert_eq!(result, Some(Err("e2")));
    // The scan stopped at slot 2: slot 3 was never advanced.
    assert!(matches!(agg.slot(3), MaybeDone::Future(3)));
}

#[test]
fn error_race_ok_slots_reordered_still_slot_two_error() {
    let outcomes: [Result<(), &str>; 4] = [Ok(()), Ok(()), Err("e2"), Ok(())];
    let mut agg: ErrorRace<u8, &str> = ErrorRace::new(vec![3, 1, 2, 0]);
    let mut step = agg.begin();
    let result = loop {
        match step {
            Step::Advance(i) => step = agg.advanced(Some(outcomes[i])),
            Step::Ready(r) => break Some(r),
            Step::NotReady => break None,
        }
    };
    assert_eq!(result, Some(Err("e2")));
}

#[test]
fn error_race_lowest_index_error_wins() {
    let outcomes: [Result<(), &str>; 4] = [Ok(()), Err("e1"), Ok(()), Err("e3")];
    let mut agg: ErrorRace<u8, &str> = ErrorRace::new(vec![0, 1, 2, 3]);
    let mut step = agg.begin();
    let result = loop {
        match step {
            Step::Advance(i) => step = agg.advanced(Some(outcomes[i])),
            Step::Ready(r) => break Some(r),
            Step::NotReady => break None,
        }
    };
    assert_eq!(result, Some(Err("e1")));
    // Siblings left pending are neither cancelled nor advanced.
    assert!(matches!(agg.slot(2), MaybeDone::Future(2)));
    assert!(matches!(agg.slot(3), MaybeDone::Future(3)));
}

#[test]
fn error_race_skips_consumed_slots_on_later_polls() {
    let mut agg: ErrorRace<u8, &str> = ErrorRace::new(vec![0, 1]);
    let mut step = agg.begin();
    assert!(is_advance(&step, 0));
    step = agg.advanced(Some(Ok(())));
    assert!(is_advance(&step, 1));
    step = agg.advanced(None);
    assert!(matches!(step, Step::NotReady));
    step = agg.begin();
    assert!(is_advance(&step, 1));
    step = agg.advanced(Some(Ok(())));
    assert!(matches!(step, Step::Ready(Ok(()))));
}

#[test]
fn try_actions_error_cancels_every_other_slot() {
    let mut agg: TryActions<u8, &str> = TryActions::new(vec![0, 1, 2, 3, 4]);
    let mut step = agg.begin();
    assert!(is_advance(&step, 0));
    step = agg.advanced(None);
    assert!(is_advance(&step, 1));
    step = agg.advanced(None);
    assert!(is_advance(&step, 2));
    step = agg.advanced(Some(Err("boom")));
    assert!(matches!(step, Step::Ready(Err("boom"))));
    for i in 0..agg.len() {
        assert!(agg.slot(i).is_taken());
    }
    // Nothing is left for a driver to advance.
    for i in 0..agg.len() {
        assert!(agg.operation_mut(i).is_none());
    }
}

#[test]
fn both_fallible_aggregates_succeed_on_all_success() {
    let mut race: ErrorRace<u8, &str> = ErrorRace::new(vec![0, 1, 2]);
    let mut tries: TryActions<u8, &str> = TryActions::new(vec![0, 1, 2]);
    // First poll: slot 1 is still running in both.
    let first = [Some(Ok(())), None, Some(Ok(()))];
    let mut a = race.begin();
    let mut b = tries.begin();
    while let (Step::Advance(i), Step::Advance(j)) = (&a, &b) {
        assert_eq!(i, j);
        let k = *i;
        a = race.advanced(first[k]);
        b = tries.advanced(first[k]);
    }
    assert!(matches!(a, Step::NotReady));
    assert!(matches!(b, Step::NotReady));
    // Second poll: it completes.
    a = race.begin();
    b = tries.begin();
    assert!(is_advance(&a, 1));
    assert!(is_advance(&b, 1));
    a = race.advanced(Some(Ok(())));
    b = tries.advanced(Some(Ok(())));
    assert!(matches!(a, Step::Ready(Ok(()))));
    assert!(matches!(b, Step::Ready(Ok(()))));
}

#[test]
fn empty_aggregates_resolve_at_once() {
    let mut actions: Actions<u8> = Actions::new(vec![]);
    assert!(matches!(actions.begin(), Step::Ready(())));
    let mut race: ErrorRace<u8, ()> = ErrorRace::new(vec![]);
    assert!(matches!(race.begin(), Step::Ready(Ok(()))));
    let mut tries: TryActions<u8, ()> = TryActions::new(vec![]);
    assert!(matches!(tries.begin(), Step::Ready(Ok(()))));
}

#[test]
fn operation_mut_changes_operation_in_place() {
    let mut agg: Actions<u32> = Actions::new(vec![10, 20]);
    if let Some(op) = agg.operation_mut(1) {
        *op += 1;
    }
    assert!(matches!(agg.slot(1), MaybeDone::Future(21)));
    assert_eq!(agg.len(), 2);
}
