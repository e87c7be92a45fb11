use vstd::prelude::*;

verus! {

/// Whether `r` is what a visit of `s` in the order of `order` gives, where
/// the visitor `f` answered `Ok` for every element visited before the one
/// that ended the visit with an error.
pub open spec fn visit_result<T, E, F: Fn(&T) -> Result<(), E>>(
    f: F,
    s: Seq<T>,
    forward: bool,
    r: Result<(), E>,
) -> bool {
    match r {
        Ok(()) => forall|k: int| 0 <= k < s.len() ==> call_ensures(f, (&#[trigger] s[k],), Ok(())),
        Err(e) => exists|i: int|
            0 <= i < s.len() && #[trigger] call_ensures(f, (&s[i],), Err(e)) && forall|k: int|
                (if forward {
                    0 <= k < i
                } else {
                    i < k < s.len()
                }) ==> call_ensures(f, (&#[trigger] s[k],), Ok(())),
    }
}

/// Calling a visitor on every element of a slice.
pub trait SliceVisit<T>: View<V = Seq<T>> {
    /// Calls `visitor` on each element, from the first to the last.
    fn visit<F: Fn(&T)>(&self, visitor: F)
        requires
            forall|i: int| 0 <= i < self@.len() ==> call_requires(visitor, (&#[trigger] self@[i],)),
    ;

    /// Calls `visitor` on each element, from the first to the last, and stops
    /// at the first error, which it returns.
    fn try_visit<E, F: Fn(&T) -> Result<(), E>>(&self, visitor: F) -> (r: Result<(), E>)
        requires
            forall|i: int| 0 <= i < self@.len() ==> call_requires(visitor, (&#[trigger] self@[i],)),
        ensures
            visit_result(visitor, self@, true, r),
    ;

    /// Calls `visitor` on each element, from the last to the first.
    fn rvisit<F: Fn(&T)>(&self, visitor: F)
        requires
            forall|i: int| 0 <= i < self@.len() ==> call_requires(visitor, (&#[trigger] self@[i],)),
    ;

    /// Calls `visitor` on each element, from the last to the first, and stops
    /// at the first error, which it returns.
    fn try_rvisit<E, F: Fn(&T) -> Result<(), E>>(&self, visitor: F) -> (r: Result<(), E>)
        requires
            forall|i: int| 0 <= i < self@.len() ==> call_requires(visitor, (&#[trigger] self@[i],)),
        ensures
            visit_result(visitor, self@, false, r),
    ;
}

impl<T> SliceVisit<T> for [T] {
    fn visit<F: Fn(&T)>(&self, visitor: F) {
        let n = self.len();
        let mut i: usize = 0;
        while i < n
            invariant
                i <= n,
                n == self@.len(),
                forall|k: int| 0 <= k < n ==> call_requires(visitor, (&#[trigger] self@[k],)),
            decreases n - i,
        {
            visitor(&self[i]);
            i = i + 1;
        }
    }

    fn try_visit<E, F: Fn(&T) -> Result<(), E>>(&self, visitor: F) -> (r: Result<(), E>) {
        let n = self.len();
        let mut i: usize = 0;
        while i < n
            invariant
                i <= n,
                n == self@.len(),
                forall|k: int| 0 <= k < n ==> call_requires(visitor, (&#[trigger] self@[k],)),
                forall|k: int| 0 <= k < i ==> call_ensures(visitor, (&#[trigger] self@[k],), Ok(())),
            decreases n - i,
        {
            let r = visitor(&self[i]);
            match r {
                Ok(u) => {
                    assert(u == ());
                    assert(r == Ok::<(), E>(()));
                    assert(call_ensures(visitor, (&self@[i as int],), Ok::<(), E>(())));
                },
                Err(e) => {
                    assert(call_ensures(visitor, (&self@[i as int],), Err(e)));
                    return Err(e);
                },
            }
            i = i + 1;
        }
        Ok(())
    }

    fn rvisit<F: Fn(&T)>(&self, visitor: F) {
        let n = self.len();
        let mut i: usize = n;
        while i > 0
            invariant
                i <= n,
                n == self@.len(),
                forall|k: int| 0 <= k < n ==> call_requires(visitor, (&#[trigger] self@[k],)),
            decreases i,
        {
            i = i - 1;
            visitor(&self[i]);
        }
    }

    fn try_rvisit<E, F: Fn(&T) -> Result<(), E>>(&self, visitor: F) -> (r: Result<(), E>) {
        let n = self.len();
        let mut i: usize = n;
        while i > 0
            invariant
                i <= n,
                n == self@.len(),
                forall|k: int| 0 <= k < n ==> call_requires(visitor, (&#[trigger] self@[k],)),
                forall|k: int| i <= k < n ==> call_ensures(visitor, (&#[trigger] self@[k],), Ok(())),
            decreases i,
        {
            i = i - 1;
            let r = visitor(&self[i]);
            match r {
                Ok(u) => {
                    assert(u == ());
                    assert(r == Ok::<(), E>(()));
                    assert(call_ensures(visitor, (&self@[i as int],), Ok::<(), E>(())));
                },
                Err(e) => {
                    assert(call_ensures(visitor, (&self@[i as int],), Err(e)));
                    return Err(e);
                },
            }
        }
        Ok(())
    }

}

} // verus!
