use core::cmp::Ordering;

use vstd::prelude::*;
use vstd::std_specs::cmp::PartialOrdSpec;

use crate::ops::argreduce::kept_by;

verus! {

/// The index that a left-to-right scan over the first `n` elements of `s`
/// keeps, where an element that compares as `o` with the kept one takes its
/// place.
pub open spec fn reduce_index<T: PartialOrd>(s: Seq<T>, o: Ordering, n: nat) -> nat
    decreases n,
{
    if n <= 1 {
        0
    } else {
        let j = reduce_index(s, o, (n - 1) as nat);
        if s[n - 1].partial_cmp_spec(&s[j as int]) == Some(o) {
            (n - 1) as nat
        } else {
            j
        }
    }
}

/// Whether `f` can compare `a` with `b` as something other than `o`.
pub open spec fn answers_other<T, F: Fn(&T, &T) -> Ordering>(f: F, a: T, b: T, o: Ordering) -> bool {
    exists|r: Ordering| call_ensures(f, (&a, &b), r) && r != o
}

/// Whether `f` can map `x` to a key that does not compare as `o` with `kept`.
pub open spec fn key_not_past<T, B: PartialOrd, F: Fn(&T) -> B>(f: F, x: T, kept: B, o: Ordering) -> bool {
    exists|k: B|
        call_ensures(f, (&x,), k) && (B::obeys_partial_cmp_spec() ==> k.partial_cmp_spec(&kept) != Some(o))
}

/// The index of a greatest or least element of a slice.
pub trait SliceArgMinMax<T>: View<V = Seq<T>> {
    /// The index of the first maximum of the slice, or `None` when it is empty.
    fn argmax(&self) -> (r: Option<usize>) where T: PartialOrd
        ensures
            r is None <==> self@.len() == 0,
            T::obeys_partial_cmp_spec() && self@.len() > 0 ==> r == Some(
                reduce_index(self@, Ordering::Greater, self@.len()) as usize,
            ),
    ;

    /// The index of the first maximum of the slice under the comparison `f`, or
    /// `None` when it is empty.
    fn argmax_by<F: Fn(&T, &T) -> Ordering>(&self, f: F) -> (r: Option<usize>)
        requires
            forall|i: int, j: int|
                0 <= i < self@.len() && 0 <= j < self@.len() ==> #[trigger] call_requires(f, (&self@[i], &self@[j])),
        ensures
            r is None <==> self@.len() == 0,
            r is Some ==> kept_by(
                self@,
                |a: T, b: T| call_ensures(f, (&a, &b), Ordering::Greater),
                |a: T, b: T| answers_other(f, a, b, Ordering::Greater),
                r->0 as int,
            ),
    ;

    /// The index of the first element whose key under `f` is the maximum, or
    /// `None` when the slice is empty.
    fn argmax_by_key<B: PartialOrd, F: Fn(&T) -> B>(&self, f: F) -> (r: Option<usize>)
        requires
            forall|i: int| 0 <= i < self@.len() ==> call_requires(f, (&#[trigger] self@[i],)),
        ensures
            r is None <==> self@.len() == 0,
            r is Some ==> r->0 < self@.len() && exists|kept: B|
                #[trigger] call_ensures(f, (&self@[r->0 as int],), kept) && forall|i: int|
                    r->0 < i < self@.len() ==> key_not_past(f, #[trigger] self@[i], kept, Ordering::Greater),
    ;

    /// The index of the first minimum of the slice, or `None` when it is empty.
    fn argmin(&self) -> (r: Option<usize>) where T: PartialOrd
        ensures
            r is None <==> self@.len() == 0,
            T::obeys_partial_cmp_spec() && self@.len() > 0 ==> r == Some(
                reduce_index(self@, Ordering::Less, self@.len()) as usize,
            ),
    ;

    /// The index of the first minimum of the slice under the comparison `f`, or
    /// `None` when it is empty.
    fn argmin_by<F: Fn(&T, &T) -> Ordering>(&self, f: F) -> (r: Option<usize>)
        requires
            forall|i: int, j: int|
                0 <= i < self@.len() && 0 <= j < self@.len() ==> #[trigger] call_requires(f, (&self@[i], &self@[j])),
        ensures
            r is None <==> self@.len() == 0,
            r is Some ==> kept_by(
                self@,
                |a: T, b: T| call_ensures(f, (&a, &b), Ordering::Less),
                |a: T, b: T| answers_other(f, a, b, Ordering::Less),
                r->0 as int,
            ),
    ;

    /// The index of the first element whose key under `f` is the minimum, or
    /// `None` when the slice is empty.
    fn argmin_by_key<B: PartialOrd, F: Fn(&T) -> B>(&self, f: F) -> (r: Option<usize>)
        requires
            forall|i: int| 0 <= i < self@.len() ==> call_requires(f, (&#[trigger] self@[i],)),
        ensures
            r is None <==> self@.len() == 0,
            r is Some ==> r->0 < self@.len() && exists|kept: B|
                #[trigger] call_ensures(f, (&self@[r->0 as int],), kept) && forall|i: int|
                    r->0 < i < self@.len() ==> key_not_past(f, #[trigger] self@[i], kept, Ordering::Less),
    ;

}

impl<T> SliceArgMinMax<T> for [T] {
    fn argmax(&self) -> (r: Option<usize>) where T: PartialOrd {
        let n = self.len();
        if n == 0 {
            return None;
        }
        let mut j: usize = 0;
        let mut i: usize = 1;
        while i < n
            invariant
                1 <= i <= n,
                n == self@.len(),
                j < i,
                T::obeys_partial_cmp_spec() ==> j == reduce_index(self@, Ordering::Greater, i as nat),
            decreases n - i,
        {
            proof {
                let k = reduce_index(self@, Ordering::Greater, i as nat);
                assert(reduce_index(self@, Ordering::Greater, (i + 1) as nat) == if self@[i as int].partial_cmp_spec(
                    &self@[k as int],
                ) == Some(Ordering::Greater) {
                    i as nat
                } else {
                    k
                });
            }
            if self[i].gt(&self[j]) {
                j = i;
            }
            i = i + 1;
        }
        Some(j)
    }

    fn argmax_by<F: Fn(&T, &T) -> Ordering>(&self, f: F) -> (r: Option<usize>) {
        let n = self.len();
        if n == 0 {
            return None;
        }
        let mut j: usize = 0;
        let mut i: usize = 1;
        while i < n
            invariant
                1 <= i <= n,
                n == self@.len(),
                j < i,
                forall|a: int, b: int|
                    0 <= a < n && 0 <= b < n ==> #[trigger] call_requires(f, (&self@[a], &self@[b])),
                forall|k: int| j < k < i ==> answers_other(f, #[trigger] self@[k], self@[j as int], Ordering::Greater),
                j > 0 ==> exists|p: int|
                    0 <= p < j && call_ensures(f, (&self@[j as int], &#[trigger] self@[p]), Ordering::Greater),
            decreases n - i,
        {
            let ord = f(&self[i], &self[j]);
            match ord {
                Ordering::Greater => {
                    j = i;
                },
                _ => {},
            }
            i = i + 1;
        }
        Some(j)
    }

    fn argmax_by_key<B: PartialOrd, F: Fn(&T) -> B>(&self, f: F) -> (r: Option<usize>) {
        let n = self.len();
        if n == 0 {
            return None;
        }
        let mut j: usize = 0;
        let mut key = f(&self[0]);
        let mut i: usize = 1;
        while i < n
            invariant
                1 <= i <= n,
                n == self@.len(),
                j < i,
                forall|k: int| 0 <= k < n ==> call_requires(f, (&#[trigger] self@[k],)),
                call_ensures(f, (&self@[j as int],), key),
                forall|k: int| j < k < i ==> key_not_past(f, #[trigger] self@[k], key, Ordering::Greater),
            decreases n - i,
        {
            let next_key = f(&self[i]);
            if next_key.gt(&key) {
                j = i;
                key = next_key;
            }
            i = i + 1;
        }
        Some(j)
    }

    fn argmin(&self) -> (r: Option<usize>) where T: PartialOrd {
        let n = self.len();
        if n == 0 {
            return None;
        }
        let mut j: usize = 0;
        let mut i: usize = 1;
        while i < n
            invariant
                1 <= i <= n,
                n == self@.len(),
                j < i,
                T::obeys_partial_cmp_spec() ==> j == reduce_index(self@, Ordering::Less, i as nat),
            decreases n - i,
        {
            proof {
                let k = reduce_index(self@, Ordering::Less, i as nat);
                assert(reduce_index(self@, Ordering::Less, (i + 1) as nat) == if self@[i as int].partial_cmp_spec(
                    &self@[k as int],
                ) == Some(Ordering::Less) {
                    i as nat
                } else {
                    k
                });
            }
            if self[i].lt(&self[j]) {
                j = i;
            }
            i = i + 1;
        }
        Some(j)
    }

    fn argmin_by<F: Fn(&T, &T) -> Ordering>(&self, f: F) -> (r: Option<usize>) {
        let n = self.len();
        if n == 0 {
            return None;
        }
        let mut j: usize = 0;
        let mut i: usize = 1;
        while i < n
            invariant
                1 <= i <= n,
                n == self@.len(),
                j < i,
                forall|a: int, b: int|
                    0 <= a < n && 0 <= b < n ==> #[trigger] call_requires(f, (&self@[a], &self@[b])),
                forall|k: int| j < k < i ==> answers_other(f, #[trigger] self@[k], self@[j as int], Ordering::Less),
                j > 0 ==> exists|p: int|
                    0 <= p < j && call_ensures(f, (&self@[j as int], &#[trigger] self@[p]), Ordering::Less),
            decreases n - i,
        {
            let ord = f(&self[i], &self[j]);
            match ord {
                Ordering::Less => {
                    j = i;
                },
                _ => {},
            }
            i = i + 1;
        }
        Some(j)
    }

    fn argmin_by_key<B: PartialOrd, F: Fn(&T) -> B>(&self, f: F) -> (r: Option<usize>) {
        let n = self.len();
        if n == 0 {
            return None;
        }
        let mut j: usize = 0;
        let mut key = f(&self[0]);
        let mut i: usize = 1;
        while i < n
            invariant
                1 <= i <= n,
                n == self@.len(),
                j < i,
                forall|k: int| 0 <= k < n ==> call_requires(f, (&#[trigger] self@[k],)),
                call_ensures(f, (&self@[j as int],), key),
                forall|k: int| j < k < i ==> key_not_past(f, #[trigger] self@[k], key, Ordering::Less),
            decreases n - i,
        {
            let next_key = f(&self[i]);
            if next_key.lt(&key) {
                j = i;
                key = next_key;
            }
            i = i + 1;
        }
        Some(j)
    }

}

} // verus!
