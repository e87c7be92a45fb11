use vstd::prelude::*;

verus! {

/// Whether a left-to-right reduction of `s` may end holding index `j`: every
/// later element lost against `s[j]` (`loses`), and `s[j]` itself, unless it
/// is the first, won against some earlier element (`wins`).
pub open spec fn kept_by<T>(s: Seq<T>, wins: spec_fn(T, T) -> bool, loses: spec_fn(T, T) -> bool, j: int) -> bool {
    &&& 0 <= j < s.len()
    &&& forall|i: int| j < i < s.len() ==> loses(#[trigger] s[i], s[j])
    &&& j > 0 ==> exists|p: int| 0 <= p < j && wins(s[j], #[trigger] s[p])
}

/// Whether `hasher` can map `x` to a key that, compared with `kept`, makes
/// `reduction` answer `answer`.
pub open spec fn key_answers<T, B, FR: Fn(&B, &B) -> bool, FB: Fn(&T) -> B>(
    reduction: FR,
    hasher: FB,
    x: T,
    kept: B,
    answer: bool,
) -> bool {
    exists|k: B| call_ensures(hasher, (&x,), k) && call_ensures(reduction, (&k, &kept), answer)
}

/// Reductions of a slice to the index of one element.
pub trait SliceArgReduce<T>: View<V = Seq<T>> {
    /// Scans the slice left to right, keeping an index: each element for
    /// which `reduction(element, kept)` is true becomes the kept one. Returns
    /// the index kept at the end, or `None` for an empty slice.
    fn argreduce<F: Fn(&T, &T) -> bool>(&self, reduction: F) -> (r: Option<usize>)
        requires
            forall|i: int, j: int|
                0 <= i < self@.len() && 0 <= j < self@.len() ==> #[trigger] call_requires(
                    reduction,
                    (&self@[i], &self@[j]),
                ),
        ensures
            r is None <==> self@.len() == 0,
            r is Some ==> kept_by(
                self@,
                |a: T, b: T| call_ensures(reduction, (&a, &b), true),
                |a: T, b: T| call_ensures(reduction, (&a, &b), false),
                r->0 as int,
            ),
    ;

    /// As `argreduce`, comparing the keys that `hasher` gives for the elements.
    fn argreduce_key<B, FR: Fn(&B, &B) -> bool, FB: Fn(&T) -> B>(&self, reduction: FR, hasher: FB) -> (r:
        Option<usize>)
        requires
            forall|i: int| 0 <= i < self@.len() ==> call_requires(hasher, (&#[trigger] self@[i],)),
            forall|a: B, b: B| #[trigger] call_requires(reduction, (&a, &b)),
        ensures
            r is None <==> self@.len() == 0,
            r is Some ==> r->0 < self@.len() && exists|kept: B|
                #[trigger] call_ensures(hasher, (&self@[r->0 as int],), kept) && forall|i: int|
                    r->0 < i < self@.len() ==> key_answers(reduction, hasher, #[trigger] self@[i], kept, false),
    ;
}

impl<T> SliceArgReduce<T> for [T] {
    fn argreduce<F: Fn(&T, &T) -> bool>(&self, reduction: F) -> (r: Option<usize>) {
        let n = self.len();
        if n == 0 {
            return None;
        }
        let mut j: usize = 0;
        let mut i: usize = 1;
        while i < n
            invariant
                1 <= i <= n,
                n == self@.len(),
                j < i,
                forall|a: int, b: int|
                    0 <= a < n && 0 <= b < n ==> #[trigger] call_requires(reduction, (&self@[a], &self@[b])),
                forall|k: int| j < k < i ==> call_ensures(reduction, (&#[trigger] self@[k], &self@[j as int]), false),
                j > 0 ==> exists|p: int| 0 <= p < j && call_ensures(reduction, (&self@[j as int], &#[trigger] self@[p]), true),
            decreases n - i,
        {
            if reduction(&self[i], &self[j]) {
                j = i;
            }
            i = i + 1;
        }
        Some(j)
    }

    fn argreduce_key<B, FR: Fn(&B, &B) -> bool, FB: Fn(&T) -> B>(&self, reduction: FR, hasher: FB) -> (r:
        Option<usize>) {
        let n = self.len();
        if n == 0 {
            return None;
        }
        let mut j: usize = 0;
        let mut key = hasher(&self[0]);
        let mut i: usize = 1;
        while i < n
            invariant
                1 <= i <= n,
                n == self@.len(),
                j < i,
                forall|k: int| 0 <= k < n ==> call_requires(hasher, (&#[trigger] self@[k],)),
                forall|a: B, b: B| #[trigger] call_requires(reduction, (&a, &b)),
                call_ensures(hasher, (&self@[j as int],), key),
                forall|k: int| j < k < i ==> key_answers(reduction, hasher, #[trigger] self@[k], key, false),
            decreases n - i,
        {
            let next_key = hasher(&self[i]);
            if reduction(&next_key, &key) {
                j = i;
                key = next_key;
            }
            i = i + 1;
        }
        Some(j)
    }
}

} // verus!
