use vstd::prelude::*;
use vstd::std_specs::cmp::PartialEqSpec;

verus! {

/// Whether `r` is what a search of `s` gives, from the front (`front`) or from
/// the back, where `hit` holds of the element found and `miss` of every
/// element looked at before it.
pub open spec fn search<T>(
    s: Seq<T>,
    hit: spec_fn(T) -> bool,
    miss: spec_fn(T) -> bool,
    front: bool,
    r: Option<usize>,
) -> bool {
    match r {
        Some(i) => {
            &&& i < s.len()
            &&& hit(s[i as int])
            &&& forall|j: int|
                (if front {
                    0 <= j < i
                } else {
                    i < j < s.len()
                }) ==> miss(#[trigger] s[j])
        },
        None => forall|j: int| 0 <= j < s.len() ==> miss(#[trigger] s[j]),
    }
}

/// Whether `f` can map `x` to a key that equals `b`.
pub open spec fn key_hit<T, B: PartialEq, F: Fn(&T) -> B>(f: F, x: T, b: &B) -> bool {
    exists|k: B| call_ensures(f, (&x,), k) && k.eq_spec(b)
}

/// Whether `f` can map `x` to a key that differs from `b`.
pub open spec fn key_miss<T, B: PartialEq, F: Fn(&T) -> B>(f: F, x: T, b: &B) -> bool {
    exists|k: B| call_ensures(f, (&x,), k) && !k.eq_spec(b)
}

/// Searching a slice for an element.
pub trait SliceFind<T>: View<V = Seq<T>> {
    /// The index of the first element equal to `x`.
    fn find(&self, x: &T) -> (r: Option<usize>) where T: PartialEq
        ensures
            T::obeys_eq_spec() ==> search(self@, |e: T| e.eq_spec(x), |e: T| !e.eq_spec(x), true, r),
    ;

    /// The index of the first element for which `f` returns true.
    fn find_by<F: Fn(&T) -> bool>(&self, f: F) -> (r: Option<usize>)
        requires
            forall|i: int| 0 <= i < self@.len() ==> call_requires(f, (&#[trigger] self@[i],)),
        ensures
            search(
                self@,
                |e: T| call_ensures(f, (&e,), true),
                |e: T| call_ensures(f, (&e,), false),
                true,
                r,
            ),
    ;

    /// The index of the first element whose key under `f` equals `b`.
    fn find_by_key<B: PartialEq, F: Fn(&T) -> B>(&self, b: &B, f: F) -> (r: Option<usize>)
        requires
            forall|i: int| 0 <= i < self@.len() ==> call_requires(f, (&#[trigger] self@[i],)),
        ensures
            B::obeys_eq_spec() ==> search(
                self@,
                |e: T| key_hit(f, e, b),
                |e: T| key_miss(f, e, b),
                true,
                r,
            ),
    ;

    /// The index of the last element equal to `x`.
    fn rfind(&self, x: &T) -> (r: Option<usize>) where T: PartialEq
        ensures
            T::obeys_eq_spec() ==> search(self@, |e: T| e.eq_spec(x), |e: T| !e.eq_spec(x), false, r),
    ;

    /// The index of the last element for which `f` returns true.
    fn rfind_by<F: Fn(&T) -> bool>(&self, f: F) -> (r: Option<usize>)
        requires
            forall|i: int| 0 <= i < self@.len() ==> call_requires(f, (&#[trigger] self@[i],)),
        ensures
            search(
                self@,
                |e: T| call_ensures(f, (&e,), true),
                |e: T| call_ensures(f, (&e,), false),
                false,
                r,
            ),
    ;

    /// The index of the last element whose key under `f` equals `b`.
    fn rfind_by_key<B: PartialEq, F: Fn(&T) -> B>(&self, b: &B, f: F) -> (r: Option<usize>)
        requires
            forall|i: int| 0 <= i < self@.len() ==> call_requires(f, (&#[trigger] self@[i],)),
        ensures
            B::obeys_eq_spec() ==> search(
                self@,
                |e: T| key_hit(f, e, b),
                |e: T| key_miss(f, e, b),
                false,
                r,
            ),
    ;
}

impl<T> SliceFind<T> for [T] {
    fn find(&self, x: &T) -> (r: Option<usize>) where T: PartialEq {
        let n = self.len();
        let mut i: usize = 0;
        while i < n
            invariant
                i <= n,
                n == self@.len(),
                T::obeys_eq_spec() ==> forall|j: int| 0 <= j < i ==> !(#[trigger] self@[j]).eq_spec(x),
            decreases n - i,
        {
            if self[i].eq(x) {
                return Some(i);
            }
            i = i + 1;
        }
        None
    }

    fn find_by<F: Fn(&T) -> bool>(&self, f: F) -> (r: Option<usize>) {
        let n = self.len();
        let mut i: usize = 0;
        while i < n
            invariant
                i <= n,
                n == self@.len(),
                forall|j: int| 0 <= j < n ==> call_requires(f, (&#[trigger] self@[j],)),
                forall|j: int| 0 <= j < i ==> call_ensures(f, (&#[trigger] self@[j],), false),
            decreases n - i,
        {
            let hit = f(&self[i]);
            if hit {
                return Some(i);
            }
            i = i + 1;
        }
        None
    }

    fn find_by_key<B: PartialEq, F: Fn(&T) -> B>(&self, b: &B, f: F) -> (r: Option<usize>) {
        let n = self.len();
        let mut i: usize = 0;
        while i < n
            invariant
                i <= n,
                n == self@.len(),
                forall|j: int| 0 <= j < n ==> call_requires(f, (&#[trigger] self@[j],)),
                B::obeys_eq_spec() ==> forall|j: int|
                    0 <= j < i ==> key_miss(f, #[trigger] self@[j], b),
            decreases n - i,
        {
            let k = f(&self[i]);
            if k.eq(b) {
                return Some(i);
            }
            i = i + 1;
        }
        None
    }

    fn rfind(&self, x: &T) -> (r: Option<usize>) where T: PartialEq {
        let n = self.len();
        let mut i: usize = n;
        while i > 0
            invariant
                i <= n,
                n == self@.len(),
                T::obeys_eq_spec() ==> forall|j: int| i <= j < n ==> !(#[trigger] self@[j]).eq_spec(x),
            decreases i,
        {
            i = i - 1;
            if self[i].eq(x) {
                return Some(i);
            }
        }
        None
    }

    fn rfind_by<F: Fn(&T) -> bool>(&self, f: F) -> (r: Option<usize>) {
        let n = self.len();
        let mut i: usize = n;
        while i > 0
            invariant
                i <= n,
                n == self@.len(),
                forall|j: int| 0 <= j < n ==> call_requires(f, (&#[trigger] self@[j],)),
                forall|j: int| i <= j < n ==> call_ensures(f, (&#[trigger] self@[j],), false),
            decreases i,
        {
            i = i - 1;
            let hit = f(&self[i]);
            if hit {
                return Some(i);
            }
        }
        None
    }

    fn rfind_by_key<B: PartialEq, F: Fn(&T) -> B>(&self, b: &B, f: F) -> (r: Option<usize>) {
        let n = self.len();
        let mut i: usize = n;
        while i > 0
            invariant
                i <= n,
                n == self@.len(),
                forall|j: int| 0 <= j < n ==> call_requires(f, (&#[trigger] self@[j],)),
                B::obeys_eq_spec() ==> forall|j: int|
                    i <= j < n ==> key_miss(f, #[trigger] self@[j], b),
            decreases i,
        {
            i = i - 1;
            let k = f(&self[i]);
            if k.eq(b) {
                return Some(i);
            }
        }
        None
    }
}

} // verus!
