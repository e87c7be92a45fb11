use vstd::prelude::*;
use vstd::std_specs::ops::AddSpec;

verus! {

/// The running sum of `s` up to and including `s[i]`, each element added to
/// the sum before it.
pub open spec fn running_sum<T: core::ops::Add<T, Output = T>>(s: Seq<T>, i: nat) -> T
    decreases i,
{
    if i == 0 {
        s[0]
    } else {
        s[i as int].add_spec(running_sum(s, (i - 1) as nat))
    }
}

/// Prefix sums of a slice.
pub trait SliceIntegrate<T>: View<V = Seq<T>> {
    /// Replaces each element with the sum of it and all elements before it.
    fn integrate(&mut self) where T: core::ops::Add<T, Output = T> + Copy
        requires
            T::obeys_add_spec(),
            forall|i: int|
                1 <= i < old(self)@.len() ==> (#[trigger] old(self)@[i]).add_req(
                    running_sum(old(self)@, (i - 1) as nat),
                ),
        ensures
            final(self)@.len() == old(self)@.len(),
            forall|i: int|
                0 <= i < old(self)@.len() ==> #[trigger] final(self)@[i] == running_sum(old(self)@, i as nat),
    ;
}

impl<T> SliceIntegrate<T> for [T] {
    fn integrate(&mut self) where T: core::ops::Add<T, Output = T> + Copy {
        let n = self.len();
        let mut i: usize = 1;
        while i < n
            invariant
                n == self@.len(),
                n == old(self)@.len(),
                n == 0 || 1 <= i <= n,
                forall|k: int| i <= k < n ==> #[trigger] self@[k] == old(self)@[k],
                forall|k: int|
                    1 <= k < n ==> (#[trigger] old(self)@[k]).add_req(running_sum(old(self)@, (k - 1) as nat)),
                T::obeys_add_spec(),
                forall|k: int|
                    0 <= k < i && k < n ==> #[trigger] self@[k] == running_sum(old(self)@, k as nat),
            decreases n - i,
        {
            let prev = self[i - 1];
            let x = self[i];
            self[i] = x + prev;
            i = i + 1;
        }
    }
}

} // verus!
