use vstd::prelude::*;
use vstd::std_specs::ops::SubSpec;

verus! {

/// Differences of neighbouring elements of a slice.
pub trait SliceDifferentiate<T>: View<V = Seq<T>> {
    /// Replaces each element but the first with its difference from the
    /// element before it; the first stays as it is.
    fn differentiate(&mut self) where T: core::ops::Sub<T, Output = T> + Copy
        requires
            forall|i: int| 1 <= i < old(self)@.len() ==> (#[trigger] old(self)@[i]).sub_req(old(self)@[i - 1]),
        ensures
            final(self)@.len() == old(self)@.len(),
            old(self)@.len() > 0 ==> final(self)@[0] == old(self)@[0],
            T::obeys_sub_spec() ==> forall|i: int|
                1 <= i < old(self)@.len() ==> #[trigger] final(self)@[i] == old(self)@[i].sub_spec(
                    old(self)@[i - 1],
                ),
    ;
}

impl<T> SliceDifferentiate<T> for [T] {
    fn differentiate(&mut self) where T: core::ops::Sub<T, Output = T> + Copy {
        let n = self.len();
        if n > 0 {
            let mut i: usize = n - 1;
            while i > 0
                invariant
                    n == self@.len(),
                    n == old(self)@.len(),
                    i < n,
                    forall|k: int| 0 <= k <= i ==> #[trigger] self@[k] == old(self)@[k],
                    forall|k: int| 1 <= k < n ==> (#[trigger] old(self)@[k]).sub_req(old(self)@[k - 1]),
                    T::obeys_sub_spec() ==> forall|k: int|
                        i < k < n ==> #[trigger] self@[k] == old(self)@[k].sub_spec(old(self)@[k - 1]),
                decreases i,
            {
                let prev = self[i - 1];
                let x = self[i];
                self[i] = x - prev;
                i = i - 1;
            }
        }
    }
}

} // verus!
