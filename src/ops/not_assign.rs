use vstd::prelude::*;
use vstd::std_specs::ops::NotSpec;

verus! {

pub trait SliceNotAssign<T>: View<V = Seq<T>> {
    /// Replaces each element in the slice with its bitwise (or logical) negation.
    fn not_assign_all(&mut self) where T: core::ops::Not<Output = T> + Copy
        requires
            forall|i: int| 0 <= i < old(self)@.len() ==> (#[trigger] old(self)@[i]).not_req(),
        ensures
            final(self)@.len() == old(self)@.len(),
            T::obeys_not_spec() ==> forall|i: int|
                0 <= i < old(self)@.len() ==> #[trigger] final(self)@[i] == old(self)@[i].not_spec(),
    ;
}

impl<T> SliceNotAssign<T> for [T] {
    fn not_assign_all(&mut self) where T: core::ops::Not<Output = T> + Copy {
        let n = self.len();
        let mut i: usize = 0;
        while i < n
            invariant
                i <= n,
                n == self@.len(),
                self@.len() == old(self)@.len(),
                forall|k: int| i <= k < n ==> #[trigger] self@[k] == old(self)@[k],
                forall|k: int| 0 <= k < n ==> (#[trigger] old(self)@[k]).not_req(),
                T::obeys_not_spec() ==> forall|k: int| 0 <= k < i ==> #[trigger] self@[k] == old(self)@[k].not_spec(),
            decreases n - i,
        {
            let x = self[i];
            self[i] = core::ops::Not::not(x);
            i = i + 1;
        }
    }
}

} // verus!
