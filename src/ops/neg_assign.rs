use vstd::prelude::*;
use vstd::std_specs::ops::NegSpec;

verus! {

pub trait SliceNegAssign<T>: View<V = Seq<T>> {
    /// Negates each element in the slice.
    fn neg_assign_all(&mut self) where T: core::ops::Neg<Output = T> + Copy
        requires
            forall|i: int| 0 <= i < old(self)@.len() ==> (#[trigger] old(self)@[i]).neg_req(),
        ensures
            final(self)@.len() == old(self)@.len(),
            T::obeys_neg_spec() ==> forall|i: int|
                0 <= i < old(self)@.len() ==> #[trigger] final(self)@[i] == old(self)@[i].neg_spec(),
    ;
}

impl<T> SliceNegAssign<T> for [T] {
    fn neg_assign_all(&mut self) where T: core::ops::Neg<Output = T> + Copy {
        let n = self.len();
        let mut i: usize = 0;
        while i < n
            invariant
                i <= n,
                n == self@.len(),
                self@.len() == old(self)@.len(),
                forall|k: int| i <= k < n ==> #[trigger] self@[k] == old(self)@[k],
                forall|k: int| 0 <= k < n ==> (#[trigger] old(self)@[k]).neg_req(),
                T::obeys_neg_spec() ==> forall|k: int| 0 <= k < i ==> #[trigger] self@[k] == old(self)@[k].neg_spec(),
            decreases n - i,
        {
            let x = self[i];
            self[i] = core::ops::Neg::neg(x);
            i = i + 1;
        }
    }
}

} // verus!
