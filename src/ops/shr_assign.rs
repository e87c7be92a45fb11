use vstd::prelude::*;
use vstd::std_specs::ops::ShrSpec;

verus! {

pub trait SliceShrAssign<T>: View<V = Seq<T>> {
    /// Shifts each element in the slice right by `rhs`.
    fn shr_assign_all<Rhs: Copy>(&mut self, rhs: Rhs) where T: core::ops::Shr<Rhs, Output = T> + Copy
        requires
            forall|i: int| 0 <= i < old(self)@.len() ==> (#[trigger] old(self)@[i]).shr_req(rhs),
        ensures
            final(self)@.len() == old(self)@.len(),
            T::obeys_shr_spec() ==> forall|i: int|
                0 <= i < old(self)@.len() ==> #[trigger] final(self)@[i] == old(self)@[i].shr_spec(rhs),
    ;
}

impl<T> SliceShrAssign<T> for [T] {
    fn shr_assign_all<Rhs: Copy>(&mut self, rhs: Rhs) where T: core::ops::Shr<Rhs, Output = T> + Copy {
        let n = self.len();
        let mut i: usize = 0;
        while i < n
            invariant
                i <= n,
                n == self@.len(),
                self@.len() == old(self)@.len(),
                forall|k: int| i <= k < n ==> #[trigger] self@[k] == old(self)@[k],
                forall|k: int| 0 <= k < n ==> (#[trigger] old(self)@[k]).shr_req(rhs),
                T::obeys_shr_spec() ==> forall|k: int| 0 <= k < i ==> #[trigger] self@[k] == old(self)@[k].shr_spec(rhs),
            decreases n - i,
        {
            let x = self[i];
            self[i] = x >> rhs;
            i = i + 1;
        }
    }
}

} // verus!
