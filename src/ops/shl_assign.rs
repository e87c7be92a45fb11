use vstd::prelude::*;
use vstd::std_specs::ops::ShlSpec;

verus! {

pub trait SliceShlAssign<T>: View<V = Seq<T>> {
    /// Shifts each element in the slice left by `rhs`.
    fn shl_assign_all<Rhs: Copy>(&mut self, rhs: Rhs) where T: core::ops::Shl<Rhs, Output = T> + Copy
        requires
            forall|i: int| 0 <= i < old(self)@.len() ==> (#[trigger] old(self)@[i]).shl_req(rhs),
        ensures
            final(self)@.len() == old(self)@.len(),
            T::obeys_shl_spec() ==> forall|i: int|
                0 <= i < old(self)@.len() ==> #[trigger] final(self)@[i] == old(self)@[i].shl_spec(rhs),
    ;
}

impl<T> SliceShlAssign<T> for [T] {
    fn shl_assign_all<Rhs: Copy>(&mut self, rhs: Rhs) where T: core::ops::Shl<Rhs, Output = T> + Copy {
        let n = self.len();
        let mut i: usize = 0;
        while i < n
            invariant
                i <= n,
                n == self@.len(),
                self@.len() == old(self)@.len(),
                forall|k: int| i <= k < n ==> #[trigger] self@[k] == old(self)@[k],
                forall|k: int| 0 <= k < n ==> (#[trigger] old(self)@[k]).shl_req(rhs),
                T::obeys_shl_spec() ==> forall|k: int| 0 <= k < i ==> #[trigger] self@[k] == old(self)@[k].shl_spec(rhs),
            decreases n - i,
        {
            let x = self[i];
            self[i] = x << rhs;
            i = i + 1;
        }
    }
}

} // verus!
