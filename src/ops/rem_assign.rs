use vstd::prelude::*;
use vstd::std_specs::ops::RemSpec;

verus! {

pub trait SliceRemAssign<T>: View<V = Seq<T>> {
    /// Replaces each element in the slice with its remainder by `rhs`.
    fn rem_assign_all<Rhs: Copy>(&mut self, rhs: Rhs) where T: core::ops::Rem<Rhs, Output = T> + Copy
        requires
            forall|i: int| 0 <= i < old(self)@.len() ==> (#[trigger] old(self)@[i]).rem_req(rhs),
        ensures
            final(self)@.len() == old(self)@.len(),
            T::obeys_rem_spec() ==> forall|i: int|
                0 <= i < old(self)@.len() ==> #[trigger] final(self)@[i] == old(self)@[i].rem_spec(rhs),
    ;
}

impl<T> SliceRemAssign<T> for [T] {
    fn rem_assign_all<Rhs: Copy>(&mut self, rhs: Rhs) where T: core::ops::Rem<Rhs, Output = T> + Copy {
        let n = self.len();
        let mut i: usize = 0;
        while i < n
            invariant
                i <= n,
                n == self@.len(),
                self@.len() == old(self)@.len(),
                forall|k: int| i <= k < n ==> #[trigger] self@[k] == old(self)@[k],
                forall|k: int| 0 <= k < n ==> (#[trigger] old(self)@[k]).rem_req(rhs),
                T::obeys_rem_spec() ==> forall|k: int| 0 <= k < i ==> #[trigger] self@[k] == old(self)@[k].rem_spec(rhs),
            decreases n - i,
        {
            let x = self[i];
            self[i] = x % rhs;
            i = i + 1;
        }
    }
}

} // verus!
