use vstd::prelude::*;
use vstd::std_specs::ops::BitXorSpec;

verus! {

pub trait SliceBitXorAssign<T>: View<V = Seq<T>> {
    /// Replaces each element in the slice with its bitwise exclusive or with `rhs`.
    fn bitxor_assign_all<Rhs: Copy>(&mut self, rhs: Rhs) where T: core::ops::BitXor<Rhs, Output = T> + Copy
        requires
            forall|i: int| 0 <= i < old(self)@.len() ==> (#[trigger] old(self)@[i]).bitxor_req(rhs),
        ensures
            final(self)@.len() == old(self)@.len(),
            T::obeys_bitxor_spec() ==> forall|i: int|
                0 <= i < old(self)@.len() ==> #[trigger] final(self)@[i] == old(self)@[i].bitxor_spec(rhs),
    ;
}

impl<T> SliceBitXorAssign<T> for [T] {
    fn bitxor_assign_all<Rhs: Copy>(&mut self, rhs: Rhs) where T: core::ops::BitXor<Rhs, Output = T> + Copy {
        let n = self.len();
        let mut i: usize = 0;
        while i < n
            invariant
                i <= n,
                n == self@.len(),
                self@.len() == old(self)@.len(),
                forall|k: int| i <= k < n ==> #[trigger] self@[k] == old(self)@[k],
                forall|k: int| 0 <= k < n ==> (#[trigger] old(self)@[k]).bitxor_req(rhs),
                T::obeys_bitxor_spec() ==> forall|k: int| 0 <= k < i ==> #[trigger] self@[k] == old(self)@[k].bitxor_spec(rhs),
            decreases n - i,
        {
            let x = self[i];
            self[i] = x ^ rhs;
            i = i + 1;
        }
    }
}

} // verus!
