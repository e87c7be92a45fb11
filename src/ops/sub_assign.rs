use vstd::prelude::*;
use vstd::std_specs::ops::SubSpec;

verus! {

pub trait SliceSubAssign<T>: View<V = Seq<T>> {
    /// Subtracts `rhs` from each element in the slice.
    fn sub_assign_all<Rhs: Copy>(&mut self, rhs: Rhs) where T: core::ops::Sub<Rhs, Output = T> + Copy
        requires
            forall|i: int| 0 <= i < old(self)@.len() ==> (#[trigger] old(self)@[i]).sub_req(rhs),
        ensures
            final(self)@.len() == old(self)@.len(),
            T::obeys_sub_spec() ==> forall|i: int|
                0 <= i < old(self)@.len() ==> #[trigger] final(self)@[i] == old(self)@[i].sub_spec(rhs),
    ;

    /// Replaces each element `x` in the slice with `lhs - x`.
    fn rsub_assign_all<Lhs: Copy>(&mut self, lhs: Lhs) where Lhs: core::ops::Sub<T, Output = T>, T: Copy
        requires
            forall|i: int| 0 <= i < old(self)@.len() ==> lhs.sub_req(#[trigger] old(self)@[i]),
        ensures
            final(self)@.len() == old(self)@.len(),
            Lhs::obeys_sub_spec() ==> forall|i: int|
                0 <= i < old(self)@.len() ==> #[trigger] final(self)@[i] == lhs.sub_spec(old(self)@[i]),
    ;
}

impl<T> SliceSubAssign<T> for [T] {
    fn sub_assign_all<Rhs: Copy>(&mut self, rhs: Rhs) where T: core::ops::Sub<Rhs, Output = T> + Copy {
        let n = self.len();
        let mut i: usize = 0;
        while i < n
            invariant
                i <= n,
                n == self@.len(),
                self@.len() == old(self)@.len(),
                forall|k: int| i <= k < n ==> #[trigger] self@[k] == old(self)@[k],
                forall|k: int| 0 <= k < n ==> (#[trigger] old(self)@[k]).sub_req(rhs),
                T::obeys_sub_spec() ==> forall|k: int| 0 <= k < i ==> #[trigger] self@[k] == old(self)@[k].sub_spec(rhs),
            decreases n - i,
        {
            let x = self[i];
            self[i] = x - rhs;
            i = i + 1;
        }
    }

    fn rsub_assign_all<Lhs: Copy>(&mut self, lhs: Lhs) where Lhs: core::ops::Sub<T, Output = T>, T: Copy {
        let n = self.len();
        let mut i: usize = 0;
        while i < n
            invariant
                i <= n,
                n == self@.len(),
                self@.len() == old(self)@.len(),
                forall|k: int| i <= k < n ==> #[trigger] self@[k] == old(self)@[k],
                forall|k: int| 0 <= k < n ==> lhs.sub_req(#[trigger] old(self)@[k]),
                Lhs::obeys_sub_spec() ==> forall|k: int| 0 <= k < i ==> #[trigger] self@[k] == lhs.sub_spec(old(self)@[k]),
            decreases n - i,
        {
            let x = self[i];
            self[i] = lhs - x;
            i = i + 1;
        }
    }
}

} // verus!
