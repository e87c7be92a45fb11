use vstd::prelude::*;
use vstd::std_specs::ops::DivSpec;

verus! {

pub trait SliceDivAssign<T>: View<V = Seq<T>> {
    /// Divides each element in the slice by `rhs`.
    fn div_assign_all<Rhs: Copy>(&mut self, rhs: Rhs) where T: core::ops::Div<Rhs, Output = T> + Copy
        requires
            forall|i: int| 0 <= i < old(self)@.len() ==> (#[trigger] old(self)@[i]).div_req(rhs),
        ensures
            final(self)@.len() == old(self)@.len(),
            T::obeys_div_spec() ==> forall|i: int|
                0 <= i < old(self)@.len() ==> #[trigger] final(self)@[i] == old(self)@[i].div_spec(rhs),
    ;

    /// Replaces each element `x` in the slice with `lhs / x`.
    fn rdiv_assign_all<Lhs: Copy>(&mut self, lhs: Lhs) where Lhs: core::ops::Div<T, Output = T>, T: Copy
        requires
            forall|i: int| 0 <= i < old(self)@.len() ==> lhs.div_req(#[trigger] old(self)@[i]),
        ensures
            final(self)@.len() == old(self)@.len(),
            Lhs::obeys_div_spec() ==> forall|i: int|
                0 <= i < old(self)@.len() ==> #[trigger] final(self)@[i] == lhs.div_spec(old(self)@[i]),
    ;
}

impl<T> SliceDivAssign<T> for [T] {
    fn div_assign_all<Rhs: Copy>(&mut self, rhs: Rhs) where T: core::ops::Div<Rhs, Output = T> + Copy {
        let n = self.len();
        let mut i: usize = 0;
        while i < n
            invariant
                i <= n,
                n == self@.len(),
                self@.len() == old(self)@.len(),
                forall|k: int| i <= k < n ==> #[trigger] self@[k] == old(self)@[k],
                forall|k: int| 0 <= k < n ==> (#[trigger] old(self)@[k]).div_req(rhs),
                T::obeys_div_spec() ==> forall|k: int| 0 <= k < i ==> #[trigger] self@[k] == old(self)@[k].div_spec(rhs),
            decreases n - i,
        {
            let x = self[i];
            self[i] = x / rhs;
            i = i + 1;
        }
    }

    fn rdiv_assign_all<Lhs: Copy>(&mut self, lhs: Lhs) where Lhs: core::ops::Div<T, Output = T>, T: Copy {
        let n = self.len();
        let mut i: usize = 0;
        while i < n
            invariant
                i <= n,
                n == self@.len(),
                self@.len() == old(self)@.len(),
                forall|k: int| i <= k < n ==> #[trigger] self@[k] == old(self)@[k],
                forall|k: int| 0 <= k < n ==> lhs.div_req(#[trigger] old(self)@[k]),
                Lhs::obeys_div_spec() ==> forall|k: int| 0 <= k < i ==> #[trigger] self@[k] == lhs.div_spec(old(self)@[k]),
            decreases n - i,
        {
            let x = self[i];
            self[i] = lhs / x;
            i = i + 1;
        }
    }
}

} // verus!
