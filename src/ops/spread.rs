use vstd::prelude::*;

use crate::padded_slice::PaddedSlice;

verus! {

/// Dealing a slice out to strided views.
pub trait SliceSpread<T>: View<V = Seq<T>> {
    /// Deals the slice out to `width` views: the `i`-th holds the elements at
    /// `i`, `i + width`, `i + 2 * width`, and so on.
    fn spread<'a>(&'a self, width: usize) -> (r: Vec<PaddedSlice<'a, T>>)
        requires
            width >= 1,
        ensures
            r@.len() == width,
            forall|i: int|
                0 <= i < width ==> (#[trigger] r@[i]).base() == self@.subrange(
                    if i < self@.len() {
                        i
                    } else {
                        self@.len() as int
                    },
                    self@.len() as int,
                ) && r@[i].padding() == width - 1,
    ;
}

impl<T> SliceSpread<T> for [T] {
    fn spread<'a>(&'a self, width: usize) -> (r: Vec<PaddedSlice<'a, T>>) {
        let n = self.len();
        let mut views: Vec<PaddedSlice<'a, T>> = Vec::with_capacity(width);
        let mut i: usize = 0;
        while i < width
            invariant
                i <= width,
                n == self@.len(),
                views@.len() == i,
                forall|k: int|
                    0 <= k < i ==> (#[trigger] views@[k]).base() == self@.subrange(
                        if k < n {
                            k
                        } else {
                            n as int
                        },
                        n as int,
                    ) && views@[k].padding() == width - 1,
            decreases width - i,
        {
            let from = if i < n {
                i
            } else {
                n
            };
            views.push(PaddedSlice::strided(vstd::slice::slice_subrange(self, from, n), width - 1));
            i = i + 1;
        }
        views
    }
}

} // verus!
