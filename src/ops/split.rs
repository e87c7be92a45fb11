use vstd::prelude::*;

verus! {

/// Splitting a slice in two.
pub trait SliceSplit<T>: View<V = Seq<T>> {
    /// The lengths of the two parts when the slice is split `mid` elements
    /// from its front.
    fn split_len(&self, mid: usize) -> (r: (usize, usize))
        requires
            mid <= self@.len(),
        ensures
            r.0 == mid,
            r.0 + r.1 == self@.len(),
    ;

    /// The lengths of the two parts when the slice is split `mid` elements
    /// from its back.
    fn rsplit_len(&self, mid: usize) -> (r: (usize, usize))
        requires
            mid <= self@.len(),
        ensures
            r.1 == mid,
            r.0 + r.1 == self@.len(),
    ;

    /// The two parts of the slice split `mid` elements from its back.
    fn rsplit_at(&self, mid: usize) -> (r: (&[T], &[T]))
        requires
            mid <= self@.len(),
        ensures
            r.0@ == self@.subrange(0, self@.len() - mid),
            r.1@ == self@.subrange(self@.len() - mid, self@.len() as int),
    ;

    /// The two parts of the slice split `mid` elements from its back, each
    /// to be changed in place.
    fn rsplit_at_mut(&mut self, mid: usize) -> (r: (&mut [T], &mut [T]))
        requires
            mid <= old(self)@.len(),
        ensures
            r.0@ == old(self)@.subrange(0, old(self)@.len() - mid),
            r.1@ == old(self)@.subrange(old(self)@.len() - mid, old(self)@.len() as int),
            final(self)@ == final(r.0)@ + final(r.1)@,
    ;
}

impl<T> SliceSplit<T> for [T] {
    fn split_len(&self, mid: usize) -> (r: (usize, usize)) {
        crate::split_len(self.len(), mid)
    }

    fn rsplit_len(&self, mid: usize) -> (r: (usize, usize)) {
        crate::rsplit_len(self.len(), mid)
    }

    fn rsplit_at(&self, mid: usize) -> (r: (&[T], &[T])) {
        self.split_at(self.len() - mid)
    }

    fn rsplit_at_mut(&mut self, mid: usize) -> (r: (&mut [T], &mut [T])) {
        let at = self.len() - mid;
        self.split_at_mut(at)
    }
}

} // verus!
