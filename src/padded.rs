use vstd::prelude::*;

verus! {

/// A value that stands for `WIDTH` places of a strided sequence: the value
/// itself and the `WIDTH - 1` places that follow it.
pub struct Padded<T, const WIDTH: usize> {
    value: T,
}

impl<T, const WIDTH: usize> View for Padded<T, WIDTH> {
    type V = T;

    closed spec fn view(&self) -> T {
        self.value
    }
}

impl<T, const WIDTH: usize> Padded<T, WIDTH> {
    /// Wraps `value`.
    pub fn new(value: T) -> (r: Self)
        requires
            WIDTH >= 1,
        ensures
            r@ == value,
    {
        Padded { value }
    }

    /// The wrapped value, taken out.
    pub fn into_inner(self) -> (r: T)
        ensures
            r == self@,
    {
        self.value
    }

    /// The wrapped value.
    pub fn borrow(&self) -> (r: &T)
        ensures
            *r == self@,
    {
        &self.value
    }

    /// The wrapped value, to be changed in place.
    pub fn borrow_mut(&mut self) -> (r: &mut T)
        ensures
            *r == old(self)@,
            final(self)@ == *final(r),
    {
        &mut self.value
    }
}

impl<T, const WIDTH1: usize, const WIDTH2: usize> Padded<Padded<T, WIDTH1>, WIDTH2> {
    /// A value padded twice, as one padded by the product of both widths.
    pub fn flatten<const WIDTH: usize>(self) -> (r: Padded<T, WIDTH>)
        requires
            WIDTH == WIDTH1 * WIDTH2,
            WIDTH1 >= 1,
            WIDTH2 >= 1,
        ensures
            r@ == self@@,
    {
        assert(WIDTH >= 1) by (nonlinear_arith)
            requires
                WIDTH == WIDTH1 * WIDTH2,
                WIDTH1 >= 1,
                WIDTH2 >= 1,
        ;
        Padded::new(self.into_inner().into_inner())
    }
}

} // verus!
