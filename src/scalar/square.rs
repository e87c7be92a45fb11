use vstd::prelude::*;
use vstd::std_specs::ops::MulSpec;

verus! {

/// The square of a value: the value multiplied by itself.
pub trait Square: Sized {
    type Output;

    /// Whether squaring `self` is defined (it does not overflow).
    spec fn square_req(&self) -> bool;

    /// Whether `square` returns `square_spec`.
    spec fn obeys_square_spec() -> bool;

    /// The square of `self`.
    spec fn square_spec(&self) -> Self::Output;

    fn square(&self) -> (r: Self::Output)
        requires
            self.square_req(),
        ensures
            Self::obeys_square_spec() ==> r == self.square_spec(),
    ;
}

impl<T: core::ops::Mul<T, Output = T> + Copy> Square for T {
    type Output = T;

    open spec fn square_req(&self) -> bool {
        self.mul_req(*self)
    }

    open spec fn obeys_square_spec() -> bool {
        T::obeys_mul_spec()
    }

    open spec fn square_spec(&self) -> T {
        self.mul_spec(*self)
    }

    fn square(&self) -> (r: T) {
        *self * *self
    }
}

} // verus!
