use vstd::prelude::*;

verus! {

/// Complex conjugation; a value that is not complex is its own conjugate.
pub trait Conj: Sized {
    /// The conjugate of `self`.
    spec fn conj_spec(self) -> Self;

    fn conj(self) -> (r: Self)
        ensures
            r == self.conj_spec(),
    ;
}

impl<T> Conj for T {
    open spec fn conj_spec(self) -> T {
        self
    }

    fn conj(self) -> (r: T) {
        self
    }
}

} // verus!
