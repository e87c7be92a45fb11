use vstd::prelude::*;
use vstd::std_specs::ops::AddSpec;

use crate::scalar::square::Square;

verus! {

/// `from` with the squares of the first `n` elements of `s` added to it one
/// after the other.
pub open spec fn add_squares<T: Square, O: core::ops::Add<<T as Square>::Output, Output = O>>(
    from: O,
    s: Seq<T>,
    n: nat,
) -> O
    decreases n,
{
    if n == 0 {
        from
    } else {
        add_squares(from, s, (n - 1) as nat).add_spec(s[n - 1].square_spec())
    }
}

/// The square of `s[0]` with the squares of the elements after it, up to
/// index `n - 1`, added to it one after the other.
pub open spec fn sum_of_squares<T: Square>(s: Seq<T>, n: nat) -> <T as Square>::Output where
    <T as Square>::Output: core::ops::Add<<T as Square>::Output, Output = <T as Square>::Output>,
    decreases n,
{
    if n <= 1 {
        s[0].square_spec()
    } else {
        sum_of_squares(s, (n - 1) as nat).add_spec(s[n - 1].square_spec())
    }
}

/// The squared magnitude of a slice: the sum of the squares of its elements.
pub trait SlicePartialMagnitude<T>: View<V = Seq<T>> {
    /// The sum of the squares of the elements, or `None` for an empty slice.
    fn partial_magnitude_squared(&self) -> (r: Option<<T as Square>::Output>) where
        T: Square,
        <T as Square>::Output: core::ops::Add<<T as Square>::Output, Output = <T as Square>::Output>,

        requires
            T::obeys_square_spec(),
            <T as Square>::Output::obeys_add_spec(),
            forall|i: int| 0 <= i < self@.len() ==> (#[trigger] self@[i]).square_req(),
            forall|i: int|
                1 <= i < self@.len() ==> sum_of_squares(self@, i as nat).add_req(
                    (#[trigger] self@[i]).square_spec(),
                ),
        ensures
            r == if self@.len() == 0 {
                None
            } else {
                Some(sum_of_squares(self@, self@.len()))
            },
    ;

    /// `from` with the square of every element added to it, from the first
    /// element to the last.
    fn magnitude_squared_from<O>(&self, from: O) -> (r: O) where
        T: Square,
        O: core::ops::Add<<T as Square>::Output, Output = O>,

        requires
            T::obeys_square_spec(),
            O::obeys_add_spec(),
            forall|i: int| 0 <= i < self@.len() ==> (#[trigger] self@[i]).square_req(),
            forall|i: int|
                0 <= i < self@.len() ==> add_squares(from, self@, i as nat).add_req(
                    (#[trigger] self@[i]).square_spec(),
                ),
        ensures
            r == add_squares(from, self@, self@.len()),
    ;
}

impl<T> SlicePartialMagnitude<T> for [T] {
    fn partial_magnitude_squared(&self) -> (r: Option<<T as Square>::Output>) where
        T: Square,
        <T as Square>::Output: core::ops::Add<<T as Square>::Output, Output = <T as Square>::Output>,
     {
        let n = self.len();
        if n == 0 {
            return None;
        }
        let mut y = self[0].square();
        let mut i: usize = 1;
        while i < n
            invariant
                1 <= i <= n,
                n == self@.len(),
                T::obeys_square_spec(),
                <T as Square>::Output::obeys_add_spec(),
                forall|k: int| 0 <= k < n ==> (#[trigger] self@[k]).square_req(),
                forall|k: int|
                    1 <= k < n ==> sum_of_squares(self@, k as nat).add_req((#[trigger] self@[k]).square_spec()),
                y == sum_of_squares(self@, i as nat),
            decreases n - i,
        {
            let sq = self[i].square();
            y = y + sq;
            i = i + 1;
        }
        Some(y)
    }

    fn magnitude_squared_from<O>(&self, from: O) -> (r: O) where
        T: Square,
        O: core::ops::Add<<T as Square>::Output, Output = O>,
     {
        let n = self.len();
        let mut acc = from;
        let mut i: usize = 0;
        while i < n
            invariant
                i <= n,
                n == self@.len(),
                T::obeys_square_spec(),
                O::obeys_add_spec(),
                forall|k: int| 0 <= k < n ==> (#[trigger] self@[k]).square_req(),
                forall|k: int|
                    0 <= k < n ==> add_squares(from, self@, k as nat).add_req((#[trigger] self@[k]).square_spec()),
                acc == add_squares(from, self@, i as nat),
            decreases n - i,
        {
            let sq = self[i].square();
            acc = acc + sq;
            i = i + 1;
        }
        acc
    }
}

} // verus!
