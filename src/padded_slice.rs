use vstd::prelude::*;

verus! {

/// The number of elements of a strided view of `len` elements that skips
/// `padding` elements after each one.
pub open spec fn stride_len(len: nat, padding: nat) -> nat {
    if len == 0 {
        0
    } else {
        ((len - 1) as nat / (padding + 1) + 1) as nat
    }
}

/// A strided view of a slice: the elements at `0`, `padding + 1`,
/// `2 * (padding + 1)`, and so on.
pub struct PaddedSlice<'a, T> {
    slice: &'a [T],
    padding: usize,
}

impl<'a, T> PaddedSlice<'a, T> {
    /// The slice viewed.
    pub closed spec fn base(&self) -> Seq<T> {
        self.slice@
    }

    /// The number of elements skipped after each element of the view.
    pub closed spec fn padding(&self) -> nat {
        self.padding as nat
    }

    /// The elements of the view, in order.
    pub open spec fn view_seq(&self) -> Seq<T> {
        Seq::new(stride_len(self.base().len(), self.padding()), |k: int| self.base()[k * (self.padding() + 1)])
    }

    /// A view of every element of `slice`.
    pub fn new(slice: &'a [T]) -> (r: Self)
        ensures
            r.base() == slice@,
            r.padding() == 0,
    {
        PaddedSlice { slice, padding: 0 }
    }

    /// A view of the elements of `slice` at `0`, `padding + 1`,
    /// `2 * (padding + 1)`, and so on.
    pub fn strided(slice: &'a [T], padding: usize) -> (r: Self)
        ensures
            r.base() == slice@,
            r.padding() == padding,
    {
        PaddedSlice { slice, padding }
    }

    /// The number of elements in the view.
    pub fn len(&self) -> (n: usize)
        ensures
            n == self.view_seq().len(),
    {
        let l = self.slice.len();
        if l == 0 {
            0
        } else if self.padding == usize::MAX {
            proof {
                let ll = (l - 1) as int;
                let st = self.padding + 1;
                assert(ll / st == 0) by (nonlinear_arith)
                    requires
                        0 <= ll < st,
                ;
            }
            1
        } else {
            (l - 1) / (self.padding + 1) + 1
        }
    }

    /// The element at `k` in the view.
    pub fn get(&self, k: usize) -> (r: &T)
        requires
            k < self.view_seq().len(),
        ensures
            *r == self.view_seq()[k as int],
    {
        let l = self.slice.len();
        if self.padding == usize::MAX {
            proof {
                let ll = (l - 1) as int;
                let st = self.padding + 1;
                assert(ll / st == 0) by (nonlinear_arith)
                    requires
                        0 <= ll < st,
                ;
            }
            return &self.slice[0];
        }
        let step = self.padding + 1;
        proof {
            let (kk, st, ll) = (k as int, step as int, l as int);
            assert(kk * st <= ll - 1) by (nonlinear_arith)
                requires
                    kk <= (ll - 1) / st,
                    st >= 1,
                    ll >= 1,
            ;
        }
        &self.slice[k * step]
    }

    /// Deals the front of `slice` out to `width` strided views, the `i`-th
    /// starting at element `i`, and returns them with the elements at the back
    /// that do not fill a whole round (`len % width` of them; all of them when
    /// `width` is 0).
    pub fn spread_slice(slice: &'a [T], width: usize) -> (r: (Vec<Self>, &'a [T]))
        requires
            width <= 1 || slice@.len() >= width,
        ensures
            ({
                let rest = if width == 0 {
                    slice@.len() as int
                } else {
                    slice@.len() as int % width as int
                };
                let left = slice@.subrange(0, slice@.len() - rest);
                &&& r.1@ == slice@.subrange(slice@.len() - rest, slice@.len() as int)
                &&& r.0@.len() == width
                &&& forall|i: int|
                    0 <= i < width ==> (#[trigger] r.0@[i]).base() == left.subrange(i, left.len() as int)
                        && r.0@[i].padding() == width - 1
            }),
    {
        let n = slice.len();
        let rest = if width == 0 {
            n
        } else {
            n % width
        };
        let (left, right) = slice.split_at(n - rest);
        proof {
            if width > 1 {
                assert(n as int % width as int <= n - width) by (nonlinear_arith)
                    requires
                        n >= width,
                        width > 1,
                ;
            }
        }
        let mut views: Vec<Self> = Vec::with_capacity(width);
        let mut i: usize = 0;
        while i < width
            invariant
                i <= width,
                views@.len() == i,
                width > 0 ==> left@.len() + 1 >= width,
                forall|k: int|
                    0 <= k < i ==> (#[trigger] views@[k]).base() == left@.subrange(k, left@.len() as int)
                        && views@[k].padding() == width - 1,
            decreases width - i,
        {
            let view = PaddedSlice { slice: vstd::slice::slice_subrange(left, i, left.len()), padding: width - 1 };
            views.push(view);
            i = i + 1;
        }
        (views, right)
    }

    /// Deals the back of `slice` out to `width` strided views, the `i`-th
    /// starting at element `i` of that back part, and returns them after the
    /// elements at the front that do not fill a whole round (`len % width` of
    /// them; all of them when `width` is 0).
    pub fn rspread_slice(slice: &'a [T], width: usize) -> (r: (&'a [T], Vec<Self>))
        requires
            width <= 1 || slice@.len() >= width,
        ensures
            ({
                let rest = if width == 0 {
                    slice@.len() as int
                } else {
                    slice@.len() as int % width as int
                };
                let right = slice@.subrange(rest, slice@.len() as int);
                &&& r.0@ == slice@.subrange(0, rest)
                &&& r.1@.len() == width
                &&& forall|i: int|
                    0 <= i < width ==> (#[trigger] r.1@[i]).base() == right.subrange(i, right.len() as int)
                        && r.1@[i].padding() == width - 1
            }),
    {
        let n = slice.len();
        let rest = if width == 0 {
            n
        } else {
            n % width
        };
        let (left, right) = slice.split_at(rest);
        proof {
            if width > 1 {
                assert(n as int % width as int <= n - width) by (nonlinear_arith)
                    requires
                        n >= width,
                        width > 1,
                ;
            }
        }
        let mut views: Vec<Self> = Vec::with_capacity(width);
        let mut i: usize = 0;
        while i < width
            invariant
                i <= width,
                views@.len() == i,
                width > 0 ==> right@.len() + 1 >= width,
                forall|k: int|
                    0 <= k < i ==> (#[trigger] views@[k]).base() == right@.subrange(k, right@.len() as int)
                        && views@[k].padding() == width - 1,
            decreases width - i,
        {
            let view = PaddedSlice { slice: vstd::slice::slice_subrange(right, i, right.len()), padding: width - 1 };
            views.push(view);
            i = i + 1;
        }
        (left, views)
    }
}

/// A strided view of a slice whose elements can be changed in place.
pub struct PaddedSliceMut<'a, T> {
    slice: &'a mut [T],
    padding: usize,
}

impl<'a, T> PaddedSliceMut<'a, T> {
    /// The elements of the slice viewed.
    pub closed spec fn base(&self) -> Seq<T> {
        self.slice@
    }

    /// The number of elements skipped after each element of the view.
    pub closed spec fn padding(&self) -> nat {
        self.padding as nat
    }

    /// A view of every element of `slice`.
    pub fn new(slice: &'a mut [T]) -> (r: Self)
        ensures
            r.base() == old(slice)@,
            r.padding() == 0,
    {
        PaddedSliceMut { slice, padding: 0 }
    }
}

} // verus!
