//! Utility operations on slices, and aggregates that drive a fixed set of
//! operations to completion under one of three policies: all complete, the
//! first error wins, or the first error wins and cancels the rest.
use vstd::prelude::*;

pub mod join;
pub mod maybe_done;
pub mod ops;
pub mod padded;
pub mod padded_slice;
pub mod scalar;

pub use padded::Padded;
pub use padded_slice::{PaddedSlice, PaddedSliceMut};

verus! {

/// Lengths of the two parts when a sequence of length `len` is split at `mid`.
pub fn split_len(len: usize, mid: usize) -> (r: (usize, usize))
    requires
        mid <= len,
    ensures
        r == (mid, (len - mid) as usize),
{
    (mid, len - mid)
}

/// Lengths of the two parts when a sequence of length `len` is split `mid`
/// elements from its back.
pub fn rsplit_len(len: usize, mid: usize) -> (r: (usize, usize))
    requires
        mid <= len,
    ensures
        r == ((len - mid) as usize, mid),
{
    (len - mid, mid)
}

/// The two parts of `slice` split `mid` elements from its front.
pub fn split_at<T>(slice: &[T], mid: usize) -> (r: (&[T], &[T]))
    requires
        mid <= slice@.len(),
    ensures
        r.0@ == slice@.subrange(0, mid as int),
        r.1@ == slice@.subrange(mid as int, slice@.len() as int),
{
    slice.split_at(mid)
}

/// The two parts of `slice` split `mid` elements from its front, each to be
/// changed in place.
pub fn split_at_mut<T>(slice: &mut [T], mid: usize) -> (r: (&mut [T], &mut [T]))
    requires
        mid <= old(slice)@.len(),
    ensures
        r.0@ == old(slice)@.subrange(0, mid as int),
        r.1@ == old(slice)@.subrange(mid as int, old(slice)@.len() as int),
        final(slice)@ == final(r.0)@ + final(r.1)@,
{
    slice.split_at_mut(mid)
}

/// The two parts of `slice` split `mid` elements from its back.
pub fn rsplit_at<T>(slice: &[T], mid: usize) -> (r: (&[T], &[T]))
    requires
        mid <= slice@.len(),
    ensures
        r.0@ == slice@.subrange(0, slice@.len() - mid),
        r.1@ == slice@.subrange(slice@.len() - mid, slice@.len() as int),
{
    slice.split_at(slice.len() - mid)
}

/// The two parts of `slice` split `mid` elements from its back, each to be
/// changed in place.
pub fn rsplit_at_mut<T>(slice: &mut [T], mid: usize) -> (r: (&mut [T], &mut [T]))
    requires
        mid <= old(slice)@.len(),
    ensures
        r.0@ == old(slice)@.subrange(0, old(slice)@.len() - mid),
        r.1@ == old(slice)@.subrange(old(slice)@.len() - mid, old(slice)@.len() as int),
        final(slice)@ == final(r.0)@ + final(r.1)@,
{
    let at = slice.len() - mid;
    slice.split_at_mut(at)
}

/// Whether `n` is `r` multiplied by itself some number of times (`r` to the
/// power zero being 1).
pub open spec fn is_power(n: nat, r: nat) -> bool
    decreases n
        via lemma_is_power_decreases

{
    if n == 1 {
        true
    } else if r >= 2 && n > 1 && n % r == 0 {
        is_power(n / r, r)
    } else {
        false
    }
}

#[via_fn]
proof fn lemma_is_power_decreases(n: nat, r: nat) {
    if n != 1 && r >= 2 && n > 1 && n % r == 0 {
        assert(n / r < n) by (nonlinear_arith)
            requires
                r >= 2,
                n > 1,
        ;
    }
}

/// Whether `n` is a power of `r`.
pub fn is_power_of(n: usize, r: usize) -> (b: bool)
    requires
        n >= 1,
        r >= 2,
    ensures
        b == is_power(n as nat, r as nat),
{
    let mut m = n;
    while m > 1 && m % r == 0
        invariant
            1 <= m <= n,
            r >= 2,
            is_power(m as nat, r as nat) == is_power(n as nat, r as nat),
        decreases m,
    {
        assert(m / r < m && m / r >= 1) by (nonlinear_arith)
            requires
                r >= 2,
                m > 1,
                m % r == 0,
        ;
        m = m / r;
    }
    m == 1
}

} // verus!
