use vstd::prelude::*;

use crate::is_power;

verus! {

/// Whether `p` maps the indices below its length to distinct indices below
/// its length.
pub open spec fn is_permutation(p: Seq<usize>) -> bool {
    &&& forall|i: int| 0 <= i < p.len() ==> #[trigger] p[i] < p.len()
    &&& forall|i: int, j: int| 0 <= i < p.len() && 0 <= j < p.len() && i != j ==> #[trigger] p[i] != #[trigger] p[j]
}

/// Swaps the elements at `a` and `b`.
fn swap_at<T>(s: &mut [T], a: usize, b: usize)
    requires
        a < b < old(s)@.len(),
    ensures
        final(s)@ == old(s)@.update(a as int, old(s)@[b as int]).update(b as int, old(s)@[a as int]),
{
    let (left, right) = s.split_at_mut(b);
    core::mem::swap(&mut left[a], &mut right[0]);
    proof {
        assert(final(s)@ =~= old(s)@.update(a as int, old(s)@[b as int]).update(b as int, old(s)@[a as int]));
    }
}

/// Rearranges `s` so that its element at `i` is the one that was at `p[i]`.
fn permute_by<T>(s: &mut [T], p: &Vec<usize>)
    requires
        p@.len() == old(s)@.len(),
        is_permutation(p@),
    ensures
        final(s)@.len() == old(s)@.len(),
        forall|i: int| 0 <= i < old(s)@.len() ==> #[trigger] final(s)@[i] == old(s)@[p@[i] as int],
{
    let n = s.len();
    // `from[k]`: where the element now at `k` was at first; `at[q]`: where
    // the element first at `q` is now.
    let mut from: Vec<usize> = Vec::with_capacity(n);
    let mut at: Vec<usize> = Vec::with_capacity(n);
    let mut k: usize = 0;
    while k < n
        invariant
            k <= n,
            from@.len() == k,
            at@.len() == k,
            forall|q: int| 0 <= q < k ==> #[trigger] from@[q] == q && at@[q] == q,
        decreases n - k,
    {
        from.push(k);
        at.push(k);
        k = k + 1;
    }
    assert forall|q: int| 0 <= q < n implies #[trigger] at@[q] < n && from@[at@[q] as int] == q by {
        assert(from@[q] == q);
    }
    let mut i: usize = 0;
    while i < n
        invariant
            i <= n,
            n == s@.len(),
            n == old(s)@.len(),
            n == p@.len(),
            is_permutation(p@),
            from@.len() == n,
            at@.len() == n,
            forall|k: int| 0 <= k < n ==> #[trigger] from@[k] < n && at@[from@[k] as int] == k,
            forall|q: int| 0 <= q < n ==> #[trigger] at@[q] < n && from@[at@[q] as int] == q,
            forall|k: int| 0 <= k < n ==> #[trigger] s@[k] == old(s)@[from@[k] as int],
            forall|k: int| 0 <= k < i ==> #[trigger] from@[k] == p@[k],
        decreases n - i,
    {
        let want = p[i];
        let j = at[want];
        proof {
            if j < i {
                assert(from@[j as int] == p@[j as int]);
                assert(from@[j as int] == want);
                assert(p@[i as int] != p@[j as int]);
            }
        }
        if j != i {
            let ghost s0 = s@;
            let ghost from0 = from@;
            let ghost at0 = at@;
            swap_at(s, i, j);
            let fi = from[i];
            from.set(i, want);
            from.set(j, fi);
            at.set(want, i);
            at.set(fi, j);
            proof {
                assert forall|k: int| 0 <= k < n implies #[trigger] s@[k] == old(s)@[from@[k] as int] by {
                    if k != i && k != j {
                        assert(s@[k] == s0[k]);
                    }
                }
                assert forall|k: int| 0 <= k < n implies #[trigger] from@[k] < n && at@[from@[k] as int] == k by {
                    if k != i && k != j {
                        assert(from@[k] == from0[k]);
                        assert(from0[k] != want && from0[k] != fi);
                    }
                }
                assert forall|q: int| 0 <= q < n implies #[trigger] at@[q] < n && from@[at@[q] as int] == q by {
                    if q != want && q != fi {
                        assert(at@[q] == at0[q]);
                        assert(at0[q] != i && at0[q] != j);
                    }
                }
            }
        }
        i = i + 1;
    }
}

/// `i` with its first `k` base-`r` digits reversed, where `n` is `r` to the
/// power `k`: the lowest digit becomes the highest.
pub open spec fn digit_rev(i: nat, r: nat, n: nat) -> nat
    decreases n
        via lemma_digit_rev_decreases
{
    if n <= 1 || r < 2 {
        0
    } else {
        (i % r) * (n / r) + digit_rev(i / r, r, n / r)
    }
}

#[via_fn]
proof fn lemma_digit_rev_decreases(i: nat, r: nat, n: nat) {
    if !(n <= 1 || r < 2) {
        assert(n / r < n) by (nonlinear_arith)
            requires
                r >= 2,
                n > 1,
        ;
    }
}

/// Digit reversal maps the numbers below `n` into the numbers below `n`, and
/// no two of them to the same number.
pub proof fn lemma_digit_rev_permutes(r: nat, n: nat)
    requires
        r >= 2,
        n >= 1,
        is_power(n, r),
    ensures
        forall|i: nat| i < n ==> #[trigger] digit_rev(i, r, n) < n,
        forall|i: nat, j: nat|
            i < n && j < n && #[trigger] digit_rev(i, r, n) == #[trigger] digit_rev(j, r, n) ==> i == j,
    decreases n,
{
    if n > 1 {
        let m = n / r;
        assert(m < n && m >= 1 && n == r * m) by (nonlinear_arith)
            requires
                r >= 2,
                n > 1,
                n % r == 0,
                m == n / r,
        ;
        lemma_digit_rev_permutes(r, m);
        assert forall|i: nat| i < n implies #[trigger] digit_rev(i, r, n) < n by {
            let a = i % r;
            let b = i / r;
            assert(b < m && a < r) by (nonlinear_arith)
                requires
                    i < n,
                    n == r * m,
                    r >= 2,
                    a == i % r,
                    b == i / r,
            ;
            let c = digit_rev(b, r, m);
            assert(a * m + c < n) by (nonlinear_arith)
                requires
                    a < r,
                    c < m,
                    n == r * m,
            ;
        }
        assert forall|i: nat, j: nat|
            i < n && j < n && #[trigger] digit_rev(i, r, n) == #[trigger] digit_rev(j, r, n) implies i == j by {
            let (ai, bi) = (i % r, i / r);
            let (aj, bj) = (j % r, j / r);
            assert(bi < m && bj < m) by (nonlinear_arith)
                requires
                    i < n,
                    j < n,
                    n == r * m,
                    r >= 2,
                    bi == i / r,
                    bj == j / r,
            ;
            let ci = digit_rev(bi, r, m);
            let cj = digit_rev(bj, r, m);
            assert(ai == aj && ci == cj) by (nonlinear_arith)
                requires
                    ai * m + ci == aj * m + cj,
                    ci < m,
                    cj < m,
                    m >= 1,
            ;
            assert(i == j) by (nonlinear_arith)
                requires
                    ai == i % r,
                    aj == j % r,
                    bi == i / r,
                    bj == j / r,
                    ai == aj,
                    bi == bj,
                    r >= 2,
            ;
        }
    }
}

/// `i` with its first `k` base-`r` digits reversed, where `n` is `r` to the
/// power `k`.
fn reverse_digits(i: usize, r: usize, n: usize) -> (d: usize)
    requires
        r >= 2,
        n >= 1,
        is_power(n as nat, r as nat),
        i < n,
    ensures
        d == digit_rev(i as nat, r as nat, n as nat),
{
    proof {
        lemma_digit_rev_permutes(r as nat, n as nat);
    }
    let mut acc: usize = 0;
    let mut x: usize = i;
    let mut m: usize = n;
    while m > 1
        invariant
            r >= 2,
            m >= 1,
            is_power(m as nat, r as nat),
            digit_rev(i as nat, r as nat, n as nat) == acc + digit_rev(x as nat, r as nat, m as nat),
            digit_rev(i as nat, r as nat, n as nat) < n,
        decreases m,
    {
        let digit = x % r;
        let step = m / r;
        proof {
            assert(step >= 1 && step < m) by (nonlinear_arith)
                requires
                    r >= 2,
                    m > 1,
                    m % r == 0,
                    step == m / r,
            ;
        }
        acc = acc + digit * step;
        x = x / r;
        m = step;
    }
    acc
}

/// The Gray code of `i`: `i` exclusive-or `i` shifted right by one.
pub open spec fn gray(i: usize) -> usize {
    i ^ (i >> 1)
}

/// A power of two has no bit in common with its predecessor.
proof fn lemma_power_of_two_bits(n: usize)
    requires
        n >= 1,
        is_power(n as nat, 2),
    ensures
        n & vstd::prelude::sub(n, 1) == 0,
    decreases n,
{
    if n == 1 {
        assert(n & vstd::prelude::sub(n, 1) == 0) by (bit_vector)
            requires
                n == 1,
        ;
    } else {
        let m = n / 2;
        lemma_power_of_two_bits(m);
        assert(n & vstd::prelude::sub(n, 1) == 0) by (bit_vector)
            requires
                m & vstd::prelude::sub(m, 1) == 0,
                m >= 1,
                m == n / 2,
                n % 2 == 0,
        ;
    }
}

/// For a power of two `n`, the Gray code maps the numbers below `n` into the
/// numbers below `n`, and no two of them to the same number.
pub proof fn lemma_gray_permutes(n: usize)
    requires
        n >= 1,
        is_power(n as nat, 2),
    ensures
        forall|i: usize| i < n ==> #[trigger] gray(i) < n,
        forall|i: usize, j: usize| #[trigger] gray(i) == #[trigger] gray(j) ==> i == j,
{
    lemma_power_of_two_bits(n);
    assert forall|i: usize| i < n implies #[trigger] gray(i) < n by {
        assert((i ^ (i >> 1)) < n) by (bit_vector)
            requires
                i < n,
                n & vstd::prelude::sub(n, 1) == 0,
                n >= 1,
        ;
    }
    assert forall|i: usize, j: usize| #[trigger] gray(i) == #[trigger] gray(j) implies i == j by {
        assert(i == j) by (bit_vector)
            requires
                (i ^ (i >> 1)) == (j ^ (j >> 1)),
        ;
    }
}

/// Reordering the elements of a slice by a fixed permutation of indices.
pub trait SlicePermute<T>: View<V = Seq<T>> {
    /// Moves to each index the element at the index whose binary digits are
    /// those of the first in reverse order. The length must be a power of two
    /// or at most two.
    fn bit_rev_permutation(&mut self)
        requires
            old(self)@.len() <= 2 || is_power(old(self)@.len(), 2),
        ensures
            final(self)@.len() == old(self)@.len(),
            forall|i: int|
                0 <= i < old(self)@.len() ==> #[trigger] final(self)@[i] == old(self)@[digit_rev(
                    i as nat,
                    2,
                    old(self)@.len(),
                ) as int],
    ;

    /// Moves to each index the element at the index whose base-`radix`
    /// digits are those of the first in reverse order. A slice no longer than
    /// `radix` is left as it is; a longer one must have a power of `radix`
    /// as its length.
    fn digit_rev_permutation(&mut self, radix: usize)
        requires
            old(self)@.len() <= radix || (radix >= 2 && is_power(old(self)@.len(), radix as nat)),
        ensures
            final(self)@.len() == old(self)@.len(),
            old(self)@.len() <= radix ==> final(self)@ == old(self)@,
            old(self)@.len() > radix ==> forall|i: int|
                0 <= i < old(self)@.len() ==> #[trigger] final(self)@[i] == old(self)@[digit_rev(
                    i as nat,
                    radix as nat,
                    old(self)@.len(),
                ) as int],
    ;

    /// Moves to each index the element at the Gray code of that index. The
    /// length must be a power of two or at most two.
    fn grey_code_permutation(&mut self)
        requires
            old(self)@.len() <= 2 || is_power(old(self)@.len(), 2),
        ensures
            final(self)@.len() == old(self)@.len(),
            forall|i: int|
                0 <= i < old(self)@.len() ==> #[trigger] final(self)@[i] == old(self)@[gray(i as usize) as int],
    ;
}

impl<T> SlicePermute<T> for [T] {
    fn bit_rev_permutation(&mut self) {
        let n = self.len();
        if n <= 2 {
            proof {
                assert forall|i: int| 0 <= i < n implies #[trigger] digit_rev(i as nat, 2, n as nat) == i by {
                    let u = i as nat;
                    if n == 2 {
                        assert(digit_rev(u / 2, 2, 1) == 0);
                        assert(digit_rev(u, 2, 2) == (u % 2) * 1 + digit_rev(u / 2, 2, 1));
                    } else {
                        assert(digit_rev(u, 2, n as nat) == 0);
                    }
                }
            }
            return;
        }
        self.digit_rev_permutation(2);
    }

    fn digit_rev_permutation(&mut self, radix: usize) {
        let n = self.len();
        if n <= radix {
            return;
        }
        let ghost r = radix as nat;
        proof {
            lemma_digit_rev_permutes(r, n as nat);
        }
        let mut p: Vec<usize> = Vec::with_capacity(n);
        let mut i: usize = 0;
        while i < n
            invariant
                i <= n,
                n == self@.len(),
                radix >= 2,
                is_power(n as nat, radix as nat),
                p@.len() == i,
                forall|k: int| 0 <= k < i ==> #[trigger] p@[k] == digit_rev(k as nat, radix as nat, n as nat),
            decreases n - i,
        {
            p.push(reverse_digits(i, radix, n));
            i = i + 1;
        }
        proof {
            assert forall|a: int, b: int| 0 <= a < n && 0 <= b < n && a != b implies #[trigger] p@[a] != #[trigger] p@[b] by {
                assert(p@[a] == digit_rev(a as nat, r, n as nat));
                assert(p@[b] == digit_rev(b as nat, r, n as nat));
            }
            assert forall|a: int| 0 <= a < n implies #[trigger] p@[a] < n by {
                assert(p@[a] == digit_rev(a as nat, r, n as nat));
            }
        }
        permute_by(self, &p);
    }

    fn grey_code_permutation(&mut self) {
        let n = self.len();
        if n <= 2 {
            proof {
                assert forall|i: int| 0 <= i < n implies #[trigger] gray(i as usize) == i by {
                    let u = i as usize;
                    assert(u < 2 ==> (u ^ (u >> 1)) == u) by (bit_vector);
                }
            }
            return;
        }
        proof {
            lemma_gray_permutes(n);
        }
        let mut p: Vec<usize> = Vec::with_capacity(n);
        let mut i: usize = 0;
        while i < n
            invariant
                i <= n,
                n == self@.len(),
                p@.len() == i,
                forall|k: int| 0 <= k < i ==> #[trigger] p@[k] == gray(k as usize),
            decreases n - i,
        {
            p.push(i ^ (i >> 1));
            i = i + 1;
        }
        proof {
            assert forall|a: int, b: int| 0 <= a < n && 0 <= b < n && a != b implies #[trigger] p@[a] != #[trigger] p@[b] by {
                assert(p@[a] == gray(a as usize));
                assert(p@[b] == gray(b as usize));
            }
            assert forall|a: int| 0 <= a < n implies #[trigger] p@[a] < n by {
                assert(p@[a] == gray(a as usize));
            }
        }
        permute_by(self, &p);
    }
}

} // verus!
