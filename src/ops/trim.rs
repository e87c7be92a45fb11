use vstd::prelude::*;

verus! {

/// Whether `f` answered true for each of `s[lo..hi]`.
pub open spec fn all_trimmed<T, F: Fn(&T) -> bool>(f: F, s: Seq<T>, lo: int, hi: int) -> bool {
    forall|k: int| lo <= k < hi ==> call_ensures(f, (&#[trigger] s[k],), true)
}

/// Whether `s[k]`, when it exists, is one for which `f` answered false.
pub open spec fn stops_at<T, F: Fn(&T) -> bool>(f: F, s: Seq<T>, k: int) -> bool {
    0 <= k < s.len() ==> call_ensures(f, (&s[k],), false)
}

/// Removing unwanted elements from the ends of a slice.
pub trait SliceTrim<T>: View<V = Seq<T>> {
    /// The slice without its leading and trailing elements for which `trim`
    /// returns true.
    fn trim<F: Fn(&T) -> bool>(&self, trim: F) -> (r: &[T])
        requires
            forall|i: int| 0 <= i < self@.len() ==> call_requires(trim, (&#[trigger] self@[i],)),
        ensures
            exists|lo: int, hi: int|
                0 <= lo <= hi <= self@.len() && r@ == self@.subrange(lo, hi) && all_trimmed(trim, self@, 0, lo)
                    && all_trimmed(trim, self@, hi, self@.len() as int) && (lo < hi ==> stops_at(trim, self@, lo)
                    && stops_at(trim, self@, hi - 1)),
    ;

    /// The slice without its leading elements for which `trim` returns true.
    fn trim_front<F: Fn(&T) -> bool>(&self, trim: F) -> (r: &[T])
        requires
            forall|i: int| 0 <= i < self@.len() ==> call_requires(trim, (&#[trigger] self@[i],)),
        ensures
            r@.len() <= self@.len(),
            r@ == self@.subrange(self@.len() - r@.len(), self@.len() as int),
            all_trimmed(trim, self@, 0, self@.len() - r@.len()),
            stops_at(trim, self@, self@.len() - r@.len()),
    ;

    /// The slice without its trailing elements for which `trim` returns true.
    fn trim_back<F: Fn(&T) -> bool>(&self, trim: F) -> (r: &[T])
        requires
            forall|i: int| 0 <= i < self@.len() ==> call_requires(trim, (&#[trigger] self@[i],)),
        ensures
            r@.len() <= self@.len(),
            r@ == self@.subrange(0, r@.len() as int),
            all_trimmed(trim, self@, r@.len() as int, self@.len() as int),
            stops_at(trim, self@, r@.len() - 1),
    ;

    /// As `trim`, giving the remaining part to be changed in place.
    fn trim_mut<F: Fn(&T) -> bool>(&mut self, trim: F) -> (r: &mut [T])
        requires
            forall|i: int| 0 <= i < old(self)@.len() ==> call_requires(trim, (&#[trigger] old(self)@[i],)),
        ensures
            exists|lo: int, hi: int|
                0 <= lo <= hi <= old(self)@.len() && r@ == old(self)@.subrange(lo, hi) && all_trimmed(
                    trim,
                    old(self)@,
                    0,
                    lo,
                ) && all_trimmed(trim, old(self)@, hi, old(self)@.len() as int) && (lo < hi ==> stops_at(
                    trim,
                    old(self)@,
                    lo,
                ) && stops_at(trim, old(self)@, hi - 1)) && final(self)@ == old(self)@.subrange(
                    0,
                    lo,
                ) + final(r)@ + old(self)@.subrange(hi, old(self)@.len() as int),
    ;

    /// As `trim_front`, giving the remaining part to be changed in place.
    fn trim_front_mut<F: Fn(&T) -> bool>(&mut self, trim: F) -> (r: &mut [T])
        requires
            forall|i: int| 0 <= i < old(self)@.len() ==> call_requires(trim, (&#[trigger] old(self)@[i],)),
        ensures
            r@.len() <= old(self)@.len(),
            r@ == old(self)@.subrange(old(self)@.len() - r@.len(), old(self)@.len() as int),
            all_trimmed(trim, old(self)@, 0, old(self)@.len() - r@.len()),
            stops_at(trim, old(self)@, old(self)@.len() - r@.len()),
            final(self)@ == old(self)@.subrange(0, old(self)@.len() - r@.len()) + final(r)@,
    ;

    /// As `trim_back`, giving the remaining part to be changed in place.
    fn trim_back_mut<F: Fn(&T) -> bool>(&mut self, trim: F) -> (r: &mut [T])
        requires
            forall|i: int| 0 <= i < old(self)@.len() ==> call_requires(trim, (&#[trigger] old(self)@[i],)),
        ensures
            r@.len() <= old(self)@.len(),
            r@ == old(self)@.subrange(0, r@.len() as int),
            all_trimmed(trim, old(self)@, r@.len() as int, old(self)@.len() as int),
            stops_at(trim, old(self)@, r@.len() - 1),
            final(self)@ == final(r)@ + old(self)@.subrange(r@.len() as int, old(self)@.len() as int),
    ;
}

/// The number of leading elements of `s` for which `trim` returns true.
fn front_count<T, F: Fn(&T) -> bool>(s: &[T], trim: &F) -> (lo: usize)
    requires
        forall|i: int| 0 <= i < s@.len() ==> call_requires(*trim, (&#[trigger] s@[i],)),
    ensures
        lo <= s@.len(),
        all_trimmed(*trim, s@, 0, lo as int),
        stops_at(*trim, s@, lo as int),
{
    let n = s.len();
    let mut lo: usize = 0;
    while lo < n
        invariant
            lo <= n,
            n == s@.len(),
            forall|i: int| 0 <= i < n ==> call_requires(*trim, (&#[trigger] s@[i],)),
            all_trimmed(*trim, s@, 0, lo as int),
        decreases n - lo,
    {
        if !trim(&s[lo]) {
            return lo;
        }
        lo = lo + 1;
    }
    lo
}

/// The length of `s` without its trailing elements for which `trim` returns
/// true.
fn back_count<T, F: Fn(&T) -> bool>(s: &[T], trim: &F) -> (hi: usize)
    requires
        forall|i: int| 0 <= i < s@.len() ==> call_requires(*trim, (&#[trigger] s@[i],)),
    ensures
        hi <= s@.len(),
        all_trimmed(*trim, s@, hi as int, s@.len() as int),
        stops_at(*trim, s@, hi - 1),
{
    let n = s.len();
    let mut hi: usize = n;
    while hi > 0
        invariant
            hi <= n,
            n == s@.len(),
            forall|i: int| 0 <= i < n ==> call_requires(*trim, (&#[trigger] s@[i],)),
            all_trimmed(*trim, s@, hi as int, n as int),
        decreases hi,
    {
        if !trim(&s[hi - 1]) {
            return hi;
        }
        hi = hi - 1;
    }
    hi
}

/// Where the part of `s` that `trim` keeps at both ends starts and ends:
/// the back is trimmed first, then the front of what is left.
fn kept_range<T, F: Fn(&T) -> bool>(s: &[T], trim: &F) -> (r: (usize, usize))
    requires
        forall|i: int| 0 <= i < s@.len() ==> call_requires(*trim, (&#[trigger] s@[i],)),
    ensures
        r.0 <= r.1 <= s@.len(),
        all_trimmed(*trim, s@, 0, r.0 as int),
        all_trimmed(*trim, s@, r.1 as int, s@.len() as int),
        r.0 < r.1 ==> stops_at(*trim, s@, r.0 as int) && stops_at(*trim, s@, r.1 - 1),
{
    let hi = back_count(s, trim);
    let head = vstd::slice::slice_subrange(s, 0, hi);
    let lo = front_count(head, trim);
    assert forall|k: int| 0 <= k < lo implies call_ensures(*trim, (&#[trigger] s@[k],), true) by {
        assert(head@[k] == s@[k]);
    }
    if lo < hi {
        assert(head@[lo as int] == s@[lo as int]);
    }
    (lo, hi)
}

impl<T> SliceTrim<T> for [T] {
    fn trim<F: Fn(&T) -> bool>(&self, trim: F) -> (r: &[T]) {
        let (lo, hi) = kept_range(self, &trim);
        vstd::slice::slice_subrange(self, lo, hi)
    }

    fn trim_front<F: Fn(&T) -> bool>(&self, trim: F) -> (r: &[T]) {
        let lo = front_count(self, &trim);
        vstd::slice::slice_subrange(self, lo, self.len())
    }

    fn trim_back<F: Fn(&T) -> bool>(&self, trim: F) -> (r: &[T]) {
        let hi = back_count(self, &trim);
        vstd::slice::slice_subrange(self, 0, hi)
    }

    fn trim_mut<F: Fn(&T) -> bool>(&mut self, trim: F) -> (r: &mut [T]) {
        let (lo, hi) = kept_range(self, &trim);
        let ghost whole = self@;
        let (head, tail) = self.split_at_mut(hi);
        let (front, middle) = head.split_at_mut(lo);
        assert(middle@ == whole.subrange(lo as int, hi as int));
        assert(front@ == whole.subrange(0, lo as int));
        assert(tail@ == whole.subrange(hi as int, whole.len() as int));
        middle
    }

    fn trim_front_mut<F: Fn(&T) -> bool>(&mut self, trim: F) -> (r: &mut [T]) {
        let lo = front_count(self, &trim);
        let (_front, rest) = self.split_at_mut(lo);
        rest
    }

    fn trim_back_mut<F: Fn(&T) -> bool>(&mut self, trim: F) -> (r: &mut [T]) {
        let hi = back_count(self, &trim);
        let (rest, _back) = self.split_at_mut(hi);
        rest
    }
}

} // verus!
