use vstd::prelude::*;

verus! {

/// Moves every element of `s` one place towards the front: the first leaves
/// into `item`, and what `item` held enters at the back.
fn push_left<T>(s: &mut [T], item: &mut T)
    ensures
        old(s)@.len() == 0 ==> final(s)@ == old(s)@ && *final(item) == *old(item),
        old(s)@.len() > 0 ==> final(s)@ == old(s)@.subrange(1, old(s)@.len() as int).push(*old(item))
            && *final(item) == old(s)@[0],
{
    let n = s.len();
    let mut i: usize = n;
    while i > 0
        invariant
            i <= n,
            n == s@.len(),
            n == old(s)@.len(),
            forall|k: int| 0 <= k < i ==> #[trigger] s@[k] == old(s)@[k],
            forall|k: int| i <= k < n - 1 ==> #[trigger] s@[k] == old(s)@[k + 1],
            i < n ==> s@[n - 1] == *old(item),
            *item == if i < n {
                old(s)@[i as int]
            } else {
                *old(item)
            },
        decreases i,
    {
        i = i - 1;
        core::mem::swap(&mut s[i], item);
    }
    proof {
        if n > 0 {
            assert(s@ =~= old(s)@.subrange(1, n as int).push(*old(item)));
        } else {
            assert(s@ =~= old(s)@);
        }
    }
}

/// Moves every element of `s` one place towards the back: the last leaves
/// into `item`, and what `item` held enters at the front.
fn push_right<T>(s: &mut [T], item: &mut T)
    ensures
        old(s)@.len() == 0 ==> final(s)@ == old(s)@ && *final(item) == *old(item),
        old(s)@.len() > 0 ==> final(s)@ == seq![*old(item)] + old(s)@.subrange(0, old(s)@.len() - 1)
            && *final(item) == old(s)@[old(s)@.len() - 1],
{
    let n = s.len();
    let mut i: usize = 0;
    while i < n
        invariant
            i <= n,
            n == s@.len(),
            n == old(s)@.len(),
            forall|k: int| i <= k < n ==> #[trigger] s@[k] == old(s)@[k],
            forall|k: int| 1 <= k < i ==> #[trigger] s@[k] == old(s)@[k - 1],
            i > 0 ==> s@[0] == *old(item),
            *item == if i > 0 {
                old(s)@[i - 1]
            } else {
                *old(item)
            },
        decreases n - i,
    {
        core::mem::swap(&mut s[i], item);
        i = i + 1;
    }
    proof {
        if n > 0 {
            assert(s@ =~= seq![*old(item)] + old(s)@.subrange(0, n - 1));
        } else {
            assert(s@ =~= old(s)@);
        }
    }
}

/// `s` turned `n` places towards the front: what leaves the front enters at
/// the back.
pub open spec fn rotated_left<T>(s: Seq<T>, n: int) -> Seq<T> {
    s.subrange(n, s.len() as int) + s.subrange(0, n)
}

/// Shifting the elements of a slice along, through items outside it.
pub trait SliceShift<T>: View<V = Seq<T>> {
    /// Shifts the slice and `items`, read as one sequence with `items` behind
    /// the slice, towards the front by the length of `items`: what leaves the
    /// front of the slice ends up in `items`.
    fn shift_many_left(&mut self, items: &mut [T])
        ensures
            final(self)@.len() == old(self)@.len(),
            final(items)@.len() == old(items)@.len(),
            final(self)@ + final(items)@ == rotated_left(old(self)@ + old(items)@, old(items)@.len() as int),
    ;

    /// Shifts the slice and `items`, read as one sequence with `items` in
    /// front of the slice, towards the back by the length of `items`: what
    /// leaves the back of the slice ends up in `items`.
    fn shift_many_right(&mut self, items: &mut [T])
        ensures
            final(self)@.len() == old(self)@.len(),
            final(items)@.len() == old(items)@.len(),
            final(items)@ + final(self)@ == rotated_left(old(items)@ + old(self)@, old(self)@.len() as int),
    ;

    /// Shifts the slice one place towards the front: the first element goes
    /// into `item` and what `item` held enters at the back. A slice of at most
    /// one element is left as it is, and so is `item`.
    fn shift_left(&mut self, item: &mut T)
        ensures
            old(self)@.len() <= 1 ==> final(self)@ == old(self)@ && *final(item) == *old(item),
            old(self)@.len() > 1 ==> final(self)@ == old(self)@.subrange(1, old(self)@.len() as int).push(
                *old(item),
            ) && *final(item) == old(self)@[0],
    ;

    /// Shifts the slice one place towards the back: the last element goes
    /// into `item` and what `item` held enters at the front. A slice of at
    /// most one element is left as it is, and so is `item`.
    fn shift_right(&mut self, item: &mut T)
        ensures
            old(self)@.len() <= 1 ==> final(self)@ == old(self)@ && *final(item) == *old(item),
            old(self)@.len() > 1 ==> final(self)@ == seq![*old(item)] + old(self)@.subrange(
                0,
                old(self)@.len() - 1,
            ) && *final(item) == old(self)@[old(self)@.len() - 1],
    ;
}

impl<T> SliceShift<T> for [T] {
    fn shift_many_left(&mut self, items: &mut [T]) {
        let m = items.len();
        let ghost whole = old(self)@ + old(items)@;
        let mut step: usize = 0;
        while step < m
            invariant
                step <= m,
                m == items@.len(),
                m == old(items)@.len(),
                self@.len() == old(self)@.len(),
                whole == old(self)@ + old(items)@,
                self@ + items@ == rotated_left(whole, step as int),
            decreases m - step,
        {
            let ghost before = self@ + items@;
            let (first, rest) = items.split_at_mut(1);
            push_left(self, &mut first[0]);
            push_left(rest, &mut first[0]);
            proof {
                assert(self@ + items@ =~= rotated_left(before, 1));
                assert(rotated_left(rotated_left(whole, step as int), 1) =~= rotated_left(whole, step + 1));
            }
            step = step + 1;
        }
    }

    fn shift_many_right(&mut self, items: &mut [T]) {
        let m = items.len();
        let ghost whole = old(items)@ + old(self)@;
        let mut step: usize = 0;
        while step < m
            invariant
                step <= m,
                m == items@.len(),
                m == old(items)@.len(),
                self@.len() == old(self)@.len(),
                whole == old(items)@ + old(self)@,
                items@ + self@ == rotated_left(whole, whole.len() - step),
            decreases m - step,
        {
            let ghost before = items@ + self@;
            let (rest, last) = items.split_at_mut(m - 1);
            push_right(self, &mut last[0]);
            push_right(rest, &mut last[0]);
            proof {
                assert(items@ + self@ =~= rotated_left(before, before.len() - 1));
                assert(rotated_left(rotated_left(whole, whole.len() - step), whole.len() - 1) =~= rotated_left(
                    whole,
                    whole.len() - step - 1,
                ));
            }
            step = step + 1;
        }
        proof {
            assert(rotated_left(whole, whole.len() - m) =~= rotated_left(whole, old(self)@.len() as int));
        }
    }

    fn shift_left(&mut self, item: &mut T) {
        if self.len() <= 1 {
            return;
        }
        push_left(self, item);
    }

    fn shift_right(&mut self, item: &mut T) {
        if self.len() <= 1 {
            return;
        }
        push_right(self, item);
    }
}

} // verus!
