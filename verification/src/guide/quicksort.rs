//! Sorting in place by partitioning around the last value.

use vstd::prelude::*;

verus! {

/// `<[T]>::swap` of std: the values at `a` and `b` change places and the
/// rest of the slice stays. std panics where an index is out of bounds,
/// which `requires` leaves out.
pub assume_specification<Elem>[ <[Elem]>::swap ](slice: &mut [Elem], a: usize, b: usize)
    requires
        a < old(slice)@.len(),
        b < old(slice)@.len(),
    ensures
        final(slice)@ == old(slice)@.update(a as int, old(slice)@[b as int]).update(
            b as int,
            old(slice)@[a as int],
        ),
;

/// No value of `s` comes before a smaller one.
pub open spec fn sorted(s: Seq<i64>) -> bool {
    forall|i: int, j: int| 0 <= i <= j < s.len() ==> s[i] <= s[j]
}

/// Every value of `s` is `bound` at most.
pub open spec fn all_at_most(s: Seq<i64>, bound: i64) -> bool {
    forall|i: int| 0 <= i < s.len() ==> s[i] <= bound
}

/// Every value of `s` is above `bound`.
pub open spec fn all_above(s: Seq<i64>, bound: i64) -> bool {
    forall|i: int| 0 <= i < s.len() ==> s[i] > bound
}

/// Something that can be sorted in place.
pub trait Quicksort {
    /// The values in their order.
    spec fn items(&self) -> Seq<i64>;

    /// Sorts the values: afterwards they are the same values, each as often
    /// as before, in rising order.
    fn quicksort(&mut self)
        ensures
            sorted(final(self).items()),
            final(self).items().to_multiset() == old(self).items().to_multiset(),
    ;
}

impl Quicksort for [i64] {
    open spec fn items(&self) -> Seq<i64> {
        self@
    }

    fn quicksort(&mut self) {
        _quicksort(self);
    }
}

/// How much work is left on `s`: its length, and after that whether its
/// last value is above its first, in which case the next partition splits
/// off a part on each side.
pub open spec fn splits_next(s: Seq<i64>) -> nat {
    if s.len() >= 2 && s[0] < s.last() {
        0
    } else {
        1
    }
}

/// Sorts `slice`: afterwards it holds the same values, each as often as
/// before, in rising order.
pub fn _quicksort(slice: &mut [i64])
    ensures
        sorted(final(slice)@),
        final(slice)@.to_multiset() == old(slice)@.to_multiset(),
    decreases old(slice)@.len(), splits_next(old(slice)@),
{
    if slice.len() < 2 {
        return ;
    }
    let ghost before = slice@;
    let ghost pivot = before.last();
    let (left, right) = partition(slice);
    let ghost left0 = left@;
    let ghost right0 = right@;
    proof {
        if left0.len() == 0 {
            assert(right0.len() == before.len());
            assert(right0.last() == right0.drop_first()[right0.len() - 2]);
            assert(right0[0] < right0.last());
            assert(before.drop_last()[0] == before[0]);
            assert(splits_next(right0) == 0);
            assert(splits_next(before) == 1);
        }
    }
    _quicksort(left);
    _quicksort(right);
    proof {
        let l = left@;
        let r = right@;
        lemma_bound_kept(left0, l, pivot, true);
        lemma_bound_kept(right0, r, pivot, false);
        vstd::seq_lib::lemma_multiset_commutative(left0, right0);
        vstd::seq_lib::lemma_multiset_commutative(l, r);
        assert forall|i: int, j: int| 0 <= i <= j < (l + r).len() implies (l + r)[i] <= (l
            + r)[j] by {
            if j < l.len() {
            } else if i >= l.len() {
                assert((l + r)[i] == r[i - l.len()]);
                assert((l + r)[j] == r[j - l.len()]);
            } else {
                assert((l + r)[j] == r[j - l.len()]);
            }
        }
    }
}

/// Every value of `s` is `bound` at least.
pub open spec fn all_at_least(s: Seq<i64>, bound: i64) -> bool {
    forall|i: int| 0 <= i < s.len() ==> s[i] >= bound
}

/// A bound on the values of a list holds of every list of the same values.
proof fn lemma_bound_kept(before: Seq<i64>, after: Seq<i64>, bound: i64, upper: bool)
    requires
        before.to_multiset() == after.to_multiset(),
        upper ==> all_at_most(before, bound),
        !upper ==> all_at_least(before, bound),
    ensures
        upper ==> all_at_most(after, bound),
        !upper ==> all_at_least(after, bound),
        after.len() == before.len(),
{
    broadcast use vstd::seq_lib::group_to_multiset_ensures;

    assert forall|i: int| 0 <= i < after.len() implies (if upper {
        after[i] <= bound
    } else {
        after[i] >= bound
    }) by {
        assert(after.to_multiset().count(after[i]) > 0);
        assert(before.to_multiset().count(after[i]) > 0);
        assert(before.contains(after[i]));
        let k = choose|k: int| 0 <= k < before.len() && before[k] == after[i];
        assert(before[k] == after[i]);
    }
    vstd::seq_lib::to_multiset_len(before);
    vstd::seq_lib::to_multiset_len(after);
}

/// Changing the places of two values keeps the values.
proof fn lemma_swap_keeps_values(s: Seq<i64>, a: int, b: int)
    requires
        0 <= a < s.len(),
        0 <= b < s.len(),
    ensures
        s.update(a, s[b]).update(b, s[a]).to_multiset() == s.to_multiset(),
{
    let t = s.update(a, s[b]);
    vstd::seq_lib::to_multiset_update(s, a, s[b]);
    vstd::seq_lib::to_multiset_update(t, b, s[a]);
    vstd::seq_lib::to_multiset_contains(s, s[a]);
    vstd::seq_lib::to_multiset_contains(s, s[b]);
    assert(s.contains(s[a]));
    assert(s.contains(s[b]));
    assert(t.update(b, s[a]).to_multiset() =~= s.to_multiset());
}

/// Splits `slice` around its last value, the pivot. The values that are the
/// pivot at most go to the front and the others behind them; the pivot
/// itself is the first value of the second part. Returns the part before
/// the pivot and the part from the pivot on.
pub fn partition(slice: &mut [i64]) -> (parts: (&mut [i64], &mut [i64]))
    requires
        old(slice)@.len() > 0,
    ensures
        final(slice)@ == final(parts.0)@ + final(parts.1)@,
        (parts.0@ + parts.1@).to_multiset() == old(slice)@.to_multiset(),
        parts.0@.len() + parts.1@.len() == old(slice)@.len(),
        all_at_most(parts.0@, old(slice)@.last()),
        parts.1@.len() > 0,
        parts.1@[0] == old(slice)@.last(),
        all_at_least(parts.1@, old(slice)@.last()),
        all_above(parts.1@.drop_first(), old(slice)@.last()),
        parts.0@.len() == 0 ==> all_above(old(slice)@.drop_last(), old(slice)@.last()),
{
    let ghost before = slice@;
    let n = slice.len();
    let pivot_value = slice[n - 1];
    let mut pivot_index: usize = 0;
    let mut i: usize = 0;
    while i < n
        invariant
            n == before.len(),
            slice@.len() == n,
            pivot_value == before.last(),
            pivot_index <= i <= n,
            slice@.to_multiset() == before.to_multiset(),
            forall|k: int| i <= k < n ==> slice@[k] == before[k],
            forall|k: int| 0 <= k < pivot_index ==> slice@[k] <= pivot_value,
            forall|k: int| pivot_index <= k < i ==> slice@[k] > pivot_value,
            pivot_index == 0 ==> forall|k: int| 0 <= k < i ==> before[k] > pivot_value,
            i == n && pivot_index == 1 ==> forall|k: int| 0 <= k < n - 1 ==> before[k] > pivot_value,
            i == n ==> pivot_index > 0 && slice@[pivot_index - 1] == pivot_value,
        decreases n - i,
    {
        if slice[i] <= pivot_value {
            proof {
                lemma_swap_keeps_values(slice@, i as int, pivot_index as int);
            }
            slice.swap(i, pivot_index);
            pivot_index += 1;
        }
        i += 1;
    }
    if pivot_index < n - 1 {
        proof {
            lemma_swap_keeps_values(slice@, pivot_index as int, n - 1);
        }
        slice.swap(pivot_index, n - 1);
    }
    let ghost arranged = slice@;
    let parts = slice.split_at_mut(pivot_index - 1);
    proof {
        assert(parts.0@ + parts.1@ =~= arranged);
        assert forall|k: int| 0 <= k < parts.1@.drop_first().len() implies parts.1@.drop_first()[k]
            > pivot_value by {
            assert(parts.1@.drop_first()[k] == arranged[pivot_index + k]);
        }
        assert forall|k: int| 0 <= k < parts.1@.len() implies parts.1@[k] >= pivot_value by {
            assert(parts.1@[k] == arranged[pivot_index - 1 + k]);
        }
        if parts.0@.len() == 0 {
            assert forall|k: int| 0 <= k < before.drop_last().len() implies before.drop_last()[k]
                > pivot_value by {
                assert(before.drop_last()[k] == before[k]);
            }
        }
    }
    parts
}

} // verus!
