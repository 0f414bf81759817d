//! Sums over sequences of integers, with the facts the solver's proofs use.

use vstd::prelude::*;

verus! {

/// The sum of all elements of `s`.
pub open spec fn total(s: Seq<int>) -> int
    decreases s.len(),
{
    if s.len() == 0 {
        0
    } else {
        total(s.drop_last()) + s.last()
    }
}

/// The sum of a prefix grows by the element that the prefix gains.
pub proof fn lemma_total_take(s: Seq<int>, i: int)
    requires
        0 <= i < s.len(),
    ensures
        total(s.take(i + 1)) == total(s.take(i)) + s[i],
{
    assert(s.take(i + 1).drop_last() =~= s.take(i));
}

/// Replacing one element changes the sum by the difference.
pub proof fn lemma_total_update(s: Seq<int>, i: int, v: int)
    requires
        0 <= i < s.len(),
    ensures
        total(s.update(i, v)) == total(s) - s[i] + v,
    decreases s.len(),
{
    if i == s.len() - 1 {
        assert(s.update(i, v).drop_last() =~= s.drop_last());
    } else {
        assert(s.update(i, v).drop_last() =~= s.drop_last().update(i, v));
        lemma_total_update(s.drop_last(), i, v);
    }
}

/// A sum lies between the length times a lower and an upper bound of the
/// elements.
pub proof fn lemma_total_bounds(s: Seq<int>, lo: int, hi: int)
    requires
        forall|i: int| 0 <= i < s.len() ==> lo <= #[trigger] s[i] <= hi,
    ensures
        s.len() * lo <= total(s) <= s.len() * hi,
    decreases s.len(),
{
    if s.len() > 0 {
        lemma_total_bounds(s.drop_last(), lo, hi);
        assert((s.len() - 1) * lo + lo == s.len() * lo) by (nonlinear_arith);
        assert((s.len() - 1) * hi + hi == s.len() * hi) by (nonlinear_arith);
    }
}

/// A sum is monotone in each element.
pub proof fn lemma_total_le(a: Seq<int>, b: Seq<int>)
    requires
        a.len() == b.len(),
        forall|i: int| 0 <= i < a.len() ==> #[trigger] a[i] <= b[i],
    ensures
        total(a) <= total(b),
    decreases a.len(),
{
    if a.len() > 0 {
        lemma_total_le(a.drop_last(), b.drop_last());
    }
}

/// Where one sequence is below another in every element and strictly below
/// in their sums, it is strictly below in some element.
pub proof fn lemma_total_strict(a: Seq<int>, b: Seq<int>) -> (i: int)
    requires
        a.len() == b.len(),
        total(a) < total(b),
    ensures
        0 <= i < a.len(),
        a[i] < b[i],
    decreases a.len(),
{
    if a.last() < b.last() {
        a.len() - 1
    } else {
        lemma_total_strict(a.drop_last(), b.drop_last())
    }
}

/// A prefix of a sequence of non-negative elements sums to no more than
/// the whole.
pub proof fn lemma_total_prefix_le(s: Seq<int>, i: int)
    requires
        0 <= i <= s.len(),
        forall|j: int| 0 <= j < s.len() ==> 0 <= #[trigger] s[j],
    ensures
        0 <= total(s.take(i)) <= total(s),
    decreases s.len() - i,
{
    lemma_nonneg(s.take(i));
    if i == s.len() {
        assert(s.take(i) =~= s);
    } else {
        lemma_total_take(s, i);
        lemma_total_prefix_le(s, i + 1);
    }
}

/// A sum of non-negative elements is non-negative.
pub proof fn lemma_nonneg(s: Seq<int>)
    requires
        forall|j: int| 0 <= j < s.len() ==> 0 <= #[trigger] s[j],
    ensures
        0 <= total(s),
    decreases s.len(),
{
    if s.len() > 0 {
        lemma_nonneg(s.drop_last());
    }
}

/// Where one sequence is nowhere above another and below it in some
/// element, its sum is strictly smaller.
pub proof fn lemma_total_lt(a: Seq<int>, b: Seq<int>, k: int)
    requires
        a.len() == b.len(),
        forall|i: int| 0 <= i < a.len() ==> #[trigger] a[i] <= b[i],
        0 <= k < a.len(),
        a[k] < b[k],
    ensures
        total(a) < total(b),
    decreases a.len(),
{
    if k == a.len() - 1 {
        lemma_total_le(a.drop_last(), b.drop_last());
    } else {
        lemma_total_lt(a.drop_last(), b.drop_last(), k);
    }
}

} // verus!
