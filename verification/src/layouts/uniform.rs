//! The even split that a solve makes where no item has a weight.

use vstd::prelude::*;
use vstd::arithmetic::div_mod::{lemma_fundamental_div_mod, lemma_mod_pos_bound};
use crate::layouts::item::Item;
use crate::layouts::lemmas::{lemma_grown, lemma_highest_before, lemma_recipient_unique, lemma_start};
use crate::layouts::model::{
    currents, distribute, even_share, floored, gain, grown, is_recipient, mins, normalized,
    positive_before, raised_size, solved, stretches, within_bounds,
};
use crate::layouts::sums::{
    lemma_total_bounds, lemma_total_le, lemma_total_lt, lemma_total_strict, lemma_total_take, total,
};

verus! {

/// The share of item `i` where every item gets `q` and the first `rem`
/// items one more.
pub open spec fn share(q: int, rem: int, i: int) -> int {
    q + if i < rem { 1int } else { 0int }
}

/// The shares of `n` items.
pub open spec fn shares(n: nat, q: int, rem: int) -> Seq<int> {
    Seq::new(n, |i: int| share(q, rem, i))
}

/// The first `k` shares add up to `k` times `q` and one more for each of
/// the first `rem` among them.
proof fn lemma_shares_prefix(n: nat, q: int, rem: int, k: int)
    requires
        0 <= k <= n,
        0 <= rem,
    ensures
        total(shares(n, q, rem).take(k)) == k * q + if k < rem { k } else { rem },
    decreases k,
{
    if k == 0 {
        assert(shares(n, q, rem).take(0) =~= Seq::<int>::empty());
        assert(0 * q == 0);
    } else {
        lemma_shares_prefix(n, q, rem, k - 1);
        lemma_total_take(shares(n, q, rem), k - 1);
        assert((k - 1) * q + q == k * q) by (nonlinear_arith);
    }
}

/// The shares of `n` items add up to `n * q + rem`.
proof fn lemma_shares_total(n: nat, q: int, rem: int)
    requires
        0 <= rem <= n,
    ensures
        total(shares(n, q, rem)) == n * q + rem,
{
    lemma_shares_prefix(n, q, rem, n as int);
    assert(shares(n, q, rem).take(n as int) =~= shares(n, q, rem));
}

/// The score of an item of weight 1 below its share is positive, and at
/// least `rem`; below `q` it is above `rem`.
proof fn lemma_gain_below_share(item: Item, n: int, q: int, rem: int, i: int)
    requires
        0 <= rem < n,
        0 <= q,
        0 <= i,
        item.stretch == 1,
        item.current_size < share(q, rem, i),
        share(q, rem, i) <= item.max_size,
    ensures
        gain(item, n, n * q + rem) == n * q + rem - item.current_size * n,
        gain(item, n, n * q + rem) > 0,
        gain(item, n, n * q + rem) >= rem,
        item.current_size < q ==> gain(item, n, n * q + rem) >= rem + n,
        item.current_size == q ==> gain(item, n, n * q + rem) == rem && i < rem,
{
    let c = item.current_size as int;
    assert(n * q + rem != 0) by (nonlinear_arith)
        requires
            0 <= rem < n,
            0 <= q,
            c < q + 1,
            0 <= c,
            c < q || rem > 0,
    ;
    assert(1 * (n * q + rem) == n * q + rem);
    if c < q {
        assert(c * n <= n * q - n) by (nonlinear_arith)
            requires
                c <= q - 1,
                0 < n,
        ;
    } else {
        assert(c * n == n * q) by (nonlinear_arith)
            requires
                c == q,
        ;
    }
}

/// An item of weight 1 with a positive score holds at most `q`.
proof fn lemma_gain_positive(item: Item, n: int, q: int, rem: int)
    requires
        0 <= rem < n,
        0 <= q,
        item.stretch == 1,
        gain(item, n, n * q + rem) > 0,
    ensures
        item.current_size <= q,
        item.current_size != item.max_size,
        gain(item, n, n * q + rem) == n * q + rem - item.current_size * n,
        item.current_size == q ==> gain(item, n, n * q + rem) == rem,
        item.current_size < q ==> gain(item, n, n * q + rem) >= rem + n,
{
    let c = item.current_size as int;
    assert(1 * (n * q + rem) == n * q + rem);
    assert(c <= q) by (nonlinear_arith)
        requires
            c * n < n * q + rem,
            0 <= rem < n,
    ;
    if c < q {
        assert(c * n <= n * q - n) by (nonlinear_arith)
            requires
                c <= q - 1,
                0 < n,
        ;
    } else {
        assert(c * n == n * q) by (nonlinear_arith)
            requires
                c == q,
        ;
    }
}

/// Where every item weighs 1 and none is above its share, handing out what
/// is missing brings every item to its share.
proof fn lemma_uniform_distribute(items: Seq<Item>, q: int, rem: int, units: nat)
    requires
        items.len() > 0,
        0 <= rem < items.len(),
        0 <= q,
        within_bounds(items),
        forall|i: int| 0 <= i < items.len() ==> (#[trigger] items[i]).stretch == 1,
        forall|i: int|
            0 <= i < items.len() ==> (#[trigger] items[i]).current_size <= share(q, rem, i)
                <= items[i].max_size,
        total(currents(items)) + units == items.len() * q + rem,
    ensures
        distribute(items, items.len() as int, items.len() * q + rem, units).len() == items.len(),
        forall|i: int|
            0 <= i < items.len() ==> (#[trigger] distribute(
                items,
                items.len() as int,
                items.len() * q + rem,
                units,
            )[i]).current_size == share(q, rem, i),
    decreases units,
{
    let n = items.len() as int;
    let size = n * q + rem;
    let goal = shares(items.len(), q, rem);
    lemma_shares_total(items.len(), q, rem);
    if units == 0 {
        assert forall|i: int| 0 <= i < items.len() implies (#[trigger] items[i]).current_size
            == share(q, rem, i) by {
            if items[i].current_size < share(q, rem, i) {
                lemma_total_lt(currents(items), goal, i);
            }
        }
    } else {
        let k = lemma_total_strict(currents(items), goal);
        lemma_gain_below_share(items[k], n, q, rem, k);
        assert(positive_before(items, n, size, n));
        let b = lemma_highest_before(items, n, size, n);
        assert(is_recipient(items, n, size, b));
        lemma_recipient_unique(items, n, size, b, b);
        lemma_gain_positive(items[b], n, q, rem);
        if items[b].current_size == q && b >= rem {
            if items[k].current_size < q {
                assert(false);
            } else {
                assert(k < rem);
                assert(false);
            }
        }
        assert(items[b].current_size < share(q, rem, b));
        lemma_grown(items, b);
        let next = items.update(b, grown(items[b]));
        assert forall|i: int| 0 <= i < next.len() implies (#[trigger] next[i]).stretch == 1 by {
            if i != b {
                assert(next[i] == items[i]);
            }
        }
        assert forall|i: int| 0 <= i < next.len() implies (#[trigger] next[i]).current_size
            <= share(q, rem, i) <= next[i].max_size by {
            if i != b {
                assert(next[i] == items[i]);
            }
        }
        lemma_uniform_distribute(next, q, rem, (units - 1) as nat);
    }
}

/// Uniform fallback: where no item has a weight and each item's bounds
/// admit its even share, a solve gives every item its even share; the
/// remainder of the division goes to the earliest items, one unit each.
pub proof fn law_uniform_split(size: u32, items: Seq<Item>)
    requires
        items.len() > 0,
        forall|i: int| 0 <= i < items.len() ==> (#[trigger] items[i]).stretch == 0,
        forall|i: int|
            0 <= i < items.len() ==> (#[trigger] items[i]).min_size <= even_share(
                size as int,
                items.len() as int,
                i,
            ),
        forall|i: int|
            0 <= i < items.len() ==> even_share(size as int, items.len() as int, i) <= (
            #[trigger] normalized(items)[i]).max_size,
    ensures
        solved(size as int, items).len() == items.len(),
        forall|i: int|
            0 <= i < items.len() ==> (#[trigger] solved(size as int, items)[i]).current_size
                == even_share(size as int, items.len() as int, i),
{
    let n = items.len() as int;
    let q = size as int / n;
    let rem = size as int % n;
    lemma_fundamental_div_mod(size as int, n);
    lemma_mod_pos_bound(size as int, n);
    assert(0 <= q) by (nonlinear_arith)
        requires
            q == size as int / n,
            0 <= size as int,
            0 < n,
    ;
    let start = floored(normalized(items));
    let goal = shares(items.len(), q, rem);
    lemma_start(items);
    lemma_shares_total(items.len(), q, rem);
    assert(n * q + rem == size);
    lemma_total_bounds(stretches(items), 0, 0);
    assert(total(stretches(items)) == 0) by (nonlinear_arith)
        requires
            n * 0 <= total(stretches(items)) <= n * 0,
    ;
    assert forall|i: int| 0 <= i < start.len() implies (#[trigger] start[i]).stretch == 1 by {}
    lemma_total_bounds(stretches(start), 1, 1);
    assert(total(stretches(start)) == n) by (nonlinear_arith)
        requires
            n * 1 <= total(stretches(start)) <= n * 1,
    ;
    assert forall|i: int| 0 <= i < items.len() implies #[trigger] mins(items)[i] <= goal[i] by {
        assert(share(q, rem, i) == even_share(size as int, n, i));
    }
    lemma_total_le(mins(items), goal);
    assert(raised_size(size as int, items) == size);
    assert forall|i: int| 0 <= i < start.len() implies (#[trigger] start[i]).current_size <= share(
        q,
        rem,
        i,
    ) <= start[i].max_size by {
        assert(share(q, rem, i) == even_share(size as int, n, i));
    }
    lemma_uniform_distribute(start, q, rem, (size - total(mins(items))) as nat);
    assert forall|i: int| 0 <= i < items.len() implies (#[trigger] solved(
        size as int,
        items,
    )[i]).current_size == even_share(size as int, n, i) by {
        assert(share(q, rem, i) == even_share(size as int, n, i));
    }
}

} // verus!
