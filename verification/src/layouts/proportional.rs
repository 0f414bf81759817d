//! How close a solve comes to the shares that the weights ask for.

use vstd::prelude::*;
use crate::layouts::item::Item;
use crate::layouts::lemmas::{
    lemma_grown, lemma_highest_before, lemma_recipient_unique, lemma_start,
};
use crate::layouts::model::{
    currents, distribute, floored, gain, grown, is_recipient, maxes, mins, normalized,
    positive_before, raised_size, solved, stretches, within_bounds,
};
use crate::layouts::laws::law_bounds;
use crate::layouts::sums::{
    lemma_nonneg, lemma_total_bounds, lemma_total_lt, lemma_total_strict, lemma_total_update,
    total,
};

verus! {

/// How far an item is behind its share, scaled by the sum of the weights:
/// its weight times the size, less its resolved size times the sum of the
/// weights.
pub open spec fn lag(item: Item, total_stretch: int, size: int) -> int {
    item.stretch * size - item.current_size * total_stretch
}

/// The lags of the items.
pub open spec fn lags(items: Seq<Item>, total_stretch: int, size: int) -> Seq<int> {
    Seq::new(items.len(), |i: int| lag(items[i], total_stretch, size))
}

/// Whether no item that holds a unit is a whole unit ahead of its share,
/// or a whole unit ahead of any other item.
pub open spec fn balanced(items: Seq<Item>, total_stretch: int, size: int) -> bool {
    &&& forall|j: int|
        0 <= j < items.len() && (#[trigger] items[j]).current_size >= 1 ==> lag(
            items[j],
            total_stretch,
            size,
        ) > -total_stretch
    &&& forall|i: int, j: int|
        0 <= i < items.len() && 0 <= j < items.len() && (#[trigger] items[j]).current_size >= 1
            ==> lag(#[trigger] items[i], total_stretch, size) <= lag(
            items[j],
            total_stretch,
            size,
        ) + total_stretch
}

/// The lags add up to the size times the sum of the weights, less the sum
/// of the resolved sizes times `total_stretch`.
proof fn lemma_lags_total(items: Seq<Item>, total_stretch: int, size: int)
    ensures
        total(lags(items, total_stretch, size)) == size * total(stretches(items)) - total_stretch
            * total(currents(items)),
    decreases items.len(),
{
    if items.len() == 0 {
        assert(size * 0 - total_stretch * 0 == 0);
    } else {
        let front = items.drop_last();
        lemma_lags_total(front, total_stretch, size);
        assert(lags(items, total_stretch, size).drop_last() =~= lags(front, total_stretch, size));
        assert(stretches(items).drop_last() =~= stretches(front));
        assert(currents(items).drop_last() =~= currents(front));
        let s = items.last().stretch as int;
        let c = items.last().current_size as int;
        let ss = total(stretches(front));
        let cs = total(currents(front));
        assert(size * ss - total_stretch * cs + (s * size - c * total_stretch) == size * (ss + s)
            - total_stretch * (cs + c)) by (nonlinear_arith);
    }
}

/// Where the resolved sizes add up to less than the size, some item lags
/// behind its share and is below its maximum.
proof fn lemma_some_lag(items: Seq<Item>, total_stretch: int, size: int) -> (k: int)
    requires
        total_stretch == total(stretches(items)),
        total_stretch > 0,
        within_bounds(items),
        forall|i: int| 0 <= i < items.len() ==> (#[trigger] items[i]).max_size >= size,
        total(currents(items)) < size,
    ensures
        0 <= k < items.len(),
        lag(items[k], total_stretch, size) > 0,
        gain(items[k], total_stretch, size) == lag(items[k], total_stretch, size),
{
    lemma_lags_total(items, total_stretch, size);
    let left = size - total(currents(items));
    assert(size * total_stretch - total_stretch * total(currents(items)) == total_stretch * left)
        by (nonlinear_arith)
        requires
            left == size - total(currents(items)),
    ;
    assert(total_stretch * left > 0) by (nonlinear_arith)
        requires
            total_stretch > 0,
            left > 0,
    ;
    let zeros = Seq::new(items.len(), |i: int| 0int);
    lemma_total_bounds(zeros, 0, 0);
    assert(items.len() * 0 == 0);
    let k = lemma_total_strict(zeros, lags(items, total_stretch, size));
    lemma_below_size(items, size, k);
    k
}

/// Where the resolved sizes add up to less than the size, every item holds
/// less than the size.
proof fn lemma_below_size(items: Seq<Item>, size: int, k: int)
    requires
        0 <= k < items.len(),
        total(currents(items)) < size,
    ensures
        items[k].current_size < size,
{
    let held = currents(items);
    lemma_total_update(held, k, 0);
    lemma_nonneg(held.update(k, 0));
}

/// Where no bound is in the way and the items are balanced, handing out
/// what is missing leaves every item less than a unit from its share.
proof fn lemma_proportional_distribute(items: Seq<Item>, total_stretch: int, size: int, units: nat)
    requires
        total_stretch == total(stretches(items)),
        total_stretch > 0,
        within_bounds(items),
        forall|i: int| 0 <= i < items.len() ==> (#[trigger] items[i]).max_size >= size,
        total(currents(items)) + units == size,
        balanced(items, total_stretch, size),
    ensures
        distribute(items, total_stretch, size, units).len() == items.len(),
        forall|i: int|
            0 <= i < items.len() ==> -total_stretch < lag(
                #[trigger] distribute(items, total_stretch, size, units)[i],
                total_stretch,
                size,
            ) < total_stretch,
    decreases units,
{
    let t = total_stretch;
    lemma_nonneg(currents(items));
    if units == 0 {
        lemma_lags_total(items, t, size);
        assert(size * t - t * size == 0) by (nonlinear_arith);
        assert forall|i: int| 0 <= i < items.len() implies -t < lag(#[trigger] items[i], t, size)
            < t by {
            if items[i].current_size == 0 {
                assert(items[i].stretch * size >= 0) by (nonlinear_arith)
                    requires
                        items[i].stretch >= 0,
                        size >= 0,
                ;
                assert(0 * t == 0);
            }
            if lag(items[i], t, size) > 0 {
                let zeros = Seq::new(items.len(), |i: int| 0int);
                lemma_total_bounds(zeros, 0, 0);
                assert(items.len() * 0 == 0);
                if forall|j: int| 0 <= j < items.len() ==> 0 <= #[trigger] lags(items, t, size)[j] {
                    lemma_total_lt(zeros, lags(items, t, size), i);
                }
                let j = choose|j: int|
                    0 <= j < items.len() && 0 > #[trigger] lags(items, t, size)[j];
                if items[j].current_size == 0 {
                    assert(items[j].stretch * size >= 0) by (nonlinear_arith)
                        requires
                            items[j].stretch >= 0,
                            size >= 0,
                    ;
                    assert(0 * t == 0);
                }
            }
        }
    } else {
        let k = lemma_some_lag(items, t, size);
        assert(positive_before(items, t, size, items.len() as int));
        let b = lemma_highest_before(items, t, size, items.len() as int);
        assert(is_recipient(items, t, size, b));
        lemma_recipient_unique(items, t, size, b, b);
        lemma_below_size(items, size, b);
        lemma_grown(items, b);
        let next = items.update(b, grown(items[b]));
        let before = lag(items[b], t, size);
        assert(gain(items[b], t, size) == before);
        assert(lag(next[b], t, size) == before - t) by (nonlinear_arith)
            requires
                before == items[b].stretch * size - items[b].current_size * t,
                next[b].stretch == items[b].stretch,
                next[b].current_size == items[b].current_size + 1,
        ;
        assert forall|i: int| 0 <= i < items.len() implies lag(#[trigger] items[i], t, size)
            <= before by {
            lemma_gain_is_lag(items, t, size, i);
        }
        assert forall|i: int| 0 <= i < next.len() && i != b implies #[trigger] next[i]
            == items[i] by {}
        assert(balanced(next, t, size)) by {
            assert forall|j: int|
                0 <= j < next.len() && (#[trigger] next[j]).current_size >= 1 implies lag(
                next[j],
                t,
                size,
            ) > -t by {
                if j != b {
                    assert(next[j] == items[j]);
                }
            }
            assert forall|i: int, j: int|
                0 <= i < next.len() && 0 <= j < next.len() && (#[trigger] next[j]).current_size
                    >= 1 implies lag(#[trigger] next[i], t, size) <= lag(next[j], t, size)
                + t by {
                if i != b {
                    assert(next[i] == items[i]);
                }
                if j != b {
                    assert(next[j] == items[j]);
                }
            }
        }
        lemma_proportional_distribute(next, t, size, (units - 1) as nat);
    }
}

/// While the resolved sizes add up to less than the size and no maximum is
/// below the size, the score of an item is its lag.
proof fn lemma_gain_is_lag(items: Seq<Item>, total_stretch: int, size: int, i: int)
    requires
        0 <= i < items.len(),
        total_stretch > 0,
        forall|i: int| 0 <= i < items.len() ==> (#[trigger] items[i]).max_size >= size,
        total(currents(items)) < size,
    ensures
        gain(items[i], total_stretch, size) == lag(items[i], total_stretch, size),
{
    lemma_below_size(items, size, i);
}

/// Proportionality: where every minimum is zero and no maximum is below
/// the size, a solve leaves every item less than one unit from the share
/// of the size that its weight asks for. With `t` the sum of the weights
/// as the solve takes them, `stretch * size - current_size * t` lies
/// strictly between `-t` and `t`.
pub proof fn law_proportional_split(size: u32, items: Seq<Item>)
    requires
        items.len() > 0,
        forall|i: int| 0 <= i < items.len() ==> (#[trigger] items[i]).min_size == 0,
        forall|i: int| 0 <= i < items.len() ==> (#[trigger] items[i]).max_size >= size,
    ensures
        solved(size as int, items).len() == items.len(),
        stretches(solved(size as int, items)) == stretches(normalized(items)),
        total(stretches(normalized(items))) > 0,
        forall|i: int|
            0 <= i < items.len() ==> -total(stretches(normalized(items))) < lag(
                #[trigger] solved(size as int, items)[i],
                total(stretches(normalized(items))),
                size as int,
            ) < total(stretches(normalized(items))),
{
    let start = floored(normalized(items));
    lemma_start(items);
    law_bounds(size, items);
    lemma_total_bounds(mins(items), 0, 0);
    assert(items.len() * 0 == 0);
    assert(raised_size(size as int, items) == size);
    let t = total(stretches(start));
    if total(stretches(items)) == 0 {
        lemma_total_bounds(stretches(start), 1, 1);
        assert(items.len() * 1 == items.len());
    } else {
        assert(stretches(start) =~= stretches(items));
        lemma_nonneg(stretches(items));
    }
    assert forall|i: int| 0 <= i < start.len() implies (#[trigger] start[i]).max_size >= size by {
        assert(maxes(start)[i] == maxes(normalized(items))[i]);
    }
    lemma_proportional_distribute(start, t, size as int, size as nat);
}

} // verus!
