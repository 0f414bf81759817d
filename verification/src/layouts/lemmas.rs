//! Facts about the model of an axis solve.

use vstd::prelude::*;
use crate::layouts::item::Item;
use crate::layouts::model::{
    currents, distribute, floored, gain, grown, has_recipient, is_first_open, is_highest_before,
    is_recipient, maxes, mins, normalized, positive_before, recipient, stretches, within_bounds,
};
use crate::layouts::sums::{lemma_total_le, lemma_total_strict, lemma_total_update, total};

verus! {

/// Among the first `n` items one has the highest score.
pub proof fn lemma_highest_before(items: Seq<Item>, total_stretch: int, size: int, n: int) -> (b:
    int)
    requires
        0 <= n <= items.len(),
    ensures
        is_highest_before(items, total_stretch, size, n, b),
    decreases n,
{
    if n == 0 {
        0
    } else {
        let p = lemma_highest_before(items, total_stretch, size, n - 1);
        let g = gain(items[n - 1], total_stretch, size);
        if positive_before(items, total_stretch, size, n - 1) {
            if g > gain(items[p], total_stretch, size) {
                n - 1
            } else {
                p
            }
        } else if g > 0 {
            n - 1
        } else {
            0
        }
    }
}

/// No two items have the highest score.
pub proof fn lemma_highest_unique(items: Seq<Item>, total_stretch: int, size: int, n: int, a: int, b: int)
    requires
        is_highest_before(items, total_stretch, size, n, a),
        is_highest_before(items, total_stretch, size, n, b),
    ensures
        a == b,
{
}

/// Before an item below its maximum lies the earliest such item.
pub proof fn lemma_first_open(items: Seq<Item>, k: int) -> (i: int)
    requires
        0 <= k < items.len(),
        items[k].current_size < items[k].max_size,
    ensures
        is_first_open(items, i),
        i <= k,
    decreases k,
{
    if exists|j: int| 0 <= j < k && (#[trigger] items[j]).current_size < items[j].max_size {
        let j = choose|j: int| 0 <= j < k && (#[trigger] items[j]).current_size < items[j].max_size;
        lemma_first_open(items, j)
    } else {
        k
    }
}

/// No two items receive the next unit.
pub proof fn lemma_recipient_unique(items: Seq<Item>, total_stretch: int, size: int, a: int, b: int)
    requires
        is_recipient(items, total_stretch, size, a),
        is_recipient(items, total_stretch, size, b),
    ensures
        a == b,
        a == recipient(items, total_stretch, size),
        has_recipient(items, total_stretch, size),
{
    let c = recipient(items, total_stretch, size);
    if a != c {
        assert(is_recipient(items, total_stretch, size, c));
        if positive_before(items, total_stretch, size, items.len() as int) {
            lemma_highest_unique(items, total_stretch, size, items.len() as int, a, c);
        } else {
            if a < c {
                assert(items[a].current_size >= items[a].max_size);
            } else {
                assert(items[c].current_size >= items[c].max_size);
            }
        }
    }
    if a != b {
        if positive_before(items, total_stretch, size, items.len() as int) {
            lemma_highest_unique(items, total_stretch, size, items.len() as int, a, b);
        } else {
            if a < b {
                assert(items[a].current_size >= items[a].max_size);
            } else {
                assert(items[b].current_size >= items[b].max_size);
            }
        }
    }
}

/// The item that receives the next unit is below its maximum, wherever the
/// sizes lie within their bounds.
pub proof fn lemma_recipient_open(items: Seq<Item>, total_stretch: int, size: int, r: int)
    requires
        within_bounds(items),
        is_recipient(items, total_stretch, size, r),
    ensures
        0 <= r < items.len(),
        items[r].current_size < items[r].max_size,
{
}

/// An item below its maximum makes some item the recipient of the next
/// unit.
pub proof fn lemma_recipient_exists(items: Seq<Item>, total_stretch: int, size: int, k: int)
    requires
        0 <= k < items.len(),
        items[k].current_size < items[k].max_size,
    ensures
        has_recipient(items, total_stretch, size),
{
    if positive_before(items, total_stretch, size, items.len() as int) {
        let b = lemma_highest_before(items, total_stretch, size, items.len() as int);
        assert(is_recipient(items, total_stretch, size, b));
    } else {
        let i = lemma_first_open(items, k);
        assert(is_recipient(items, total_stretch, size, i));
    }
}

/// Handing one unit to an item adds one to the sum of the sizes and leaves
/// the bounds and weights alone.
pub proof fn lemma_grown(items: Seq<Item>, r: int)
    requires
        0 <= r < items.len(),
        items[r].current_size < items[r].max_size,
    ensures
        total(currents(items.update(r, grown(items[r])))) == total(currents(items)) + 1,
        mins(items.update(r, grown(items[r]))) == mins(items),
        maxes(items.update(r, grown(items[r]))) == maxes(items),
        stretches(items.update(r, grown(items[r]))) == stretches(items),
        within_bounds(items) ==> within_bounds(items.update(r, grown(items[r]))),
{
    let next = items.update(r, grown(items[r]));
    assert(currents(next) =~= currents(items).update(r, items[r].current_size + 1));
    lemma_total_update(currents(items), r, items[r].current_size + 1);
    assert(mins(next) =~= mins(items));
    assert(maxes(next) =~= maxes(items));
    assert(stretches(next) =~= stretches(items));
    if within_bounds(items) {
        assert forall|i: int| 0 <= i < next.len() implies {
            &&& (#[trigger] next[i]).min_size <= next[i].current_size
            &&& next[i].current_size <= next[i].max_size
        } by {
            if i != r {
                assert(next[i] == items[i]);
            }
        }
    }
}

/// Handing out units keeps every size within its bounds and leaves bounds
/// and weights alone; while the maxima leave room, every unit is placed.
pub proof fn lemma_distribute(items: Seq<Item>, total_stretch: int, size: int, units: nat)
    requires
        within_bounds(items),
    ensures
        distribute(items, total_stretch, size, units).len() == items.len(),
        within_bounds(distribute(items, total_stretch, size, units)),
        mins(distribute(items, total_stretch, size, units)) == mins(items),
        maxes(distribute(items, total_stretch, size, units)) == maxes(items),
        stretches(distribute(items, total_stretch, size, units)) == stretches(items),
        total(currents(items)) + units <= total(maxes(items)) ==> total(
            currents(distribute(items, total_stretch, size, units)),
        ) == total(currents(items)) + units,
        total(currents(distribute(items, total_stretch, size, units))) <= total(currents(items))
            + units,
    decreases units,
{
    if units == 0 {
    } else if !has_recipient(items, total_stretch, size) {
        if total(currents(items)) < total(maxes(items)) {
            let k = lemma_total_strict(currents(items), maxes(items));
            lemma_recipient_exists(items, total_stretch, size, k);
        }
        lemma_total_le(currents(items), maxes(items));
    } else {
        let r = recipient(items, total_stretch, size);
        lemma_recipient_open(items, total_stretch, size, r);
        lemma_grown(items, r);
        lemma_distribute(
            items.update(r, grown(items[r])),
            total_stretch,
            size,
            (units - 1) as nat,
        );
    }
}

/// A solve starts with every size at its minimum, within its bounds.
pub proof fn lemma_start(items: Seq<Item>)
    ensures
        floored(normalized(items)).len() == items.len(),
        within_bounds(floored(normalized(items))),
        currents(floored(normalized(items))) == mins(items),
        mins(floored(normalized(items))) == mins(items),
        maxes(floored(normalized(items))) == maxes(normalized(items)),
        stretches(floored(normalized(items))) == stretches(normalized(items)),
{
    let start = floored(normalized(items));
    assert(currents(start) =~= mins(items));
    assert(mins(start) =~= mins(items));
    assert(maxes(start) =~= maxes(normalized(items)));
    assert(stretches(start) =~= stretches(normalized(items)));
}

} // verus!
