//! What holds of every axis solve.

use vstd::prelude::*;
use crate::layouts::item::Item;
use crate::layouts::lemmas::{lemma_distribute, lemma_grown, lemma_recipient_open, lemma_start};
use crate::layouts::model::{
    currents, distribute, floored, grown, has_recipient, is_recipient, maxes, mins, normalized,
    raised_size, recipient, solvable, solved, stretches, within_bounds,
};
use crate::layouts::sums::{lemma_total_bounds, total};

verus! {

/// Bounds: a solve leaves every item's size between its minimum and its
/// maximum, and leaves the number of items, their minima and their
/// prepared maxima and weights as they were.
pub proof fn law_bounds(size: u32, items: Seq<Item>)
    ensures
        solved(size as int, items).len() == items.len(),
        within_bounds(solved(size as int, items)),
        mins(solved(size as int, items)) == mins(items),
        maxes(solved(size as int, items)) == maxes(normalized(items)),
        stretches(solved(size as int, items)) == stretches(normalized(items)),
{
    let start = floored(normalized(items));
    let target = raised_size(size as int, items);
    lemma_start(items);
    lemma_distribute(
        start,
        total(stretches(start)),
        target,
        (target - total(mins(items))) as nat,
    );
}

/// Conservation: wherever the items' bounds can add up to the size, the
/// resolved sizes of a non-empty layout add up to the requested size, or
/// to the sum of the minimum sizes where that is larger.
pub proof fn law_conservation(size: u32, items: Seq<Item>)
    requires
        items.len() > 0,
        solvable(size as int, items),
    ensures
        total(currents(solved(size as int, items))) == raised_size(size as int, items),
        raised_size(size as int, items) == if size >= total(mins(items)) {
            size as int
        } else {
            total(mins(items))
        },
{
    let start = floored(normalized(items));
    let target = raised_size(size as int, items);
    lemma_start(items);
    lemma_distribute(
        start,
        total(stretches(start)),
        target,
        (target - total(mins(items))) as nat,
    );
}

/// Handing out units never takes a unit back.
pub proof fn lemma_distribute_grows(items: Seq<Item>, total_stretch: int, size: int, units: nat, i: int)
    requires
        within_bounds(items),
        0 <= i < items.len(),
    ensures
        distribute(items, total_stretch, size, units).len() == items.len(),
        distribute(items, total_stretch, size, units)[i].current_size >= items[i].current_size,
    decreases units,
{
    if units == 0 || !has_recipient(items, total_stretch, size) {
    } else {
        let r = recipient(items, total_stretch, size);
        lemma_recipient_open(items, total_stretch, size, r);
        lemma_grown(items, r);
        lemma_distribute_grows(
            items.update(r, grown(items[r])),
            total_stretch,
            size,
            (units - 1) as nat,
            i,
        );
    }
}

/// Saturation: the item that receives a unit is below its maximum, and an
/// item at its maximum stays as it is however many units are handed out
/// after; they go to the other items.
pub proof fn law_saturated_stays(items: Seq<Item>, total_stretch: int, size: int, units: nat, i: int)
    requires
        within_bounds(items),
        0 <= i < items.len(),
        items[i].current_size == items[i].max_size,
    ensures
        !is_recipient(items, total_stretch, size, i),
        distribute(items, total_stretch, size, units).len() == items.len(),
        distribute(items, total_stretch, size, units)[i] == items[i],
{
    if is_recipient(items, total_stretch, size, i) {
        lemma_recipient_open(items, total_stretch, size, i);
    }
    lemma_distribute(items, total_stretch, size, units);
    lemma_distribute_grows(items, total_stretch, size, units, i);
    let after = distribute(items, total_stretch, size, units);
    assert(mins(after)[i] == mins(items)[i]);
    assert(maxes(after)[i] == maxes(items)[i]);
    assert(stretches(after)[i] == stretches(items)[i]);
}

/// Idempotence: a solve is a function of the size and the items, and
/// solving what a solve left, for the size it left, changes nothing.
pub proof fn law_resolve_is_stable(size: u32, items: Seq<Item>)
    requires
        solvable(size as int, items),
    ensures
        solvable(raised_size(size as int, items), solved(size as int, items)),
        raised_size(raised_size(size as int, items), solved(size as int, items)) == raised_size(
            size as int,
            items,
        ),
        solved(raised_size(size as int, items), solved(size as int, items)) == solved(
            size as int,
            items,
        ),
{
    let once = solved(size as int, items);
    law_bounds(size, items);
    lemma_normalized_again(items, once);
}

/// A solve depends on the requested size only through the size it is
/// raised to.
pub proof fn lemma_solved_by_raised_size(first: u32, second: u32, items: Seq<Item>)
    requires
        raised_size(first as int, items) == raised_size(second as int, items),
    ensures
        solved(first as int, items) == solved(second as int, items),
        solvable(first as int, items) == solvable(second as int, items),
{
}

/// Idempotence: solving what a solve left, for the size that was asked
/// for, changes nothing either.
pub proof fn law_resolve_for_same_request(size: u32, items: Seq<Item>)
    requires
        solvable(size as int, items),
    ensures
        solvable(size as int, solved(size as int, items)),
        raised_size(size as int, solved(size as int, items)) == raised_size(size as int, items),
        solved(size as int, solved(size as int, items)) == solved(size as int, items),
{
    law_resolve_is_stable(size, items);
    law_bounds(size, items);
    lemma_solved_by_raised_size(
        size,
        raised_size(size as int, items) as u32,
        solved(size as int, items),
    );
}

/// Items that differ from prepared items in their resolved sizes alone
/// are prepared to the same.
proof fn lemma_normalized_again(items: Seq<Item>, once: Seq<Item>)
    requires
        once.len() == items.len(),
        mins(once) == mins(items),
        maxes(once) == maxes(normalized(items)),
        stretches(once) == stretches(normalized(items)),
    ensures
        normalized(once) == normalized(items),
{
    let uniform = total(stretches(items)) == 0;
    let prepared = normalized(items);
    if items.len() > 0 {
        if uniform {
            assert forall|j: int| 0 <= j < once.len() implies 1 <= #[trigger] stretches(once)[j]
                <= 1 by {
                assert(stretches(once)[j] == stretches(prepared)[j]);
            }
            lemma_total_bounds(stretches(once), 1, 1);
            assert(once.len() * 1 == once.len()) by (nonlinear_arith);
        } else {
            assert(stretches(prepared) =~= stretches(items));
        }
        assert(total(stretches(once)) != 0);
    }
    assert forall|i: int| 0 <= i < items.len() implies normalized(once)[i] == prepared[i] by {
        assert(mins(once)[i] == mins(items)[i]);
        assert(maxes(once)[i] == maxes(prepared)[i]);
        assert(stretches(once)[i] == stretches(prepared)[i]);
        assert(mins(once)[i] == once[i].min_size);
        assert(mins(items)[i] == items[i].min_size);
        assert(maxes(once)[i] == once[i].max_size);
        assert(stretches(once)[i] == once[i].stretch);
    }
    assert(normalized(once) =~= prepared);
}

} // verus!
