//! The mathematical model of an axis solve: what a solve makes of a
//! requested size and a sequence of items.

use vstd::prelude::*;
use crate::layouts::item::Item;
use crate::layouts::sums::total;

verus! {

/// The items' minimum sizes.
pub open spec fn mins(items: Seq<Item>) -> Seq<int> {
    Seq::new(items.len(), |i: int| items[i].min_size as int)
}

/// The items' maximum sizes.
pub open spec fn maxes(items: Seq<Item>) -> Seq<int> {
    Seq::new(items.len(), |i: int| items[i].max_size as int)
}

/// The items' stretch weights.
pub open spec fn stretches(items: Seq<Item>) -> Seq<int> {
    Seq::new(items.len(), |i: int| items[i].stretch as int)
}

/// The items' resolved sizes.
pub open spec fn currents(items: Seq<Item>) -> Seq<int> {
    Seq::new(items.len(), |i: int| items[i].current_size as int)
}

/// The space an item holds at least: its resolved size, or its minimum
/// where that is larger.
pub open spec fn floor_of(item: Item) -> int {
    if item.current_size < item.min_size {
        item.min_size as int
    } else {
        item.current_size as int
    }
}

/// The space each item holds at least.
pub open spec fn floors(items: Seq<Item>) -> Seq<int> {
    Seq::new(items.len(), |i: int| floor_of(items[i]))
}

/// The requested size, raised to the sum of the minimum sizes where it was
/// below.
pub open spec fn raised_size(size: int, items: Seq<Item>) -> int {
    if size < total(mins(items)) {
        total(mins(items))
    } else {
        size
    }
}

/// An item as a solve starts from it: the maximum no smaller than the
/// minimum, nothing resolved yet, and the weight 1 where `uniform` holds.
pub open spec fn normalized_item(item: Item, uniform: bool) -> Item {
    Item {
        stretch: if uniform { 1 } else { item.stretch },
        min_size: item.min_size,
        max_size: if item.max_size < item.min_size { item.min_size } else { item.max_size },
        current_size: 0,
    }
}

/// The items as a solve starts from them. Where no item has a weight, all
/// items weigh the same.
pub open spec fn normalized(items: Seq<Item>) -> Seq<Item> {
    Seq::new(items.len(), |i: int| normalized_item(items[i], total(stretches(items)) == 0))
}

/// An item with its resolved size raised to its minimum.
pub open spec fn floored_item(item: Item) -> Item {
    Item {
        stretch: item.stretch,
        min_size: item.min_size,
        max_size: item.max_size,
        current_size: if item.current_size < item.min_size { item.min_size } else { item.current_size },
    }
}

/// The items with each resolved size raised to its minimum.
pub open spec fn floored(items: Seq<Item>) -> Seq<Item> {
    Seq::new(items.len(), |i: int| floored_item(items[i]))
}

/// An item with one more unit.
pub open spec fn grown(item: Item) -> Item {
    Item {
        stretch: item.stretch,
        min_size: item.min_size,
        max_size: item.max_size,
        current_size: (item.current_size + 1) as u32,
    }
}

/// Every resolved size lies within its item's bounds.
pub open spec fn within_bounds(items: Seq<Item>) -> bool {
    forall|i: int| 0 <= i < items.len() ==> {
        &&& (#[trigger] items[i]).min_size <= items[i].current_size
        &&& items[i].current_size <= items[i].max_size
    }
}

/// The deficit score of an item, scaled by `total_stretch * size`: its
/// share of the weights less its share of the space. An item at its
/// maximum scores 0, and so does every item where there is no weight or
/// no space.
pub open spec fn gain(item: Item, total_stretch: int, size: int) -> int {
    if total_stretch == 0 || size == 0 || item.current_size == item.max_size {
        0
    } else {
        item.stretch * size - item.current_size * total_stretch
    }
}

/// Whether one of the first `n` items has a positive score.
pub open spec fn positive_before(items: Seq<Item>, total_stretch: int, size: int, n: int) -> bool {
    exists|j: int| 0 <= j < n && gain(#[trigger] items[j], total_stretch, size) > 0
}

/// Whether `index` is the item with the highest score among the first `n`:
/// the earliest of those whose positive score no other exceeds, or 0 where
/// no score is positive.
pub open spec fn is_highest_before(
    items: Seq<Item>,
    total_stretch: int,
    size: int,
    n: int,
    index: int,
) -> bool {
    if positive_before(items, total_stretch, size, n) {
        &&& 0 <= index < n
        &&& gain(items[index], total_stretch, size) > 0
        &&& forall|j: int|
            0 <= j < n ==> gain(#[trigger] items[j], total_stretch, size) <= gain(
                items[index],
                total_stretch,
                size,
            )
        &&& forall|j: int|
            0 <= j < index ==> gain(#[trigger] items[j], total_stretch, size) < gain(
                items[index],
                total_stretch,
                size,
            )
    } else {
        index == 0
    }
}

/// Whether `index` is the item with the highest score: the earliest of the
/// items whose positive score no other exceeds, or 0 where no score is
/// positive.
pub open spec fn is_highest(items: Seq<Item>, total_stretch: int, size: int, index: int) -> bool {
    is_highest_before(items, total_stretch, size, items.len() as int, index)
}

/// Whether `index` is the earliest item below its maximum.
pub open spec fn is_first_open(items: Seq<Item>, index: int) -> bool {
    &&& 0 <= index < items.len()
    &&& items[index].current_size < items[index].max_size
    &&& forall|j: int| 0 <= j < index ==> (#[trigger] items[j]).current_size >= items[j].max_size
}

/// Whether `index` is the item that receives the next unit: the one with
/// the highest score where that score is positive, else the earliest item
/// below its maximum.
pub open spec fn is_recipient(items: Seq<Item>, total_stretch: int, size: int, index: int) -> bool {
    if positive_before(items, total_stretch, size, items.len() as int) {
        is_highest(items, total_stretch, size, index)
    } else {
        is_first_open(items, index)
    }
}

/// Whether some item can receive a unit.
pub open spec fn has_recipient(items: Seq<Item>, total_stretch: int, size: int) -> bool {
    exists|i: int| is_recipient(items, total_stretch, size, i)
}

/// The item that receives the next unit.
pub open spec fn recipient(items: Seq<Item>, total_stretch: int, size: int) -> int {
    choose|i: int| is_recipient(items, total_stretch, size, i)
}

/// The items after `units` units were handed out one by one, each to the
/// recipient of its moment. Handing out stops early where no item can
/// receive a unit.
pub open spec fn distribute(items: Seq<Item>, total_stretch: int, size: int, units: nat) -> Seq<Item>
    decreases units,
{
    if units == 0 || !has_recipient(items, total_stretch, size) {
        items
    } else {
        let r = recipient(items, total_stretch, size);
        distribute(items.update(r, grown(items[r])), total_stretch, size, (units - 1) as nat)
    }
}

/// The share of item `index` where `size` is split among `count` items as
/// evenly as whole numbers allow, the remainder going to the earliest
/// items.
pub open spec fn even_share(size: int, count: int, index: int) -> int {
    size / count + if index < size % count { 1int } else { 0int }
}

/// Whether sizes within the items' bounds can add up to the raised size.
pub open spec fn solvable(size: int, items: Seq<Item>) -> bool {
    &&& raised_size(size, items) <= u32::MAX
    &&& items.len() > 0 ==> raised_size(size, items) <= total(maxes(normalized(items)))
}

/// The items as a solve for `size` leaves them.
pub open spec fn solved(size: int, items: Seq<Item>) -> Seq<Item> {
    let start = floored(normalized(items));
    let target = raised_size(size, items);
    distribute(
        start,
        total(stretches(start)),
        target,
        (target - total(mins(items))) as nat,
    )
}

} // verus!
