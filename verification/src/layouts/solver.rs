//! The axis solver: an ordered list of items and the size they share.

use vstd::prelude::*;
use crate::error::LayoutError;
use crate::layouts::item::Item;
use crate::layouts::laws::{law_bounds, law_conservation};
use crate::layouts::lemmas::{
    lemma_distribute, lemma_grown, lemma_recipient_unique, lemma_start,
};
use crate::layouts::model::{
    currents, distribute, floored, floored_item, floors, gain, has_recipient, is_first_open,
    is_highest, is_highest_before, is_recipient, maxes, mins, normalized, normalized_item,
    positive_before, raised_size, solvable, solved, stretches, within_bounds,
};
use crate::layouts::sums::{lemma_total_bounds, lemma_total_prefix_le, lemma_total_take, total};

verus! {

/// The largest sum of weights that a list of items can have.
pub const MAX_TOTAL_STRETCH: u128 = 0x1_0000_0000_0000_0000_0000_0000;

/// An exact deficit score: the fraction `(ahead - behind) / scale`.
#[derive(Clone, Copy, Debug, PartialEq, Eq, Structural)]
pub struct Score {
    /// The item's weight times the size of the layout.
    pub ahead: u128,
    /// The item's resolved size times the sum of the weights.
    pub behind: u128,
    /// The sum of the weights times the size of the layout; 1 for the
    /// score that is 0 by rule.
    pub scale: u128,
}

/// The items of one axis and the size they share.
#[derive(Debug)]
pub struct Layout {
    /// The size of the axis; after a solve no smaller than the sum of the
    /// items' minimum sizes.
    pub size: u32,
    /// The items, in the order that breaks ties.
    pub items: Vec<Item>,
}

/// What the making of a layout promises of its result: the layout that a
/// solve for `size` leaves, or a refusal where the items' bounds cannot add
/// up to the size.
pub open spec fn is_solution(size: u32, items: Seq<Item>, result: Result<Layout, LayoutError>) -> bool {
    match result {
        Ok(layout) => {
            &&& solvable(size as int, items)
            &&& layout.size == raised_size(size as int, items)
            &&& layout.items@ == solved(size as int, items)
        },
        Err(e) => e == LayoutError::InvalidConstraints && !solvable(size as int, items),
    }
}

/// Idempotence: a solve is a function of the size and the items. Any two
/// results for the same size and items agree: both are refused, or both
/// have the same size and the same items with the same resolved sizes.
pub proof fn law_solve_is_a_function(
    size: u32,
    items: Seq<Item>,
    first: Result<Layout, LayoutError>,
    second: Result<Layout, LayoutError>,
)
    requires
        is_solution(size, items, first),
        is_solution(size, items, second),
    ensures
        first.is_ok() == second.is_ok(),
        first.is_ok() ==> first.unwrap().size == second.unwrap().size && first.unwrap().items@
            == second.unwrap().items@,
        first.is_err() ==> first.unwrap_err() == second.unwrap_err(),
{
}

/// The sum of `n` values of 32 bits fits 96 bits.
proof fn lemma_sum_fits(s: Seq<int>, n: int)
    requires
        0 <= n <= s.len() <= usize::MAX,
        forall|i: int| 0 <= i < s.len() ==> 0 <= #[trigger] s[i] <= u32::MAX,
    ensures
        0 <= total(s.take(n)) <= n * 0xFFFF_FFFF,
        n * 0xFFFF_FFFF <= MAX_TOTAL_STRETCH,
        s.take(s.len() as int) == s,
{
    lemma_total_bounds(s.take(n), 0, 0xFFFF_FFFF);
    assert(n * 0xFFFF_FFFF <= 0xFFFF_FFFF_FFFF_FFFF * 0xFFFF_FFFF) by (nonlinear_arith)
        requires
            0 <= n <= 0xFFFF_FFFF_FFFF_FFFF,
    ;
    assert(s.take(s.len() as int) =~= s);
}

impl Layout {
    /// The size of the axis.
    pub fn get_size(&self) -> (size: u32)
        ensures
            size == self.size,
    {
        self.size
    }

    /// The items with their resolved sizes.
    pub fn get_items(&self) -> (items: &Vec<Item>)
        ensures
            items == &self.items,
    {
        &self.items
    }

    /// The sum of the items' weights.
    pub fn gather_items_stretch(&self) -> (result: u128)
        ensures
            result == total(stretches(self.items@)),
            result <= MAX_TOTAL_STRETCH,
    {
        let mut result: u128 = 0;
        let mut idx: usize = 0;
        let count = self.items.len();
        proof {
            lemma_sum_fits(stretches(self.items@), 0);
        }
        while idx < count
            invariant
                count == self.items.len(),
                idx <= count,
                result == total(stretches(self.items@).take(idx as int)),
                result <= idx * 0xFFFF_FFFF,
            decreases count - idx,
        {
            proof {
                lemma_total_take(stretches(self.items@), idx as int);
                lemma_sum_fits(stretches(self.items@), idx + 1);
            }
            result = result + self.items[idx].stretch as u128;
            idx = idx + 1;
        }
        proof {
            lemma_sum_fits(stretches(self.items@), idx as int);
        }
        result
    }

    /// The sum of the items' minimum sizes.
    pub fn min_size_total(&self) -> (result: u128)
        ensures
            result == total(mins(self.items@)),
    {
        let mut result: u128 = 0;
        let mut idx: usize = 0;
        let count = self.items.len();
        proof {
            lemma_sum_fits(mins(self.items@), 0);
        }
        while idx < count
            invariant
                count == self.items.len(),
                idx <= count,
                result == total(mins(self.items@).take(idx as int)),
                result <= idx * 0xFFFF_FFFF,
            decreases count - idx,
        {
            proof {
                lemma_total_take(mins(self.items@), idx as int);
                lemma_sum_fits(mins(self.items@), idx + 1);
            }
            result = result + self.items[idx].min_size as u128;
            idx = idx + 1;
        }
        proof {
            lemma_sum_fits(mins(self.items@), idx as int);
        }
        result
    }

    /// The sum of the items' maximum sizes, each taken as no smaller than
    /// its item's minimum.
    pub fn max_size_total(&self) -> (result: u128)
        ensures
            result == total(maxes(normalized(self.items@))),
    {
        let mut result: u128 = 0;
        let mut idx: usize = 0;
        let count = self.items.len();
        let ghost caps = maxes(normalized(self.items@));
        proof {
            lemma_sum_fits(caps, 0);
        }
        while idx < count
            invariant
                count == self.items.len(),
                idx <= count,
                caps == maxes(normalized(self.items@)),
                result == total(caps.take(idx as int)),
                result <= idx * 0xFFFF_FFFF,
            decreases count - idx,
        {
            proof {
                lemma_total_take(caps, idx as int);
                lemma_sum_fits(caps, idx + 1);
            }
            let item = self.items[idx];
            let cap = if item.max_size < item.min_size {
                item.min_size
            } else {
                item.max_size
            };
            result = result + cap as u128;
            idx = idx + 1;
        }
        proof {
            lemma_sum_fits(caps, idx as int);
        }
        result
    }
}

impl Layout {
    /// Raises the size to the sum of the items' minimum sizes where it is
    /// below.
    pub fn ensure_layout_has_at_least_minimal_width(&mut self)
        requires
            total(mins(old(self).items@)) <= u32::MAX,
        ensures
            final(self).items == old(self).items,
            final(self).size == raised_size(old(self).size as int, old(self).items@),
    {
        let sum_of_min_sizes = self.min_size_total();
        if (self.size as u128) < sum_of_min_sizes {
            self.size = sum_of_min_sizes as u32;
        }
    }

    /// Prepares the items for a solve: raises each maximum to its minimum
    /// where it is below, resets each resolved size, and gives every item
    /// the weight 1 where no item has a weight.
    pub fn validate_all_items(&mut self)
        ensures
            final(self).size == old(self).size,
            final(self).items@ == normalized(old(self).items@),
    {
        let count = self.items.len();
        let mut idx: usize = 0;
        while idx < count
            invariant
                idx <= count,
                count == self.items.len(),
                self.items.len() == old(self).items.len(),
                self.size == old(self).size,
                forall|j: int|
                    0 <= j < idx ==> #[trigger] self.items[j] == normalized_item(
                        old(self).items[j],
                        false,
                    ),
                forall|j: int| idx <= j < count ==> #[trigger] self.items[j] == old(self).items[j],
            decreases count - idx,
        {
            let item = self.items[idx];
            let max_size = if item.max_size < item.min_size {
                item.min_size
            } else {
                item.max_size
            };
            self.items.set(
                idx,
                Item { stretch: item.stretch, min_size: item.min_size, max_size, current_size: 0 },
            );
            idx = idx + 1;
        }
        assert(stretches(self.items@) =~= stretches(old(self).items@));
        if self.gather_items_stretch() == 0 {
            let mut idx: usize = 0;
            while idx < count
                invariant
                    idx <= count,
                    count == self.items.len(),
                    self.items.len() == old(self).items.len(),
                    self.size == old(self).size,
                    forall|j: int|
                        0 <= j < idx ==> #[trigger] self.items[j] == normalized_item(
                            old(self).items[j],
                            true,
                        ),
                    forall|j: int|
                        idx <= j < count ==> #[trigger] self.items[j] == normalized_item(
                            old(self).items[j],
                            false,
                        ),
                decreases count - idx,
            {
                let item = self.items[idx];
                self.items.set(
                    idx,
                    Item {
                        stretch: 1,
                        min_size: item.min_size,
                        max_size: item.max_size,
                        current_size: item.current_size,
                    },
                );
                idx = idx + 1;
            }
            assert(self.items@ =~= normalized(old(self).items@));
        } else {
            assert(self.items@ =~= normalized(old(self).items@));
        }
    }

    /// The space that is left once every item holds its resolved size, or
    /// its minimum where that is larger.
    pub fn remaining_free_layout_space(&self) -> (result: u32)
        requires
            total(floors(self.items@)) <= self.size,
        ensures
            result == self.size - total(floors(self.items@)),
    {
        let mut result: u32 = self.size;
        let count = self.items.len();
        let mut idx: usize = 0;
        let ghost held = floors(self.items@);
        while idx < count
            invariant
                idx <= count,
                count == self.items.len(),
                held == floors(self.items@),
                total(held) <= self.size,
                result == self.size - total(held.take(idx as int)),
            decreases count - idx,
        {
            proof {
                lemma_total_take(held, idx as int);
                lemma_total_prefix_le(held, idx + 1);
            }
            let item = self.items[idx];
            let floor = if item.current_size < item.min_size {
                item.min_size
            } else {
                item.current_size
            };
            result = result - floor;
            idx = idx + 1;
        }
        assert(held.take(count as int) =~= held);
        result
    }

    /// Raises each resolved size to its item's minimum where it is below.
    pub fn set_every_item_size_to_at_least_min(&mut self)
        ensures
            final(self).size == old(self).size,
            final(self).items@ == floored(old(self).items@),
    {
        let count = self.items.len();
        let mut idx: usize = 0;
        while idx < count
            invariant
                idx <= count,
                count == self.items.len(),
                self.items.len() == old(self).items.len(),
                self.size == old(self).size,
                forall|j: int|
                    0 <= j < idx ==> #[trigger] self.items[j] == floored_item(old(self).items[j]),
                forall|j: int| idx <= j < count ==> #[trigger] self.items[j] == old(self).items[j],
            decreases count - idx,
        {
            let item = self.items[idx];
            if item.current_size < item.min_size {
                self.items.set(
                    idx,
                    Item {
                        stretch: item.stretch,
                        min_size: item.min_size,
                        max_size: item.max_size,
                        current_size: item.min_size,
                    },
                );
            }
            idx = idx + 1;
        }
        assert(self.items@ =~= floored(old(self).items@));
    }

    /// The deficit score of an item in a layout of `total_size` whose
    /// weights add up to `total_stretch`: its share of the weights less its
    /// share of the space, as an exact fraction.
    pub fn get_item_expected_minus_current_stretch(
        item: &Item,
        total_stretch: u128,
        total_size: u32,
    ) -> (score: Score)
        requires
            total_stretch <= MAX_TOTAL_STRETCH,
        ensures
            score.ahead - score.behind == gain(*item, total_stretch as int, total_size as int),
            total_stretch == 0 || total_size == 0 || item.current_size == item.max_size ==> score
                == (Score { ahead: 0, behind: 0, scale: 1 }),
            !(total_stretch == 0 || total_size == 0 || item.current_size == item.max_size) ==> {
                &&& score.ahead == item.stretch * total_size
                &&& score.behind == item.current_size * total_stretch
                &&& score.scale == total_stretch * total_size
            },
    {
        if total_stretch == 0 || total_size == 0 || item.current_size == item.max_size {
            Score { ahead: 0, behind: 0, scale: 1 }
        } else {
            assert(item.stretch * total_size <= 0xFFFF_FFFF * 0xFFFF_FFFF) by (nonlinear_arith)
                requires
                    0 <= item.stretch <= 0xFFFF_FFFF,
                    0 <= total_size <= 0xFFFF_FFFF,
            ;
            assert(item.current_size * total_stretch <= 0xFFFF_FFFF
                * 0x1_0000_0000_0000_0000_0000_0000) by (nonlinear_arith)
                requires
                    0 <= item.current_size <= 0xFFFF_FFFF,
                    0 <= total_stretch <= 0x1_0000_0000_0000_0000_0000_0000,
            ;
            assert(total_stretch * total_size <= 0x1_0000_0000_0000_0000_0000_0000 * 0xFFFF_FFFF)
                by (nonlinear_arith)
                requires
                    0 <= total_size <= 0xFFFF_FFFF,
                    0 <= total_stretch <= 0x1_0000_0000_0000_0000_0000_0000,
            ;
            Score {
                ahead: item.stretch as u128 * total_size as u128,
                behind: item.current_size as u128 * total_stretch,
                scale: total_stretch * total_size as u128,
            }
        }
    }
}

impl Layout {
    /// The item with the highest score, for weights that add up to
    /// `total_stretch`.
    fn highest_with(&self, total_stretch: u128) -> (highest_idx: usize)
        requires
            total_stretch <= MAX_TOTAL_STRETCH,
        ensures
            is_highest(self.items@, total_stretch as int, self.size as int, highest_idx as int),
    {
        let count = self.items.len();
        let mut highest_idx: usize = 0;
        let mut highest_gain: u128 = 0;
        let mut idx: usize = 0;
        let ghost t = total_stretch as int;
        let ghost size = self.size as int;
        while idx < count
            invariant
                idx <= count,
                count == self.items.len(),
                t == total_stretch,
                size == self.size,
                total_stretch <= MAX_TOTAL_STRETCH,
                is_highest_before(self.items@, t, size, idx as int, highest_idx as int),
                positive_before(self.items@, t, size, idx as int) ==> highest_gain == gain(
                    self.items[highest_idx as int],
                    t,
                    size,
                ),
                !positive_before(self.items@, t, size, idx as int) ==> highest_gain == 0,
            decreases count - idx,
        {
            let score = Self::get_item_expected_minus_current_stretch(
                &self.items[idx],
                total_stretch,
                self.size,
            );
            let ghost before = positive_before(self.items@, t, size, idx as int);
            let ghost g = gain(self.items[idx as int], t, size);
            if score.ahead > score.behind && score.ahead - score.behind > highest_gain {
                highest_idx = idx;
                highest_gain = score.ahead - score.behind;
            }
            proof {
                if g > 0 {
                    assert(positive_before(self.items@, t, size, idx + 1));
                }
                if positive_before(self.items@, t, size, idx + 1) && !before {
                    let j = choose|j: int|
                        0 <= j < idx + 1 && gain(#[trigger] self.items@[j], t, size) > 0;
                    assert(j == idx);
                }
                if before {
                    let j = choose|j: int| 0 <= j < idx && gain(#[trigger] self.items@[j], t, size) > 0;
                    assert(0 <= j < idx + 1);
                    assert(positive_before(self.items@, t, size, idx + 1));
                }
            }
            idx = idx + 1;
        }
        highest_idx
    }

    /// The item with the highest deficit score: the earliest of the items
    /// whose positive score no other exceeds, or the first item where no
    /// score is positive.
    pub fn get_item_with_highest_expected_minus_current_stretch(&self) -> (highest_idx: usize)
        ensures
            is_highest(
                self.items@,
                total(stretches(self.items@)),
                self.size as int,
                highest_idx as int,
            ),
    {
        let total_stretch = self.gather_items_stretch();
        self.highest_with(total_stretch)
    }

    /// The earliest item below its maximum.
    fn first_open(&self) -> (found: Option<usize>)
        ensures
            match found {
                Some(i) => is_first_open(self.items@, i as int),
                None => forall|j: int|
                    0 <= j < self.items.len() ==> (#[trigger] self.items[j]).current_size
                        >= self.items[j].max_size,
            },
    {
        let count = self.items.len();
        let mut idx: usize = 0;
        while idx < count
            invariant
                idx <= count,
                count == self.items.len(),
                forall|j: int|
                    0 <= j < idx ==> (#[trigger] self.items[j]).current_size
                        >= self.items[j].max_size,
            decreases count - idx,
        {
            if self.items[idx].current_size < self.items[idx].max_size {
                return Some(idx);
            }
            idx = idx + 1;
        }
        None
    }

    /// The item that receives the next unit, if any can.
    fn next_recipient(&self, total_stretch: u128) -> (found: Option<usize>)
        requires
            total_stretch <= MAX_TOTAL_STRETCH,
        ensures
            match found {
                Some(i) => is_recipient(
                    self.items@,
                    total_stretch as int,
                    self.size as int,
                    i as int,
                ),
                None => !has_recipient(self.items@, total_stretch as int, self.size as int),
            },
    {
        if self.items.len() == 0 {
            return None;
        }
        let highest_idx = self.highest_with(total_stretch);
        let score = Self::get_item_expected_minus_current_stretch(
            &self.items[highest_idx],
            total_stretch,
            self.size,
        );
        if score.ahead > score.behind {
            Some(highest_idx)
        } else {
            self.first_open()
        }
    }

    /// Raises every size to its minimum and hands the space that is left
    /// out, one unit at a time: each unit goes to the item that is furthest
    /// behind its share, the earliest of them where several are; where no
    /// item is behind, it goes to the earliest item below its maximum.
    /// Refuses, and changes nothing, where the maxima of the items add up
    /// to less than the size: then no handing out could reach it.
    pub fn validate(&mut self) -> (result: Result<(), LayoutError>)
        requires
            within_bounds(floored(old(self).items@)),
            total(floors(old(self).items@)) <= old(self).size,
        ensures
            match result {
                Ok(_) => {
                    &&& old(self).items@.len() > 0 ==> old(self).size <= total(
                        maxes(old(self).items@),
                    )
                    &&& final(self).size == old(self).size
                    &&& final(self).items@ == distribute(
                        floored(old(self).items@),
                        total(stretches(old(self).items@)),
                        old(self).size as int,
                        (old(self).size - total(floors(old(self).items@))) as nat,
                    )
                    &&& final(self).items@.len() == old(self).items@.len()
                    &&& within_bounds(final(self).items@)
                    &&& final(self).items@.len() > 0 ==> total(currents(final(self).items@))
                        == final(self).size
                },
                Err(e) => {
                    &&& e == LayoutError::InvalidConstraints
                    &&& old(self).items@.len() > 0
                    &&& total(maxes(old(self).items@)) < old(self).size
                    &&& *final(self) == *old(self)
                },
            },
    {
        let ghost start = floored(self.items@);
        let ghost t = total(stretches(self.items@));
        let ghost size = self.size as int;
        let ghost units = (self.size - total(floors(self.items@))) as nat;
        proof {
            assert forall|i: int| 0 <= i < self.items@.len() implies #[trigger] maxes(
                normalized(self.items@),
            )[i] == maxes(self.items@)[i] by {
                assert(start[i].min_size <= start[i].current_size <= start[i].max_size);
            }
            assert(maxes(normalized(self.items@)) =~= maxes(self.items@));
        }
        if self.items.len() > 0 && self.max_size_total() < self.size as u128 {
            return Err(LayoutError::InvalidConstraints);
        }
        proof {
            assert(floors(self.items@) =~= floors(start));
            assert(floors(start) =~= currents(start));
            assert(stretches(start) =~= stretches(self.items@));
            assert(maxes(start) =~= maxes(self.items@));
            lemma_distribute(start, t, size, units);
        }
        self.set_every_item_size_to_at_least_min();
        let remaining_free_layout_space = self.remaining_free_layout_space();
        let total_stretch = self.gather_items_stretch();
        let mut left: u32 = remaining_free_layout_space;
        let mut open: bool = true;
        while left > 0 && open
            invariant
                self.size == size,
                total_stretch == t,
                total_stretch <= MAX_TOTAL_STRETCH,
                within_bounds(self.items@),
                !open ==> !has_recipient(self.items@, t, size),
                distribute(self.items@, t, size, left as nat) == distribute(start, t, size, units),
            decreases left + (if open { 1int } else { 0int }),
        {
            match self.next_recipient(total_stretch) {
                Some(highest_diff) => {
                    proof {
                        lemma_recipient_unique(
                            self.items@,
                            t,
                            size,
                            highest_diff as int,
                            highest_diff as int,
                        );
                        lemma_grown(self.items@, highest_diff as int);
                    }
                    let item = self.items[highest_diff];
                    self.items.set(
                        highest_diff,
                        Item {
                            stretch: item.stretch,
                            min_size: item.min_size,
                            max_size: item.max_size,
                            current_size: item.current_size + 1,
                        },
                    );
                    left = left - 1;
                },
                None => {
                    open = false;
                },
            }
        }
        Ok(())
    }

    /// Whether sizes within the items' bounds can add up to `size`, or to
    /// the sum of the minimum sizes where that is larger.
    pub fn can_solve(&self, size: u32) -> (possible: bool)
        ensures
            possible == solvable(size as int, self.items@),
    {
        let sum_of_min_sizes = self.min_size_total();
        let target: u128 = if (size as u128) < sum_of_min_sizes {
            sum_of_min_sizes
        } else {
            size as u128
        };
        target <= u32::MAX as u128 && (self.items.len() == 0 || self.max_size_total() >= target)
    }

    /// Solves the axis anew for its size and items: raises the size to the
    /// sum of the minimum sizes, prepares the items, and resolves every
    /// item's size. Refuses, and changes nothing, where the items' bounds
    /// cannot add up to the size.
    pub fn refresh(&mut self) -> (result: Result<(), LayoutError>)
        ensures
            match result {
                Ok(_) => {
                    &&& solvable(old(self).size as int, old(self).items@)
                    &&& final(self).size == raised_size(old(self).size as int, old(self).items@)
                    &&& final(self).items@ == solved(old(self).size as int, old(self).items@)
                    &&& final(self).items@.len() == old(self).items@.len()
                    &&& within_bounds(final(self).items@)
                    &&& final(self).items@.len() > 0 ==> total(currents(final(self).items@))
                        == final(self).size
                },
                Err(e) => {
                    &&& e == LayoutError::InvalidConstraints
                    &&& !solvable(old(self).size as int, old(self).items@)
                    &&& *final(self) == *old(self)
                },
            },
    {
        if !self.can_solve(self.size) {
            return Err(LayoutError::InvalidConstraints);
        }
        proof {
            law_bounds(self.size, self.items@);
            if self.items.len() > 0 {
                law_conservation(self.size, self.items@);
            }
            lemma_start(self.items@);
            let start = floored(normalized(self.items@));
            assert(floors(normalized(self.items@)) =~= mins(self.items@));
            assert(stretches(start) =~= stretches(normalized(self.items@)));
        }
        self.ensure_layout_has_at_least_minimal_width();
        self.validate_all_items();
        let handed_out = self.validate();
        assert(handed_out.is_ok());
        Ok(())
    }

    /// A layout of `items` solved for `size`.
    pub fn new(size: u32, items: Vec<Item>) -> (result: Result<Layout, LayoutError>)
        ensures
            is_solution(size, items@, result),
            match result {
                Ok(layout) => {
                    &&& solvable(size as int, items@)
                    &&& layout.size == raised_size(size as int, items@)
                    &&& layout.items@ == solved(size as int, items@)
                    &&& layout.items@.len() == items@.len()
                    &&& within_bounds(layout.items@)
                    &&& layout.items@.len() > 0 ==> total(currents(layout.items@)) == layout.size
                },
                Err(e) => e == LayoutError::InvalidConstraints && !solvable(size as int, items@),
            },
    {
        let mut layout = Layout { size, items };
        match layout.refresh() {
            Ok(_) => Ok(layout),
            Err(e) => Err(e),
        }
    }
}

} // verus!
