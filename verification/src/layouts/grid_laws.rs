//! What holds of every grid.

use vstd::prelude::*;
use crate::components::transform::Size;
use crate::layouts::grid_model::{holds, is_placed, offset, settled, GridModel};
use crate::layouts::item::Item;
use crate::layouts::laws::{law_bounds, law_conservation, law_resolve_for_same_request};
use crate::layouts::model::{currents, solved};
use crate::layouts::sums::{lemma_total_prefix_le, lemma_total_take};

verus! {

/// A paint pass is repeatable: a grid that was laid out for a size and
/// has not changed since is laid out to the same, wherever it is laid out
/// for that size again.
pub proof fn law_refresh_is_stable(grid: GridModel, size: Size, once: GridModel, twice: GridModel)
    requires
        grid.well_formed(),
        grid.refresh_error(size).is_none(),
        grid.is_refreshed(size, once),
        once.is_refreshed(size, twice),
    ensures
        once.refresh_error(size).is_none(),
        twice == once,
{
    if grid.columns_stale(size.x) {
        law_resolve_for_same_request(size.x, grid.columns);
    }
    if grid.rows_stale(size.y) {
        law_resolve_for_same_request(size.y, grid.rows);
    }
    if once.columns_stale(size.x) && !grid.columns_stale(size.x) {
        assert(false);
    }
    if once.rows_stale(size.y) && !grid.rows_stale(size.y) {
        assert(false);
    }
    assert(twice.columns == once.columns);
    assert(twice.rows == once.rows);
    assert forall|k: int| 0 <= k < once.children.len() implies twice.children[k]
        == once.children[k] by {
        let id = grid.children[k].id;
        assert(once.children[k].id == id);
        assert(twice.children[k].id == id);
        if is_placed(grid.cells, id) {
            let (c, r) = choose|c: int, r: int| holds(grid.cells, c, r, id);
            assert(holds(grid.cells, c, r, grid.children[k].id));
            assert(holds(once.cells, c, r, once.children[k].id));
        }
    }
    assert(twice.children =~= once.children);
}

/// The resolved sizes of a settled axis stay within the range of a
/// coordinate, up to any item and beyond it.
pub proof fn lemma_offsets_fit(items: Seq<Item>, size: u32, index: int)
    requires
        settled(items, size),
        0 <= index < items.len(),
    ensures
        0 <= offset(items, index),
        offset(items, index + 1) == offset(items, index) + items[index].current_size,
        offset(items, index + 1) <= i32::MAX,
{
    law_bounds(size, items);
    law_conservation(size, items);
    lemma_total_take(currents(items), index);
    lemma_total_prefix_le(currents(items), index);
    lemma_total_prefix_le(currents(items), index + 1);
}

/// A painted grid follows the solver: every child that a cell holds has
/// the sizes that a solve for the painted width gives the cell's column
/// and a solve for the painted height gives its row, and stands where the
/// sizes of the columns and rows before them add up to.
pub proof fn law_paint_follows_solver(
    grid: GridModel,
    size: Size,
    after: GridModel,
    k: int,
    c: int,
    r: int,
)
    requires
        grid.well_formed(),
        after.well_formed(),
        grid.paint_error(size).is_none(),
        grid.is_painted(size, after),
        0 <= k < grid.children.len(),
        holds(grid.cells, c, r, grid.children[k].id),
    ensures
        0 <= c < solved(size.x as int, grid.columns).len(),
        0 <= r < solved(size.y as int, grid.rows).len(),
        after.children.len() == grid.children.len(),
        after.children[k].id == grid.children[k].id,
        after.children[k].transform.size.x == solved(size.x as int, grid.columns)[c].current_size,
        after.children[k].transform.size.y == solved(size.y as int, grid.rows)[r].current_size,
        after.children[k].transform.pos.x == offset(solved(size.x as int, grid.columns), c),
        after.children[k].transform.pos.y == offset(solved(size.y as int, grid.rows), r),
{
    law_bounds(size.x, grid.columns);
    law_bounds(size.y, grid.rows);
    assert(after.cells == grid.cells);
    assert(after.children[k].id == grid.children[k].id);
    assert(holds(after.cells, c, r, after.children[k].id));
    lemma_offsets_fit(after.columns, after.column_size, c);
    lemma_offsets_fit(after.rows, after.row_size, r);
}

} // verus!
