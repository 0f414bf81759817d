//! The mathematical model of a grid: its two axes, its table of cells and
//! its children, and what each operation makes of them.

use vstd::prelude::*;
use crate::components::hierarchy::{
    distinct_ids, has_child, index_of, lemma_index_of, HierarchyChild,
};
use crate::components::transform::{Position, Size, Transform};
use crate::error::LayoutError;
use crate::layouts::item::Item;
use crate::layouts::model::{currents, raised_size, solvable, solved};
use crate::layouts::sums::total;

verus! {

/// The item that a new column or row starts as: stretch 1, no bounds.
pub open spec fn fresh_item() -> Item {
    Item { stretch: 1, min_size: 0, max_size: u32::MAX, current_size: 0 }
}

/// The first `count` of `items`, continued with fresh items where `items`
/// has fewer.
pub open spec fn resized_items(items: Seq<Item>, count: int) -> Seq<Item> {
    Seq::new(count as nat, |i: int| if i < items.len() { items[i] } else { fresh_item() })
}

/// Where an item begins: the sum of the resolved sizes before it.
pub open spec fn offset(items: Seq<Item>, index: int) -> int {
    total(currents(items).take(index))
}

/// Whether an axis is as a solve for its size leaves it, with every offset
/// within the range of a coordinate.
pub open spec fn settled(items: Seq<Item>, size: u32) -> bool {
    &&& size <= i32::MAX
    &&& solvable(size as int, items)
    &&& raised_size(size as int, items) == size
    &&& solved(size as int, items) == items
}

/// Whether the cell in column `c` and row `r` holds the child `id`.
pub open spec fn holds(cells: Seq<Seq<Option<u128>>>, c: int, r: int, id: u128) -> bool {
    &&& 0 <= c < cells.len()
    &&& 0 <= r < cells[c].len()
    &&& cells[c][r] == Some(id)
}

/// Whether some cell holds the child `id`.
pub open spec fn is_placed(cells: Seq<Seq<Option<u128>>>, id: u128) -> bool {
    exists|c: int, r: int| holds(cells, c, r, id)
}

/// The transform of the cell in column `c` and row `r`: it begins at the
/// offsets of its column and its row and has their resolved sizes.
pub open spec fn cell_transform(columns: Seq<Item>, rows: Seq<Item>, c: int, r: int) -> Transform {
    Transform {
        pos: Position { x: offset(columns, c) as i32, y: offset(rows, r) as i32 },
        size: Size { x: columns[c].current_size, y: rows[r].current_size },
    }
}

/// Whether `after` is `before` with every child that a cell holds moved to
/// the transform of its cell, and every other child left as it was.
pub open spec fn is_placement(
    before: Seq<HierarchyChild>,
    after: Seq<HierarchyChild>,
    cells: Seq<Seq<Option<u128>>>,
    columns: Seq<Item>,
    rows: Seq<Item>,
) -> bool {
    &&& after.len() == before.len()
    &&& forall|k: int| 0 <= k < before.len() ==> (#[trigger] after[k]).id == before[k].id
    &&& forall|k: int, c: int, r: int|
        0 <= k < before.len() && #[trigger] holds(cells, c, r, before[k].id) ==> (
        #[trigger] after[k]).transform == cell_transform(columns, rows, c, r)
    &&& forall|k: int|
        0 <= k < before.len() && !is_placed(cells, before[k].id) ==> (#[trigger] after[k]).transform
            == before[k].transform
}

/// Whether the cell in column `c` and row `r` comes before the cell in
/// column `col` and row `row`, going down each column in turn.
pub open spec fn comes_before(c: int, r: int, col: int, row: int) -> bool {
    c < col || (c == col && r < row)
}

/// Whether `now` is `before` with every child of a cell that comes before
/// column `col` and row `row` moved to the transform of its cell, and every
/// other child left as it was.
pub open spec fn placed_up_to(
    before: Seq<HierarchyChild>,
    now: Seq<HierarchyChild>,
    cells: Seq<Seq<Option<u128>>>,
    columns: Seq<Item>,
    rows: Seq<Item>,
    col: int,
    row: int,
) -> bool {
    &&& now.len() == before.len()
    &&& forall|k: int| 0 <= k < before.len() ==> (#[trigger] now[k]).id == before[k].id
    &&& forall|k: int, c: int, r: int|
        0 <= k < before.len() && #[trigger] holds(cells, c, r, before[k].id) ==> (
        #[trigger] now[k]).transform == if comes_before(c, r, col, row) {
            cell_transform(columns, rows, c, r)
        } else {
            before[k].transform
        }
    &&& forall|k: int|
        0 <= k < before.len() && !is_placed(cells, before[k].id) ==> (#[trigger] now[k]).transform
            == before[k].transform
}

/// Whether no two cells hold the same child.
pub open spec fn one_cell_each(cells: Seq<Seq<Option<u128>>>) -> bool {
    forall|c: int, r: int, c2: int, r2: int, id: u128|
        #[trigger] holds(cells, c, r, id) && #[trigger] holds(cells, c2, r2, id) ==> c == c2 && r
            == r2
}

/// Moving the child of one cell to the transform of its cell carries a
/// placement one cell on.
pub proof fn lemma_place_step(
    before: Seq<HierarchyChild>,
    now: Seq<HierarchyChild>,
    next: Seq<HierarchyChild>,
    cells: Seq<Seq<Option<u128>>>,
    columns: Seq<Item>,
    rows: Seq<Item>,
    col: int,
    row: int,
    id: u128,
)
    requires
        placed_up_to(before, now, cells, columns, rows, col, row),
        distinct_ids(before),
        one_cell_each(cells),
        holds(cells, col, row, id),
        has_child(now, id),
        next == now.update(
            index_of(now, id),
            HierarchyChild { id, transform: cell_transform(columns, rows, col, row) },
        ),
    ensures
        placed_up_to(before, next, cells, columns, rows, col, row + 1),
        distinct_ids(next),
{
    lemma_index_of(now, id);
    let at = index_of(now, id);
    assert(before[at].id == now[at].id);
    assert forall|k: int| 0 <= k < before.len() implies (#[trigger] next[k]).id
        == before[k].id by {
        assert(now[k].id == before[k].id);
    }
    assert forall|k: int, c: int, r: int|
        0 <= k < before.len() && #[trigger] holds(cells, c, r, before[k].id) implies (
    #[trigger] next[k]).transform == if comes_before(c, r, col, row + 1) {
        cell_transform(columns, rows, c, r)
    } else {
        before[k].transform
    } by {
        assert(now[k].id == before[k].id);
        if k == at {
            assert(c == col && r == row);
        } else {
            assert(next[k] == now[k]);
            if c == col && r == row {
                assert(before[k].id == id);
                assert(false);
            }
        }
    }
    assert forall|k: int| 0 <= k < before.len() && !is_placed(cells, before[k].id) implies (
    #[trigger] next[k]).transform == before[k].transform by {
        assert(now[k].id == before[k].id);
        if k == at {
            assert(is_placed(cells, id));
        }
    }
    assert forall|i: int, j: int|
        0 <= i < next.len() && 0 <= j < next.len() && i != j implies (#[trigger] next[i]).id != (
    #[trigger] next[j]).id by {
        assert(now[i].id == before[i].id);
        assert(now[j].id == before[j].id);
    }
}

/// Passing an empty cell carries a placement one cell on.
pub proof fn lemma_place_skip(
    before: Seq<HierarchyChild>,
    now: Seq<HierarchyChild>,
    cells: Seq<Seq<Option<u128>>>,
    columns: Seq<Item>,
    rows: Seq<Item>,
    col: int,
    row: int,
)
    requires
        placed_up_to(before, now, cells, columns, rows, col, row),
        0 <= col < cells.len(),
        0 <= row < cells[col].len(),
        cells[col][row].is_none(),
    ensures
        placed_up_to(before, now, cells, columns, rows, col, row + 1),
{
}

/// A placement that has gone down a whole column stands at the head of
/// the next.
pub proof fn lemma_place_next_column(
    before: Seq<HierarchyChild>,
    now: Seq<HierarchyChild>,
    cells: Seq<Seq<Option<u128>>>,
    columns: Seq<Item>,
    rows: Seq<Item>,
    col: int,
)
    requires
        0 <= col < cells.len(),
        placed_up_to(before, now, cells, columns, rows, col, cells[col].len() as int),
    ensures
        placed_up_to(before, now, cells, columns, rows, col + 1, 0),
{
}

/// A placement that has passed every column is complete.
pub proof fn lemma_place_done(
    before: Seq<HierarchyChild>,
    now: Seq<HierarchyChild>,
    cells: Seq<Seq<Option<u128>>>,
    columns: Seq<Item>,
    rows: Seq<Item>,
)
    requires
        placed_up_to(before, now, cells, columns, rows, cells.len() as int, 0),
    ensures
        is_placement(before, now, cells, columns, rows),
{
}

/// Children that were moved to the transforms of their cells stand at the
/// transforms of their cells.
pub proof fn lemma_placement_stands(
    before: Seq<HierarchyChild>,
    after: Seq<HierarchyChild>,
    cells: Seq<Seq<Option<u128>>>,
    columns: Seq<Item>,
    rows: Seq<Item>,
)
    requires
        is_placement(before, after, cells, columns, rows),
    ensures
        is_placement(after, after, cells, columns, rows),
{
    assert forall|k: int, c: int, r: int|
        0 <= k < after.len() && #[trigger] holds(cells, c, r, after[k].id) implies (
    #[trigger] after[k]).transform == cell_transform(columns, rows, c, r) by {
        assert(after[k].id == before[k].id);
        assert(holds(cells, c, r, before[k].id));
    }
}

/// A grid as its contracts see it.
pub struct GridModel {
    /// The grid's own identifier.
    pub id: u128,
    /// The items of the column axis.
    pub columns: Seq<Item>,
    /// The width that the columns were last solved for.
    pub column_size: u32,
    /// Whether the columns changed since their last solve.
    pub columns_dirty: bool,
    /// The items of the row axis.
    pub rows: Seq<Item>,
    /// The height that the rows were last solved for.
    pub row_size: u32,
    /// Whether the rows changed since their last solve.
    pub rows_dirty: bool,
    /// The table of cells, by column and then by row.
    pub cells: Seq<Seq<Option<u128>>>,
    /// The children with their transforms.
    pub children: Seq<HierarchyChild>,
}

impl GridModel {
    /// Every child that a cell holds stands at the transform of its cell.
    pub open spec fn in_place(self) -> bool {
        is_placement(self.children, self.children, self.cells, self.columns, self.rows)
    }

    /// The table has a cell for every column and row; no child is known
    /// twice or held by two cells; every child that a cell holds is known;
    /// an axis that is not dirty is settled; and where no axis is dirty,
    /// every child that a cell holds stands at the transform of its cell.
    pub open spec fn well_formed(self) -> bool {
        &&& self.coherent()
        &&& (!self.columns_dirty && !self.rows_dirty) ==> self.in_place()
    }

    /// The table has a cell for every column and row; no child is known
    /// twice or held by two cells; every child that a cell holds is known;
    /// and an axis that is not dirty is settled.
    pub open spec fn coherent(self) -> bool {
        &&& self.cells.len() == self.columns.len()
        &&& forall|c: int|
            0 <= c < self.cells.len() ==> (#[trigger] self.cells[c]).len() == self.rows.len()
        &&& distinct_ids(self.children)
        &&& forall|c: int, r: int, id: u128| #[trigger]
            holds(self.cells, c, r, id) ==> has_child(self.children, id)
        &&& one_cell_each(self.cells)
        &&& !self.columns_dirty ==> settled(self.columns, self.column_size)
        &&& !self.rows_dirty ==> settled(self.rows, self.row_size)
    }

    /// The grid with `count` columns: columns beyond are dropped with their
    /// cells, missing ones are added with empty cells.
    pub open spec fn with_column_count(self, count: int) -> GridModel {
        GridModel {
            columns: resized_items(self.columns, count),
            columns_dirty: true,
            cells: Seq::new(
                count as nat,
                |c: int|
                    if c < self.cells.len() {
                        self.cells[c]
                    } else {
                        Seq::new(self.rows.len(), |r: int| None::<u128>)
                    },
            ),
            ..self
        }
    }

    /// The grid with `count` rows: rows beyond are dropped with their
    /// cells, missing ones are added with empty cells.
    pub open spec fn with_row_count(self, count: int) -> GridModel {
        GridModel {
            rows: resized_items(self.rows, count),
            rows_dirty: true,
            cells: Seq::new(
                self.cells.len(),
                |c: int|
                    Seq::new(
                        count as nat,
                        |r: int|
                            if r < self.cells[c].len() {
                                self.cells[c][r]
                            } else {
                                None::<u128>
                            },
                    ),
            ),
            ..self
        }
    }

    /// The grid with a column `col`: where `col` lies beyond the last
    /// column, the grid with `col + 1` columns.
    pub open spec fn with_column(self, col: int) -> GridModel {
        if self.columns.len() <= col {
            self.with_column_count(col + 1)
        } else {
            self
        }
    }

    /// The grid with a row `row`: where `row` lies beyond the last row,
    /// the grid with `row + 1` rows.
    pub open spec fn with_row(self, row: int) -> GridModel {
        if self.rows.len() <= row {
            self.with_row_count(row + 1)
        } else {
            self
        }
    }

    /// The grid with column `col` changed to `item`.
    pub open spec fn with_column_item(self, col: int, item: Item) -> GridModel {
        GridModel {
            columns: self.with_column(col).columns.update(col, item),
            columns_dirty: true,
            ..self.with_column(col)
        }
    }

    /// The grid with row `row` changed to `item`.
    pub open spec fn with_row_item(self, row: int, item: Item) -> GridModel {
        GridModel {
            rows: self.with_row(row).rows.update(row, item),
            rows_dirty: true,
            ..self.with_row(row)
        }
    }

    /// The column that an insertion goes to: the one given, or a new one
    /// behind the last.
    pub open spec fn target_column(self, col: Option<usize>) -> int {
        match col {
            Some(c) => c as int,
            None => self.columns.len() as int,
        }
    }

    /// The row that an insertion goes to: the one given, or a new one
    /// behind the last.
    pub open spec fn target_row(self, row: Option<usize>) -> int {
        match row {
            Some(r) => r as int,
            None => self.rows.len() as int,
        }
    }

    /// Why `child` cannot be inserted at `col` and `row`, if it cannot.
    pub open spec fn insert_error(self, child: u128, col: Option<usize>, row: Option<usize>) -> Option<
        LayoutError,
    > {
        let c = self.target_column(col);
        let r = self.target_row(row);
        if c >= usize::MAX || r >= usize::MAX {
            Some(LayoutError::OutOfRange)
        } else if has_child(self.children, child) || (c < self.cells.len() && r
            < self.cells[c].len() && self.cells[c][r].is_some()) {
            Some(LayoutError::DuplicateAssignment)
        } else {
            None
        }
    }

    /// The grid with `child` inserted at `col` and `row`: both axes reach
    /// the cell and are dirty, the cell holds the child, and the child is
    /// the last of the children, with the empty transform at the origin.
    pub open spec fn inserted(self, child: u128, col: Option<usize>, row: Option<usize>) -> GridModel {
        let c = self.target_column(col);
        let r = self.target_row(row);
        let grown = self.with_column(c).with_row(r);
        GridModel {
            cells: grown.cells.update(c, grown.cells[c].update(r, Some(child))),
            children: grown.children.push(
                HierarchyChild {
                    id: child,
                    transform: Transform {
                        pos: Position { x: 0, y: 0 },
                        size: Size { x: 0, y: 0 },
                    },
                },
            ),
            columns_dirty: true,
            rows_dirty: true,
            ..grown
        }
    }

    /// The grid without the child `child`: it is no longer among the
    /// children, and the cell that held it is empty.
    pub open spec fn without_child(self, child: u128) -> GridModel {
        GridModel {
            cells: Seq::new(
                self.cells.len(),
                |c: int|
                    Seq::new(
                        self.cells[c].len(),
                        |r: int|
                            if self.cells[c][r] == Some(child) {
                                None::<u128>
                            } else {
                                self.cells[c][r]
                            },
                    ),
            ),
            children: self.children.remove(index_of(self.children, child)),
            ..self
        }
    }

    /// Whether painting at `width` solves the columns anew.
    pub open spec fn columns_stale(self, width: u32) -> bool {
        self.column_size != width || self.columns_dirty
    }

    /// Whether painting at `height` solves the rows anew.
    pub open spec fn rows_stale(self, height: u32) -> bool {
        self.row_size != height || self.rows_dirty
    }

    /// The width of the columns once they are laid out for `width`.
    pub open spec fn column_target(self, width: u32) -> int {
        if self.columns_stale(width) {
            raised_size(width as int, self.columns)
        } else {
            self.column_size as int
        }
    }

    /// The height of the rows once they are laid out for `height`.
    pub open spec fn row_target(self, height: u32) -> int {
        if self.rows_stale(height) {
            raised_size(height as int, self.rows)
        } else {
            self.row_size as int
        }
    }

    /// Why the grid cannot be laid out for `size`, if it cannot: an axis
    /// would reach beyond the range of a coordinate, or its items' bounds
    /// cannot add up to its size.
    pub open spec fn refresh_error(self, size: Size) -> Option<LayoutError> {
        if self.column_target(size.x) > i32::MAX || self.row_target(size.y) > i32::MAX {
            Some(LayoutError::OutOfRange)
        } else if (self.columns_stale(size.x) && !solvable(size.x as int, self.columns)) || (
        self.rows_stale(size.y) && !solvable(size.y as int, self.rows)) {
            Some(LayoutError::InvalidConstraints)
        } else {
            None
        }
    }

    /// Whether `after` is the grid laid out for `size`: each stale axis
    /// solved anew for its side of `size`, no axis dirty, and every child
    /// that a cell holds at the transform of its cell.
    pub open spec fn is_refreshed(self, size: Size, after: GridModel) -> bool {
        &&& after.id == self.id
        &&& after.cells == self.cells
        &&& after.columns == if self.columns_stale(size.x) {
            solved(size.x as int, self.columns)
        } else {
            self.columns
        }
        &&& after.column_size == self.column_target(size.x)
        &&& after.rows == if self.rows_stale(size.y) {
            solved(size.y as int, self.rows)
        } else {
            self.rows
        }
        &&& after.row_size == self.row_target(size.y)
        &&& !after.columns_dirty
        &&& !after.rows_dirty
        &&& is_placement(self.children, after.children, self.cells, after.columns, after.rows)
    }

    /// Why the grid cannot be painted at `size`, if it cannot: it has to be
    /// laid out anew and cannot be.
    pub open spec fn paint_error(self, size: Size) -> Option<LayoutError> {
        if self.needs_refresh(size) {
            self.refresh_error(size)
        } else {
            None
        }
    }

    /// Whether `after` is the grid painted at `size`: laid out for `size`
    /// where painting lays it out anew, and as it was otherwise. Either way
    /// each axis is as a solve for its side of `size` leaves it, and every
    /// child that a cell holds stands at the transform of its cell.
    pub open spec fn is_painted(self, size: Size, after: GridModel) -> bool {
        &&& if self.needs_refresh(size) {
            self.is_refreshed(size, after)
        } else {
            after == self
        }
        &&& after.columns == solved(size.x as int, self.columns)
        &&& after.rows == solved(size.y as int, self.rows)
        &&& after.in_place()
    }

    /// Whether painting at `size` lays the grid out anew.
    pub open spec fn needs_refresh(self, size: Size) -> bool {
        self.rows_dirty || self.columns_dirty || self.row_size != size.y || self.column_size
            != size.x
    }
}

} // verus!
