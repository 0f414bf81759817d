//! A layout of columns and rows. Each axis has its own sizes and stretch
//! weights; each cell holds one child or none.

use vstd::prelude::*;
use crate::components::hierarchy::{
    has_child, index_of, lemma_index_of, transform_of, Hierarchy,
};
use crate::components::ident::new_v4;
use crate::components::transform::{Position, Size, Transform};
use crate::error::LayoutError;
use crate::layouts::grid_model::{
    cell_transform, fresh_item, holds, is_placement, lemma_place_done, lemma_place_next_column,
    lemma_place_skip, lemma_place_step, lemma_placement_stands, offset, placed_up_to,
    resized_items, GridModel,
};
use crate::layouts::grid_laws::lemma_offsets_fit;
use crate::layouts::laws::{law_bounds, law_resolve_is_stable};
use crate::layouts::model::{currents, raised_size};
use crate::layouts::item::Item;
use crate::layouts::solver::Layout;

verus! {

/// Columns and rows that share the painted size, and the children in
/// their cells.
#[derive(Debug)]
pub struct GridLayout {
    id: u128,
    hierarchy: Hierarchy,
    column_layout: Layout,
    is_column_layout_dirty: bool,
    row_layout: Layout,
    is_row_layout_dirty: bool,
    children_columns_rows: Vec<Vec<Option<u128>>>,
}

impl View for GridLayout {
    type V = GridModel;

    closed spec fn view(&self) -> GridModel {
        GridModel {
            id: self.id,
            columns: self.column_layout.items@,
            column_size: self.column_layout.size,
            columns_dirty: self.is_column_layout_dirty,
            rows: self.row_layout.items@,
            row_size: self.row_layout.size,
            rows_dirty: self.is_row_layout_dirty,
            cells: Seq::new(
                self.children_columns_rows@.len(),
                |c: int| self.children_columns_rows@[c]@,
            ),
            children: self.hierarchy@,
        }
    }
}

/// Brings `items` to `count` items: drops those beyond, adds fresh ones.
fn resize_items(items: &mut Vec<Item>, count: usize)
    ensures
        final(items)@ == resized_items(old(items)@, count as int),
{
    if count <= items.len() {
        items.truncate(count);
    } else {
        while items.len() < count
            invariant
                old(items)@.len() <= items@.len() <= count,
                forall|i: int|
                    0 <= i < items@.len() ==> #[trigger] items@[i] == if i < old(items)@.len() {
                        old(items)@[i]
                    } else {
                        fresh_item()
                    },
            decreases count - items.len(),
        {
            items.push(Item::new(1, None, None));
        }
    }
    assert(items@ =~= resized_items(old(items)@, count as int));
}

/// A column of `count` empty cells.
fn empty_cells(count: usize) -> (cells: Vec<Option<u128>>)
    ensures
        cells@ == Seq::new(count as nat, |r: int| None::<u128>),
{
    let mut cells: Vec<Option<u128>> = Vec::new();
    while cells.len() < count
        invariant
            cells@.len() <= count,
            forall|r: int| 0 <= r < cells@.len() ==> (#[trigger] cells@[r]).is_none(),
        decreases count - cells.len(),
    {
        cells.push(None);
    }
    assert(cells@ =~= Seq::new(count as nat, |r: int| None::<u128>));
    cells
}

/// Brings a column to `count` cells: drops those beyond, adds empty ones.
fn resize_cells(cells: &mut Vec<Option<u128>>, count: usize)
    ensures
        final(cells)@ == Seq::new(
            count as nat,
            |r: int| if r < old(cells)@.len() { old(cells)@[r] } else { None::<u128> },
        ),
{
    if count <= cells.len() {
        cells.truncate(count);
    } else {
        while cells.len() < count
            invariant
                old(cells)@.len() <= cells@.len() <= count,
                forall|r: int|
                    0 <= r < cells@.len() ==> #[trigger] cells@[r] == if r < old(cells)@.len() {
                        old(cells)@[r]
                    } else {
                        None::<u128>
                    },
            decreases count - cells.len(),
        {
            cells.push(None);
        }
    }
    assert(cells@ =~= Seq::new(
        count as nat,
        |r: int| if r < old(cells)@.len() { old(cells)@[r] } else { None::<u128> },
    ));
}

impl GridLayout {
    /// A grid without columns, rows or children, under a fresh identifier.
    /// Both axes are dirty.
    pub fn new_raw() -> (grid: Self)
        ensures
            grid@.well_formed(),
            grid@.columns.len() == 0,
            grid@.rows.len() == 0,
            grid@.cells.len() == 0,
            grid@.children.len() == 0,
            grid@.column_size == 0,
            grid@.row_size == 0,
            grid@.columns_dirty,
            grid@.rows_dirty,
            grid@.id & 0x0000_0000_0000_F000_C000_0000_0000_0000
                == 0x0000_0000_0000_4000_8000_0000_0000_0000,
    {
        Self {
            id: new_v4(),
            hierarchy: Hierarchy::default(),
            column_layout: Layout { size: 0, items: Vec::new() },
            is_column_layout_dirty: true,
            row_layout: Layout { size: 0, items: Vec::new() },
            is_row_layout_dirty: true,
            children_columns_rows: Vec::new(),
        }
    }

    /// The grid's own identifier.
    pub fn id(&self) -> (id: &u128)
        ensures
            *id == self@.id,
    {
        &self.id
    }

    /// The children with their transforms.
    pub fn get_hierarchy(&self) -> (hierarchy: &Hierarchy)
        ensures
            hierarchy@ == self@.children,
            self@.well_formed() ==> hierarchy.well_formed(),
    {
        &self.hierarchy
    }

    /// Whether the columns changed since they were last solved.
    pub fn is_column_layout_dirty(&self) -> (dirty: bool)
        ensures
            dirty == self@.columns_dirty,
    {
        self.is_column_layout_dirty
    }

    /// Whether the rows changed since they were last solved.
    pub fn is_row_layout_dirty(&self) -> (dirty: bool)
        ensures
            dirty == self@.rows_dirty,
    {
        self.is_row_layout_dirty
    }

    /// The column axis as it was last solved.
    pub fn column_layout(&self) -> (layout: &Layout)
        ensures
            layout.items@ == self@.columns,
            layout.size == self@.column_size,
    {
        &self.column_layout
    }

    /// The row axis as it was last solved.
    pub fn row_layout(&self) -> (layout: &Layout)
        ensures
            layout.items@ == self@.rows,
            layout.size == self@.row_size,
    {
        &self.row_layout
    }

    /// Sets the number of columns. Columns at `size` and beyond are dropped
    /// with their cells; a child of a dropped cell stays among the
    /// children, with the transform it had, until it is removed.
    pub fn set_column_count(&mut self, size: usize)
        requires
            old(self)@.well_formed(),
        ensures
            final(self)@.well_formed(),
            final(self)@ == old(self)@.with_column_count(size as int),
    {
        resize_items(&mut self.column_layout.items, size);
        let rows = self.row_layout.items.len();
        if size <= self.children_columns_rows.len() {
            self.children_columns_rows.truncate(size);
        } else {
            while self.children_columns_rows.len() < size
                invariant
                    rows == self.row_layout.items.len(),
                    self.row_layout == old(self).row_layout,
                    self.column_layout.size == old(self).column_layout.size,
                    self.column_layout.items@ == resized_items(
                        old(self).column_layout.items@,
                        size as int,
                    ),
                    self.hierarchy == old(self).hierarchy,
                    self.id == old(self).id,
                    self.is_row_layout_dirty == old(self).is_row_layout_dirty,
                    old(self).children_columns_rows@.len() <= self.children_columns_rows@.len()
                        <= size,
                    forall|c: int|
                        0 <= c < self.children_columns_rows@.len() ==> (
                        #[trigger] self.children_columns_rows@[c])@ == if c < old(
                            self,
                        ).children_columns_rows@.len() {
                            old(self).children_columns_rows@[c]@
                        } else {
                            Seq::new(rows as nat, |r: int| None::<u128>)
                        },
                decreases size - self.children_columns_rows.len(),
            {
                let column = empty_cells(rows);
                self.children_columns_rows.push(column);
            }
        }
        self.is_column_layout_dirty = true;
        proof {
            let after = self@;
            let model = old(self)@.with_column_count(size as int);
            assert(after.cells.len() == model.cells.len());
            assert forall|c: int| 0 <= c < after.cells.len() implies after.cells[c]
                == model.cells[c] by {
                assert(after.cells[c] == self.children_columns_rows@[c]@);
            }
            assert(after.cells =~= model.cells);
            assert forall|c: int, r: int, id: u128| #[trigger]
                holds(model.cells, c, r, id) implies holds(old(self)@.cells, c, r, id) by {
                if c >= old(self)@.cells.len() {
                    assert(model.cells[c][r].is_none());
                }
            }
        }
    }

    /// Sets the number of rows. Rows at `size` and beyond are dropped with
    /// their cells; a child of a dropped cell stays among the children,
    /// with the transform it had, until it is removed.
    pub fn set_row_count(&mut self, size: usize)
        requires
            old(self)@.well_formed(),
        ensures
            final(self)@.well_formed(),
            final(self)@ == old(self)@.with_row_count(size as int),
    {
        resize_items(&mut self.row_layout.items, size);
        let columns = self.children_columns_rows.len();
        let mut column: usize = 0;
        while column < columns
            invariant
                column <= columns,
                columns == self.children_columns_rows@.len(),
                columns == old(self).children_columns_rows@.len(),
                self.column_layout == old(self).column_layout,
                self.row_layout.size == old(self).row_layout.size,
                self.row_layout.items@ == resized_items(old(self).row_layout.items@, size as int),
                self.hierarchy == old(self).hierarchy,
                self.id == old(self).id,
                self.is_column_layout_dirty == old(self).is_column_layout_dirty,
                forall|c: int|
                    0 <= c < column ==> (#[trigger] self.children_columns_rows@[c])@ == Seq::new(
                        size as nat,
                        |r: int|
                            if r < old(self).children_columns_rows@[c]@.len() {
                                old(self).children_columns_rows@[c]@[r]
                            } else {
                                None::<u128>
                            },
                    ),
                forall|c: int|
                    column <= c < columns ==> #[trigger] self.children_columns_rows@[c]
                        == old(self).children_columns_rows@[c],
            decreases columns - column,
        {
            let mut cells = self.children_columns_rows[column].clone();
            assert(cells@ == old(self).children_columns_rows@[column as int]@);
            resize_cells(&mut cells, size);
            self.children_columns_rows.set(column, cells);
            column = column + 1;
        }
        self.is_row_layout_dirty = true;
        proof {
            let after = self@;
            let model = old(self)@.with_row_count(size as int);
            assert forall|c: int| 0 <= c < after.cells.len() implies after.cells[c]
                == model.cells[c] by {
                assert(after.cells[c] == self.children_columns_rows@[c]@);
                assert(old(self)@.cells[c] == old(self).children_columns_rows@[c]@);
            }
            assert(after.cells =~= model.cells);
            assert forall|c: int, r: int, id: u128| #[trigger]
                holds(model.cells, c, r, id) implies holds(old(self)@.cells, c, r, id) by {
                if r >= old(self)@.cells[c].len() {
                    assert(model.cells[c][r].is_none());
                }
            }
        }
    }
}

impl GridLayout {
    /// Makes sure that column `col` exists: where it lies beyond the last
    /// column, columns are added up to it.
    fn ensure_column_exists(&mut self, col: usize)
        requires
            old(self)@.well_formed(),
            col < usize::MAX,
        ensures
            final(self)@.well_formed(),
            final(self)@ == old(self)@.with_column(col as int),
            col < final(self)@.columns.len(),
    {
        if self.column_layout.items.len() <= col {
            self.set_column_count(col + 1);
        }
    }

    /// Makes sure that row `row` exists: where it lies beyond the last
    /// row, rows are added up to it.
    fn ensure_row_exists(&mut self, row: usize)
        requires
            old(self)@.well_formed(),
            row < usize::MAX,
        ensures
            final(self)@.well_formed(),
            final(self)@ == old(self)@.with_row(row as int),
            row < final(self)@.rows.len(),
    {
        if self.row_layout.items.len() <= row {
            self.set_row_count(row + 1);
        }
    }

    /// Changes column `col` to `item` and marks the columns dirty.
    fn set_column_item(&mut self, col: usize, item: Item)
        requires
            old(self)@.well_formed(),
            col < old(self)@.columns.len(),
        ensures
            final(self)@.well_formed(),
            final(self)@ == (GridModel {
                columns: old(self)@.columns.update(col as int, item),
                columns_dirty: true,
                ..old(self)@
            }),
    {
        self.column_layout.items.set(col, item);
        self.is_column_layout_dirty = true;
        assert(self@.cells =~= old(self)@.cells);
    }

    /// Changes row `row` to `item` and marks the rows dirty.
    fn set_row_item(&mut self, row: usize, item: Item)
        requires
            old(self)@.well_formed(),
            row < old(self)@.rows.len(),
        ensures
            final(self)@.well_formed(),
            final(self)@ == (GridModel {
                rows: old(self)@.rows.update(row as int, item),
                rows_dirty: true,
                ..old(self)@
            }),
    {
        self.row_layout.items.set(row, item);
        self.is_row_layout_dirty = true;
        assert(self@.cells =~= old(self)@.cells);
    }

    /// Sets the stretch of column `col`, adding columns up to it where it
    /// does not exist. Refuses a column beyond the range of an index.
    pub fn set_column_stretch(&mut self, col: usize, stretch: u32) -> (result: Result<
        (),
        LayoutError,
    >)
        requires
            old(self)@.well_formed(),
        ensures
            final(self)@.well_formed(),
            match result {
                Ok(_) => col < usize::MAX && final(self)@ == old(self)@.with_column_item(
                    col as int,
                    Item { stretch, ..old(self)@.with_column(col as int).columns[col as int] },
                ),
                Err(e) => e == LayoutError::OutOfRange && col == usize::MAX
                    && final(self)@ == old(self)@,
            },
    {
        if col == usize::MAX {
            return Err(LayoutError::OutOfRange);
        }
        self.ensure_column_exists(col);
        let item = self.column_layout.items[col];
        self.set_column_item(col, Item { stretch, ..item });
        Ok(())
    }

    /// Sets the maximum size of column `col`, adding columns up to it
    /// where it does not exist. Refuses a column beyond the range of an
    /// index.
    pub fn set_column_max_size(&mut self, col: usize, size: u32) -> (result: Result<
        (),
        LayoutError,
    >)
        requires
            old(self)@.well_formed(),
        ensures
            final(self)@.well_formed(),
            match result {
                Ok(_) => col < usize::MAX && final(self)@ == old(self)@.with_column_item(
                    col as int,
                    Item {
                        max_size: size,
                        ..old(self)@.with_column(col as int).columns[col as int]
                    },
                ),
                Err(e) => e == LayoutError::OutOfRange && col == usize::MAX
                    && final(self)@ == old(self)@,
            },
    {
        if col == usize::MAX {
            return Err(LayoutError::OutOfRange);
        }
        self.ensure_column_exists(col);
        let item = self.column_layout.items[col];
        self.set_column_item(col, Item { max_size: size, ..item });
        Ok(())
    }

    /// Sets the minimum size of column `col`, adding columns up to it
    /// where it does not exist. Refuses a column beyond the range of an
    /// index.
    pub fn set_column_min_size(&mut self, col: usize, size: u32) -> (result: Result<
        (),
        LayoutError,
    >)
        requires
            old(self)@.well_formed(),
        ensures
            final(self)@.well_formed(),
            match result {
                Ok(_) => col < usize::MAX && final(self)@ == old(self)@.with_column_item(
                    col as int,
                    Item {
                        min_size: size,
                        ..old(self)@.with_column(col as int).columns[col as int]
                    },
                ),
                Err(e) => e == LayoutError::OutOfRange && col == usize::MAX
                    && final(self)@ == old(self)@,
            },
    {
        if col == usize::MAX {
            return Err(LayoutError::OutOfRange);
        }
        self.ensure_column_exists(col);
        let item = self.column_layout.items[col];
        self.set_column_item(col, Item { min_size: size, ..item });
        Ok(())
    }

    /// Sets the stretch of row `row`, adding rows up to it where it does
    /// not exist. Refuses a row beyond the range of an index.
    pub fn set_row_stretch(&mut self, row: usize, stretch: u32) -> (result: Result<(), LayoutError>)
        requires
            old(self)@.well_formed(),
        ensures
            final(self)@.well_formed(),
            match result {
                Ok(_) => row < usize::MAX && final(self)@ == old(self)@.with_row_item(
                    row as int,
                    Item { stretch, ..old(self)@.with_row(row as int).rows[row as int] },
                ),
                Err(e) => e == LayoutError::OutOfRange && row == usize::MAX
                    && final(self)@ == old(self)@,
            },
    {
        if row == usize::MAX {
            return Err(LayoutError::OutOfRange);
        }
        self.ensure_row_exists(row);
        let item = self.row_layout.items[row];
        self.set_row_item(row, Item { stretch, ..item });
        Ok(())
    }

    /// Sets the maximum size of row `row`, adding rows up to it where it
    /// does not exist. Refuses a row beyond the range of an index.
    pub fn set_row_max_size(&mut self, row: usize, size: u32) -> (result: Result<(), LayoutError>)
        requires
            old(self)@.well_formed(),
        ensures
            final(self)@.well_formed(),
            match result {
                Ok(_) => row < usize::MAX && final(self)@ == old(self)@.with_row_item(
                    row as int,
                    Item { max_size: size, ..old(self)@.with_row(row as int).rows[row as int] },
                ),
                Err(e) => e == LayoutError::OutOfRange && row == usize::MAX
                    && final(self)@ == old(self)@,
            },
    {
        if row == usize::MAX {
            return Err(LayoutError::OutOfRange);
        }
        self.ensure_row_exists(row);
        let item = self.row_layout.items[row];
        self.set_row_item(row, Item { max_size: size, ..item });
        Ok(())
    }

    /// Sets the minimum size of row `row`, adding rows up to it where it
    /// does not exist. Refuses a row beyond the range of an index.
    pub fn set_row_min_size(&mut self, row: usize, size: u32) -> (result: Result<(), LayoutError>)
        requires
            old(self)@.well_formed(),
        ensures
            final(self)@.well_formed(),
            match result {
                Ok(_) => row < usize::MAX && final(self)@ == old(self)@.with_row_item(
                    row as int,
                    Item { min_size: size, ..old(self)@.with_row(row as int).rows[row as int] },
                ),
                Err(e) => e == LayoutError::OutOfRange && row == usize::MAX
                    && final(self)@ == old(self)@,
            },
    {
        if row == usize::MAX {
            return Err(LayoutError::OutOfRange);
        }
        self.ensure_row_exists(row);
        let item = self.row_layout.items[row];
        self.set_row_item(row, Item { min_size: size, ..item });
        Ok(())
    }

    /// The transform of the child `child`. Refuses an identifier that no
    /// child has.
    pub fn get_child_transform(&self, child: &u128) -> (result: Result<&Transform, LayoutError>)
        requires
            self@.well_formed(),
        ensures
            match result {
                Ok(transform) => has_child(self@.children, *child) && *transform == transform_of(
                    self@.children,
                    *child,
                ),
                Err(e) => e == LayoutError::OutOfRange && !has_child(self@.children, *child),
            },
    {
        self.hierarchy.get_transform(child)
    }
}

impl GridLayout {
    /// Puts `child` into the cell at `col` and `row`; an axis that is not
    /// given takes a new column or row behind its last. Axes grow to reach
    /// the cell, and both are dirty after. The child joins the children
    /// with the empty transform at the origin, which the next paint
    /// overwrites. Refuses a cell beyond the range of an index, a child
    /// that is there already, and a cell that holds a child.
    pub fn insert_child_at(&mut self, child: u128, col: Option<usize>, row: Option<usize>) -> (result:
        Result<(), LayoutError>)
        requires
            old(self)@.well_formed(),
        ensures
            final(self)@.well_formed(),
            match result {
                Ok(_) => old(self)@.insert_error(child, col, row).is_none()
                    && final(self)@ == old(self)@.inserted(child, col, row),
                Err(e) => old(self)@.insert_error(child, col, row) == Some(e) && final(self)@
                    == old(self)@,
            },
    {
        let fixed_col = match col {
            Some(c) => c,
            None => self.column_layout.items.len(),
        };
        let fixed_row = match row {
            Some(r) => r,
            None => self.row_layout.items.len(),
        };
        if fixed_col == usize::MAX || fixed_row == usize::MAX {
            return Err(LayoutError::OutOfRange);
        }
        if self.hierarchy.index(&child).is_some() {
            return Err(LayoutError::DuplicateAssignment);
        }
        if fixed_col < self.children_columns_rows.len() {
            assert(self@.cells[fixed_col as int] == self.children_columns_rows@[fixed_col as int]@);
            if fixed_row < self.children_columns_rows[fixed_col].len()
                && self.children_columns_rows[fixed_col][fixed_row].is_some() {
                return Err(LayoutError::DuplicateAssignment);
            }
        }
        self.ensure_column_exists(fixed_col);
        self.ensure_row_exists(fixed_row);
        let ghost grown = self@;
        assert(grown.cells[fixed_col as int] == self.children_columns_rows@[fixed_col as int]@);
        let mut column = self.children_columns_rows[fixed_col].clone();
        column.set(fixed_row, Some(child));
        self.children_columns_rows.set(fixed_col, column);
        let transform = Transform::default();
        let added = self.hierarchy.add_with_transform(child, &transform);
        self.is_column_layout_dirty = true;
        self.is_row_layout_dirty = true;
        proof {
            let after = self@;
            let model = old(self)@.inserted(child, col, row);
            assert(grown == old(self)@.with_column(fixed_col as int).with_row(fixed_row as int));
            assert forall|c: int, r: int, id: u128| #[trigger]
                holds(grown.cells, c, r, id) implies holds(old(self)@.cells, c, r, id) by {}
            assert(added.is_ok());
            assert forall|c: int| 0 <= c < after.cells.len() implies after.cells[c]
                == model.cells[c] by {
                assert(after.cells[c] == self.children_columns_rows@[c]@);
                if c != fixed_col {
                    assert(grown.cells[c] == self.children_columns_rows@[c]@);
                }
            }
            assert(after.cells =~= model.cells);
            assert(after == model);
            assert forall|c: int, r: int, id: u128| #[trigger]
                holds(after.cells, c, r, id) implies has_child(after.children, id) by {
                if c == fixed_col && r == fixed_row {
                    assert(after.children[after.children.len() - 1].id == child);
                } else {
                    assert(holds(grown.cells, c, r, id));
                    assert(has_child(old(self)@.children, id));
                    let k = choose|k: int|
                        0 <= k < old(self)@.children.len()
                            && (#[trigger] old(self)@.children[k]).id == id;
                    assert(after.children[k].id == id);
                }
            }
            assert forall|c: int, r: int, c2: int, r2: int, id: u128|
                #[trigger] holds(after.cells, c, r, id) && #[trigger] holds(
                    after.cells,
                    c2,
                    r2,
                    id,
                ) implies c == c2 && r == r2 by {
                let here = c == fixed_col && r == fixed_row;
                let there = c2 == fixed_col && r2 == fixed_row;
                if !here {
                    assert(holds(grown.cells, c, r, id));
                    assert(has_child(old(self)@.children, id));
                }
                if !there {
                    assert(holds(grown.cells, c2, r2, id));
                    assert(has_child(old(self)@.children, id));
                }
            }
        }
        Ok(())
    }

    /// Takes `child` from the children and empties the cell that held it.
    /// Refuses an identifier that no child has.
    pub fn remove_child(&mut self, child: &u128) -> (result: Result<(), LayoutError>)
        requires
            old(self)@.well_formed(),
        ensures
            final(self)@.well_formed(),
            match result {
                Ok(_) => has_child(old(self)@.children, *child)
                    && final(self)@ == old(self)@.without_child(*child),
                Err(e) => e == LayoutError::OutOfRange && !has_child(old(self)@.children, *child)
                    && final(self)@ == old(self)@,
            },
    {
        match self.hierarchy.remove(child) {
            Err(e) => {
                return Err(e);
            },
            Ok(_) => {},
        }
        let columns = self.children_columns_rows.len();
        let mut column: usize = 0;
        while column < columns
            invariant
                column <= columns,
                columns == self.children_columns_rows@.len(),
                columns == old(self).children_columns_rows@.len(),
                self.column_layout == old(self).column_layout,
                self.row_layout == old(self).row_layout,
                self.hierarchy@ == old(self).hierarchy@.remove(
                    index_of(old(self).hierarchy@, *child),
                ),
                self.id == old(self).id,
                self.is_column_layout_dirty == old(self).is_column_layout_dirty,
                self.is_row_layout_dirty == old(self).is_row_layout_dirty,
                forall|c: int|
                    0 <= c < column ==> (#[trigger] self.children_columns_rows@[c])@ == Seq::new(
                        old(self).children_columns_rows@[c]@.len(),
                        |r: int|
                            if old(self).children_columns_rows@[c]@[r] == Some(*child) {
                                None::<u128>
                            } else {
                                old(self).children_columns_rows@[c]@[r]
                            },
                    ),
                forall|c: int|
                    column <= c < columns ==> #[trigger] self.children_columns_rows@[c]
                        == old(self).children_columns_rows@[c],
            decreases columns - column,
        {
            let mut cells = self.children_columns_rows[column].clone();
            let ghost before = cells@;
            assert(before == old(self).children_columns_rows@[column as int]@);
            let rows = cells.len();
            let mut row: usize = 0;
            while row < rows
                invariant
                    row <= rows,
                    rows == cells@.len(),
                    rows == before.len(),
                    forall|r: int|
                        0 <= r < row ==> #[trigger] cells@[r] == if before[r] == Some(*child) {
                            None::<u128>
                        } else {
                            before[r]
                        },
                    forall|r: int| row <= r < rows ==> #[trigger] cells@[r] == before[r],
                decreases rows - row,
            {
                match cells[row] {
                    Some(id) => {
                        if id == *child {
                            cells.set(row, None);
                        }
                    },
                    None => {},
                }
                row = row + 1;
            }
            assert(cells@ =~= Seq::new(
                before.len(),
                |r: int| if before[r] == Some(*child) { None::<u128> } else { before[r] },
            ));
            self.children_columns_rows.set(column, cells);
            column = column + 1;
        }
        proof {
            let before = old(self)@;
            let after = self@;
            let model = before.without_child(*child);
            assert forall|c: int| 0 <= c < after.cells.len() implies after.cells[c]
                == model.cells[c] by {
                assert(after.cells[c] == self.children_columns_rows@[c]@);
                assert(before.cells[c] == old(self).children_columns_rows@[c]@);
            }
            assert(after.cells =~= model.cells);
            assert(after == model);
            let gone = index_of(before.children, *child);
            lemma_index_of(before.children, *child);
            assert forall|c: int, r: int, id: u128| #[trigger]
                holds(after.cells, c, r, id) implies has_child(after.children, id) by {
                assert(holds(before.cells, c, r, id));
                assert(id != *child);
                let k = choose|k: int|
                    0 <= k < before.children.len() && (#[trigger] before.children[k]).id == id;
                if k < gone {
                    assert(after.children[k].id == id);
                } else {
                    assert(after.children[k - 1].id == id);
                }
            }
            assert forall|c: int, r: int, c2: int, r2: int, id: u128|
                #[trigger] holds(after.cells, c, r, id) && #[trigger] holds(
                    after.cells,
                    c2,
                    r2,
                    id,
                ) implies c == c2 && r == r2 by {
                assert(holds(before.cells, c, r, id));
                assert(holds(before.cells, c2, r2, id));
            }
            if !before.columns_dirty && !before.rows_dirty {
                assert forall|k: int, c: int, r: int|
                    0 <= k < after.children.len() && #[trigger] holds(
                        after.cells,
                        c,
                        r,
                        after.children[k].id,
                    ) implies (#[trigger] after.children[k]).transform == cell_transform(
                    after.columns,
                    after.rows,
                    c,
                    r,
                ) by {
                    let from = if k < gone { k } else { k + 1 };
                    assert(after.children[k] == before.children[from]);
                    assert(holds(before.cells, c, r, before.children[from].id));
                }
            }
        }
        Ok(())
    }
}

impl GridLayout {
    /// Moves every child that a cell holds to the transform of its cell:
    /// it begins at the offsets of its column and row and has their
    /// resolved sizes.
    fn place_children(&mut self)
        requires
            old(self)@.coherent(),
            !old(self)@.columns_dirty,
            !old(self)@.rows_dirty,
        ensures
            final(self)@.well_formed(),
            final(self)@ == (GridModel { children: final(self)@.children, ..old(self)@ }),
            is_placement(
                old(self)@.children,
                final(self)@.children,
                old(self)@.cells,
                old(self)@.columns,
                old(self)@.rows,
            ),
    {
        let ghost before = self@;
        let column_count = self.column_layout.items.len();
        let row_count = self.row_layout.items.len();
        let mut col_offset: i32 = 0;
        let mut col: usize = 0;
        proof {
            assert(currents(before.columns).take(0) =~= Seq::<int>::empty());
        }
        while col < column_count
            invariant
                col <= column_count,
                column_count == before.columns.len(),
                row_count == before.rows.len(),
                before.coherent(),
                !before.columns_dirty,
                !before.rows_dirty,
                self@ == (GridModel { children: self@.children, ..before }),
                self.hierarchy.well_formed(),
                col_offset == offset(before.columns, col as int),
                placed_up_to(
                    before.children,
                    self@.children,
                    before.cells,
                    before.columns,
                    before.rows,
                    col as int,
                    0,
                ),
            decreases column_count - col,
        {
            let col_size = self.column_layout.items[col].current_size;
            let mut row_offset: i32 = 0;
            let mut row: usize = 0;
            proof {
                lemma_offsets_fit(before.columns, before.column_size, col as int);
                assert(currents(before.rows).take(0) =~= Seq::<int>::empty());
                assert(before.cells[col as int] == self.children_columns_rows@[col as int]@);
            }
            while row < row_count
                invariant
                    row <= row_count,
                    col < column_count,
                    column_count == before.columns.len(),
                    row_count == before.rows.len(),
                    before.coherent(),
                    !before.columns_dirty,
                    !before.rows_dirty,
                    self@ == (GridModel { children: self@.children, ..before }),
                    self.hierarchy.well_formed(),
                    col_size == before.columns[col as int].current_size,
                    col_offset == offset(before.columns, col as int),
                    row_offset == offset(before.rows, row as int),
                    before.cells[col as int] == self.children_columns_rows@[col as int]@,
                    placed_up_to(
                        before.children,
                        self@.children,
                        before.cells,
                        before.columns,
                        before.rows,
                        col as int,
                        row as int,
                    ),
                decreases row_count - row,
            {
                let row_size = self.row_layout.items[row].current_size;
                proof {
                    lemma_offsets_fit(before.rows, before.row_size, row as int);
                }
                match self.children_columns_rows[col][row] {
                    Some(id) => {
                        let ghost now = self@.children;
                        proof {
                            assert(holds(before.cells, col as int, row as int, id));
                            assert(has_child(before.children, id));
                            let k = choose|k: int|
                                0 <= k < before.children.len() && (
                                #[trigger] before.children[k]).id == id;
                            assert(now[k].id == id);
                        }
                        let transform = Transform::new(
                            &Position { x: col_offset, y: row_offset },
                            &Size { x: col_size, y: row_size },
                        );
                        let placed = self.hierarchy.set_transform(&id, &transform);
                        proof {
                            assert(placed.is_ok());
                            lemma_place_step(
                                before.children,
                                now,
                                self@.children,
                                before.cells,
                                before.columns,
                                before.rows,
                                col as int,
                                row as int,
                                id,
                            );
                            assert(self@.cells =~= before.cells);
                        }
                    },
                    None => {
                        proof {
                            lemma_place_skip(
                                before.children,
                                self@.children,
                                before.cells,
                                before.columns,
                                before.rows,
                                col as int,
                                row as int,
                            );
                        }
                    },
                }
                row_offset = row_offset + row_size as i32;
                row = row + 1;
            }
            proof {
                lemma_place_next_column(
                    before.children,
                    self@.children,
                    before.cells,
                    before.columns,
                    before.rows,
                    col as int,
                );
            }
            col_offset = col_offset + col_size as i32;
            col = col + 1;
        }
        proof {
            lemma_place_done(
                before.children,
                self@.children,
                before.cells,
                before.columns,
                before.rows,
            );
            lemma_placement_stands(
                before.children,
                self@.children,
                before.cells,
                before.columns,
                before.rows,
            );
            let after = self@;
            assert forall|c: int, r: int, id: u128| #[trigger]
                holds(after.cells, c, r, id) implies has_child(after.children, id) by {
                assert(has_child(before.children, id));
                let k = choose|k: int|
                    0 <= k < before.children.len() && (#[trigger] before.children[k]).id == id;
                assert(after.children[k].id == id);
            }
        }
    }

    /// Lays the grid out for `size`. An axis that is dirty, or was last
    /// solved for another size, is solved anew for its side of `size` and
    /// is clean after; then every child that a cell holds is moved to the
    /// transform of its cell. Refuses, and changes nothing, where an axis
    /// would reach beyond the range of a coordinate, or where the bounds of
    /// its items cannot add up to its size.
    pub fn refresh_children_transforms(&mut self, size: &Size) -> (result: Result<(), LayoutError>)
        requires
            old(self)@.well_formed(),
        ensures
            final(self)@.well_formed(),
            match result {
                Ok(_) => old(self)@.refresh_error(*size).is_none() && old(self)@.is_refreshed(
                    *size,
                    final(self)@,
                ),
                Err(e) => old(self)@.refresh_error(*size) == Some(e) && final(self)@ == old(self)@,
            },
    {
        let columns_stale = self.column_layout.size != size.x || self.is_column_layout_dirty;
        let rows_stale = self.row_layout.size != size.y || self.is_row_layout_dirty;
        let column_target = Self::target_size(&self.column_layout, columns_stale, size.x);
        let row_target = Self::target_size(&self.row_layout, rows_stale, size.y);
        if column_target > i32::MAX as u128 || row_target > i32::MAX as u128 {
            return Err(LayoutError::OutOfRange);
        }
        if (columns_stale && !self.column_layout.can_solve(size.x)) || (rows_stale
            && !self.row_layout.can_solve(size.y)) {
            return Err(LayoutError::InvalidConstraints);
        }
        if columns_stale {
            proof {
                law_resolve_is_stable(size.x, self.column_layout.items@);
            }
            self.column_layout.size = size.x;
            let solved = self.column_layout.refresh();
            assert(solved.is_ok());
            self.is_column_layout_dirty = false;
        }
        if rows_stale {
            proof {
                law_resolve_is_stable(size.y, self.row_layout.items@);
            }
            self.row_layout.size = size.y;
            let solved = self.row_layout.refresh();
            assert(solved.is_ok());
            self.is_row_layout_dirty = false;
        }
        proof {
            assert(self@.cells =~= old(self)@.cells);
            law_bounds(size.x, old(self)@.columns);
            law_bounds(size.y, old(self)@.rows);
        }
        self.place_children();
        Ok(())
    }

    /// The size of an axis once it is laid out for `side`.
    fn target_size(layout: &Layout, stale: bool, side: u32) -> (target: u128)
        ensures
            target == if stale {
                raised_size(side as int, layout.items@)
            } else {
                layout.size as int
            },
    {
        if stale {
            let sum_of_min_sizes = layout.min_size_total();
            if (side as u128) < sum_of_min_sizes {
                sum_of_min_sizes
            } else {
                side as u128
            }
        } else {
            layout.size as u128
        }
    }

    /// Prepares the grid for painting at `size`: lays it out anew where an
    /// axis is dirty or `size` is not the size it was last laid out for,
    /// and leaves it as it is otherwise. Either way each axis is then as
    /// the solver leaves it for its side of `size`, and every child that a
    /// cell holds stands at the offsets of its column and row, with their
    /// resolved sizes. Refuses, and changes nothing, where the grid has to
    /// be laid out anew and cannot be.
    pub fn paint(&mut self, size: &Size) -> (result: Result<(), LayoutError>)
        requires
            old(self)@.well_formed(),
        ensures
            final(self)@.well_formed(),
            match result {
                Ok(_) => old(self)@.paint_error(*size).is_none() && old(self)@.is_painted(
                    *size,
                    final(self)@,
                ),
                Err(e) => old(self)@.paint_error(*size) == Some(e) && final(self)@ == old(self)@,
            },
    {
        if self.is_row_layout_dirty || self.is_column_layout_dirty || self.row_layout.size != size.y
            || self.column_layout.size != size.x {
            self.refresh_children_transforms(size)
        } else {
            Ok(())
        }
    }
}

} // verus!
