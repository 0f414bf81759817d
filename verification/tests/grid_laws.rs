use poly_ui::components::Hierarchy;
use poly_ui::components::HierarchyChild;
use poly_ui::components::Position;
use poly_ui::components::Size;
use poly_ui::components::Transform;
use poly_ui::error::LayoutError;
use poly_ui::layouts::GridLayout;
use poly_ui::layouts::Item;
use poly_ui::layouts::Layout;

fn transform(x: i32, y: i32, width: u32, height: u32) -> Transform {
    Transform::new(&Position { x, y }, &Size { x: width, y: height })
}

#[test]
fn two_appended_children_share_the_width_like_two_items() {
    let mut grid = GridLayout::new_raw();
    grid.insert_child_at(1, None, None).unwrap();
    grid.insert_child_at(2, None, None).unwrap();
    grid.paint(&Size { x: 800, y: 600 }).unwrap();

    let direct = Layout::new(800, vec![Item::new(1, None, None), Item::new(1, None, None)])
        .unwrap();
    let first = *grid.get_child_transform(&1).unwrap();
    let second = *grid.get_child_transform(&2).unwrap();
    assert_eq!(first.pos.x, 0);
    assert_eq!(second.pos.x, 400);
    assert_eq!(first.size.x, 400);
    assert_eq!(second.size.x, 400);
    assert_eq!(first.size.x, direct.get_items()[0].get_current_size());
    assert_eq!(second.size.x, direct.get_items()[1].get_current_size());
    assert_eq!(grid.column_layout().get_items(), direct.get_items());
}

#[test]
fn a_fresh_identifier_is_a_random_uuid() {
    let first = GridLayout::new_raw();
    let second = GridLayout::new_raw();
    assert_ne!(first.id(), second.id());
    for id in [*first.id(), *second.id()] {
        assert_eq!(
            id & 0x0000_0000_0000_F000_C000_0000_0000_0000,
            0x0000_0000_0000_4000_8000_0000_0000_0000
        );
        assert_eq!(uuid::Uuid::from_u128(id).get_version_num(), 4);
    }
}

#[test]
fn a_child_or_a_cell_is_taken_once() {
    let mut grid = GridLayout::new_raw();
    grid.insert_child_at(1, Some(0), Some(0)).unwrap();
    assert_eq!(
        grid.insert_child_at(1, Some(1), Some(1)),
        Err(LayoutError::DuplicateAssignment)
    );
    assert_eq!(
        grid.insert_child_at(2, Some(0), Some(0)),
        Err(LayoutError::DuplicateAssignment)
    );
    assert_eq!(grid.column_layout().get_items().len(), 1);
    assert_eq!(grid.row_layout().get_items().len(), 1);
    assert_eq!(grid.get_hierarchy().children().len(), 1);
}

#[test]
fn an_index_beyond_the_range_is_refused() {
    let mut grid = GridLayout::new_raw();
    assert_eq!(
        grid.insert_child_at(1, Some(usize::MAX), Some(0)),
        Err(LayoutError::OutOfRange)
    );
    assert_eq!(
        grid.insert_child_at(1, Some(0), Some(usize::MAX)),
        Err(LayoutError::OutOfRange)
    );
    assert_eq!(grid.set_column_stretch(usize::MAX, 1), Err(LayoutError::OutOfRange));
    assert_eq!(grid.set_column_min_size(usize::MAX, 1), Err(LayoutError::OutOfRange));
    assert_eq!(grid.set_column_max_size(usize::MAX, 1), Err(LayoutError::OutOfRange));
    assert_eq!(grid.set_row_stretch(usize::MAX, 1), Err(LayoutError::OutOfRange));
    assert_eq!(grid.set_row_min_size(usize::MAX, 1), Err(LayoutError::OutOfRange));
    assert_eq!(grid.set_row_max_size(usize::MAX, 1), Err(LayoutError::OutOfRange));
    assert_eq!(grid.get_child_transform(&1).err(), Some(LayoutError::OutOfRange));
    assert_eq!(grid.remove_child(&1), Err(LayoutError::OutOfRange));
    assert_eq!(grid.get_hierarchy().children().len(), 0);
}

#[test]
fn a_size_beyond_a_coordinate_is_refused() {
    let mut grid = GridLayout::new_raw();
    grid.insert_child_at(1, None, None).unwrap();
    assert_eq!(
        grid.paint(&Size { x: (i32::MAX as u32) + 1, y: 10 }),
        Err(LayoutError::OutOfRange)
    );
    assert_eq!(
        grid.paint(&Size { x: 10, y: u32::MAX }),
        Err(LayoutError::OutOfRange)
    );
    assert_eq!(*grid.get_child_transform(&1).unwrap(), Transform::default());
    // A minimum size raises the width beyond the range, too.
    grid.set_column_min_size(0, (i32::MAX as u32) + 1).unwrap();
    assert_eq!(grid.paint(&Size { x: 10, y: 10 }), Err(LayoutError::OutOfRange));
    grid.set_column_min_size(0, i32::MAX as u32).unwrap();
    grid.paint(&Size { x: 10, y: 10 }).unwrap();
    assert_eq!(
        *grid.get_child_transform(&1).unwrap(),
        transform(0, 0, i32::MAX as u32, 10)
    );
    assert_eq!(grid.column_layout().get_size(), i32::MAX as u32);
}

#[test]
fn columns_that_cannot_fill_the_width_are_refused() {
    let mut grid = GridLayout::new_raw();
    grid.insert_child_at(1, None, None).unwrap();
    grid.paint(&Size { x: 100, y: 100 }).unwrap();
    grid.set_column_max_size(0, 10).unwrap();
    assert_eq!(
        grid.paint(&Size { x: 100, y: 100 }),
        Err(LayoutError::InvalidConstraints)
    );
    // Nothing has moved.
    assert_eq!(*grid.get_child_transform(&1).unwrap(), transform(0, 0, 100, 100));
    grid.paint(&Size { x: 10, y: 100 }).unwrap();
    assert_eq!(*grid.get_child_transform(&1).unwrap(), transform(0, 0, 10, 100));
}

#[test]
fn removing_a_child_frees_its_cell() {
    let mut grid = GridLayout::new_raw();
    grid.insert_child_at(1, Some(1), Some(0)).unwrap();
    grid.insert_child_at(2, Some(0), Some(0)).unwrap();
    grid.remove_child(&1).unwrap();
    assert_eq!(grid.get_hierarchy().index(&1), None);
    assert_eq!(grid.get_hierarchy().index(&2), Some(0));
    grid.insert_child_at(3, Some(1), Some(0)).unwrap();
    grid.paint(&Size { x: 90, y: 30 }).unwrap();
    assert_eq!(*grid.get_child_transform(&2).unwrap(), transform(0, 0, 45, 30));
    assert_eq!(*grid.get_child_transform(&3).unwrap(), transform(45, 0, 45, 30));
}

#[test]
fn a_child_of_a_dropped_column_keeps_its_transform() {
    let mut grid = GridLayout::new_raw();
    grid.insert_child_at(1, Some(0), Some(0)).unwrap();
    grid.insert_child_at(2, Some(1), Some(0)).unwrap();
    grid.paint(&Size { x: 100, y: 40 }).unwrap();
    grid.set_column_count(1);
    grid.paint(&Size { x: 100, y: 40 }).unwrap();
    assert_eq!(*grid.get_child_transform(&1).unwrap(), transform(0, 0, 100, 40));
    assert_eq!(*grid.get_child_transform(&2).unwrap(), transform(50, 0, 50, 40));
    grid.set_row_count(0);
    grid.paint(&Size { x: 60, y: 40 }).unwrap();
    assert_eq!(*grid.get_child_transform(&1).unwrap(), transform(0, 0, 100, 40));
    assert_eq!(grid.get_hierarchy().children().len(), 2);
}

#[test]
fn offsets_are_the_sums_of_the_sizes_before() {
    let mut grid = GridLayout::new_raw();
    grid.set_column_count(3);
    grid.set_row_count(2);
    grid.set_column_stretch(0, 1).unwrap();
    grid.set_column_stretch(1, 2).unwrap();
    grid.set_column_stretch(2, 3).unwrap();
    grid.set_row_min_size(0, 70).unwrap();
    grid.insert_child_at(10, Some(2), Some(1)).unwrap();
    grid.insert_child_at(11, Some(1), Some(0)).unwrap();
    grid.paint(&Size { x: 120, y: 100 }).unwrap();
    assert_eq!(*grid.get_child_transform(&10).unwrap(), transform(60, 70, 60, 30));
    assert_eq!(*grid.get_child_transform(&11).unwrap(), transform(20, 0, 40, 70));
    // A second paint at the same size finds nothing to do.
    grid.paint(&Size { x: 120, y: 100 }).unwrap();
    assert_eq!(*grid.get_child_transform(&10).unwrap(), transform(60, 70, 60, 30));
    assert_eq!(grid.column_layout().get_size(), 120);
    assert_eq!(grid.row_layout().get_size(), 100);
}

#[test]
fn an_empty_grid_paints_at_any_size() {
    let mut grid = GridLayout::new_raw();
    grid.paint(&Size { x: 0, y: 0 }).unwrap();
    grid.paint(&Size { x: 640, y: 480 }).unwrap();
    grid.refresh_children_transforms(&Size { x: 1, y: 1 }).unwrap();
    assert_eq!(grid.get_hierarchy().children().len(), 0);
}

#[test]
fn a_hierarchy_keeps_its_children_in_order() {
    let mut hierarchy = Hierarchy::new();
    hierarchy.add(5).unwrap();
    hierarchy
        .add_with_transform(6, &transform(1, 2, 3, 4))
        .unwrap();
    assert_eq!(hierarchy.add(5), Err(LayoutError::DuplicateAssignment));
    assert_eq!(
        hierarchy.children(),
        &vec![
            HierarchyChild { id: 5, transform: Transform::default() },
            HierarchyChild { id: 6, transform: transform(1, 2, 3, 4) },
        ]
    );
    hierarchy.set_pos(&5, &Position { x: -3, y: 9 }).unwrap();
    hierarchy.set_size(&6, &Size { x: 8, y: 8 }).unwrap();
    assert_eq!(*hierarchy.get_transform(&5).unwrap(), transform(-3, 9, 0, 0));
    assert_eq!(*hierarchy.get_transform(&6).unwrap(), transform(1, 2, 8, 8));
    hierarchy.set_transform(&5, &transform(0, 0, 1, 1)).unwrap();
    assert_eq!(*hierarchy.get_transform(&5).unwrap(), transform(0, 0, 1, 1));
    assert_eq!(
        hierarchy.set_transform(&7, &Transform::default()),
        Err(LayoutError::OutOfRange)
    );
    assert_eq!(hierarchy.set_size(&7, &Size { x: 1, y: 1 }), Err(LayoutError::OutOfRange));
    hierarchy.remove(&5).unwrap();
    assert_eq!(hierarchy.index(&6), Some(0));
    assert_eq!(hierarchy.remove(&5), Err(LayoutError::OutOfRange));
    assert_eq!(Hierarchy::default().children().len(), 0);
}

#[test]
fn an_axis_is_dirty_until_it_is_solved() {
    let mut grid = GridLayout::new_raw();
    assert!(grid.is_column_layout_dirty());
    assert!(grid.is_row_layout_dirty());
    grid.paint(&Size { x: 10, y: 10 }).unwrap();
    assert!(!grid.is_column_layout_dirty());
    assert!(!grid.is_row_layout_dirty());
    grid.set_column_max_size(1, 4).unwrap();
    assert!(grid.is_column_layout_dirty());
    assert!(!grid.is_row_layout_dirty());
    assert_eq!(grid.column_layout().get_items().len(), 2);
    grid.paint(&Size { x: 10, y: 10 }).unwrap();
    assert!(!grid.is_column_layout_dirty());
    assert_eq!(grid.column_layout().get_items()[0].get_current_size(), 6);
    assert_eq!(grid.column_layout().get_items()[1].get_current_size(), 4);
    grid.set_row_count(2);
    assert!(grid.is_row_layout_dirty());
    grid.insert_child_at(1, Some(0), Some(0)).unwrap();
    assert!(grid.is_column_layout_dirty());
    assert!(grid.is_row_layout_dirty());
    // A failed paint leaves the axes dirty.
    grid.set_row_max_size(0, 1).unwrap();
    grid.set_row_max_size(1, 1).unwrap();
    assert_eq!(
        grid.paint(&Size { x: 10, y: 10 }),
        Err(LayoutError::InvalidConstraints)
    );
    assert!(grid.is_column_layout_dirty());
    assert!(grid.is_row_layout_dirty());
}

#[test]
fn hierarchy_add_child() {
    let mut hierarchy = Hierarchy::new();
    let child_widget = uuid::Uuid::new_v4().as_u128();
    hierarchy.add(child_widget).unwrap();
    assert_eq!(hierarchy.children()[0].id, child_widget);
}

#[test]
fn hierarchy_remove_child() {
    let mut hierarchy = Hierarchy::new();
    let child_widget_1 = uuid::Uuid::new_v4().as_u128();
    let child_widget_2 = uuid::Uuid::new_v4().as_u128();
    hierarchy.add(child_widget_1).unwrap();
    hierarchy.add(child_widget_2).unwrap();
    hierarchy.remove(&child_widget_1).unwrap();
    assert_eq!(hierarchy.children()[0].id, child_widget_2);
}

#[test]
fn a_clean_grid_keeps_its_children_at_their_cells() {
    let mut grid = GridLayout::new_raw();
    grid.set_column_count(3);
    grid.set_row_count(2);
    grid.set_column_stretch(1, 3).unwrap();
    grid.set_column_max_size(0, 25).unwrap();
    grid.insert_child_at(1, Some(0), Some(0)).unwrap();
    grid.insert_child_at(2, Some(1), Some(1)).unwrap();
    grid.insert_child_at(3, Some(2), Some(0)).unwrap();
    let size = Size { x: 200, y: 90 };
    grid.paint(&size).unwrap();

    // Removing a child leaves the axes clean and the others where they are.
    grid.remove_child(&3).unwrap();
    assert!(!grid.is_column_layout_dirty());
    assert!(!grid.is_row_layout_dirty());
    grid.paint(&size).unwrap();

    let columns = Layout::new(
        200,
        vec![Item::new(1, None, Some(25)), Item::new(3, None, None), Item::new(1, None, None)],
    )
    .unwrap();
    let rows = Layout::new(90, vec![Item::new(1, None, None), Item::new(1, None, None)]).unwrap();
    let widths: Vec<u32> = columns.get_items().iter().map(|i| i.get_current_size()).collect();
    let heights: Vec<u32> = rows.get_items().iter().map(|i| i.get_current_size()).collect();
    assert_eq!(grid.column_layout().get_items(), columns.get_items());
    assert_eq!(grid.row_layout().get_items(), rows.get_items());
    assert_eq!(
        *grid.get_child_transform(&1).unwrap(),
        transform(0, 0, widths[0], heights[0])
    );
    assert_eq!(
        *grid.get_child_transform(&2).unwrap(),
        transform(widths[0] as i32, heights[0] as i32, widths[1], heights[1])
    );
    assert_eq!(widths, vec![25, 135, 40]);
    assert_eq!(heights, vec![45, 45]);
}
