use poly_ui::error::LayoutError;
use poly_ui::layouts::Item;
use poly_ui::layouts::Layout;
use poly_ui::layouts::Score;

fn item(stretch: u32, min_size: u32, max_size: u32) -> Item {
    Item::new(stretch, Some(min_size), Some(max_size))
}

fn sizes(layout: &Layout) -> Vec<u32> {
    layout
        .get_items()
        .iter()
        .map(|item| item.get_current_size())
        .collect()
}

#[test]
fn item_new_fills_in_the_defaults() {
    let plain = Item::new(3, None, None);
    assert_eq!(plain.get_stretch(), 3);
    assert_eq!(plain.get_min_size(), 0);
    assert_eq!(plain.get_max_size(), u32::MAX);
    assert_eq!(plain.get_current_size(), 0);
    let bounded = Item::new(0, Some(5), Some(9));
    assert_eq!(bounded.get_min_size(), 5);
    assert_eq!(bounded.get_max_size(), 9);
    assert_eq!(Item::default(), Item::new(1, None, None));
}

#[test]
fn sizes_add_up_to_the_requested_size() {
    let layout = Layout::new(1000, vec![item(5, 10, 300), item(1, 0, 900), item(9, 40, 400)])
        .unwrap();
    assert_eq!(layout.get_size(), 1000);
    assert_eq!(sizes(&layout).iter().sum::<u32>(), 1000);
}

#[test]
fn sizes_add_up_to_the_minimum_sizes_where_the_request_is_smaller() {
    let layout = Layout::new(7, vec![item(1, 30, 50), item(1, 12, 50)]).unwrap();
    assert_eq!(layout.get_size(), 42);
    assert_eq!(sizes(&layout), vec![30, 12]);
}

#[test]
fn every_size_stays_within_its_bounds() {
    let layout = Layout::new(500, vec![item(7, 10, 60), item(0, 0, 900), item(2, 100, 20)])
        .unwrap();
    for item in layout.get_items() {
        assert!(item.get_min_size() <= item.get_current_size());
        assert!(item.get_current_size() <= item.get_max_size());
    }
    // The third item's maximum was below its minimum and is raised to it.
    assert_eq!(layout.get_items()[2].get_max_size(), 100);
    assert_eq!(sizes(&layout), vec![60, 340, 100]);
}

#[test]
fn solving_twice_gives_the_same_sizes() {
    let items = vec![item(1, 40, u32::MAX), item(2, 0, 40), item(3, 20, 60)];
    let first = Layout::new(73, items.clone()).unwrap();
    let second = Layout::new(73, items).unwrap();
    assert_eq!(sizes(&first), sizes(&second));
    let mut again = Layout::new(first.get_size(), first.get_items().clone()).unwrap();
    assert_eq!(sizes(&again), sizes(&first));
    again.refresh().unwrap();
    assert_eq!(sizes(&again), sizes(&first));
    assert_eq!(again.get_size(), first.get_size());
}

#[test]
fn no_weights_split_evenly_with_the_remainder_to_the_first_items() {
    let layout = Layout::new(10, vec![item(0, 0, u32::MAX); 3]).unwrap();
    assert_eq!(sizes(&layout), vec![4, 3, 3]);
    let layout = Layout::new(11, vec![item(0, 0, u32::MAX); 3]).unwrap();
    assert_eq!(sizes(&layout), vec![4, 4, 3]);
    let layout = Layout::new(2, vec![item(0, 0, u32::MAX); 5]).unwrap();
    assert_eq!(sizes(&layout), vec![1, 1, 0, 0, 0]);
    // Bounds that admit the even shares do not change them.
    let layout = Layout::new(10, vec![item(0, 4, 4), item(0, 1, 3), item(0, 3, 9)]).unwrap();
    assert_eq!(sizes(&layout), vec![4, 3, 3]);
    // Every weight becomes 1 for good.
    assert_eq!(layout.get_items()[0].get_stretch(), 1);
}

#[test]
fn an_item_at_its_maximum_gets_no_further_unit() {
    let layout = Layout::new(100, vec![item(1, 0, 10), item(0, 0, u32::MAX)]).unwrap();
    assert_eq!(sizes(&layout), vec![10, 90]);
    let layout = Layout::new(100, vec![item(3, 20, 60), item(1, 0, u32::MAX), item(2, 0, 5)])
        .unwrap();
    assert_eq!(sizes(&layout), vec![60, 35, 5]);
    let layout = Layout::new(100, vec![item(1, 0, u32::MAX), item(1, 0, u32::MAX), item(2, 0, 10)])
        .unwrap();
    assert_eq!(sizes(&layout), vec![65, 25, 10]);
}

#[test]
fn bounds_that_cannot_add_up_are_refused() {
    let refused = Layout::new(100, vec![item(1, 0, 10), item(1, 0, 20)]);
    assert_eq!(refused.err(), Some(LayoutError::InvalidConstraints));
    let fits = Layout::new(30, vec![item(1, 0, 10), item(1, 0, 20)]).unwrap();
    assert_eq!(sizes(&fits), vec![10, 20]);
    let too_large = Layout::new(0, vec![item(1, u32::MAX, u32::MAX), item(1, 1, 1)]);
    assert_eq!(too_large.err(), Some(LayoutError::InvalidConstraints));
}

#[test]
fn a_refused_refresh_changes_nothing() {
    let mut layout = Layout {
        size: 100,
        items: vec![
            Item { stretch: 0, min_size: 3, max_size: 1, current_size: 9 },
            Item { stretch: 0, min_size: 0, max_size: 20, current_size: 7 },
        ],
    };
    assert!(!layout.can_solve(100));
    assert_eq!(layout.refresh(), Err(LayoutError::InvalidConstraints));
    assert_eq!(layout.size, 100);
    assert_eq!(
        layout.items,
        vec![
            Item { stretch: 0, min_size: 3, max_size: 1, current_size: 9 },
            Item { stretch: 0, min_size: 0, max_size: 20, current_size: 7 },
        ]
    );
    assert!(layout.can_solve(23));
    layout.size = 23;
    assert_eq!(layout.refresh(), Ok(()));
    assert_eq!(sizes(&layout), vec![3, 20]);
}

#[test]
fn an_empty_layout_keeps_its_size() {
    let layout = Layout::new(0, vec![]).unwrap();
    assert_eq!(layout.get_size(), 0);
    assert!(layout.get_items().is_empty());
    let layout = Layout::new(u32::MAX, vec![]).unwrap();
    assert_eq!(layout.get_size(), u32::MAX);
}

#[test]
fn large_weights_do_not_overflow() {
    let layout = Layout::new(9, vec![item(u32::MAX, 0, u32::MAX), item(u32::MAX, 0, u32::MAX)])
        .unwrap();
    assert_eq!(sizes(&layout), vec![5, 4]);
    assert_eq!(layout.gather_items_stretch(), 2 * (u32::MAX as u128));
    assert_eq!(layout.min_size_total(), 0);
    assert_eq!(layout.max_size_total(), 2 * (u32::MAX as u128));
}

#[test]
fn the_score_is_an_exact_fraction() {
    let seventh = Item { stretch: 1, min_size: 0, max_size: 50, current_size: 2 };
    let score = Layout::get_item_expected_minus_current_stretch(&seventh, 7, 21);
    assert_eq!(score, Score { ahead: 21, behind: 14, scale: 147 });
    let behind = Item { stretch: 1, min_size: 0, max_size: 50, current_size: 4 };
    let score = Layout::get_item_expected_minus_current_stretch(&behind, 7, 21);
    assert_eq!(score, Score { ahead: 21, behind: 28, scale: 147 });
    let full = Item { stretch: 1, min_size: 0, max_size: 4, current_size: 4 };
    let score = Layout::get_item_expected_minus_current_stretch(&full, 7, 21);
    assert_eq!(score, Score { ahead: 0, behind: 0, scale: 1 });
}

#[test]
fn ties_go_to_the_earliest_item() {
    let layout = Layout {
        size: 12,
        items: vec![
            Item { stretch: 2, min_size: 0, max_size: u32::MAX, current_size: 0 },
            Item { stretch: 2, min_size: 0, max_size: u32::MAX, current_size: 0 },
            Item { stretch: 1, min_size: 0, max_size: u32::MAX, current_size: 0 },
        ],
    };
    assert_eq!(layout.get_item_with_highest_expected_minus_current_stretch(), 0);
}

#[test]
fn validate_hands_out_what_the_floors_leave() {
    let mut layout = Layout {
        size: 10,
        items: vec![
            Item { stretch: 1, min_size: 2, max_size: 4, current_size: 0 },
            Item { stretch: 1, min_size: 0, max_size: 9, current_size: 3 },
        ],
    };
    assert_eq!(layout.remaining_free_layout_space(), 5);
    assert_eq!(layout.validate(), Ok(()));
    assert_eq!(sizes(&layout), vec![4, 6]);
    assert_eq!(layout.size, 10);
}

#[test]
fn validate_refuses_maxima_below_the_size() {
    let mut layout = Layout {
        size: 10,
        items: vec![Item { stretch: 1, min_size: 0, max_size: 5, current_size: 0 }],
    };
    assert_eq!(layout.validate(), Err(LayoutError::InvalidConstraints));
    assert_eq!(layout.size, 10);
    assert_eq!(
        layout.items,
        vec![Item { stretch: 1, min_size: 0, max_size: 5, current_size: 0 }]
    );

    let mut layout = Layout {
        size: 10,
        items: vec![
            Item { stretch: 1, min_size: 2, max_size: 4, current_size: 0 },
            Item { stretch: 5, min_size: 0, max_size: 5, current_size: 3 },
        ],
    };
    assert_eq!(layout.validate(), Err(LayoutError::InvalidConstraints));
    assert_eq!(sizes(&layout), vec![0, 3]);

    // Maxima that add up to the size exactly are all reached.
    layout.size = 9;
    assert_eq!(layout.validate(), Ok(()));
    assert_eq!(sizes(&layout), vec![4, 5]);

    // Without items there is nothing to hand out and nothing to refuse.
    let mut empty = Layout { size: 10, items: vec![] };
    assert_eq!(empty.validate(), Ok(()));
    assert_eq!(empty.size, 10);
}

#[test]
fn unbounded_items_end_less_than_a_unit_from_their_shares() {
    let cases: Vec<(u32, Vec<u32>)> = vec![
        (100, vec![1, 1, 1]),
        (7, vec![5, 3, 1, 1]),
        (1000, vec![7, 0, 13, 2]),
        (1, vec![2, 9]),
        (0, vec![4, 4]),
        (97, vec![0, 0, 0, 0, 0]),
    ];
    for (size, weights) in cases {
        let items = weights
            .iter()
            .map(|weight| Item::new(*weight, None, None))
            .collect();
        let layout = Layout::new(size, items).unwrap();
        let total: i64 = layout
            .get_items()
            .iter()
            .map(|item| item.get_stretch() as i64)
            .sum();
        assert!(total > 0);
        for item in layout.get_items() {
            let lag = item.get_stretch() as i64 * size as i64
                - item.get_current_size() as i64 * total;
            assert!(-total < lag && lag < total);
        }
    }
    let layout = Layout::new(100, vec![Item::new(1, None, None); 3]).unwrap();
    assert_eq!(sizes(&layout), vec![34, 33, 33]);
    let layout = Layout::new(7, vec![item(5, 0, 7), item(3, 0, 7), item(1, 0, 7), item(1, 0, 7)])
        .unwrap();
    assert_eq!(sizes(&layout), vec![3, 2, 1, 1]);
}
