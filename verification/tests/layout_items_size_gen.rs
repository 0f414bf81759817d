use poly_ui::layouts::Item;
use poly_ui::layouts::Layout;
use poly_ui::layouts::Score;

fn fraction(score: Score) -> f64 {
    (score.ahead as f64 - score.behind as f64) / score.scale as f64
}

#[test]
fn ensure_layout_has_at_least_minimal_width() {
    {
        let mut layout = Layout {
            size: 0,
            items: vec![
                Item {
                    stretch: 0,
                    min_size: 0,
                    max_size: u32::MAX,
                    current_size: 0,
                },
                Item {
                    stretch: 0,
                    min_size: 0,
                    max_size: u32::MAX,
                    current_size: 0,
                },
                Item {
                    stretch: 0,
                    min_size: 0,
                    max_size: u32::MAX,
                    current_size: 0,
                },
            ],
        };
        layout.ensure_layout_has_at_least_minimal_width();
        assert_eq!(layout.size, 0);
    }
    {
        let mut layout = Layout {
            size: 0,
            items: vec![
                Item {
                    stretch: 0,
                    min_size: 0,
                    max_size: u32::MAX,
                    current_size: 0,
                },
                Item {
                    stretch: 0,
                    min_size: 0,
                    max_size: u32::MAX,
                    current_size: 0,
                },
                Item {
                    stretch: 0,
                    min_size: 0,
                    max_size: u32::MAX,
                    current_size: 0,
                },
            ],
        };
        layout.ensure_layout_has_at_least_minimal_width();
        assert_eq!(layout.size, 0);
    }
    {
        let mut layout = Layout {
            size: 0,
            items: vec![
                Item {
                    stretch: 5,
                    min_size: 0,
                    max_size: u32::MAX,
                    current_size: 0,
                },
                Item {
                    stretch: 5,
                    min_size: 0,
                    max_size: u32::MAX,
                    current_size: 0,
                },
                Item {
                    stretch: 1,
                    min_size: 0,
                    max_size: u32::MAX,
                    current_size: 0,
                },
            ],
        };
        layout.ensure_layout_has_at_least_minimal_width();
        assert_eq!(layout.size, 0);
    }
    {
        let mut layout = Layout {
            size: 0,
            items: vec![
                Item {
                    stretch: 5,
                    min_size: 15,
                    max_size: u32::MAX,
                    current_size: 0,
                },
                Item {
                    stretch: 5,
                    min_size: 0,
                    max_size: u32::MAX,
                    current_size: 0,
                },
                Item {
                    stretch: 1,
                    min_size: 5,
                    max_size: u32::MAX,
                    current_size: 0,
                },
            ],
        };
        layout.ensure_layout_has_at_least_minimal_width();
        assert_eq!(layout.size, 20);
    }
    {
        let mut layout = Layout {
            size: 0,
            items: vec![
                Item {
                    stretch: 5,
                    min_size: 35,
                    max_size: u32::MAX,
                    current_size: 0,
                },
                Item {
                    stretch: 5,
                    min_size: 0,
                    max_size: u32::MAX,
                    current_size: 0,
                },
                Item {
                    stretch: 1,
                    min_size: 5,
                    max_size: u32::MAX,
                    current_size: 0,
                },
            ],
        };
        layout.ensure_layout_has_at_least_minimal_width();
        assert_eq!(layout.size, 40);
    }
    {
        let mut layout = Layout {
            size: 73,
            items: vec![
                Item {
                    stretch: 1,
                    min_size: 40,
                    max_size: u32::MAX,
                    current_size: 0,
                },
                Item {
                    stretch: 2,
                    min_size: 0,
                    max_size: 40,
                    current_size: 0,
                },
                Item {
                    stretch: 3,
                    min_size: 20,
                    max_size: 60,
                    current_size: 0,
                },
            ],
        };
        layout.ensure_layout_has_at_least_minimal_width();
        assert_eq!(layout.size, 73);
    }
}

#[test]
fn validate_all_items() {
    {
        let mut layout = Layout {
            size: 0,
            items: vec![
                Item {
                    stretch: 1,
                    min_size: 0,
                    max_size: 0,
                    current_size: 0,
                },
                Item {
                    stretch: 0,
                    min_size: 0,
                    max_size: 0,
                    current_size: 1,
                },
                Item {
                    stretch: 0,
                    min_size: 0,
                    max_size: 0,
                    current_size: 2,
                },
            ],
        };
        layout.validate_all_items();
        assert_eq!(layout.items[0].max_size, 0);
        assert_eq!(layout.items[1].max_size, 0);
        assert_eq!(layout.items[2].max_size, 0);
        assert_eq!(layout.items[0].stretch, 1);
        assert_eq!(layout.items[1].stretch, 0);
        assert_eq!(layout.items[2].stretch, 0);
        assert_eq!(layout.items[0].current_size, 0);
        assert_eq!(layout.items[1].current_size, 0);
        assert_eq!(layout.items[2].current_size, 0);
    }
    {
        let mut layout = Layout {
            size: 0,
            items: vec![
                Item {
                    stretch: 0,
                    min_size: 5,
                    max_size: 10,
                    current_size: 10,
                },
                Item {
                    stretch: 0,
                    min_size: 10,
                    max_size: 5,
                    current_size: 20,
                },
                Item {
                    stretch: 0,
                    min_size: 5,
                    max_size: 5,
                    current_size: 30,
                },
            ],
        };
        layout.validate_all_items();
        assert_eq!(layout.items[0].max_size, 10);
        assert_eq!(layout.items[1].max_size, 10);
        assert_eq!(layout.items[2].max_size, 5);
        assert_eq!(layout.items[0].stretch, 1);
        assert_eq!(layout.items[1].stretch, 1);
        assert_eq!(layout.items[2].stretch, 1);
        assert_eq!(layout.items[0].current_size, 0);
        assert_eq!(layout.items[1].current_size, 0);
        assert_eq!(layout.items[2].current_size, 0);
    }
}

#[test]
fn gather_items_stretch() {
    {
        let layout = Layout {
            size: 0,
            items: vec![
                Item {
                    stretch: 0,
                    min_size: 0,
                    max_size: u32::MAX,
                    current_size: 0,
                },
                Item {
                    stretch: 0,
                    min_size: 0,
                    max_size: u32::MAX,
                    current_size: 0,
                },
                Item {
                    stretch: 0,
                    min_size: 0,
                    max_size: u32::MAX,
                    current_size: 0,
                },
            ],
        };
        assert_eq!(layout.gather_items_stretch(), 0);
    }
    {
        let layout = Layout {
            size: 0,
            items: vec![
                Item {
                    stretch: 1,
                    min_size: 0,
                    max_size: u32::MAX,
                    current_size: 0,
                },
                Item {
                    stretch: 2,
                    min_size: 0,
                    max_size: u32::MAX,
                    current_size: 0,
                },
                Item {
                    stretch: 3,
                    min_size: 0,
                    max_size: u32::MAX,
                    current_size: 0,
                },
            ],
        };
        assert_eq!(layout.gather_items_stretch(), 6);
    }
}

#[test]
fn remaining_free_layout_space() {
    {
        let layout = Layout {
            size: 0,
            items: vec![
                Item {
                    stretch: 0,
                    min_size: 0,
                    max_size: u32::MAX,
                    current_size: 0,
                },
                Item {
                    stretch: 0,
                    min_size: 0,
                    max_size: u32::MAX,
                    current_size: 0,
                },
                Item {
                    stretch: 0,
                    min_size: 0,
                    max_size: u32::MAX,
                    current_size: 0,
                },
            ],
        };
        assert_eq!(layout.remaining_free_layout_space(), 0);
    }
    {
        let layout = Layout {
            size: 10,
            items: vec![
                Item {
                    stretch: 0,
                    min_size: 0,
                    max_size: u32::MAX,
                    current_size: 0,
                },
                Item {
                    stretch: 0,
                    min_size: 0,
                    max_size: u32::MAX,
                    current_size: 0,
                },
                Item {
                    stretch: 0,
                    min_size: 0,
                    max_size: u32::MAX,
                    current_size: 0,
                },
            ],
        };
        assert_eq!(layout.remaining_free_layout_space(), 10);
    }
    {
        let layout = Layout {
            size: 10,
            items: vec![
                Item {
                    stretch: 0,
                    min_size: 1,
                    max_size: u32::MAX,
                    current_size: 0,
                },
                Item {
                    stretch: 0,
                    min_size: 2,
                    max_size: u32::MAX,
                    current_size: 0,
                },
                Item {
                    stretch: 0,
                    min_size: 0,
                    max_size: u32::MAX,
                    current_size: 3,
                },
            ],
        };
        assert_eq!(layout.remaining_free_layout_space(), 4);
    }
    {
        let layout = Layout {
            size: 73,
            items: vec![
                Item {
                    stretch: 1,
                    min_size: 40,
                    max_size: u32::MAX,
                    current_size: 0,
                },
                Item {
                    stretch: 2,
                    min_size: 0,
                    max_size: 40,
                    current_size: 0,
                },
                Item {
                    stretch: 3,
                    min_size: 20,
                    max_size: 60,
                    current_size: 0,
                },
            ],
        };
        assert_eq!(layout.remaining_free_layout_space(), 13);
    }
}

#[test]
fn set_every_item_size_to_at_least_min() {
    {
        let mut layout = Layout {
            size: 0,
            items: vec![
                Item {
                    stretch: 0,
                    min_size: 0,
                    max_size: 0,
                    current_size: 0,
                },
                Item {
                    stretch: 0,
                    min_size: 0,
                    max_size: 0,
                    current_size: 0,
                },
                Item {
                    stretch: 0,
                    min_size: 0,
                    max_size: 0,
                    current_size: 0,
                },
            ],
        };
        layout.set_every_item_size_to_at_least_min();
        assert_eq!(layout.items[0].max_size, 0);
        assert_eq!(layout.items[1].max_size, 0);
        assert_eq!(layout.items[2].max_size, 0);
    }
    {
        let mut layout = Layout {
            size: 0,
            items: vec![
                Item {
                    stretch: 0,
                    min_size: 5,
                    max_size: 0,
                    current_size: 3,
                },
                Item {
                    stretch: 0,
                    min_size: 10,
                    max_size: 0,
                    current_size: 4,
                },
                Item {
                    stretch: 0,
                    min_size: 0,
                    max_size: 0,
                    current_size: 5,
                },
            ],
        };
        layout.set_every_item_size_to_at_least_min();
        assert_eq!(layout.items[0].current_size, 5);
        assert_eq!(layout.items[1].current_size, 10);
        assert_eq!(layout.items[2].current_size, 5);
    }
}

#[test]
fn get_item_expected_minus_current_stretch() {
    {
        let layout = Layout {
            size: 0,
            items: vec![Item {
                stretch: 0,
                min_size: 0,
                max_size: u32::MAX,
                current_size: 0,
            }],
        };
        assert_eq!(
            fraction(Layout::get_item_expected_minus_current_stretch(&layout.items[0], 0, 0)),
            0.0
        );
    }
    {
        let layout = Layout {
            size: 0,
            items: vec![Item {
                stretch: 1,
                min_size: 0,
                max_size: u32::MAX,
                current_size: 0,
            }],
        };
        assert_eq!(
            fraction(Layout::get_item_expected_minus_current_stretch(&layout.items[0], 2, 10)),
            0.5
        );
    }
    {
        let layout = Layout {
            size: 0,
            items: vec![Item {
                stretch: 2,
                min_size: 0,
                max_size: u32::MAX,
                current_size: 0,
            }],
        };
        assert_eq!(
            fraction(Layout::get_item_expected_minus_current_stretch(&layout.items[0], 2, 10)),
            1.0
        );
    }
    {
        let layout = Layout {
            size: 0,
            items: vec![Item {
                stretch: 3,
                min_size: 0,
                max_size: 5,
                current_size: 4,
            }],
        };
        assert_eq!(
            fraction(Layout::get_item_expected_minus_current_stretch(&layout.items[0], 4, 8)),
            0.25
        );
    }
    {
        let layout = Layout {
            size: 0,
            items: vec![Item {
                stretch: 3,
                min_size: 0,
                max_size: 4,
                current_size: 4,
            }],
        };
        assert_eq!(
            fraction(Layout::get_item_expected_minus_current_stretch(&layout.items[0], 4, 8)),
            0.0
        );
    }
}

#[test]
fn get_item_with_highest_expected_minus_current_stretch() {
    {
        let layout = Layout {
            size: 0,
            items: vec![
                Item {
                    stretch: 0,
                    min_size: 0,
                    max_size: u32::MAX,
                    current_size: 0,
                },
                Item {
                    stretch: 0,
                    min_size: 0,
                    max_size: u32::MAX,
                    current_size: 0,
                },
                Item {
                    stretch: 0,
                    min_size: 0,
                    max_size: u32::MAX,
                    current_size: 0,
                },
            ],
        };
        assert_eq!(
            layout.get_item_with_highest_expected_minus_current_stretch(),
            0
        );
    }
    {
        let layout = Layout {
            size: 12,
            items: vec![
                Item {
                    stretch: 1,
                    min_size: 0,
                    max_size: u32::MAX,
                    current_size: 0,
                },
                Item {
                    stretch: 2,
                    min_size: 0,
                    max_size: u32::MAX,
                    current_size: 0,
                },
                Item {
                    stretch: 3,
                    min_size: 0,
                    max_size: u32::MAX,
                    current_size: 0,
                },
            ],
        };
        assert_eq!(
            layout.get_item_with_highest_expected_minus_current_stretch(),
            2
        );
    }
    {
        let layout = Layout {
            size: 12,
            items: vec![
                Item {
                    stretch: 1,
                    min_size: 0,
                    max_size: u32::MAX,
                    current_size: 0,
                },
                Item {
                    stretch: 2,
                    min_size: 0,
                    max_size: u32::MAX,
                    current_size: 0,
                },
                Item {
                    stretch: 3,
                    min_size: 0,
                    max_size: u32::MAX,
                    current_size: 2,
                },
            ],
        };
        assert_eq!(
            layout.get_item_with_highest_expected_minus_current_stretch(),
            1
        );
    }
    {
        let layout = Layout {
            size: 12,
            items: vec![
                Item {
                    stretch: 1,
                    min_size: 0,
                    max_size: u32::MAX,
                    current_size: 0,
                },
                Item {
                    stretch: 2,
                    min_size: 0,
                    max_size: u32::MAX,
                    current_size: 0,
                },
                Item {
                    stretch: 3,
                    min_size: 0,
                    max_size: u32::MAX,
                    current_size: 4,
                },
            ],
        };
        assert_eq!(
            layout.get_item_with_highest_expected_minus_current_stretch(),
            1
        );
    }
    {
        let layout = Layout {
            size: 12,
            items: vec![
                Item {
                    stretch: 1,
                    min_size: 0,
                    max_size: u32::MAX,
                    current_size: 0,
                },
                Item {
                    stretch: 2,
                    min_size: 0,
                    max_size: u32::MAX,
                    current_size: 4,
                },
                Item {
                    stretch: 3,
                    min_size: 0,
                    max_size: u32::MAX,
                    current_size: 4,
                },
            ],
        };
        assert_eq!(
            layout.get_item_with_highest_expected_minus_current_stretch(),
            0
        );
    }
}

#[test]
fn validate_no_items() {
    let layout = Layout::new(120, vec![]).unwrap();

    assert_eq!(layout.size, 120);
    assert_eq!(layout.items.len(), 0);
}

#[test]
fn validate_no_stretch_min_max() {
    let layout = Layout::new(
        120,
        vec![
            Item {
                stretch: 0,
                min_size: 0,
                max_size: u32::MAX,
                current_size: 0,
            },
            Item {
                stretch: 0,
                min_size: 0,
                max_size: u32::MAX,
                current_size: 0,
            },
            Item {
                stretch: 0,
                min_size: 0,
                max_size: u32::MAX,
                current_size: 0,
            },
        ],
    ).unwrap();

    assert_eq!(layout.size, 120);
    assert_eq!(layout.items.len(), 3);
    assert_eq!(layout.items[0].current_size, 40);
    assert_eq!(layout.items[1].current_size, 40);
    assert_eq!(layout.items[2].current_size, 40);
}

#[test]
fn validate_stretch() {
    {
        let layout = Layout::new(
            120,
            vec![
                Item {
                    stretch: 1,
                    min_size: 0,
                    max_size: u32::MAX,
                    current_size: 0,
                },
                Item {
                    stretch: 2,
                    min_size: 0,
                    max_size: u32::MAX,
                    current_size: 0,
                },
                Item {
                    stretch: 3,
                    min_size: 0,
                    max_size: u32::MAX,
                    current_size: 0,
                },
            ],
        ).unwrap();

        assert_eq!(layout.size, 120);
        assert_eq!(layout.items.len(), 3);
        assert_eq!(layout.items[0].current_size, 20);
        assert_eq!(layout.items[1].current_size, 40);
        assert_eq!(layout.items[2].current_size, 60);
    }
    {
        let layout = Layout::new(
            120,
            vec![
                Item {
                    stretch: 1,
                    min_size: 0,
                    max_size: u32::MAX,
                    current_size: 0,
                },
                Item {
                    stretch: 0,
                    min_size: 0,
                    max_size: u32::MAX,
                    current_size: 0,
                },
                Item {
                    stretch: 3,
                    min_size: 0,
                    max_size: u32::MAX,
                    current_size: 0,
                },
            ],
        ).unwrap();

        assert_eq!(layout.size, 120);
        assert_eq!(layout.items.len(), 3);
        assert_eq!(layout.items[0].current_size, 30);
        assert_eq!(layout.items[1].current_size, 0);
        assert_eq!(layout.items[2].current_size, 90);
    }
}

#[test]
fn validate() {
    {
        let layout = Layout::new(
            10,
            vec![
                Item {
                    stretch: 1,
                    min_size: 40,
                    max_size: u32::MAX,
                    current_size: 0,
                },
                Item {
                    stretch: 2,
                    min_size: 0,
                    max_size: 40,
                    current_size: 0,
                },
                Item {
                    stretch: 3,
                    min_size: 20,
                    max_size: 60,
                    current_size: 0,
                },
            ],
        ).unwrap();

        assert_eq!(layout.size, 60);
        assert_eq!(layout.items.len(), 3);
        assert_eq!(layout.items[0].current_size, 40);
        assert_eq!(layout.items[1].current_size, 0);
        assert_eq!(layout.items[2].current_size, 20);
    }
    {
        let layout = Layout::new(
            61,
            vec![
                Item {
                    stretch: 1,
                    min_size: 40,
                    max_size: u32::MAX,
                    current_size: 0,
                },
                Item {
                    stretch: 2,
                    min_size: 0,
                    max_size: 40,
                    current_size: 0,
                },
                Item {
                    stretch: 3,
                    min_size: 20,
                    max_size: 60,
                    current_size: 0,
                },
            ],
        ).unwrap();

        assert_eq!(layout.size, 61);
        assert_eq!(layout.items.len(), 3);
        assert_eq!(layout.items[0].current_size, 40);
        assert_eq!(layout.items[1].current_size, 1);
        assert_eq!(layout.items[2].current_size, 20);
    }
    {
        let layout = Layout::new(
            73,
            vec![
                Item {
                    stretch: 1,
                    min_size: 40,
                    max_size: u32::MAX,
                    current_size: 0,
                },
                Item {
                    stretch: 2,
                    min_size: 0,
                    max_size: 40,
                    current_size: 0,
                },
                Item {
                    stretch: 3,
                    min_size: 20,
                    max_size: 60,
                    current_size: 0,
                },
            ],
        ).unwrap();

        assert_eq!(layout.size, 73);
        assert_eq!(layout.items.len(), 3);
        assert_eq!(layout.items[0].current_size, 40);
        assert_eq!(layout.items[1].current_size, 10);
        assert_eq!(layout.items[2].current_size, 23);
    }
    {
        let layout = Layout::new(
            300,
            vec![
                Item {
                    stretch: 1,
                    min_size: 40,
                    max_size: u32::MAX,
                    current_size: 0,
                },
                Item {
                    stretch: 2,
                    min_size: 0,
                    max_size: 40,
                    current_size: 0,
                },
                Item {
                    stretch: 3,
                    min_size: 20,
                    max_size: 60,
                    current_size: 0,
                },
            ],
        ).unwrap();

        assert_eq!(layout.size, 300);
        assert_eq!(layout.items.len(), 3);
        assert_eq!(layout.items[0].current_size, 200);
        assert_eq!(layout.items[1].current_size, 40);
        assert_eq!(layout.items[2].current_size, 60);
    }
}
