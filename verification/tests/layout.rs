use tui_compose::renderer::Area;
use tui_compose::ui::{Direction, Layout, LayoutBuffer};

#[test]
fn all_static() {
    let area = Area {
        x: 0,
        y: 0,
        cols: 10,
        rows: 10,
    };
    let mut layout_buffer = LayoutBuffer::with_capacity(3);

    layout_buffer
        .add_layout(Layout::Static(1))
        .add_layout(Layout::Static(5))
        .add_layout(Layout::Static(3))
        .calculate_areas(Direction::Vertical, &area);

    assert_eq!(
        *layout_buffer.area(0).unwrap(),
        Area {
            x: 0,
            y: 0,
            cols: 10,
            rows: 1
        }
    );
    assert_eq!(
        *layout_buffer.area(1).unwrap(),
        Area {
            x: 0,
            y: 1,
            cols: 10,
            rows: 5
        }
    );
    assert_eq!(
        *layout_buffer.area(2).unwrap(),
        Area {
            x: 0,
            y: 6,
            cols: 10,
            rows: 3
        }
    );

    layout_buffer.calculate_areas(Direction::Horizontal, &area);

    assert_eq!(
        *layout_buffer.area(0).unwrap(),
        Area {
            x: 0,
            y: 0,
            cols: 1,
            rows: 10
        }
    );
    assert_eq!(
        *layout_buffer.area(1).unwrap(),
        Area {
            x: 1,
            y: 0,
            cols: 5,
            rows: 10
        }
    );
    assert_eq!(
        *layout_buffer.area(2).unwrap(),
        Area {
            x: 6,
            y: 0,
            cols: 3,
            rows: 10
        }
    );
}

#[test]
fn all_percentage() {
    let area = Area {
        x: 10,
        y: 12,
        cols: 32,
        rows: 60,
    };
    let mut layout_buffer = LayoutBuffer::with_capacity(5);

    layout_buffer
        .add_layout(Layout::Percentage(250))
        .add_layout(Layout::Percentage(125))
        .add_layout(Layout::Percentage(125))
        .add_layout(Layout::Percentage(300))
        .add_layout(Layout::Percentage(200))
        .calculate_areas(Direction::Vertical, &area);

    assert_eq!(
        *layout_buffer.area(0).unwrap(),
        Area {
            x: 10,
            y: 12,
            cols: 32,
            rows: 15
        }
    );
    assert_eq!(
        *layout_buffer.area(1).unwrap(),
        Area {
            x: 10,
            y: 27,
            cols: 32,
            rows: 7
        }
    );
    assert_eq!(
        *layout_buffer.area(2).unwrap(),
        Area {
            x: 10,
            y: 34,
            cols: 32,
            rows: 7
        }
    );
    assert_eq!(
        *layout_buffer.area(3).unwrap(),
        Area {
            x: 10,
            y: 41,
            cols: 32,
            rows: 18
        }
    );
    assert_eq!(
        *layout_buffer.area(4).unwrap(),
        Area {
            x: 10,
            y: 59,
            cols: 32,
            rows: 12
        }
    );

    layout_buffer.calculate_areas(Direction::Horizontal, &area);
    assert_eq!(
        *layout_buffer.area(0).unwrap(),
        Area {
            x: 10,
            y: 12,
            cols: 8,
            rows: 60
        }
    );
    assert_eq!(
        *layout_buffer.area(1).unwrap(),
        Area {
            x: 18,
            y: 12,
            cols: 4,
            rows: 60
        }
    );
    assert_eq!(
        *layout_buffer.area(2).unwrap(),
        Area {
            x: 22,
            y: 12,
            cols: 4,
            rows: 60
        }
    );
    assert_eq!(
        *layout_buffer.area(3).unwrap(),
        Area {
            x: 26,
            y: 12,
            cols: 9,
            rows: 60
        }
    );
    assert_eq!(
        *layout_buffer.area(4).unwrap(),
        Area {
            x: 35,
            y: 12,
            cols: 6,
            rows: 60
        }
    );
}

#[test]
fn all_weighted() {
    let area = Area {
        x: 45,
        y: 78,
        cols: 60,
        rows: 900,
    };
    let mut layout_buffer = LayoutBuffer::with_capacity(5);

    layout_buffer
        .add_layout(Layout::Weighted(1))
        .add_layout(Layout::Weighted(1))
        .add_layout(Layout::Weighted(1))
        .add_layout(Layout::Weighted(1))
        .add_layout(Layout::Weighted(1))
        .calculate_areas(Direction::Vertical, &area);

    assert_eq!(
        *layout_buffer.area(0).unwrap(),
        Area {
            x: 45,
            y: 78,
            cols: 60,
            rows: 180
        }
    );
    assert_eq!(
        *layout_buffer.area(1).unwrap(),
        Area {
            x: 45,
            y: 258,
            cols: 60,
            rows: 180
        }
    );
    assert_eq!(
        *layout_buffer.area(2).unwrap(),
        Area {
            x: 45,
            y: 438,
            cols: 60,
            rows: 180
        }
    );
    assert_eq!(
        *layout_buffer.area(3).unwrap(),
        Area {
            x: 45,
            y: 618,
            cols: 60,
            rows: 180
        }
    );
    assert_eq!(
        *layout_buffer.area(4).unwrap(),
        Area {
            x: 45,
            y: 798,
            cols: 60,
            rows: 180
        }
    );

    layout_buffer.calculate_areas(Direction::Horizontal, &area);
    assert_eq!(
        *layout_buffer.area(0).unwrap(),
        Area {
            x: 45,
            y: 78,
            cols: 12,
            rows: 900
        }
    );
    assert_eq!(
        *layout_buffer.area(1).unwrap(),
        Area {
            x: 57,
            y: 78,
            cols: 12,
            rows: 900
        }
    );
    assert_eq!(
        *layout_buffer.area(2).unwrap(),
        Area {
            x: 69,
            y: 78,
            cols: 12,
            rows: 900
        }
    );
    assert_eq!(
        *layout_buffer.area(3).unwrap(),
        Area {
            x: 81,
            y: 78,
            cols: 12,
            rows: 900
        }
    );
    assert_eq!(
        *layout_buffer.area(4).unwrap(),
        Area {
            x: 93,
            y: 78,
            cols: 12,
            rows: 900
        }
    );

    layout_buffer.clear();
    layout_buffer
        .add_layout(Layout::Weighted(1))
        .add_layout(Layout::Weighted(1))
        .add_layout(Layout::Weighted(3))
        .add_layout(Layout::Weighted(5))
        .add_layout(Layout::Weighted(5))
        .calculate_areas(Direction::Vertical, &area);

    assert_eq!(
        *layout_buffer.area(0).unwrap(),
        Area {
            x: 45,
            y: 78,
            cols: 60,
            rows: 60
        }
    );
    assert_eq!(
        *layout_buffer.area(1).unwrap(),
        Area {
            x: 45,
            y: 138,
            cols: 60,
            rows: 60
        }
    );
    assert_eq!(
        *layout_buffer.area(2).unwrap(),
        Area {
            x: 45,
            y: 198,
            cols: 60,
            rows: 180
        }
    );
    assert_eq!(
        *layout_buffer.area(3).unwrap(),
        Area {
            x: 45,
            y: 378,
            cols: 60,
            rows: 300
        }
    );
    assert_eq!(
        *layout_buffer.area(4).unwrap(),
        Area {
            x: 45,
            y: 678,
            cols: 60,
            rows: 300
        }
    );

    layout_buffer.calculate_areas(Direction::Horizontal, &area);
    assert_eq!(
        *layout_buffer.area(0).unwrap(),
        Area {
            x: 45,
            y: 78,
            cols: 4,
            rows: 900
        }
    );
    assert_eq!(
        *layout_buffer.area(1).unwrap(),
        Area {
            x: 49,
            y: 78,
            cols: 4,
            rows: 900
        }
    );
    assert_eq!(
        *layout_buffer.area(2).unwrap(),
        Area {
            x: 53,
            y: 78,
            cols: 12,
            rows: 900
        }
    );
    assert_eq!(
        *layout_buffer.area(3).unwrap(),
        Area {
            x: 65,
            y: 78,
            cols: 20,
            rows: 900
        }
    );
    assert_eq!(
        *layout_buffer.area(4).unwrap(),
        Area {
            x: 85,
            y: 78,
            cols: 20,
            rows: 900
        }
    );
}

#[test]
fn mix() {
    let area = Area {
        x: 8,
        y: 15,
        cols: 100,
        rows: 50,
    };
    let mut layout_buffer = LayoutBuffer::with_capacity(5);

    layout_buffer
        .add_layout(Layout::Static(5))
        .add_layout(Layout::Percentage(200))
        .add_layout(Layout::Weighted(1))
        .calculate_areas(Direction::Vertical, &area);

    assert_eq!(
        *layout_buffer.area(0).unwrap(),
        Area {
            x: 8,
            y: 15,
            cols: 100,
            rows: 5
        }
    );
    assert_eq!(
        *layout_buffer.area(1).unwrap(),
        Area {
            x: 8,
            y: 20,
            cols: 100,
            rows: 10
        }
    );
    assert_eq!(
        *layout_buffer.area(2).unwrap(),
        Area {
            x: 8,
            y: 30,
            cols: 100,
            rows: 35
        }
    );

    layout_buffer.calculate_areas(Direction::Horizontal, &area);
    assert_eq!(
        *layout_buffer.area(0).unwrap(),
        Area {
            x: 8,
            y: 15,
            cols: 5,
            rows: 50
        }
    );
    assert_eq!(
        *layout_buffer.area(1).unwrap(),
        Area {
            x: 13,
            y: 15,
            cols: 20,
            rows: 50
        }
    );
    assert_eq!(
        *layout_buffer.area(2).unwrap(),
        Area {
            x: 33,
            y: 15,
            cols: 75,
            rows: 50
        }
    );
}

#[test]
fn percentage_position_independent() {
    let area = Area {
        x: 0,
        y: 0,
        cols: 0,
        rows: 60,
    };
    let mut first = LayoutBuffer::with_capacity(3);
    first
        .add_layout(Layout::Percentage(300))
        .add_layout(Layout::Static(7))
        .add_layout(Layout::Weighted(2))
        .calculate_areas(Direction::Vertical, &area);
    let mut last = LayoutBuffer::with_capacity(3);
    last.add_layout(Layout::Static(7))
        .add_layout(Layout::Weighted(2))
        .add_layout(Layout::Percentage(300))
        .calculate_areas(Direction::Vertical, &area);

    assert_eq!(first.area(0).unwrap().rows, 18);
    assert_eq!(last.area(2).unwrap().rows, 18);
}

#[test]
fn percentage_clamped_to_whole() {
    let area = Area {
        x: 0,
        y: 0,
        cols: 0,
        rows: 100,
    };
    let mut layout_buffer = LayoutBuffer::with_capacity(2);
    layout_buffer
        .add_layout(Layout::Percentage(1500))
        .add_layout(Layout::Percentage(0))
        .calculate_areas(Direction::Vertical, &area);

    assert_eq!(layout_buffer.area(0).unwrap().rows, 100);
    assert_eq!(layout_buffer.area(1).unwrap().rows, 0);
}

#[test]
fn equal_weights_with_rounding() {
    let area = Area {
        x: 0,
        y: 0,
        cols: 0,
        rows: 10,
    };
    let mut layout_buffer = LayoutBuffer::with_capacity(3);
    layout_buffer
        .add_layout(Layout::Weighted(1))
        .add_layout(Layout::Weighted(1))
        .add_layout(Layout::Weighted(1))
        .calculate_areas(Direction::Vertical, &area);

    // Each share is 10 / 3, rounded to the nearest cell independently.
    assert_eq!(layout_buffer.area(0).unwrap().rows, 3);
    assert_eq!(layout_buffer.area(1).unwrap().rows, 3);
    assert_eq!(layout_buffer.area(2).unwrap().rows, 3);
    assert_eq!(layout_buffer.area(0).unwrap().y, 0);
    assert_eq!(layout_buffer.area(1).unwrap().y, 3);
    assert_eq!(layout_buffer.area(2).unwrap().y, 6);
}

#[test]
fn oversubscribed_statics_leave_nothing_for_weights() {
    let area = Area {
        x: 0,
        y: 0,
        cols: 0,
        rows: 10,
    };
    let mut layout_buffer = LayoutBuffer::with_capacity(3);
    layout_buffer
        .add_layout(Layout::Static(8))
        .add_layout(Layout::Static(5))
        .add_layout(Layout::Weighted(1))
        .calculate_areas(Direction::Vertical, &area);

    // Static rules keep their declared sizes even past the parent extent;
    // the weighted rule gets the clamped remainder, which is zero.
    assert_eq!(layout_buffer.area(0).unwrap().rows, 8);
    assert_eq!(layout_buffer.area(1).unwrap().rows, 5);
    assert_eq!(layout_buffer.area(2).unwrap().rows, 0);
    assert_eq!(layout_buffer.area(2).unwrap().y, 13);
}

#[test]
fn area_out_of_range_is_none() {
    let area = Area {
        x: 0,
        y: 0,
        cols: 4,
        rows: 4,
    };
    let mut layout_buffer = LayoutBuffer::with_capacity(1);
    layout_buffer
        .add_layout(Layout::Static(2))
        .calculate_areas(Direction::Vertical, &area);
    assert!(layout_buffer.area(0).is_some());
    assert!(layout_buffer.area(1).is_none());

    // Clearing empties the computed areas: no stale value survives.
    layout_buffer.clear();
    assert!(layout_buffer.area(0).is_none());
    assert!(layout_buffer.areas().is_empty());
}
