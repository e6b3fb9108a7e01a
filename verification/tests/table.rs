use tui_compose::renderer::Area;
use tui_compose::ui::{Layout, Table};

#[test]
fn regular_table() {
    let mut table = Table::with_capacity(5, 10);
    table
        .add_row(Layout::Static(5), &vec![Layout::Weighted(1)])
        .add_row(
            Layout::Weighted(1),
            &vec![
                Layout::Static(5),
                Layout::Weighted(1),
                Layout::Percentage(100),
            ],
        );

    let area = Area {
        x: 0,
        y: 0,
        cols: 100,
        rows: 25,
    };
    table.calculate_areas(&area);

    assert_eq!(
        table.area(0, 0),
        Area {
            x: 0,
            y: 0,
            cols: 100,
            rows: 5
        }
    );
    assert_eq!(
        table.area(0, 1),
        Area {
            x: 0,
            y: 5,
            cols: 5,
            rows: 20
        }
    );
    assert_eq!(
        table.area(1, 1),
        Area {
            x: 5,
            y: 5,
            cols: 85,
            rows: 20
        }
    );
    assert_eq!(
        table.area(2, 1),
        Area {
            x: 90,
            y: 5,
            cols: 10,
            rows: 20
        }
    );
}

#[test]
fn cell_is_intersection_of_row_and_column_slices() {
    let mut table = Table::with_capacity(2, 2);
    table
        .add_row(Layout::Static(4), &vec![Layout::Static(3), Layout::Weighted(1)])
        .add_row(Layout::Weighted(1), &vec![Layout::Weighted(1)]);

    let area = Area {
        x: 2,
        y: 3,
        cols: 20,
        rows: 10,
    };
    table.calculate_areas(&area);

    // The row slice takes the full width and the row's share of the height.
    assert_eq!(
        table.row_area(0),
        Area {
            x: 2,
            y: 3,
            cols: 20,
            rows: 4
        }
    );
    assert_eq!(
        table.row_area(1),
        Area {
            x: 2,
            y: 7,
            cols: 20,
            rows: 6
        }
    );

    // Each cell keeps its row's vertical slice and its own horizontal one.
    let cell = table.area(1, 0);
    assert_eq!(cell.y, table.row_area(0).y);
    assert_eq!(cell.rows, table.row_area(0).rows);
    assert_eq!(cell.x, 5);
    assert_eq!(cell.cols, 17);
    assert_eq!(
        table.area(0, 1),
        Area {
            x: 2,
            y: 7,
            cols: 20,
            rows: 6
        }
    );
}

#[test]
fn cleared_table_can_be_refilled() {
    let mut table = Table::with_capacity(2, 3);
    table.add_row(Layout::Static(1), &vec![Layout::Weighted(1)]);
    table.clear();
    table
        .add_row(Layout::Static(2), &vec![Layout::Weighted(1)])
        .add_row(Layout::Static(3), &vec![Layout::Weighted(1)]);

    let area = Area {
        x: 0,
        y: 0,
        cols: 8,
        rows: 9,
    };
    table.calculate_areas(&area);

    assert_eq!(table.row_area(0).rows, 2);
    assert_eq!(table.row_area(1).rows, 3);
    assert_eq!(table.area(0, 1).cols, 8);
}
