use vstd::prelude::*;

verus! {

use crate::renderer::Area;
use crate::ui::layout::Direction;
use crate::ui::layout::Layout;
use crate::ui::layout::LayoutBuffer;
use crate::ui::layout::axis_origin;
use crate::ui::layout::axis_total;
use crate::ui::layout::extent_at;
use crate::ui::layout::offset_at;
use crate::ui::layout::slice_area;

/// The vertical slice a table row occupies inside `frame`: full width,
/// and the row allocator's segment of the frame's height.
pub open spec fn row_slice(row_layouts: Seq<Layout>, frame: Area, row: int) -> Area {
    slice_area(
        Direction::Vertical,
        frame,
        offset_at(row_layouts, frame.rows as int, row),
        extent_at(row_layouts, frame.rows as int, row),
    )
}

/// The area of one table cell inside `frame`: its row's vertical slice,
/// subdivided horizontally by the row's own column rules.
pub open spec fn cell_slice(
    row_layouts: Seq<Layout>,
    col_layouts: Seq<Layout>,
    frame: Area,
    row: int,
    col: int,
) -> Area {
    slice_area(
        Direction::Horizontal,
        row_slice(row_layouts, frame, row),
        offset_at(col_layouts, frame.cols as int, col),
        extent_at(col_layouts, frame.cols as int, col),
    )
}

/// A cell's area is the intersection of its row's vertical slice with its
/// own horizontal slice: vertical origin and extent come from the row
/// alone, horizontal origin and extent from the column allocation alone.
pub proof fn lemma_cell_is_intersection(
    row_layouts: Seq<Layout>,
    col_layouts: Seq<Layout>,
    frame: Area,
    row: int,
    col: int,
)
    ensures
        cell_slice(row_layouts, col_layouts, frame, row, col).y == row_slice(
            row_layouts,
            frame,
            row,
        ).y,
        cell_slice(row_layouts, col_layouts, frame, row, col).rows == row_slice(
            row_layouts,
            frame,
            row,
        ).rows,
        cell_slice(row_layouts, col_layouts, frame, row, col).x == (frame.x + offset_at(
            col_layouts,
            frame.cols as int,
            col,
        )) as u16,
        cell_slice(row_layouts, col_layouts, frame, row, col).cols == extent_at(
            col_layouts,
            frame.cols as int,
            col,
        ) as u16,
{
}

/// A 2-D grid of areas: one vertical allocator slices the frame into rows,
/// and one horizontal allocator per row slices that row into columns, so
/// every row may have its own column rules. A cell's area is the
/// intersection of its row's vertical slice with its own horizontal slice.
pub struct Table {
    vertical_layout_buf: LayoutBuffer,
    rows_layout_bufs: Vec<LayoutBuffer>,
    row_count: usize,
}

impl Table {
    /// How many rows the table can hold, fixed at construction.
    pub closed spec fn row_capacity(&self) -> int {
        self.rows_layout_bufs@.len() as int
    }

    /// Rows added since the last clear.
    pub closed spec fn row_count(&self) -> int {
        self.row_count as int
    }

    /// The row sizing rules, one per added row.
    pub closed spec fn row_layouts(&self) -> Seq<Layout> {
        self.vertical_layout_buf.layout_seq()
    }

    /// The column sizing rules of one row.
    pub closed spec fn col_layouts(&self, row: int) -> Seq<Layout> {
        self.rows_layout_bufs@[row].layout_seq()
    }

    /// The computed vertical slices, one per row.
    pub closed spec fn row_areas(&self) -> Seq<Area> {
        self.vertical_layout_buf.area_seq()
    }

    /// The computed cell areas of one row.
    pub closed spec fn cell_areas(&self, row: int) -> Seq<Area> {
        self.rows_layout_bufs@[row].area_seq()
    }

    /// One row rule per added row, and no more rows than the capacity.
    pub open spec fn wf(&self) -> bool {
        &&& self.row_layouts().len() == self.row_count()
        &&& self.row_count() <= self.row_capacity()
    }

    pub fn with_capacity(cols: usize, rows: usize) -> (r: Self)
        ensures
            r.wf(),
            r.row_capacity() == rows,
            r.row_count() == 0,
            forall|i: int| 0 <= i < rows ==> r.col_layouts(i).len() == 0,
    {
        let mut rows_layout_bufs: Vec<LayoutBuffer> = Vec::with_capacity(rows);
        let mut i: usize = 0;
        while i < rows
            invariant
                i <= rows,
                rows_layout_bufs@.len() == i,
                forall|j: int|
                    0 <= j < i ==> (#[trigger] rows_layout_bufs@[j]).layout_seq().len() == 0,
            decreases rows - i,
        {
            let buf = LayoutBuffer::with_capacity(cols);
            rows_layout_bufs.push(buf);
            i = i + 1;
        }

        Self {
            vertical_layout_buf: LayoutBuffer::with_capacity(rows),
            rows_layout_bufs,
            row_count: 0,
        }
    }

    /// Append one row: its vertical sizing rule, and the column rules that
    /// partition it horizontally. Fluent, so rows chain in order.
    pub fn add_row(&mut self, row_layout: Layout, row_columns: &Vec<Layout>) -> (r: &mut Self)
        requires
            old(self).wf(),
            old(self).row_count() < old(self).row_capacity(),
        ensures
            r.wf(),
            r.row_capacity() == old(self).row_capacity(),
            r.row_count() == old(self).row_count() + 1,
            r.row_layouts() == old(self).row_layouts().push(row_layout),
            r.col_layouts(old(self).row_count()) == old(self).col_layouts(old(self).row_count())
                + row_columns@,
            forall|i: int|
                0 <= i < old(self).row_capacity() && i != old(self).row_count()
                    ==> #[trigger] r.col_layouts(i) == old(self).col_layouts(i),
            r.row_areas() == old(self).row_areas(),
            forall|i: int|
                0 <= i < old(self).row_capacity() ==> #[trigger] r.cell_areas(i) == old(
                    self,
                ).cell_areas(i),
            *final(self) == *final(r),
    {
        self.vertical_layout_buf.add_layout(row_layout);
        let idx = self.row_count;
        let ghost start = self.rows_layout_bufs@[idx as int].layout_seq();
        let ghost start_areas = self.rows_layout_bufs@[idx as int].area_seq();
        let mut j: usize = 0;
        while j < row_columns.len()
            invariant
                j <= row_columns@.len(),
                idx < self.rows_layout_bufs@.len(),
                self.rows_layout_bufs@.len() == old(self).rows_layout_bufs@.len(),
                self.rows_layout_bufs@[idx as int].layout_seq() == start + row_columns@.subrange(
                    0,
                    j as int,
                ),
                self.rows_layout_bufs@[idx as int].area_seq() == start_areas,
                forall|i: int|
                    0 <= i < self.rows_layout_bufs@.len() && i != idx
                        ==> #[trigger] self.rows_layout_bufs@[i] == old(self).rows_layout_bufs@[i],
                self.vertical_layout_buf.layout_seq() == old(self).vertical_layout_buf.layout_seq(
                ).push(row_layout),
                self.vertical_layout_buf.area_seq() == old(self).vertical_layout_buf.area_seq(),
                self.row_count == old(self).row_count,
                idx == old(self).row_count,
            decreases row_columns@.len() - j,
        {
            self.rows_layout_bufs[idx].add_layout(row_columns[j]);
            j = j + 1;
        }
        proof {
            assert(row_columns@.subrange(0, row_columns@.len() as int) =~= row_columns@);
            assert(idx < self.rows_layout_bufs.len());
        }
        self.row_count = idx + 1;
        self
    }

    /// Slice the frame vertically into one area per row, then slice each
    /// row's own area horizontally by that row's column rules. The
    /// preconditions are the allocator's machine limit, once for the row
    /// axis and once per row for its column axis.
    pub fn calculate_areas(&mut self, area: &Area)
        requires
            old(self).wf(),
            area.y + offset_at(
                old(self).row_layouts(),
                area.rows as int,
                old(self).row_count(),
            ) <= u16::MAX,
            forall|r: int|
                0 <= r < old(self).row_count() ==> area.x + offset_at(
                    #[trigger] old(self).col_layouts(r),
                    area.cols as int,
                    old(self).col_layouts(r).len() as int,
                ) <= u16::MAX,
        ensures
            final(self).wf(),
            final(self).row_capacity() == old(self).row_capacity(),
            final(self).row_count() == old(self).row_count(),
            final(self).row_layouts() == old(self).row_layouts(),
            forall|r: int|
                0 <= r < old(self).row_capacity() ==> #[trigger] final(self).col_layouts(r) == old(
                    self,
                ).col_layouts(r),
            final(self).row_areas().len() == old(self).row_count(),
            forall|r: int|
                0 <= r < old(self).row_count() ==> #[trigger] final(self).row_areas()[r]
                    == row_slice(old(self).row_layouts(), *area, r),
            forall|r: int|
                0 <= r < old(self).row_count() ==> (#[trigger] final(self).cell_areas(r)).len()
                    == old(self).col_layouts(r).len(),
            forall|r: int, c: int|
                0 <= r < old(self).row_count() && 0 <= c < old(self).col_layouts(r).len()
                    ==> #[trigger] final(self).cell_areas(r)[c] == cell_slice(
                    old(self).row_layouts(),
                    old(self).col_layouts(r),
                    *area,
                    r,
                    c,
                ),
    {
        self.vertical_layout_buf.calculate_areas(Direction::Vertical, area);

        let n = self.row_count;
        let mut i: usize = 0;
        while i < n
            invariant
                i <= n,
                n == self.row_count,
                self.row_count == old(self).row_count,
                self.wf(),
                self.row_capacity() == old(self).row_capacity(),
                self.row_layouts() == old(self).row_layouts(),
                forall|r: int|
                    0 <= r < old(self).row_capacity() ==> self.col_layouts(r) == #[trigger] old(
                        self,
                    ).col_layouts(r),
                self.row_areas().len() == old(self).row_count(),
                forall|r: int|
                    0 <= r < old(self).row_count() ==> #[trigger] self.row_areas()[r] == row_slice(
                        old(self).row_layouts(),
                        *area,
                        r,
                    ),
                forall|r: int|
                    0 <= r < old(self).row_count() ==> area.x + offset_at(
                        #[trigger] old(self).col_layouts(r),
                        area.cols as int,
                        old(self).col_layouts(r).len() as int,
                    ) <= u16::MAX,
                forall|r: int|
                    0 <= r < i ==> self.cell_areas(r).len() == (#[trigger] old(self).col_layouts(
                        r,
                    )).len(),
                forall|r: int, c: int|
                    0 <= r < i && 0 <= c < old(self).col_layouts(r).len() ==> self.cell_areas(r)[c]
                        == slice_area(
                        Direction::Horizontal,
                        row_slice(old(self).row_layouts(), *area, r),
                        #[trigger] offset_at(old(self).col_layouts(r), area.cols as int, c),
                        extent_at(old(self).col_layouts(r), area.cols as int, c),
                    ),
                forall|r: int|
                    i <= r < old(self).row_capacity() ==> self.cell_areas(r) == #[trigger] old(
                        self,
                    ).cell_areas(r),
            decreases n - i,
        {
            let ghost pre = self.rows_layout_bufs@;
            let row_area: Area = match self.vertical_layout_buf.area(i) {
                Some(a) => *a,
                None => Area { x: 0, y: 0, cols: 0, rows: 0 },
            };
            proof {
                assert(row_area == row_slice(old(self).row_layouts(), *area, i as int));
                assert(row_area.x == area.x && row_area.cols == area.cols);
                assert(self.col_layouts(i as int) == old(self).col_layouts(i as int));
                assert(area.x + offset_at(
                    old(self).col_layouts(i as int),
                    area.cols as int,
                    old(self).col_layouts(i as int).len() as int,
                ) <= u16::MAX);
            }
            self.rows_layout_bufs[i].calculate_areas(Direction::Horizontal, &row_area);
            proof {
                assert(self.rows_layout_bufs@[i as int].layout_seq() == pre[i as int].layout_seq());
                assert forall|r: int| 0 <= r < old(self).row_capacity() implies #[trigger] self
                    .col_layouts(r) == old(self).col_layouts(r) by {
                    if r != i as int {
                        assert(self.rows_layout_bufs@[r] == pre[r]);
                    }
                }
                assert forall|r: int| 0 <= r <= i as int implies (#[trigger] self.cell_areas(
                    r,
                )).len() == old(self).col_layouts(r).len() by {
                    if r != i as int {
                        assert(self.rows_layout_bufs@[r] == pre[r]);
                    }
                }
                assert forall|r: int, c: int|
                    0 <= r <= i as int && 0 <= c < old(self).col_layouts(r).len()
                        implies #[trigger] self.cell_areas(r)[c] == slice_area(
                        Direction::Horizontal,
                        row_slice(old(self).row_layouts(), *area, r),
                        offset_at(old(self).col_layouts(r), area.cols as int, c),
                        extent_at(old(self).col_layouts(r), area.cols as int, c),
                    ) by {
                    if r != i as int {
                        assert(self.rows_layout_bufs@[r] == pre[r]);
                    } else {
                        assert(axis_total(Direction::Horizontal, row_area) == area.cols as int);
                        assert(axis_origin(Direction::Horizontal, row_area) == area.x as int);
                    }
                }
                assert forall|r: int|
                    i as int + 1 <= r < old(self).row_capacity() implies #[trigger] self.cell_areas(
                    r,
                ) == old(self).cell_areas(r) by {
                    assert(self.rows_layout_bufs@[r] == pre[r]);
                }
            }
            i = i + 1;
        }
    }

    /// The area of the cell in column `col` of row `row`, as the last
    /// calculation produced it.
    pub fn area(&self, col: usize, row: usize) -> (r: Area)
        requires
            row < self.row_capacity(),
            col < self.cell_areas(row as int).len(),
        ensures
            r == self.cell_areas(row as int)[col as int],
    {
        let buf: &LayoutBuffer = &self.rows_layout_bufs[row];
        match buf.area(col) {
            Some(a) => *a,
            None => Area { x: 0, y: 0, cols: 0, rows: 0 },
        }
    }

    /// The vertical slice of row `row`, as the last calculation produced
    /// it: full frame width, the row's share of the height.
    pub fn row_area(&self, row: usize) -> (r: Area)
        requires
            row < self.row_areas().len(),
        ensures
            r == self.row_areas()[row as int],
    {
        match self.vertical_layout_buf.area(row) {
            Some(a) => *a,
            None => Area { x: 0, y: 0, cols: 0, rows: 0 },
        }
    }

    /// Forget every row and every computed area, keeping all capacity, so
    /// the table can be refilled each frame without reallocating.
    pub fn clear(&mut self)
        ensures
            final(self).wf(),
            final(self).row_capacity() == old(self).row_capacity(),
            final(self).row_count() == 0,
            final(self).row_layouts().len() == 0,
            final(self).row_areas().len() == 0,
            forall|r: int|
                0 <= r < old(self).row_capacity() ==> (#[trigger] final(self).col_layouts(
                    r,
                )).len() == 0 && final(self).cell_areas(r).len() == 0,
    {
        self.row_count = 0;
        self.vertical_layout_buf.clear();
        let n = self.rows_layout_bufs.len();
        let mut i: usize = 0;
        while i < n
            invariant
                i <= n,
                n == self.rows_layout_bufs@.len(),
                self.row_count == 0,
                self.vertical_layout_buf.layout_seq().len() == 0,
                self.vertical_layout_buf.area_seq().len() == 0,
                forall|r: int|
                    0 <= r < i ==> (#[trigger] self.rows_layout_bufs@[r]).layout_seq().len() == 0
                        && self.rows_layout_bufs@[r].area_seq().len() == 0,
            decreases n - i,
        {
            self.rows_layout_bufs[i].clear();
            i = i + 1;
        }
    }
}

} // verus!
