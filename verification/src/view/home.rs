use vstd::prelude::*;

verus! {

use crate::event::Event;
use crate::event::Key;
use crate::renderer::Area;
use crate::renderer::Renderer;
use crate::renderer::render_widget;
use crate::ui::label::Label;
use crate::ui::layout::Direction;
use crate::ui::layout::Layout;
use crate::ui::layout::LayoutBuffer;
use crate::ui::layout::extent_at;
use crate::ui::layout::fixed_extent_sum;
use crate::ui::layout::lemma_fixed_extent_sum_push;
use crate::ui::layout::lemma_offset_at_monotone;
use crate::ui::layout::lemma_percentage_extent_bounds;
use crate::ui::layout::lemma_static_rules_partition;
use crate::ui::layout::lemma_weight_sum_push;
use crate::ui::layout::offset_at;
use crate::ui::layout::percentage_extent;
use crate::ui::layout::slice_area;
use crate::ui::layout::weight_sum;
use crate::ui::layout::weighted_extent;
use crate::ui::style::Borders;
use crate::ui::style::Padding;
use crate::ui::style::RGBA;
use crate::ui::style::Style;
use crate::ui::surface::Surface;
use crate::ui::surface::SurfaceOnRender;
use crate::ui::table::Table;
use crate::ui::table::row_slice;
use crate::view::View as _;
use vstd::arithmetic::div_mod::lemma_fundamental_div_mod;
use vstd::arithmetic::div_mod::lemma_mod_bound;

/// A content callback that draws nothing: the panel itself is the point.
struct BlankContent;

impl SurfaceOnRender for BlankContent {
    fn on_render<R: Renderer>(&self, renderer: &mut R, content_area: &Area) {
    }
}

/// A content callback that draws one line of text, in one fixed style,
/// into whatever content area it is handed.
struct LabelContent {
    text: Label,
    style: Style,
}

impl SurfaceOnRender for LabelContent {
    fn on_render<R: Renderer>(&self, renderer: &mut R, content_area: &Area) {
        renderer.draw_text(self.text.get_text().as_str(), *content_area, &self.style);
    }
}

/// The sample full-screen view: a header label, a four-way colored band,
/// an optional extra label, a padded framed label, and a table of framed
/// cells. It demonstrates every composition primitive of the library.
pub struct HomeView {
    should_draw_second: bool,
    layout_buffer: LayoutBuffer,
    horizontal_layout_buffer: LayoutBuffer,
    main_table: Table,
}

impl HomeView {
    /// Whether the optional extra label is drawn this frame.
    pub closed spec fn draws_second(&self) -> bool {
        self.should_draw_second
    }

    pub fn new() -> (r: Self)
        ensures
            r.wf(),
            !r.draws_second(),
    {
        Self {
            should_draw_second: false,
            layout_buffer: LayoutBuffer::with_capacity(20),
            horizontal_layout_buffer: LayoutBuffer::with_capacity(5),
            main_table: Table::with_capacity(3, 5),
        }
    }
}

/// The area is roomy enough for a one-cell padding and its origin is not
/// at the very edge of the grid.
spec fn cell_fits(a: Area) -> bool {
    &&& a.cols >= 2
    &&& a.rows >= 2
    &&& a.x + 1 <= u16::MAX
    &&& a.y + 1 <= u16::MAX
}

/// The label of one table cell, written out per position.
fn cell_label(col: usize, row: usize) -> String {
    let text: &str = if col == 0 && row == 1 {
        "This is cell 0, 1"
    } else if col == 1 && row == 1 {
        "This is cell 1, 1"
    } else if col == 2 && row == 1 {
        "This is cell 2, 1"
    } else if col == 0 && row == 2 {
        "This is cell 0, 2"
    } else if col == 1 && row == 2 {
        "This is cell 1, 2"
    } else if col == 2 && row == 2 {
        "This is cell 2, 2"
    } else if col == 0 && row == 3 {
        "This is cell 0, 3"
    } else if col == 1 && row == 3 {
        "This is cell 1, 3"
    } else if col == 2 && row == 3 {
        "This is cell 2, 3"
    } else if col == 0 && row == 4 {
        "This is cell 0, 4"
    } else if col == 1 && row == 4 {
        "This is cell 1, 4"
    } else {
        "This is cell 2, 4"
    };
    text.to_string()
}

/// The home view's vertical rule list: two static bands, the optional
/// percentage band, then two equal weights. On a frame at least 16 rows
/// high, the segments fit in one extra row beyond the frame and each
/// weighted band is at least two rows high.
proof fn lemma_home_vertical_rules(vs: Seq<Layout>, t: int, second: bool)
    requires
        16 <= t <= u16::MAX,
        second ==> vs =~= seq![
            Layout::Static(1),
            Layout::Static(3),
            Layout::Percentage(50),
            Layout::Weighted(1),
            Layout::Weighted(1),
        ],
        !second ==> vs =~= seq![
            Layout::Static(1),
            Layout::Static(3),
            Layout::Weighted(1),
            Layout::Weighted(1),
        ],
    ensures
        vs.len() == if second {
            5int
        } else {
            4int
        },
        offset_at(vs, t, vs.len() as int) <= t + 1,
        extent_at(vs, t, 1) == 3,
        extent_at(vs, t, vs.len() - 2) >= 2,
{
    let p = percentage_extent(50, t);
    lemma_percentage_extent_bounds(50, t);
    lemma_fundamental_div_mod(t * 50, 1000);
    lemma_mod_bound(t * 50, 1000);
    assert(20 * p <= t);

    let s0 = Seq::<Layout>::empty();
    let s1 = s0.push(Layout::Static(1));
    let s2 = s1.push(Layout::Static(3));
    if second {
        let s3 = s2.push(Layout::Percentage(50));
        let s4 = s3.push(Layout::Weighted(1));
        let s5 = s4.push(Layout::Weighted(1));
        assert(vs =~= s5);
        lemma_fixed_extent_sum_push(s0, Layout::Static(1), t);
        lemma_fixed_extent_sum_push(s1, Layout::Static(3), t);
        lemma_fixed_extent_sum_push(s2, Layout::Percentage(50), t);
        lemma_fixed_extent_sum_push(s3, Layout::Weighted(1), t);
        lemma_fixed_extent_sum_push(s4, Layout::Weighted(1), t);
        lemma_weight_sum_push(s0, Layout::Static(1));
        lemma_weight_sum_push(s1, Layout::Static(3));
        lemma_weight_sum_push(s2, Layout::Percentage(50));
        lemma_weight_sum_push(s3, Layout::Weighted(1));
        lemma_weight_sum_push(s4, Layout::Weighted(1));
        assert(fixed_extent_sum(vs, t) == 4 + p);
        assert(weight_sum(vs) == 2);
    } else {
        let s3 = s2.push(Layout::Weighted(1));
        let s4 = s3.push(Layout::Weighted(1));
        assert(vs =~= s4);
        lemma_fixed_extent_sum_push(s0, Layout::Static(1), t);
        lemma_fixed_extent_sum_push(s1, Layout::Static(3), t);
        lemma_fixed_extent_sum_push(s2, Layout::Weighted(1), t);
        lemma_fixed_extent_sum_push(s3, Layout::Weighted(1), t);
        lemma_weight_sum_push(s0, Layout::Static(1));
        lemma_weight_sum_push(s1, Layout::Static(3));
        lemma_weight_sum_push(s2, Layout::Weighted(1));
        lemma_weight_sum_push(s3, Layout::Weighted(1));
        assert(fixed_extent_sum(vs, t) == 4);
        assert(weight_sum(vs) == 2);
    }
    let fs = fixed_extent_sum(vs, t);
    assert(fs <= t);
    let rem = t - fs;
    assert(rem >= 12);
    assert(crate::ui::layout::remaining_extent(vs, t) == rem);

    let e = weighted_extent(1, rem, 2);
    assert(e == (2 * rem + 2) / 4);
    lemma_fundamental_div_mod(2 * rem + 2, 4);
    lemma_mod_bound(2 * rem + 2, 4);
    assert(2 * e <= rem + 1);
    assert(e >= 6);

    let len = vs.len() as int;
    assert(extent_at(vs, t, 0) == 1);
    assert(extent_at(vs, t, 1) == 3);
    assert(extent_at(vs, t, len - 2) == e);
    assert(extent_at(vs, t, len - 1) == e);
    assert(offset_at(vs, t, 0) == 0);
    assert(offset_at(vs, t, 1) == offset_at(vs, t, 0) + extent_at(vs, t, 0));
    assert(offset_at(vs, t, 2) == offset_at(vs, t, 1) + extent_at(vs, t, 1));
    assert(offset_at(vs, t, 3) == offset_at(vs, t, 2) + extent_at(vs, t, 2));
    assert(offset_at(vs, t, 4) == offset_at(vs, t, 3) + extent_at(vs, t, 3));
    if second {
        assert(extent_at(vs, t, 2) == p);
        assert(offset_at(vs, t, 5) == offset_at(vs, t, 4) + extent_at(vs, t, 4));
        assert(offset_at(vs, t, 5) == 4 + p + 2 * e);
    } else {
        assert(offset_at(vs, t, 4) == 4 + 2 * e);
    }
    assert(offset_at(vs, t, len) <= t + 1);
}

/// A rule list of unit weights only: every segment takes the same rounded
/// equal share of the whole total.
proof fn lemma_unit_weight_rules(hs: Seq<Layout>, total: int)
    requires
        0 <= total,
        1 <= hs.len(),
        forall|j: int| 0 <= j < hs.len() ==> hs[j] == Layout::Weighted(1),
    ensures
        forall|k: int|
            0 <= k < hs.len() ==> #[trigger] extent_at(hs, total, k) == weighted_extent(
                1,
                total,
                hs.len() as int,
            ),
        forall|k: int|
            0 <= k <= hs.len() ==> #[trigger] offset_at(hs, total, k) == k * weighted_extent(
                1,
                total,
                hs.len() as int,
            ),
        2 * hs.len() * weighted_extent(1, total, hs.len() as int) <= 2 * total + hs.len(),
        2 * total <= 2 * hs.len() * weighted_extent(1, total, hs.len() as int) + hs.len(),
{
    assert(forall|j: int| 0 <= j < hs.len() ==> #[trigger] hs[j] is Weighted);
    crate::ui::layout::lemma_all_weighted_fixed_sum_zero(hs, total);
    crate::ui::layout::lemma_equal_weight_sum(hs, 1);
    assert(weight_sum(hs) == hs.len() as int);
    crate::ui::layout::lemma_equal_weights_even_split(hs, total, 1, 0);
    assert forall|k: int| 0 <= k < hs.len() implies #[trigger] extent_at(hs, total, k)
        == weighted_extent(1, total, hs.len() as int) by {
        crate::ui::layout::lemma_equal_weights_even_split(hs, total, 1, k);
    }
    assert forall|k: int| 0 <= k <= hs.len() implies #[trigger] offset_at(hs, total, k) == k
        * weighted_extent(1, total, hs.len() as int) by {
        lemma_unit_weight_offsets(hs, total, k);
    }
}

impl crate::view::View for HomeView {
    closed spec fn wf(&self) -> bool {
        self.main_table.row_capacity() == 5
    }

    fn init(&mut self) -> (r: Result<(), crate::view::Error>)
        ensures
            *final(self) == *old(self),
            r is Ok,
    {
        Ok(())
    }

    fn update(&mut self, event: &Event) -> (r: Result<(), crate::view::Error>)
        ensures
            final(self).draws_second() == (old(self).draws_second() != (event.key() is ENTER)),
            r is Ok,
    {
        match event.get_key() {
            Key::ENTER => {
                self.should_draw_second = !self.should_draw_second;
            },
            _ => {},
        }
        Ok(())
    }

    #[verifier::rlimit(100)]
    fn render<R: Renderer>(&mut self, renderer: &mut R) -> (r: Result<(), crate::view::Error>)
        ensures
            final(self).draws_second() == old(self).draws_second(),
            r is Ok,
    {
        let frame_size = renderer.frame_size();
        // A frame that is too cramped for the fixed bands and paddings, or
        // that sits unreasonably deep in the coordinate grid, is skipped:
        // drawing it would push segments past the addressable range.
        if frame_size.cols < 16 || frame_size.rows < 16 {
            return Ok(());
        }
        if frame_size.x as u32 + frame_size.cols as u32 > 60000 || frame_size.y as u32
            + frame_size.rows as u32 > 60000 {
            return Ok(());
        }
        let ghost t: int = frame_size.rows as int;
        let ghost c: int = frame_size.cols as int;

        self.layout_buffer.clear();
        self.layout_buffer.add_layout(Layout::Static(1));
        self.layout_buffer.add_layout(Layout::Static(3));
        if self.should_draw_second {
            self.layout_buffer.add_layout(Layout::Percentage(50));
        }
        self.layout_buffer.add_layout(Layout::Weighted(1));
        self.layout_buffer.add_layout(Layout::Weighted(1));
        let ghost vs = self.layout_buffer.layout_seq();
        let ghost len_v: int = vs.len() as int;
        proof {
            if self.should_draw_second {
                assert(vs =~= seq![
                    Layout::Static(1),
                    Layout::Static(3),
                    Layout::Percentage(50),
                    Layout::Weighted(1),
                    Layout::Weighted(1),
                ]);
            } else {
                assert(vs =~= seq![
                    Layout::Static(1),
                    Layout::Static(3),
                    Layout::Weighted(1),
                    Layout::Weighted(1),
                ]);
            }
            lemma_home_vertical_rules(vs, t, self.should_draw_second);
            assert(frame_size.y + offset_at(vs, t, len_v) <= u16::MAX);
        }
        self.layout_buffer.calculate_areas(Direction::Vertical, &frame_size);

        let area0 = *self.layout_buffer.area(0).unwrap();
        let mut first_label = Label::from("This is some text");
        render_widget(renderer, &mut first_label, area0, &Style::new());

        let area1 = *self.layout_buffer.area(1).unwrap();
        proof {
            assert(area1.x == frame_size.x && area1.cols == frame_size.cols);
        }
        self.horizontal_layout_buffer.clear();
        self.horizontal_layout_buffer.add_layout(Layout::Weighted(1));
        self.horizontal_layout_buffer.add_layout(Layout::Weighted(1));
        self.horizontal_layout_buffer.add_layout(Layout::Weighted(1));
        self.horizontal_layout_buffer.add_layout(Layout::Weighted(1));
        let ghost hs = self.horizontal_layout_buffer.layout_seq();
        proof {
            assert(hs =~= seq![
                Layout::Weighted(1),
                Layout::Weighted(1),
                Layout::Weighted(1),
                Layout::Weighted(1),
            ]);
            lemma_unit_weight_rules(hs, c);
            assert(hs.len() as int == 4);
            let eh = weighted_extent(1, c, 4);
            assert(offset_at(hs, c, 4) == 4 * eh);
            assert(2 * hs.len() * eh <= 2 * c + hs.len());
            assert(8 * eh <= 2 * c + 4);
            assert(4 * eh <= c + 2);
            assert(area1.x + offset_at(hs, c, 4) <= u16::MAX);
        }
        self.horizontal_layout_buffer.calculate_areas(Direction::Horizontal, &area1);

        let band0_area = *self.horizontal_layout_buffer.area(0).unwrap();
        let mut band0 = Surface::from(Padding::none(), BlankContent);
        render_widget(
            renderer,
            &mut band0,
            band0_area,
            &Style::from(Borders::none(), RGBA::red(), RGBA::transparent()),
        );

        let band1_area = *self.horizontal_layout_buffer.area(1).unwrap();
        let mut band1 = Surface::from(Padding::none(), BlankContent);
        render_widget(
            renderer,
            &mut band1,
            band1_area,
            &Style::from(Borders::none(), RGBA::green(), RGBA::transparent()),
        );

        let band2_area = *self.horizontal_layout_buffer.area(2).unwrap();
        let mut band2 = Surface::from(Padding::none(), BlankContent);
        render_widget(
            renderer,
            &mut band2,
            band2_area,
            &Style::from(Borders::none(), RGBA::blue(), RGBA::transparent()),
        );

        let band3_area = *self.horizontal_layout_buffer.area(3).unwrap();
        let mut band3 = Surface::from(Padding::none(), BlankContent);
        render_widget(
            renderer,
            &mut band3,
            band3_area,
            &Style::from(Borders::none(), RGBA::black(), RGBA::transparent()),
        );

        if self.should_draw_second {
            let area2 = *self.layout_buffer.area(2).unwrap();
            let mut second_label = Label::from("This is the second text!");
            render_widget(renderer, &mut second_label, area2, &Style::new());
        }

        let far_index: usize = if self.should_draw_second {
            3
        } else {
            2
        };
        let far_area = *self.layout_buffer.area(far_index).unwrap();
        let mut far_surface = Surface::from(
            Padding::high_and_wide(1, 2),
            LabelContent { text: Label::from("This should be far off"), style: Style::new() },
        );
        proof {
            assert(far_index as int == len_v - 2);
            lemma_offset_at_monotone(vs, t, 0, len_v - 2);
            lemma_offset_at_monotone(vs, t, len_v - 1, len_v);
            assert(offset_at(vs, t, len_v - 1) == offset_at(vs, t, len_v - 2) + extent_at(
                vs,
                t,
                len_v - 2,
            ));
            assert(far_area.cols == frame_size.cols);
            assert(far_area.rows >= 2);
            assert(far_area.y + 1 <= u16::MAX);
            assert(far_surface.padding_fits(far_area));
        }
        render_widget(renderer, &mut far_surface, far_area, &Style::bordered());

        self.main_table.clear();
        let mut row0_cols: Vec<Layout> = Vec::new();
        row0_cols.push(Layout::Weighted(1));
        let mut other_cols: Vec<Layout> = Vec::new();
        other_cols.push(Layout::Weighted(1));
        other_cols.push(Layout::Weighted(1));
        other_cols.push(Layout::Weighted(1));
        self.main_table.add_row(Layout::Static(3), &row0_cols);
        self.main_table.add_row(Layout::Static(3), &other_cols);
        self.main_table.add_row(Layout::Static(3), &other_cols);
        self.main_table.add_row(Layout::Static(3), &other_cols);
        self.main_table.add_row(Layout::Static(3), &other_cols);

        let table_index: usize = if self.should_draw_second {
            4
        } else {
            3
        };
        let table_area = *self.layout_buffer.area(table_index).unwrap();
        let ghost rl = self.main_table.row_layouts();
        let ghost c1 = self.main_table.col_layouts(0);
        let ghost c3 = other_cols@;
        let ghost tt: int = table_area.rows as int;
        proof {
            assert(table_index as int == len_v - 1);
            lemma_offset_at_monotone(vs, t, 0, len_v - 1);
            lemma_offset_at_monotone(vs, t, len_v - 1, len_v);
            assert(table_area.x == frame_size.x && table_area.cols == frame_size.cols);
            assert(table_area.y <= 60001);

            assert(rl =~= seq![
                Layout::Static(3),
                Layout::Static(3),
                Layout::Static(3),
                Layout::Static(3),
                Layout::Static(3),
            ]);
            assert(c1 =~= seq![Layout::Weighted(1)]);
            assert(c3 =~= seq![Layout::Weighted(1), Layout::Weighted(1), Layout::Weighted(1)]);
            assert(self.main_table.col_layouts(1) =~= c3);
            assert(self.main_table.col_layouts(2) =~= c3);
            assert(self.main_table.col_layouts(3) =~= c3);
            assert(self.main_table.col_layouts(4) =~= c3);

            assert(forall|j: int| 0 <= j < rl.len() ==> #[trigger] rl[j] is Static);
            lemma_static_rules_partition(rl, tt);
            let s0 = Seq::<Layout>::empty();
            lemma_fixed_extent_sum_push(s0, Layout::Static(3), tt);
            lemma_fixed_extent_sum_push(s0.push(Layout::Static(3)), Layout::Static(3), tt);
            lemma_fixed_extent_sum_push(
                s0.push(Layout::Static(3)).push(Layout::Static(3)),
                Layout::Static(3),
                tt,
            );
            lemma_fixed_extent_sum_push(
                s0.push(Layout::Static(3)).push(Layout::Static(3)).push(Layout::Static(3)),
                Layout::Static(3),
                tt,
            );
            lemma_fixed_extent_sum_push(
                s0.push(Layout::Static(3)).push(Layout::Static(3)).push(Layout::Static(3)).push(
                    Layout::Static(3),
                ),
                Layout::Static(3),
                tt,
            );
            assert(rl =~= s0.push(Layout::Static(3)).push(Layout::Static(3)).push(
                Layout::Static(3),
            ).push(Layout::Static(3)).push(Layout::Static(3)));
            assert(fixed_extent_sum(rl, tt) == 15);
            assert(offset_at(rl, tt, 5) == 15);
            assert(table_area.y + offset_at(rl, tt, 5) <= u16::MAX);

            lemma_unit_weight_rules(c1, c);
            lemma_unit_weight_rules(c3, c);
            assert(c1.len() as int == 1 && c3.len() as int == 3);
            let e1 = weighted_extent(1, c, 1);
            let e3 = weighted_extent(1, c, 3);
            assert(offset_at(c1, c, 1) == 1 * e1);
            assert(1 * e1 == e1) by (nonlinear_arith);
            assert(offset_at(c3, c, 3) == 3 * e3);
            assert(2 * c1.len() * e1 <= 2 * c + c1.len());
            assert(2 * e1 <= 2 * c + 1);
            assert(e1 <= c);
            assert(2 * c3.len() * e3 <= 2 * c + c3.len());
            assert(6 * e3 <= 2 * c + 3);
            assert(3 * e3 <= c + 1);
            assert forall|r: int| 0 <= r < self.main_table.row_count() implies table_area.x
                + offset_at(
                #[trigger] self.main_table.col_layouts(r),
                table_area.cols as int,
                self.main_table.col_layouts(r).len() as int,
            ) <= u16::MAX by {
                if r == 0 {
                    assert(self.main_table.col_layouts(r) =~= c1);
                } else {
                    assert(self.main_table.col_layouts(r) =~= c3);
                }
            }
        }
        self.main_table.calculate_areas(&table_area);

        let title_area = self.main_table.row_area(0);
        let mut title_surface = Surface::from(
            Padding::high_and_wide(1, 2),
            LabelContent {
                text: Label::from("This is a table title"),
                style: Style::from(Borders::none(), RGBA::transparent(), RGBA::red()),
            },
        );
        proof {
            assert(title_area == row_slice(rl, table_area, 0));
            assert(title_area.rows == 3 && title_area.cols == frame_size.cols);
            assert(title_surface.padding_fits(title_area));
        }
        render_widget(renderer, &mut title_surface, title_area, &Style::bordered());

        proof {
            let e3 = weighted_extent(1, c, 3);
            assert(2 * c <= 6 * e3 + 3 && 6 * e3 <= 2 * c + 3);
            assert(e3 >= 5);
            assert forall|rr: int, cc: int| 1 <= rr < 5 && 0 <= cc < 3 implies cell_fits(
                #[trigger] self.main_table.cell_areas(rr)[cc],
            ) by {
                assert(self.main_table.cell_areas(rr)[cc] == slice_area(
                    Direction::Horizontal,
                    row_slice(rl, table_area, rr),
                    offset_at(c3, table_area.cols as int, cc),
                    extent_at(c3, table_area.cols as int, cc),
                ));
                assert(extent_at(c3, c, cc) == e3);
                assert(offset_at(c3, c, cc) == cc * e3);
                assert(0 <= cc * e3 <= 2 * e3) by (nonlinear_arith)
                    requires
                        0 <= cc < 3,
                        0 <= e3,
                ;
                assert(row_slice(rl, table_area, rr).rows == 3);
                assert(row_slice(rl, table_area, rr).x == table_area.x);
                assert(row_slice(rl, table_area, rr).y == table_area.y + offset_at(rl, tt, rr));
            }
            assert(forall|rr: int|
                1 <= rr < 5 ==> (#[trigger] self.main_table.cell_areas(rr)).len() == 3);
        }

        let mut row: usize = 1;
        while row < 5
            invariant
                1 <= row <= 5,
                self.main_table.row_capacity() == 5,
                forall|rr: int|
                    1 <= rr < 5 ==> (#[trigger] self.main_table.cell_areas(rr)).len() == 3,
                forall|rr: int, cc: int|
                    1 <= rr < 5 && 0 <= cc < 3 ==> cell_fits(
                        #[trigger] self.main_table.cell_areas(rr)[cc],
                    ),
            decreases 5 - row,
        {
            let mut col: usize = 0;
            while col < 3
                invariant
                    1 <= row < 5,
                    col <= 3,
                    self.main_table.row_capacity() == 5,
                    forall|rr: int|
                        1 <= rr < 5 ==> (#[trigger] self.main_table.cell_areas(rr)).len() == 3,
                    forall|rr: int, cc: int|
                        1 <= rr < 5 && 0 <= cc < 3 ==> cell_fits(
                            #[trigger] self.main_table.cell_areas(rr)[cc],
                        ),
                decreases 3 - col,
            {
                let cell_area = self.main_table.area(col, row);
                let mut table_cell = Surface::from(
                    Padding::around(1),
                    LabelContent {
                        text: Label::from(cell_label(col, row).as_str()),
                        style: Style::new(),
                    },
                );
                render_widget(renderer, &mut table_cell, cell_area, &Style::bordered());
                col = col + 1;
            }
            row = row + 1;
        }

        Ok(())
    }

    fn close(&mut self) -> (r: Result<(), crate::view::Error>)
        ensures
            *final(self) == *old(self),
            r is Ok,
    {
        Ok(())
    }
}

proof fn lemma_unit_weight_offsets(hs: Seq<Layout>, total: int, k: int)
    requires
        0 <= total,
        1 <= hs.len(),
        0 <= k <= hs.len(),
        forall|j: int| 0 <= j < hs.len() ==> hs[j] == Layout::Weighted(1),
    ensures
        offset_at(hs, total, k) == k * weighted_extent(1, total, hs.len() as int),
    decreases k,
{
    let e = weighted_extent(1, total, hs.len() as int);
    assert(forall|j: int| 0 <= j < hs.len() ==> #[trigger] hs[j] is Weighted);
    crate::ui::layout::lemma_all_weighted_fixed_sum_zero(hs, total);
    crate::ui::layout::lemma_equal_weight_sum(hs, 1);
    assert(weight_sum(hs) == hs.len() as int);
    if k == 0 {
        assert(offset_at(hs, total, 0) == 0);
        assert(0 * e == 0) by (nonlinear_arith);
    } else {
        lemma_unit_weight_offsets(hs, total, k - 1);
        assert(offset_at(hs, total, k) == offset_at(hs, total, k - 1) + extent_at(hs, total, k - 1));
        assert(extent_at(hs, total, k - 1) == e);
        assert((k - 1) * e + e == k * e) by (nonlinear_arith);
    }
}

} // verus!
