use vstd::prelude::*;

verus! {

use crate::renderer::Area;
use vstd::arithmetic::div_mod::lemma_div_is_ordered;
use vstd::arithmetic::div_mod::lemma_div_multiples_vanish;
use vstd::arithmetic::div_mod::lemma_div_multiples_vanish_fancy;
use vstd::arithmetic::div_mod::lemma_div_pos_is_pos;
use vstd::arithmetic::mul::lemma_mul_inequality;
use vstd::arithmetic::mul::lemma_mul_nonnegative;

/// The axis along which a `LayoutBuffer` partitions its total extent; the
/// other axis is the cross axis and passes through unchanged.
#[derive(Copy, Clone, PartialEq, Eq, Structural, Debug)]
pub enum Direction {
    Vertical,
    Horizontal,
}

/// One sizing rule for one segment along an axis.
///
/// `Static` takes a fixed number of cells. `Weighted` takes a share of the
/// extent left over once every fixed rule is paid, in proportion to its
/// weight. `Percentage` carries its fraction of the total extent in
/// thousandths (250 is one quarter); values above 1000 count as 1000.
#[derive(Copy, Clone, PartialEq, Eq, Structural, Debug)]
pub enum Layout {
    Static(u16),
    Weighted(u16),
    Percentage(u16),
}

/// The fraction of a `Percentage` rule, clamped to the unit interval.
pub open spec fn clamped_thousandths(fraction: u16) -> int {
    if fraction > 1000 {
        1000
    } else {
        fraction as int
    }
}

/// Cells a `Percentage` rule takes: the clamped fraction of the total
/// extent, rounded down. It is resolved against the axis total, never
/// against the remainder.
pub open spec fn percentage_extent(fraction: u16, total: int) -> int {
    total * clamped_thousandths(fraction) / 1000
}

/// Cells one rule takes up front, before any weight is considered:
/// its size for `Static`, its share of the total for `Percentage`,
/// nothing for `Weighted`.
pub open spec fn fixed_extent(layout: Layout, total: int) -> int {
    match layout {
        Layout::Static(size) => size as int,
        Layout::Weighted(_) => 0,
        Layout::Percentage(fraction) => percentage_extent(fraction, total),
    }
}

/// Cells taken up front by all `Static` and `Percentage` rules together.
pub open spec fn fixed_extent_sum(layouts: Seq<Layout>, total: int) -> int
    decreases layouts.len(),
{
    if layouts.len() == 0 {
        0
    } else {
        fixed_extent_sum(layouts.drop_last(), total) + fixed_extent(layouts.last(), total)
    }
}

pub open spec fn weight_of(layout: Layout) -> int {
    match layout {
        Layout::Weighted(weight) => weight as int,
        _ => 0,
    }
}

/// The sum of all weights in the rule list.
pub open spec fn weight_sum(layouts: Seq<Layout>) -> int
    decreases layouts.len(),
{
    if layouts.len() == 0 {
        0
    } else {
        weight_sum(layouts.drop_last()) + weight_of(layouts.last())
    }
}

/// The extent left for the weighted rules once every fixed rule is paid.
/// An over-subscribed fixed total leaves nothing, not a negative amount.
pub open spec fn remaining_extent(layouts: Seq<Layout>, total: int) -> int {
    if fixed_extent_sum(layouts, total) <= total {
        total - fixed_extent_sum(layouts, total)
    } else {
        0
    }
}

/// Cells a `Weighted` rule takes: its weight's share of the remaining
/// extent, rounded to the nearest cell (half rounds up), independently of
/// the other weighted rules. With no weight anywhere, nothing.
pub open spec fn weighted_extent(weight: int, remaining: int, wsum: int) -> int {
    if wsum == 0 {
        0
    } else {
        (2 * weight * remaining + wsum) / (2 * wsum)
    }
}

/// Cells one rule takes, given the axis total, the remaining extent and
/// the weight sum of its rule list.
pub open spec fn layout_extent(layout: Layout, total: int, remaining: int, wsum: int) -> int {
    match layout {
        Layout::Static(size) => size as int,
        Layout::Weighted(weight) => weighted_extent(weight as int, remaining, wsum),
        Layout::Percentage(fraction) => percentage_extent(fraction, total),
    }
}

/// Cells the `i`-th rule of the list takes along the axis.
pub open spec fn extent_at(layouts: Seq<Layout>, total: int, i: int) -> int {
    layout_extent(layouts[i], total, remaining_extent(layouts, total), weight_sum(layouts))
}

/// Where the `i`-th segment starts, relative to the axis origin: the sum
/// of every earlier segment's extent. Segments are contiguous and keep
/// declaration order by construction.
pub open spec fn offset_at(layouts: Seq<Layout>, total: int, i: int) -> int
    decreases i,
{
    if i <= 0 {
        0
    } else {
        offset_at(layouts, total, i - 1) + extent_at(layouts, total, i - 1)
    }
}

/// The parent extent along the chosen axis.
pub open spec fn axis_total(direction: Direction, frame: Area) -> int {
    match direction {
        Direction::Vertical => frame.rows as int,
        Direction::Horizontal => frame.cols as int,
    }
}

/// The parent origin along the chosen axis.
pub open spec fn axis_origin(direction: Direction, frame: Area) -> int {
    match direction {
        Direction::Vertical => frame.y as int,
        Direction::Horizontal => frame.x as int,
    }
}

/// The sub-area a segment at `offset` with extent `extent` occupies: it
/// advances along the chosen axis and inherits the parent's origin and
/// extent on the cross axis unchanged.
pub open spec fn slice_area(direction: Direction, frame: Area, offset: int, extent: int) -> Area {
    match direction {
        Direction::Vertical => Area {
            x: frame.x,
            y: (frame.y + offset) as u16,
            cols: frame.cols,
            rows: extent as u16,
        },
        Direction::Horizontal => Area {
            x: (frame.x + offset) as u16,
            y: frame.y,
            cols: extent as u16,
            rows: frame.rows,
        },
    }
}

pub proof fn lemma_percentage_extent_bounds(fraction: u16, total: int)
    requires
        0 <= total,
    ensures
        0 <= percentage_extent(fraction, total) <= total,
{
    let c = clamped_thousandths(fraction);
    lemma_mul_nonnegative(total, c);
    lemma_div_pos_is_pos(total * c, 1000);
    lemma_mul_inequality(c, 1000, total);
    assert(total * c == c * total) by (nonlinear_arith);
    assert(total * 1000 == 1000 * total) by (nonlinear_arith);
    lemma_div_is_ordered(total * c, total * 1000, 1000);
    lemma_div_multiples_vanish(total, 1000);
}

pub proof fn lemma_fixed_extent_bounds(layout: Layout, total: int)
    requires
        0 <= total <= u16::MAX,
    ensures
        0 <= fixed_extent(layout, total) <= u16::MAX,
{
    match layout {
        Layout::Percentage(fraction) => lemma_percentage_extent_bounds(fraction, total),
        _ => (),
    }
}

pub proof fn lemma_weight_sum_bounds(layouts: Seq<Layout>)
    ensures
        0 <= weight_sum(layouts) <= u16::MAX * layouts.len(),
    decreases layouts.len(),
{
    if layouts.len() > 0 {
        lemma_weight_sum_bounds(layouts.drop_last());
    }
}

pub proof fn lemma_fixed_extent_sum_push(layouts: Seq<Layout>, layout: Layout, total: int)
    ensures
        fixed_extent_sum(layouts.push(layout), total) == fixed_extent_sum(layouts, total)
            + fixed_extent(layout, total),
{
    assert(layouts.push(layout).drop_last() =~= layouts);
}

pub proof fn lemma_weight_sum_push(layouts: Seq<Layout>, layout: Layout)
    ensures
        weight_sum(layouts.push(layout)) == weight_sum(layouts) + weight_of(layout),
{
    assert(layouts.push(layout).drop_last() =~= layouts);
}

/// A weighted share is never negative, and a weight no larger than the
/// weight sum never takes more than the whole remaining extent.
pub proof fn lemma_weighted_extent_bounds(weight: int, remaining: int, wsum: int)
    requires
        0 <= weight,
        0 <= remaining,
        0 <= wsum,
    ensures
        0 <= weighted_extent(weight, remaining, wsum),
        weight <= wsum && 0 < wsum ==> weighted_extent(weight, remaining, wsum) <= remaining,
{
    if wsum > 0 {
        lemma_mul_nonnegative(2 * weight, remaining);
        lemma_div_pos_is_pos(2 * weight * remaining + wsum, 2 * wsum);
        if weight <= wsum {
            lemma_mul_inequality(2 * weight, 2 * wsum, remaining);
            lemma_div_is_ordered(
                2 * weight * remaining + wsum,
                2 * wsum * remaining + wsum,
                2 * wsum,
            );
            lemma_div_multiples_vanish_fancy(remaining, wsum, 2 * wsum);
            assert(2 * wsum * remaining == (2 * wsum) * remaining) by (nonlinear_arith);
        }
    }
}

pub proof fn lemma_extent_at_nonneg(layouts: Seq<Layout>, total: int, i: int)
    requires
        0 <= total,
        0 <= i < layouts.len(),
    ensures
        0 <= extent_at(layouts, total, i),
{
    lemma_weight_sum_bounds(layouts);
    match layouts[i] {
        Layout::Static(_) => (),
        Layout::Weighted(weight) => {
            lemma_weighted_extent_bounds(
                weight as int,
                remaining_extent(layouts, total),
                weight_sum(layouts),
            );
        },
        Layout::Percentage(fraction) => lemma_percentage_extent_bounds(fraction, total),
    }
}

/// Offsets never run backwards: the prefix sums of nonnegative extents
/// grow with the index.
pub proof fn lemma_offset_at_monotone(layouts: Seq<Layout>, total: int, i: int, j: int)
    requires
        0 <= total,
        0 <= i <= j <= layouts.len(),
    ensures
        offset_at(layouts, total, i) <= offset_at(layouts, total, j),
    decreases j - i,
{
    if i < j {
        lemma_offset_at_monotone(layouts, total, i, j - 1);
        lemma_extent_at_nonneg(layouts, total, j - 1);
    }
}

/// Every produced slice keeps the parent's origin and extent on the cross
/// axis unchanged; only the primary axis is partitioned.
pub proof fn lemma_slice_cross_axis(direction: Direction, frame: Area, offset: int, extent: int)
    ensures
        direction is Vertical ==> slice_area(direction, frame, offset, extent).x == frame.x
            && slice_area(direction, frame, offset, extent).cols == frame.cols,
        direction is Horizontal ==> slice_area(direction, frame, offset, extent).y == frame.y
            && slice_area(direction, frame, offset, extent).rows == frame.rows,
{
}

proof fn lemma_static_offset_is_prefix_sum(layouts: Seq<Layout>, total: int, k: int)
    requires
        forall|j: int| 0 <= j < layouts.len() ==> #[trigger] layouts[j] is Static,
        0 <= k <= layouts.len(),
    ensures
        offset_at(layouts, total, k) == fixed_extent_sum(layouts.subrange(0, k), total),
    decreases k,
{
    if k > 0 {
        lemma_static_offset_is_prefix_sum(layouts, total, k - 1);
        assert(layouts.subrange(0, k).drop_last() =~= layouts.subrange(0, k - 1));
        assert(layouts.subrange(0, k).last() == layouts[k - 1]);
    }
}

/// With only `Static` rules, every segment keeps exactly its declared
/// size, consecutive segments are contiguous (each offset is the previous
/// offset plus the previous size, so they neither overlap nor leave gaps
/// and keep declaration order), and together they cover exactly the
/// summed extent. The cross axis passes through unchanged for every
/// entry; see `lemma_slice_cross_axis`.
pub proof fn lemma_static_rules_partition(layouts: Seq<Layout>, total: int)
    requires
        forall|j: int| 0 <= j < layouts.len() ==> #[trigger] layouts[j] is Static,
    ensures
        forall|i: int|
            0 <= i < layouts.len() ==> #[trigger] extent_at(layouts, total, i) == fixed_extent(
                layouts[i],
                total,
            ),
        forall|i: int|
            0 <= i < layouts.len() ==> #[trigger] offset_at(layouts, total, i + 1) == offset_at(
                layouts,
                total,
                i,
            ) + fixed_extent(layouts[i], total),
        offset_at(layouts, total, layouts.len() as int) == fixed_extent_sum(layouts, total),
{
    lemma_static_offset_is_prefix_sum(layouts, total, layouts.len() as int);
    assert(layouts.subrange(0, layouts.len() as int) =~= layouts);
}

/// A `Percentage` rule's extent depends only on its own fraction and the
/// axis total, never on the other rules of the list: reordering the list
/// changes only its offset, not its extent.
pub proof fn lemma_percentage_rule_extent(layouts: Seq<Layout>, total: int, i: int, fraction: u16)
    requires
        0 <= i < layouts.len(),
        layouts[i] == Layout::Percentage(fraction),
    ensures
        extent_at(layouts, total, i) == total * clamped_thousandths(fraction) / 1000,
{
}

pub proof fn lemma_all_weighted_fixed_sum_zero(layouts: Seq<Layout>, total: int)
    requires
        forall|j: int| 0 <= j < layouts.len() ==> #[trigger] layouts[j] is Weighted,
    ensures
        fixed_extent_sum(layouts, total) == 0,
    decreases layouts.len(),
{
    if layouts.len() > 0 {
        lemma_all_weighted_fixed_sum_zero(layouts.drop_last(), total);
    }
}

pub proof fn lemma_equal_weight_sum(layouts: Seq<Layout>, weight: u16)
    requires
        forall|j: int| 0 <= j < layouts.len() ==> layouts[j] == Layout::Weighted(weight),
    ensures
        weight_sum(layouts) == layouts.len() * weight,
    decreases layouts.len(),
{
    if layouts.len() > 0 {
        lemma_equal_weight_sum(layouts.drop_last(), weight);
        assert((layouts.len() - 1) * weight + weight == layouts.len() * weight) by (nonlinear_arith);
    }
}

/// With nothing but equal positive weights, every segment's extent is the
/// equal share `total / count` to within half a cell either way (stated
/// without fractions: `count` times the extent is `total` to within half
/// of `count`), and as soon as each share is at least one cell the
/// offsets strictly increase. With `2 * total < count` the shares round
/// to nothing and offsets stall, so that case is left out.
pub proof fn lemma_equal_weights_even_split(layouts: Seq<Layout>, total: int, weight: u16, i: int)
    requires
        0 <= total,
        0 < weight,
        forall|j: int| 0 <= j < layouts.len() ==> layouts[j] == Layout::Weighted(weight),
        0 <= i < layouts.len(),
    ensures
        2 * layouts.len() * extent_at(layouts, total, i) <= 2 * total + layouts.len(),
        2 * total <= 2 * layouts.len() * extent_at(layouts, total, i) + layouts.len(),
        2 * total >= layouts.len() ==> offset_at(layouts, total, i) < offset_at(
            layouts,
            total,
            i + 1,
        ),
{
    let len = layouts.len() as int;
    let w = weight as int;
    assert(forall|j: int| 0 <= j < layouts.len() ==> #[trigger] layouts[j] is Weighted);
    lemma_all_weighted_fixed_sum_zero(layouts, total);
    lemma_equal_weight_sum(layouts, weight);
    assert(remaining_extent(layouts, total) == total);
    assert(weight_sum(layouts) == len * w);
    let a = 2 * total + len;
    let d = 2 * len;
    let e = extent_at(layouts, total, i);
    assert(0 < len * w) by (nonlinear_arith)
        requires
            0 < len,
            0 < w,
    ;
    assert(e == (2 * w * total + len * w) / (2 * (len * w)));
    assert(2 * w * total + len * w == w * a) by (nonlinear_arith)
        requires
            a == 2 * total + len,
    ;
    assert(2 * (len * w) == w * d) by (nonlinear_arith)
        requires
            d == 2 * len,
    ;
    vstd::arithmetic::div_mod::lemma_div_multiples_vanish_quotient(w, a, d);
    assert(e == a / d);
    vstd::arithmetic::div_mod::lemma_fundamental_div_mod(a, d);
    vstd::arithmetic::div_mod::lemma_mod_bound(a, d);
    assert(d * e <= a < d * e + d) by (nonlinear_arith)
        requires
            a == d * (a / d) + a % d,
            0 <= a % d < d,
            e == a / d,
    ;
    assert(2 * len * e <= 2 * total + len) by (nonlinear_arith)
        requires
            d * e <= a,
            d == 2 * len,
            a == 2 * total + len,
    ;
    assert(2 * total <= 2 * len * e + len) by (nonlinear_arith)
        requires
            a < d * e + d,
            d == 2 * len,
            a == 2 * total + len,
    ;
    if 2 * total >= len {
        assert(a >= d);
        lemma_div_is_ordered(d, a, d);
        vstd::arithmetic::div_mod::lemma_div_by_self(d);
        assert(e >= 1);
    }
}

/// Mixed rule lists resolve in two stages: every `Static` and
/// `Percentage` rule is paid out of the axis total first, and only the
/// extent left after that stage is divided among the `Weighted` rules.
pub proof fn lemma_mixed_two_stage(layouts: Seq<Layout>, total: int, i: int)
    requires
        0 <= i < layouts.len(),
    ensures
        fixed_extent_sum(layouts, total) <= total ==> remaining_extent(layouts, total) == total
            - fixed_extent_sum(layouts, total),
        !(layouts[i] is Weighted) ==> extent_at(layouts, total, i) == fixed_extent(
            layouts[i],
            total,
        ),
        layouts[i] is Weighted ==> extent_at(layouts, total, i) == weighted_extent(
            weight_of(layouts[i]),
            remaining_extent(layouts, total),
            weight_sum(layouts),
        ),
{
}

/// The proportional layout allocator: an ordered list of sizing rules and
/// the parallel list of sub-areas the last calculation produced.
pub struct LayoutBuffer {
    layouts: Vec<Layout>,
    areas: Vec<Area>,
}

impl LayoutBuffer {
    /// The ordered rule list.
    pub closed spec fn layout_seq(&self) -> Seq<Layout> {
        self.layouts@
    }

    /// The computed sub-areas, index-aligned with the rule list after a
    /// calculation.
    pub closed spec fn area_seq(&self) -> Seq<Area> {
        self.areas@
    }

    pub fn with_capacity(initial_capacity: usize) -> (r: Self)
        ensures
            r.layout_seq().len() == 0,
            r.area_seq().len() == 0,
    {
        Self {
            layouts: Vec::with_capacity(initial_capacity),
            areas: Vec::with_capacity(initial_capacity),
        }
    }

    /// Empty both the rule list and the computed areas, keeping capacity,
    /// so the buffer can be refilled every frame without reallocating.
    pub fn clear(&mut self)
        ensures
            final(self).layout_seq().len() == 0,
            final(self).area_seq().len() == 0,
    {
        self.layouts.clear();
        self.areas.clear();
    }

    /// Append one rule; fluent, so rules chain in declaration order.
    pub fn add_layout(&mut self, layout: Layout) -> (r: &mut Self)
        ensures
            r.layout_seq() == old(self).layout_seq().push(layout),
            r.area_seq() == old(self).area_seq(),
            *final(self) == *final(r),
    {
        self.layouts.push(layout);
        self
    }

    /// Partition the parent area along `direction`, one sub-area per rule,
    /// in declaration order.
    ///
    /// The single precondition is a machine limit: the segments, laid end
    /// to end from the parent origin, must stay within coordinate range.
    /// An over-subscribed rule list as such is not rejected; the weighted
    /// rules then share nothing.
    pub fn calculate_areas(&mut self, direction: Direction, frame_area: &Area)
        requires
            axis_origin(direction, *frame_area) + offset_at(
                old(self).layout_seq(),
                axis_total(direction, *frame_area),
                old(self).layout_seq().len() as int,
            ) <= u16::MAX,
        ensures
            final(self).layout_seq() == old(self).layout_seq(),
            final(self).area_seq().len() == old(self).layout_seq().len(),
            forall|i: int|
                0 <= i < old(self).layout_seq().len() ==> final(self).area_seq()[i] == slice_area(
                    direction,
                    *frame_area,
                    offset_at(
                        old(self).layout_seq(),
                        axis_total(direction, *frame_area),
                        i,
                    ),
                    extent_at(
                        old(self).layout_seq(),
                        axis_total(direction, *frame_area),
                        i,
                    ),
                ),
    {
        self.areas.clear();

        let total: u16 = match direction {
            Direction::Vertical => frame_area.rows,
            Direction::Horizontal => frame_area.cols,
        };
        let ghost t: int = total as int;
        let ghost ls: Seq<Layout> = self.layouts@;
        proof {
            assert(t == axis_total(direction, *frame_area));
        }

        let n: usize = self.layouts.len();
        let mut fixed_acc: u128 = 0;
        let mut weight_acc: u128 = 0;
        let mut i: usize = 0;
        while i < n
            invariant
                self.layouts@ == ls,
                self.areas@.len() == 0,
                n == ls.len(),
                i <= n,
                t == total as int,
                0 <= t <= u16::MAX,
                fixed_acc as int == fixed_extent_sum(ls.subrange(0, i as int), t),
                weight_acc as int == weight_sum(ls.subrange(0, i as int)),
                fixed_acc as int <= u16::MAX * (i as int),
                weight_acc as int <= u16::MAX * (i as int),
            decreases n - i,
        {
            let ghost prefix = ls.subrange(0, i as int);
            proof {
                assert(ls.subrange(0, i as int + 1) =~= prefix.push(ls[i as int]));
                lemma_fixed_extent_sum_push(prefix, ls[i as int], t);
                lemma_weight_sum_push(prefix, ls[i as int]);
                lemma_fixed_extent_bounds(ls[i as int], t);
            }
            let item = self.layouts[i];
            match item {
                Layout::Static(size) => {
                    fixed_acc = fixed_acc + size as u128;
                },
                Layout::Weighted(weight) => {
                    weight_acc = weight_acc + weight as u128;
                },
                Layout::Percentage(fraction) => {
                    let clamped: u16 = if fraction > 1000 {
                        1000
                    } else {
                        fraction
                    };
                    proof {
                        assert(clamped as int == clamped_thousandths(fraction));
                        assert(total as int * clamped as int <= 65535000) by (nonlinear_arith)
                            requires
                                0 <= total as int <= 65535,
                                0 <= clamped as int <= 1000,
                        ;
                    }
                    let pct: u64 = total as u64 * clamped as u64 / 1000;
                    proof {
                        assert(pct as int == percentage_extent(fraction, t));
                    }
                    fixed_acc = fixed_acc + pct as u128;
                },
            }
            i = i + 1;
        }
        proof {
            assert(ls.subrange(0, n as int) =~= ls);
        }

        let remaining: u16 = if fixed_acc <= total as u128 {
            total - (fixed_acc as u16)
        } else {
            0
        };
        proof {
            assert(remaining as int == remaining_extent(ls, t));
        }

        let mut offset: u16 = 0;
        let mut i: usize = 0;
        while i < n
            invariant
                self.layouts@ == ls,
                n == ls.len(),
                i <= n,
                t == total as int,
                0 <= t <= u16::MAX,
                t == axis_total(direction, *frame_area),
                axis_origin(direction, *frame_area) + offset_at(ls, t, n as int) <= u16::MAX,
                remaining as int == remaining_extent(ls, t),
                weight_acc as int == weight_sum(ls),
                weight_acc as int <= u16::MAX * (n as int),
                offset as int == offset_at(ls, t, i as int),
                self.areas@.len() == i,
                forall|j: int|
                    0 <= j < i ==> self.areas@[j] == slice_area(
                        direction,
                        *frame_area,
                        offset_at(ls, t, j),
                        extent_at(ls, t, j),
                    ),
            decreases n - i,
        {
            let item = self.layouts[i];
            let ext: u16 = match item {
                Layout::Static(size) => size,
                Layout::Weighted(weight) => {
                    if weight_acc == 0 {
                        0
                    } else {
                        proof {
                            assert((2 * (weight as int)) * (remaining as int) <= 2 * 65535
                                * 65535) by (nonlinear_arith)
                                requires
                                    0 <= weight as int <= 65535,
                                    0 <= remaining as int <= 65535,
                            ;
                        }
                        let num: u128 = 2 * (weight as u128) * (remaining as u128) + weight_acc;
                        let den: u128 = 2 * weight_acc;
                        let w_ext: u128 = num / den;
                        proof {
                            assert(w_ext as int == weighted_extent(
                                weight as int,
                                remaining as int,
                                weight_acc as int,
                            ));
                            assert(extent_at(ls, t, i as int) == w_ext as int);
                            lemma_extent_at_nonneg(ls, t, i as int);
                            lemma_offset_at_monotone(ls, t, i as int + 1, n as int);
                            lemma_offset_at_monotone(ls, t, 0, i as int);
                            assert(offset_at(ls, t, i as int + 1) == offset_at(ls, t, i as int)
                                + extent_at(ls, t, i as int));
                            assert(w_ext as int <= u16::MAX);
                        }
                        w_ext as u16
                    }
                },
                Layout::Percentage(fraction) => {
                    let clamped: u16 = if fraction > 1000 {
                        1000
                    } else {
                        fraction
                    };
                    proof {
                        assert(clamped as int == clamped_thousandths(fraction));
                        assert(total as int * clamped as int <= 65535000) by (nonlinear_arith)
                            requires
                                0 <= total as int <= 65535,
                                0 <= clamped as int <= 1000,
                        ;
                        lemma_percentage_extent_bounds(fraction, t);
                    }
                    let pct: u64 = total as u64 * clamped as u64 / 1000;
                    proof {
                        assert(pct as int == percentage_extent(fraction, t));
                    }
                    pct as u16
                },
            };
            proof {
                assert(ext as int == extent_at(ls, t, i as int));
                lemma_extent_at_nonneg(ls, t, i as int);
                lemma_offset_at_monotone(ls, t, i as int + 1, n as int);
                lemma_offset_at_monotone(ls, t, 0, i as int);
                assert(offset_at(ls, t, i as int + 1) == offset as int + ext as int);
            }
            let area: Area = match direction {
                Direction::Vertical => {
                    let x = frame_area.x;
                    let y = frame_area.y + offset;
                    let cols = frame_area.cols;
                    let rows = ext;
                    Area { x, y, cols, rows }
                },
                Direction::Horizontal => {
                    let x = frame_area.x + offset;
                    let y = frame_area.y;
                    let cols = ext;
                    let rows = frame_area.rows;
                    Area { x, y, cols, rows }
                },
            };
            self.areas.push(area);
            offset = offset + ext;
            i = i + 1;
        }
    }

    /// The `i`-th computed sub-area, or nothing when out of range.
    pub fn area(&self, index: usize) -> (r: Option<&Area>)
        ensures
            match r {
                Some(a) => index < self.area_seq().len() && *a == self.area_seq()[index as int],
                None => index >= self.area_seq().len(),
            },
    {
        self.areas.get(index)
    }

    /// All computed sub-areas, in rule order.
    pub fn areas(&self) -> (r: &Vec<Area>)
        ensures
            r@ == self.area_seq(),
    {
        &self.areas
    }
}

} // verus!
