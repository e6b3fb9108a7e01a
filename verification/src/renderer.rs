use vstd::prelude::*;

verus! {

use crate::ui::Style;

/// An axis-aligned rectangle of terminal cells: an origin and an extent,
/// both in integer grid units. A zero extent is valid and renders nothing.
#[derive(Copy, Clone, PartialEq, Eq, Structural, Debug)]
pub struct Area {
    pub x: u16,
    pub y: u16,
    pub cols: u16,
    pub rows: u16,
}

impl Area {
    /// The rectangle lies inside the addressable grid: its far edges stay
    /// within coordinate range.
    pub open spec fn well_placed(self) -> bool {
        self.x + self.cols <= u16::MAX && self.y + self.rows <= u16::MAX
    }
}

/// The backend capability: it knows the drawable extent of the current
/// frame and turns primitive draw requests (a styled panel, a styled line
/// of text) into concrete terminal cells. Widgets never construct backend
/// primitives themselves; they only go through a renderer handed to them.
pub trait Renderer where Self: Sized {
    /// The full drawable extent of the current frame.
    fn frame_size(&self) -> (r: Area)
        ensures
            r.well_placed(),
    ;

    /// Draw a panel covering `area`: the style's background fill and the
    /// border edges it enables.
    fn draw_panel(&mut self, area: Area, style: &Style);

    /// Draw one line of text starting at the origin of `area`, in the
    /// style's foreground color.
    fn draw_text(&mut self, text: &str, area: Area, style: &Style);
}

/// Backend-agnostic drawable content. The style attaches at the call site,
/// not the widget, so one widget can be drawn with different borders and
/// colors in different contexts.
pub trait Widget where Self: Sized {
    /// What the widget demands of a target area before it can draw into it.
    spec fn render_requires(&self, area: Area) -> bool;

    fn render<R: Renderer>(&mut self, renderer: &mut R, area: Area, style: &Style)
        requires
            self.render_requires(area),
    ;
}

/// The double-dispatch seam: the renderer supplies the backend primitives,
/// the widget decides what content they draw. Every widget is rendered
/// through this one call surface.
pub fn render_widget<R: Renderer, W: Widget>(
    renderer: &mut R,
    widget: &mut W,
    area: Area,
    style: &Style,
)
    requires
        widget.render_requires(area),
{
    widget.render(renderer, area, style);
}

} // verus!
