use vstd::prelude::*;

verus! {

use crate::renderer::Area;
use crate::renderer::Renderer;
use crate::renderer::Widget;
use crate::ui::style::Padding;
use crate::ui::style::Style;

/// A padded, styled container: as a widget it draws a panel over its whole
/// area, then delegates the inset content area to its owned callback. This
/// is the sole composition primitive; arbitrary nesting comes from the
/// callback rendering further widgets against the content area.
pub struct Surface<F: SurfaceOnRender> {
    on_render: F,
    padding: Padding,
}

/// The content callback a `Surface` owns, invoked exactly once per render
/// with the computed content area. It may not retain the renderer beyond
/// the call.
pub trait SurfaceOnRender where Self: Sized {
    fn on_render<R: Renderer>(&self, renderer: &mut R, content_area: &Area);
}

impl<F: SurfaceOnRender> Surface<F> {
    pub closed spec fn padding(&self) -> Padding {
        self.padding
    }

    /// The padding fits inside `area` on both axes, and the inset origin
    /// stays on the grid.
    pub open spec fn padding_fits(&self, area: Area) -> bool {
        &&& self.padding().left + self.padding().right <= area.cols
        &&& self.padding().top + self.padding().bottom <= area.rows
        &&& area.x + self.padding().left <= u16::MAX
        &&& area.y + self.padding().top <= u16::MAX
    }

    pub fn from(padding: Padding, on_render: F) -> (r: Self)
        ensures
            r.padding() == padding,
    {
        Self { on_render, padding }
    }

    /// The outer area shrunk by the padding on each edge exactly once.
    pub fn content_area(&self, area: Area) -> (r: Area)
        requires
            self.padding_fits(area),
        ensures
            r.x == area.x + self.padding().left,
            r.y == area.y + self.padding().top,
            r.cols == area.cols - (self.padding().left + self.padding().right),
            r.rows == area.rows - (self.padding().top + self.padding().bottom),
    {
        Area {
            x: area.x + self.padding.left,
            y: area.y + self.padding.top,
            cols: area.cols - self.padding.left - self.padding.right,
            rows: area.rows - self.padding.top - self.padding.bottom,
        }
    }

    /// Compute the content area and hand it, with the renderer, to the
    /// owned callback.
    pub fn render_content<R: Renderer>(&self, renderer: &mut R, area: Area)
        requires
            self.padding_fits(area),
    {
        let content_area = self.content_area(area);
        self.on_render.on_render(renderer, &content_area);
    }
}

impl<F: SurfaceOnRender> Widget for Surface<F> {
    open spec fn render_requires(&self, area: Area) -> bool {
        self.padding_fits(area)
    }

    fn render<R: Renderer>(&mut self, renderer: &mut R, area: Area, style: &Style) {
        renderer.draw_panel(area, style);
        self.render_content(renderer, area);
    }
}

} // verus!
