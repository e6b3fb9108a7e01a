use vstd::prelude::*;

verus! {

use crate::renderer::Area;
use crate::renderer::Renderer;
use crate::renderer::Widget;
use crate::ui::style::Style;

/// A single line of text; the simplest drawable content.
pub struct Label {
    text: String,
}

impl Label {
    pub closed spec fn text(&self) -> Seq<char> {
        self.text@
    }

    pub fn from(text: &str) -> (r: Self)
        ensures
            r.text() == text@,
    {
        Self { text: text.to_string() }
    }

    pub fn get_text(&self) -> (r: &String)
        ensures
            r@ == self.text(),
    {
        &self.text
    }
}

impl Widget for Label {
    open spec fn render_requires(&self, area: Area) -> bool {
        true
    }

    fn render<R: Renderer>(&mut self, renderer: &mut R, area: Area, style: &Style) {
        renderer.draw_text(self.text.as_str(), area, style);
    }
}

} // verus!
