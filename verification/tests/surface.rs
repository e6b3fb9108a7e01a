use tui_compose::renderer::{render_widget, Area, Renderer, Widget};
use tui_compose::ui::{Label, Padding, Style, Surface, SurfaceOnRender};

struct RecordingRenderer {
    frame: Area,
    panels: Vec<Area>,
    texts: Vec<(String, Area)>,
}

impl RecordingRenderer {
    fn new(frame: Area) -> Self {
        Self {
            frame,
            panels: Vec::new(),
            texts: Vec::new(),
        }
    }
}

impl Renderer for RecordingRenderer {
    fn frame_size(&self) -> Area {
        self.frame
    }

    fn draw_panel(&mut self, area: Area, _style: &Style) {
        self.panels.push(area);
    }

    fn draw_text(&mut self, text: &str, area: Area, _style: &Style) {
        self.texts.push((text.to_string(), area));
    }
}

struct TextContent {
    text: String,
}

impl SurfaceOnRender for TextContent {
    fn on_render<R: Renderer>(&self, renderer: &mut R, content_area: &Area) {
        renderer.draw_text(&self.text, *content_area, &Style::new());
    }
}

#[test]
fn content_area_shrinks_each_edge_once() {
    let surface = Surface::from(
        Padding::from(1, 2, 3, 4),
        TextContent {
            text: "inner".to_string(),
        },
    );
    let outer = Area {
        x: 10,
        y: 20,
        cols: 30,
        rows: 40,
    };
    let inner = surface.content_area(outer);
    assert_eq!(
        inner,
        Area {
            x: 13,
            y: 21,
            cols: 23,
            rows: 37
        }
    );
}

#[test]
fn surface_draws_panel_on_outer_area_and_delegates_inset() {
    let outer = Area {
        x: 5,
        y: 5,
        cols: 20,
        rows: 10,
    };
    let mut renderer = RecordingRenderer::new(Area {
        x: 0,
        y: 0,
        cols: 80,
        rows: 24,
    });
    let mut surface = Surface::from(
        Padding::around(2),
        TextContent {
            text: "content".to_string(),
        },
    );
    render_widget(&mut renderer, &mut surface, outer, &Style::bordered());

    // The panel spans the full outer area, unshrunk.
    assert_eq!(renderer.panels, vec![outer]);
    // The callback received the area shrunk by the padding exactly once.
    assert_eq!(renderer.texts.len(), 1);
    assert_eq!(renderer.texts[0].0, "content");
    assert_eq!(
        renderer.texts[0].1,
        Area {
            x: 7,
            y: 7,
            cols: 16,
            rows: 6
        }
    );
}

#[test]
fn zero_padding_delegates_outer_area() {
    let outer = Area {
        x: 1,
        y: 2,
        cols: 3,
        rows: 4,
    };
    let mut renderer = RecordingRenderer::new(outer);
    let mut surface = Surface::from(
        Padding::none(),
        TextContent {
            text: "flush".to_string(),
        },
    );
    render_widget(&mut renderer, &mut surface, outer, &Style::new());
    assert_eq!(renderer.texts[0].1, outer);
}

#[test]
fn label_renders_its_text() {
    let mut renderer = RecordingRenderer::new(Area {
        x: 0,
        y: 0,
        cols: 80,
        rows: 24,
    });
    let mut label = Label::from("hello there");
    assert_eq!(label.get_text(), "hello there");
    let at = Area {
        x: 3,
        y: 4,
        cols: 12,
        rows: 1,
    };
    render_widget(&mut renderer, &mut label, at, &Style::new());
    assert_eq!(renderer.texts, vec![("hello there".to_string(), at)]);
    assert!(renderer.panels.is_empty());
}
