use tui_compose::event::{Event, Key};
use tui_compose::renderer::{Area, Renderer};
use tui_compose::ui::Style;
use tui_compose::view::home::HomeView;
use tui_compose::view::View;

struct HomeRecorder {
    frame: Area,
    panels: Vec<Area>,
    texts: Vec<(String, Area)>,
}

impl HomeRecorder {
    fn new(cols: u16, rows: u16) -> Self {
        Self {
            frame: Area {
                x: 0,
                y: 0,
                cols,
                rows,
            },
            panels: Vec::new(),
            texts: Vec::new(),
        }
    }
}

impl Renderer for HomeRecorder {
    fn frame_size(&self) -> Area {
        self.frame
    }

    fn draw_panel(&mut self, area: Area, _style: &Style) {
        self.panels.push(area);
    }

    fn draw_text(&mut self, text: &str, area: Area, _style: &Style) {
        self.texts.push((text.to_string(), area));
    }
}

#[test]
fn home_view_renders_every_widget() {
    let mut view = HomeView::new();
    let mut renderer = HomeRecorder::new(100, 30);
    assert!(view.render(&mut renderer).is_ok());

    // One header label, the far-off label, the table title, and twelve
    // framed cells each carrying a label.
    assert_eq!(renderer.texts.len(), 15);
    assert_eq!(renderer.texts[0].0, "This is some text");
    assert!(renderer
        .texts
        .iter()
        .any(|(text, _)| text == "This should be far off"));
    assert!(renderer
        .texts
        .iter()
        .any(|(text, _)| text == "This is a table title"));
    assert!(renderer
        .texts
        .iter()
        .any(|(text, _)| text == "This is cell 2, 4"));

    // Four colored bands, the far-off frame, the table title frame, and
    // twelve cell frames.
    assert_eq!(renderer.panels.len(), 18);
}

#[test]
fn enter_toggles_the_second_text() {
    let mut view = HomeView::new();
    assert!(view.update(&Event::from(Key::ENTER)).is_ok());

    let mut renderer = HomeRecorder::new(100, 30);
    assert!(view.render(&mut renderer).is_ok());
    assert!(renderer
        .texts
        .iter()
        .any(|(text, _)| text == "This is the second text!"));
    assert_eq!(renderer.texts.len(), 16);

    // A second press toggles it back off.
    assert!(view.update(&Event::from(Key::ENTER)).is_ok());
    let mut renderer_after = HomeRecorder::new(100, 30);
    assert!(view.render(&mut renderer_after).is_ok());
    assert!(!renderer_after
        .texts
        .iter()
        .any(|(text, _)| text == "This is the second text!"));
}

#[test]
fn escape_does_not_toggle_the_second_text() {
    let mut view = HomeView::new();
    assert!(view.update(&Event::from(Key::ESC)).is_ok());

    let mut renderer = HomeRecorder::new(100, 30);
    assert!(view.render(&mut renderer).is_ok());
    assert!(!renderer
        .texts
        .iter()
        .any(|(text, _)| text == "This is the second text!"));
}

#[test]
fn cramped_frame_renders_nothing() {
    let mut view = HomeView::new();
    let mut renderer = HomeRecorder::new(4, 3);
    assert!(view.render(&mut renderer).is_ok());
    assert!(renderer.texts.is_empty());
    assert!(renderer.panels.is_empty());
}

#[test]
fn view_lifecycle_hooks_succeed() {
    let mut view = HomeView::new();
    assert!(view.init().is_ok());
    assert!(view.close().is_ok());
}
