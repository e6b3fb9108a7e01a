use tui_compose::ui::{Borders, Padding, Style, RGBA};

#[test]
fn color_presets() {
    let black = RGBA::black();
    assert_eq!(
        (black.red, black.green, black.blue, black.alpha),
        (0, 0, 0, false)
    );
    let white = RGBA::white();
    assert_eq!(
        (white.red, white.green, white.blue, white.alpha),
        (255, 255, 255, false)
    );
    let red = RGBA::red();
    assert_eq!((red.red, red.green, red.blue, red.alpha), (255, 0, 0, false));
    let green = RGBA::green();
    assert_eq!(
        (green.red, green.green, green.blue, green.alpha),
        (0, 255, 0, false)
    );
    let blue = RGBA::blue();
    assert_eq!(
        (blue.red, blue.green, blue.blue, blue.alpha),
        (0, 0, 255, false)
    );
    let transparent = RGBA::transparent();
    assert!(transparent.alpha);
    assert_eq!(RGBA::new(), transparent);
}

#[test]
fn color_packing() {
    assert_eq!(RGBA::black().as_u32(), 0xff00_0000);
    assert_eq!(RGBA::white().as_u32(), 0xffff_ffff);
    assert_eq!(RGBA::red().as_u32(), 0xffff_0000);
    assert_eq!(RGBA::green().as_u32(), 0xff00_ff00);
    assert_eq!(RGBA::blue().as_u32(), 0xff00_00ff);
    assert_eq!(RGBA::transparent().as_u32(), 0);
    assert_eq!(RGBA::from(0x12, 0x34, 0x56, false).as_u32(), 0xff12_3456);
}

#[test]
fn border_presets() {
    let all = Borders::all();
    assert!(all.top && all.bottom && all.left && all.right);
    let none = Borders::none();
    assert!(!none.top && !none.bottom && !none.left && !none.right);
    let mixed = Borders::from(true, false, true, false);
    assert!(mixed.top && !mixed.bottom && mixed.left && !mixed.right);
}

#[test]
fn style_presets() {
    let plain = Style::new();
    assert_eq!(plain.borders, Borders::none());
    assert!(plain.background.alpha);
    assert!(plain.foreground.alpha);

    let bordered = Style::bordered();
    assert_eq!(bordered.borders, Borders::all());
    assert!(bordered.background.alpha);
    assert_eq!(bordered.foreground, RGBA::white());

    let custom = Style::from(Borders::all(), RGBA::red(), RGBA::blue());
    assert_eq!(custom.background, RGBA::red());
    assert_eq!(custom.foreground, RGBA::blue());
}

#[test]
fn padding_presets() {
    let none = Padding::none();
    assert_eq!((none.top, none.bottom, none.left, none.right), (0, 0, 0, 0));
    let around = Padding::around(3);
    assert_eq!(
        (around.top, around.bottom, around.left, around.right),
        (3, 3, 3, 3)
    );
    let hw = Padding::high_and_wide(1, 2);
    assert_eq!((hw.top, hw.bottom, hw.left, hw.right), (1, 1, 2, 2));
    let explicit = Padding::from(1, 2, 3, 4);
    assert_eq!(
        (explicit.top, explicit.bottom, explicit.left, explicit.right),
        (1, 2, 3, 4)
    );
}
