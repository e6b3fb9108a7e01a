use vstd::prelude::*;

verus! {

/// A bundle of border flags and two colors, attached to a widget at the
/// call site of each render.
pub struct Style {
    pub borders: Borders,
    pub background: RGBA,
    pub foreground: RGBA,
}

impl Style {
    /// A style with no borders and both colors transparent.
    pub fn new() -> (r: Self)
        ensures
            r.borders == (Borders { top: false, bottom: false, left: false, right: false }),
            r.background == (RGBA { red: 0, green: 0, blue: 0, alpha: true }),
            r.foreground == (RGBA { red: 0, green: 0, blue: 0, alpha: true }),
    {
        Self::from(Borders::none(), RGBA::transparent(), RGBA::transparent())
    }

    pub fn from(borders: Borders, background: RGBA, foreground: RGBA) -> (r: Self)
        ensures
            r == (Style { borders: borders, background: background, foreground: foreground }),
    {
        Self {
            borders,
            background,
            foreground,
        }
    }

    /// A style with all four borders, a transparent background and a white
    /// foreground.
    pub fn bordered() -> (r: Self)
        ensures
            r.borders == (Borders { top: true, bottom: true, left: true, right: true }),
            r.background == (RGBA { red: 0, green: 0, blue: 0, alpha: true }),
            r.foreground == (RGBA { red: 255, green: 255, blue: 255, alpha: false }),
    {
        Self::from(Borders::all(), RGBA::new(), RGBA::white())
    }
}

/// Which of the four edges of a panel are drawn.
#[derive(Copy, Clone, PartialEq, Eq, Structural, Debug)]
pub struct Borders {
    pub top: bool,
    pub bottom: bool,
    pub left: bool,
    pub right: bool,
}

impl Borders {
    pub fn from(top: bool, bottom: bool, left: bool, right: bool) -> (r: Self)
        ensures
            r == (Borders { top: top, bottom: bottom, left: left, right: right }),
    {
        Self {
            top,
            bottom,
            left,
            right,
        }
    }

    pub fn all() -> (r: Self)
        ensures
            r == (Borders { top: true, bottom: true, left: true, right: true }),
    {
        Self::from(true, true, true, true)
    }

    pub fn none() -> (r: Self)
        ensures
            r == (Borders { top: false, bottom: false, left: false, right: false }),
    {
        Self::from(false, false, false, false)
    }
}

/// A color in red, green and blue bytes. A set `alpha` flag means the color
/// is transparent: the backend default shows through, nothing is blended.
#[derive(Copy, Clone, PartialEq, Eq, Structural, Debug)]
pub struct RGBA {
    pub red: u8,
    pub green: u8,
    pub blue: u8,
    pub alpha: bool,
}

impl RGBA {
    pub fn new() -> (r: Self)
        ensures
            r == (RGBA { red: 0, green: 0, blue: 0, alpha: true }),
    {
        Self::transparent()
    }

    pub fn from(red: u8, green: u8, blue: u8, alpha: bool) -> (r: Self)
        ensures
            r == (RGBA { red: red, green: green, blue: blue, alpha: alpha }),
    {
        Self {
            red,
            green,
            blue,
            alpha,
        }
    }

    pub fn black() -> (r: Self)
        ensures
            r == (RGBA { red: 0, green: 0, blue: 0, alpha: false }),
    {
        Self::from(0, 0, 0, false)
    }

    pub fn white() -> (r: Self)
        ensures
            r == (RGBA { red: 255, green: 255, blue: 255, alpha: false }),
    {
        Self::from(255, 255, 255, false)
    }

    pub fn red() -> (r: Self)
        ensures
            r == (RGBA { red: 255, green: 0, blue: 0, alpha: false }),
    {
        Self::from(255, 0, 0, false)
    }

    pub fn green() -> (r: Self)
        ensures
            r == (RGBA { red: 0, green: 255, blue: 0, alpha: false }),
    {
        Self::from(0, 255, 0, false)
    }

    pub fn blue() -> (r: Self)
        ensures
            r == (RGBA { red: 0, green: 0, blue: 255, alpha: false }),
    {
        Self::from(0, 0, 255, false)
    }

    pub fn transparent() -> (r: Self)
        ensures
            r == (RGBA { red: 0, green: 0, blue: 0, alpha: true }),
    {
        Self::from(0, 0, 0, true)
    }

    /// Pack the color into one `u32`, high byte first: an opacity byte
    /// (255 when opaque, 0 when transparent), then red, green and blue.
    pub fn as_u32(&self) -> (r: u32)
        ensures
            r == (if self.alpha { 0int } else { 0xff00_0000int }) + self.red * 0x1_0000
                + self.green * 0x100 + self.blue,
    {
        let alpha_numeric_value: u32 = if self.alpha {
            0
        } else {
            255
        };
        let red: u32 = self.red as u32;
        let green: u32 = self.green as u32;
        let blue: u32 = self.blue as u32;
        let packed: u32 = alpha_numeric_value << 24 | red << 16 | green << 8 | blue;
        proof {
            assert(packed == alpha_numeric_value * 0x100_0000 + red * 0x1_0000 + green * 0x100
                + blue) by (bit_vector)
                requires
                    alpha_numeric_value == 0 || alpha_numeric_value == 255,
                    red < 256,
                    green < 256,
                    blue < 256,
                    packed == (alpha_numeric_value << 24 | red << 16 | green << 8 | blue),
            ;
        }
        packed
    }
}

/// How many cells to subtract from each edge of an area when a `Surface`
/// computes the content area it delegates to its callback.
pub struct Padding {
    pub top: u16,
    pub bottom: u16,
    pub left: u16,
    pub right: u16,
}

impl Padding {
    pub fn from(top: u16, bottom: u16, left: u16, right: u16) -> (r: Self)
        ensures
            r == (Padding { top: top, bottom: bottom, left: left, right: right }),
    {
        Self {
            top,
            bottom,
            left,
            right,
        }
    }

    pub fn none() -> (r: Self)
        ensures
            r == (Padding { top: 0u16, bottom: 0u16, left: 0u16, right: 0u16 }),
    {
        Self::from(0, 0, 0, 0)
    }

    pub fn around(value: u16) -> (r: Self)
        ensures
            r == (Padding { top: value, bottom: value, left: value, right: value }),
    {
        Self::from(value, value, value, value)
    }

    pub fn high_and_wide(high: u16, wide: u16) -> (r: Self)
        ensures
            r == (Padding { top: high, bottom: high, left: wide, right: wide }),
    {
        Self::from(high, high, wide, wide)
    }
}

} // verus!
