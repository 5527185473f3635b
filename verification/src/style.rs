//! Value types for visual styling.

use vstd::prelude::*;

verus! {

/// A color in RGB form, the single color model the engine carries.
#[derive(Clone, Copy, PartialEq, Eq, Structural, Debug)]
pub struct Color {
    pub red: u8,
    pub green: u8,
    pub blue: u8,
}

impl Color {
    /// White, the customary border color.
    pub fn white() -> (c: Color)
        ensures
            c == (Color { red: 255, green: 255, blue: 255 }),
    {
        Color { red: 255, green: 255, blue: 255 }
    }
}

/// A bundle of optional visual attributes; today a foreground color.
#[derive(Clone, Copy, PartialEq, Eq, Debug)]
pub struct Style {
    pub fg: Option<Color>,
}

impl Default for Style {
    /// The empty style: no attribute set.
    fn default() -> (s: Style)
        ensures
            s.fg is None,
    {
        Style { fg: None }
    }
}

impl Style {
    /// A style drawing in the given foreground color.
    pub fn colored(c: Color) -> (s: Style)
        ensures
            s.fg == Some(c),
    {
        Style { fg: Some(c) }
    }
}

} // verus!
