use vstd::prelude::*;

verus! {

/// Modifier of [super::character::Character]: foreground and background colors and a text
/// style.
#[derive(Eq, PartialEq, Structural, Debug, Copy, Clone)]
pub struct Modifier {
    pub color: Option<Color>,
    pub background: Option<Color>,
    pub style: Style,
}

/// A terminal color.
#[derive(Debug, Copy, Clone, Eq, PartialEq, Structural)]
#[non_exhaustive]
pub enum Color {
    Black,
    White,
    Blue,
    Cyan,
    Green,
    Magenta,
    Red,
    Yellow,
    Rgb(u8, u8, u8),
}

/// A set of text attributes as flag bits: bold (1), italic (2) and underline (4).
#[derive(Debug, Copy, Clone, Eq, PartialEq, Structural)]
pub struct Style {
    pub bits: u16,
}

impl Default for Style {
    fn default() -> (r: Self)
        ensures
            r.bits == 0,
    {
        Style { bits: 0 }
    }
}

impl Default for Modifier {
    fn default() -> (r: Self)
        ensures
            r.color is None,
            r.background is None,
            r.style.bits == 0,
    {
        Modifier { color: None, background: None, style: Style::default() }
    }
}

} // verus!
