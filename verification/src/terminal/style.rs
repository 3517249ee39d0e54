use vstd::prelude::*;

verus! {

/// Modifier of [super::character::Character]. Allows to change color and style
#[derive(Eq, PartialEq, Structural, Debug, Copy, Clone)]
pub struct Style {
    fg: Option<Color>,
    bg: Option<Color>,
    modifier: Modifier,
}

/// A terminal color.
#[derive(Debug, Copy, Clone, Eq, PartialEq, Structural)]
#[non_exhaustive]
pub enum Color {
    Black,
    White,
    Blue,
    Cyan,
    Green,
    Magenta,
    Red,
    Yellow,
    Rgb(u8, u8, u8),
}

/// A set of text attributes: bold, italic and underline.
#[derive(Debug, Copy, Clone, Eq, PartialEq, Structural)]
pub struct Modifier {
    bits: u16,
}

impl Modifier {
    /// The raw flag bits, as used in contracts.
    pub closed spec fn spec_bits(&self) -> u16 {
        self.bits
    }

    #[verifier::when_used_as_spec(spec_bits)]
    pub fn bits(&self) -> (r: u16)
        ensures
            r == self.spec_bits(),
    {
        self.bits
    }

    /// No attribute at all.
    pub fn empty() -> (r: Modifier)
        ensures
            r.bits() == 0,
    {
        Modifier { bits: 0 }
    }

    /// The bold flag alone.
    pub fn bold() -> (r: Modifier)
        ensures
            r.bits() == 1,
    {
        Modifier { bits: 1 }
    }

    /// The italic flag alone.
    pub fn italic() -> (r: Modifier)
        ensures
            r.bits() == 2,
    {
        Modifier { bits: 2 }
    }

    /// The underline flag alone.
    pub fn underline() -> (r: Modifier)
        ensures
            r.bits() == 4,
    {
        Modifier { bits: 4 }
    }

    /// The flags set in `self` or in `other`.
    pub fn union(self, other: Modifier) -> (r: Modifier)
        ensures
            r.bits() == self.bits() | other.bits(),
    {
        Modifier { bits: self.bits | other.bits }
    }

    /// Whether every flag of `other` is set in `self`.
    pub fn contains(&self, other: Modifier) -> (r: bool)
        ensures
            r == (self.bits() & other.bits() == other.bits()),
    {
        self.bits & other.bits == other.bits
    }
}

impl Default for Modifier {
    fn default() -> (r: Self)
        ensures
            r.bits() == 0,
    {
        Modifier { bits: 0 }
    }
}

impl Style {
    /// Foreground color, as used in contracts.
    pub closed spec fn spec_fg(&self) -> Option<Color> {
        self.fg
    }

    /// Background color, as used in contracts.
    pub closed spec fn spec_bg(&self) -> Option<Color> {
        self.bg
    }

    /// Modifier, as used in contracts.
    pub closed spec fn spec_modifier(&self) -> Modifier {
        self.modifier
    }

    /// No colors and no modifiers.
    pub fn new() -> (r: Self)
        ensures
            r.get_fg() is None,
            r.get_bg() is None,
            r.get_modifier().bits() == 0,
    {
        Style { fg: None, bg: None, modifier: Modifier::empty() }
    }

    /// Sets the foreground color; returns the changed style.
    pub fn fg(&mut self, fg: Color) -> (r: Self)
        ensures
            final(self).get_fg() == Some(fg),
            final(self).get_bg() == old(self).get_bg(),
            final(self).get_modifier() == old(self).get_modifier(),
            r == *final(self),
    {
        self.fg = Some(fg);
        *self
    }

    /// Sets the background color; returns the changed style.
    pub fn bg(&mut self, bg: Color) -> (r: Self)
        ensures
            final(self).get_bg() == Some(bg),
            final(self).get_fg() == old(self).get_fg(),
            final(self).get_modifier() == old(self).get_modifier(),
            r == *final(self),
    {
        self.bg = Some(bg);
        *self
    }

    /// Sets the modifier; returns the changed style.
    pub fn modifier(&mut self, modifier: Modifier) -> (r: Self)
        ensures
            final(self).get_modifier() == modifier,
            final(self).get_fg() == old(self).get_fg(),
            final(self).get_bg() == old(self).get_bg(),
            r == *final(self),
    {
        self.modifier = modifier;
        *self
    }

    /// Clears the foreground color; returns the changed style.
    pub fn clear_fg(&mut self) -> (r: Self)
        ensures
            final(self).get_fg() is None,
            final(self).get_bg() == old(self).get_bg(),
            final(self).get_modifier() == old(self).get_modifier(),
            r == *final(self),
    {
        self.fg = None;
        *self
    }

    /// Clears the background color; returns the changed style.
    pub fn clear_bg(&mut self) -> (r: Self)
        ensures
            final(self).get_bg() is None,
            final(self).get_fg() == old(self).get_fg(),
            final(self).get_modifier() == old(self).get_modifier(),
            r == *final(self),
    {
        self.bg = None;
        *self
    }

    /// Clears the modifier; returns the changed style.
    pub fn clear_modifier(&mut self) -> (r: Self)
        ensures
            final(self).get_modifier().bits() == 0,
            final(self).get_fg() == old(self).get_fg(),
            final(self).get_bg() == old(self).get_bg(),
            r == *final(self),
    {
        self.modifier = Modifier::empty();
        *self
    }

    #[verifier::when_used_as_spec(spec_fg)]
    pub fn get_fg(&self) -> (r: Option<Color>)
        ensures
            r == self.spec_fg(),
    {
        self.fg
    }

    #[verifier::when_used_as_spec(spec_bg)]
    pub fn get_bg(&self) -> (r: Option<Color>)
        ensures
            r == self.spec_bg(),
    {
        self.bg
    }

    #[verifier::when_used_as_spec(spec_modifier)]
    pub fn get_modifier(&self) -> (r: Modifier)
        ensures
            r == self.spec_modifier(),
    {
        self.modifier
    }
}

impl Default for Style {
    fn default() -> (r: Self)
        ensures
            r.get_fg() is None,
            r.get_bg() is None,
            r.get_modifier().bits() == 0,
    {
        Style::new()
    }
}

} // verus!
