use vstd::prelude::*;

verus! {

/// Style of terminal cell. This structure is used to change foreground color,
/// background color and add modifiers (like italic, underline etc.)
#[derive(Eq, PartialEq, Structural, Debug, Copy, Clone, Hash)]
pub struct Style {
    fg: Option<Color>,
    bg: Option<Color>,
    modifier: Modifier,
}

/// A terminal color.
#[derive(Debug, Copy, Clone, Eq, PartialEq, Structural, Hash)]
#[non_exhaustive]
pub enum Color {
    Black,
    White,
    Blue,
    Cyan,
    Green,
    Magenta,
    Red,
    Yellow,
    Rgb(u8, u8, u8),
}

/// A set of text attributes: bold, italic and underline.
#[derive(Debug, Copy, Clone, Eq, PartialEq, Structural, Hash)]
pub struct Modifier {
    bits: u16,
}

impl Modifier {
    /// The bold flag alone.
    pub fn bold() -> (r: Modifier)
        ensures
            r.bits() == 1,
    {
        Modifier { bits: 1 }
    }

    /// The italic flag alone.
    pub fn italic() -> (r: Modifier)
        ensures
            r.bits() == 2,
    {
        Modifier { bits: 2 }
    }

    /// The underline flag alone.
    pub fn underline() -> (r: Modifier)
        ensures
            r.bits() == 4,
    {
        Modifier { bits: 4 }
    }

    /// The raw flag bits, as used in contracts.
    pub closed spec fn spec_bits(&self) -> u16 {
        self.bits
    }

    /// The set of all flags together.
    pub open spec fn all_bits() -> u16 {
        7
    }

    /// No attribute at all.
    pub fn empty() -> (r: Modifier)
        ensures
            r.bits() == 0,
    {
        Modifier { bits: 0 }
    }

    /// Every attribute.
    pub fn all() -> (r: Modifier)
        ensures
            r.bits() == Self::all_bits(),
    {
        Modifier { bits: 7 }
    }

    /// The flags that are known; unknown bits are dropped.
    pub fn from_bits_truncate(bits: u16) -> (r: Modifier)
        ensures
            r.bits() == bits & 7,
    {
        Modifier { bits: bits & 7 }
    }

    #[verifier::when_used_as_spec(spec_bits)]
    pub fn bits(&self) -> (r: u16)
        ensures
            r == self.spec_bits(),
    {
        self.bits
    }

    pub fn is_empty(&self) -> (r: bool)
        ensures
            r == (self.bits() == 0),
    {
        self.bits == 0
    }

    /// Whether every flag of `other` is set in `self`.
    pub fn contains(&self, other: Modifier) -> (r: bool)
        ensures
            r == (self.bits() & other.bits() == other.bits()),
    {
        self.bits & other.bits == other.bits
    }

    /// The flags set in `self` or in `other`.
    pub fn union(self, other: Modifier) -> (r: Modifier)
        ensures
            r.bits() == self.bits() | other.bits(),
    {
        Modifier { bits: self.bits | other.bits }
    }

    /// Sets the flags of `other` in `self`.
    pub fn insert(&mut self, other: Modifier)
        ensures
            final(self).bits() == old(self).bits() | other.bits(),
    {
        self.bits = self.bits | other.bits;
    }

    /// Clears the flags of `other` in `self`.
    pub fn remove(&mut self, other: Modifier)
        ensures
            final(self).bits() == old(self).bits() & !other.bits(),
    {
        self.bits = self.bits & !other.bits;
    }
}

impl Default for Modifier {
    fn default() -> (r: Self)
        ensures
            r.bits() == 0,
    {
        Modifier { bits: 0 }
    }
}

impl core::ops::BitOr for Modifier {
    type Output = Modifier;

    fn bitor(self, rhs: Modifier) -> (r: Modifier)
        ensures
            r.bits() == self.bits() | rhs.bits(),
    {
        self.union(rhs)
    }
}

impl vstd::std_specs::ops::BitOrSpecImpl for Modifier {
    open spec fn obeys_bitor_spec() -> bool {
        false
    }

    open spec fn bitor_req(self, rhs: Modifier) -> bool {
        true
    }

    closed spec fn bitor_spec(self, rhs: Modifier) -> Modifier {
        Modifier { bits: self.bits | rhs.bits }
    }
}

impl Style {
    /// Foreground color, as used in contracts.
    pub closed spec fn spec_fg(&self) -> Option<Color> {
        self.fg
    }

    /// Background color, as used in contracts.
    pub closed spec fn spec_bg(&self) -> Option<Color> {
        self.bg
    }

    /// Modifier, as used in contracts.
    pub closed spec fn spec_modifier(&self) -> Modifier {
        self.modifier
    }

    /// The style `self` takes after [`merge`](Self::merge) with `rhs`.
    pub closed spec fn spec_merge(self, rhs: Style) -> Style {
        Style {
            fg: if rhs.fg is Some { rhs.fg } else { self.fg },
            bg: if rhs.bg is Some { rhs.bg } else { self.bg },
            modifier: Modifier { bits: self.modifier.bits | rhs.modifier.bits },
        }
    }

    /// The empty style, as used in contracts.
    pub closed spec fn spec_empty() -> Style {
        Style { fg: None, bg: None, modifier: Modifier { bits: 0 } }
    }

    /// What a merge gives, field by field: `rhs`'s colors where it has them, and the
    /// modifiers of both.
    pub broadcast proof fn lemma_merge(self, rhs: Style)
        ensures
            #[trigger] self.spec_merge(rhs).get_fg() == (if rhs.get_fg() is Some { rhs.get_fg() } else { self.get_fg() }),
            self.spec_merge(rhs).get_bg() == (if rhs.get_bg() is Some { rhs.get_bg() } else { self.get_bg() }),
            self.spec_merge(rhs).get_modifier().bits() == self.get_modifier().bits() | rhs.get_modifier().bits(),
    {
    }

    /// Styles with equal colors and modifiers are equal.
    pub broadcast proof fn lemma_style_ext(self, rhs: Style)
        requires
            self.get_fg() == rhs.get_fg(),
            self.get_bg() == rhs.get_bg(),
            #[trigger] self.get_modifier().bits() == #[trigger] rhs.get_modifier().bits(),
        ensures
            self == rhs,
    {
    }

    /// Merging onto the empty style gives the merged style itself.
    pub broadcast proof fn lemma_empty_merge(rhs: Style)
        ensures
            #[trigger] Style::spec_empty().spec_merge(rhs) == rhs,
    {
        assert(0u16 | rhs.modifier.bits == rhs.modifier.bits) by (bit_vector);
    }

    /// Merging the empty style into a style leaves it as it is.
    pub proof fn law_merge_empty_right(self)
        ensures
            self.spec_merge(Style::spec_empty()) == self,
    {
        let b = self.modifier.bits;
        assert(b | 0u16 == b) by (bit_vector);
    }

    /// Merging a style into itself leaves it as it is.
    pub proof fn law_merge_idempotent(self)
        ensures
            self.spec_merge(self) == self,
    {
        let b = self.modifier.bits;
        assert(b | b == b) by (bit_vector);
    }

    /// Merging is associative: merging `b` then `c` into `a` is merging `b` merged with `c`.
    pub proof fn law_merge_associative(a: Style, b: Style, c: Style)
        ensures
            a.spec_merge(b).spec_merge(c) == a.spec_merge(b.spec_merge(c)),
    {
        let x = a.modifier.bits;
        let y = b.modifier.bits;
        let z = c.modifier.bits;
        assert((x | y) | z == x | (y | z)) by (bit_vector);
    }

    /// Create empty `Style` with no foreground and background colors, with empty modifiers.
    pub fn new() -> (r: Self)
        ensures
            r == Style::spec_empty(),
            r.get_fg() is None,
            r.get_bg() is None,
            r.get_modifier().bits() == 0,
    {
        Style { fg: None, bg: None, modifier: Modifier::empty() }
    }

    /// Change foreground color
    pub fn fg(self, fg: Color) -> (r: Self)
        ensures
            r.get_fg() == Some(fg),
            r.get_bg() == self.get_bg(),
            r.get_modifier() == self.get_modifier(),
    {
        Style { fg: Some(fg), ..self }
    }

    /// Change background color
    pub fn bg(self, bg: Color) -> (r: Self)
        ensures
            r.get_bg() == Some(bg),
            r.get_fg() == self.get_fg(),
            r.get_modifier() == self.get_modifier(),
    {
        Style { bg: Some(bg), ..self }
    }

    /// Change modifier
    pub fn modifier(self, modifier: Modifier) -> (r: Self)
        ensures
            r.get_modifier() == modifier,
            r.get_fg() == self.get_fg(),
            r.get_bg() == self.get_bg(),
    {
        Style { modifier, ..self }
    }

    /// Clear foreground color; returns the changed style.
    pub fn clear_fg(&mut self) -> (r: Self)
        ensures
            final(self).get_fg() is None,
            final(self).get_bg() == old(self).get_bg(),
            final(self).get_modifier() == old(self).get_modifier(),
            r == *final(self),
    {
        self.fg = None;
        *self
    }

    /// Clear background color; returns the changed style.
    pub fn clear_bg(&mut self) -> (r: Self)
        ensures
            final(self).get_bg() is None,
            final(self).get_fg() == old(self).get_fg(),
            final(self).get_modifier() == old(self).get_modifier(),
            r == *final(self),
    {
        self.bg = None;
        *self
    }

    /// Clear modifier; returns the changed style.
    pub fn clear_modifier(&mut self) -> (r: Self)
        ensures
            final(self).get_modifier().bits() == 0,
            final(self).get_fg() == old(self).get_fg(),
            final(self).get_bg() == old(self).get_bg(),
            r == *final(self),
    {
        self.modifier = Modifier::empty();
        *self
    }

    /// Replace `self` foreground and background
    /// with `rhs`, add all modifiers from `rhs` to `self`.
    pub fn merge(self, rhs: Style) -> (r: Self)
        ensures
            r == self.spec_merge(rhs),
    {
        let mut res = self;
        if rhs.fg.is_some() {
            res.fg = rhs.fg;
        }
        if rhs.bg.is_some() {
            res.bg = rhs.bg;
        }
        res.modifier.insert(rhs.modifier);
        res
    }

    /// Get current foreground color
    #[verifier::when_used_as_spec(spec_fg)]
    pub fn get_fg(&self) -> (r: Option<Color>)
        ensures
            r == self.spec_fg(),
    {
        self.fg
    }

    /// Get current background color
    #[verifier::when_used_as_spec(spec_bg)]
    pub fn get_bg(&self) -> (r: Option<Color>)
        ensures
            r == self.spec_bg(),
    {
        self.bg
    }

    /// Get current modifiers
    #[verifier::when_used_as_spec(spec_modifier)]
    pub fn get_modifier(&self) -> (r: Modifier)
        ensures
            r == self.spec_modifier(),
    {
        self.modifier
    }
}

impl Default for Style {
    fn default() -> (r: Self)
        ensures
            r == Style::spec_empty(),
    {
        Style::new()
    }
}

} // verus!
