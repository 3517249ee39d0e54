use vstd::prelude::*;

use crate::text::{
    grapheme::{create_graphemes, extended_grapheme_indices},
    style::Style,
};

verus! {

/// Marks of the cells that a wide grapheme spans.
#[derive(Debug, PartialEq, Eq, Structural, Clone, Copy)]
pub struct Flag {
    bits: u16,
}

impl Flag {
    /// The bits, as used in contracts.
    pub closed spec fn spec_bits(&self) -> u16 {
        self.bits
    }

    /// No mark.
    pub fn empty() -> (r: Self)
        ensures
            r.spec_bits() == 0,
    {
        Flag { bits: 0 }
    }

    /// The cell holds the start of a wide grapheme.
    pub fn wide_start() -> (r: Self)
        ensures
            r.spec_bits() == 1,
    {
        Flag { bits: 1 }
    }

    /// The cell holds the end of a wide grapheme.
    pub fn wide_end() -> (r: Self)
        ensures
            r.spec_bits() == 2,
    {
        Flag { bits: 2 }
    }

    /// The cell is left blank at the end of a line because a wide grapheme did not fit there.
    pub fn wide_leading() -> (r: Self)
        ensures
            r.spec_bits() == 4,
    {
        Flag { bits: 4 }
    }

    /// Whether every mark of `other` is set here.
    pub fn contains(&self, other: Flag) -> (r: bool)
        ensures
            r == (self.spec_bits() & other.spec_bits() == other.spec_bits()),
    {
        self.bits & other.bits == other.bits
    }
}

impl Default for Flag {
    fn default() -> (r: Self)
        ensures
            r.spec_bits() == 0,
    {
        Flag::empty()
    }
}

/// A cell of the test terminal: a grapheme, its style and its marks.
#[derive(Debug, Clone)]
pub struct Cell {
    pub grapheme: String,
    pub style: Style,
    pub flags: Flag,
}

/// What a cell shows: its grapheme, its style and the bits of its marks.
pub struct CellView {
    pub grapheme: Seq<char>,
    pub style: Style,
    pub flags: u16,
}

impl Cell {
    /// What the cell shows.
    pub open spec fn view_of(&self) -> CellView {
        CellView { grapheme: self.grapheme@, style: self.style, flags: self.flags.spec_bits() }
    }

    /// The cell of the grapheme `s` with `style`.
    pub fn new(s: &str, style: Style) -> (r: Self)
        requires
            extended_grapheme_indices(s@).len() == 1,
        ensures
            r.view_of() == (CellView { grapheme: s@, style, flags: 0 }),
    {
        Self::of(s, style)
    }

    /// The cell of `s` with `style`, where `s` is exactly one grapheme.
    pub fn try_new(s: &str, style: Style) -> (r: Option<Self>)
        ensures
            r is Some <==> extended_grapheme_indices(s@).len() == 1,
            r matches Some(c) ==> c.view_of() == (CellView { grapheme: s@, style, flags: 0 }),
    {
        if create_graphemes(s).len() == 1 {
            Some(Self::new(s, style))
        } else {
            None
        }
    }

    /// The cell of `s`, a grapheme that segmenting a string gave, with `style`.
    pub(crate) fn of(s: &str, style: Style) -> (r: Self)
        ensures
            r.view_of() == (CellView { grapheme: s@, style, flags: 0 }),
    {
        Self { grapheme: s.to_owned(), style, flags: Flag::empty() }
    }

    /// The blank cell after the start of a wide grapheme.
    pub fn wide_end() -> (r: Self)
        ensures
            r.view_of() == (CellView { grapheme: seq![' '], style: Style::spec_empty(), flags: 2 }),
    {
        Self { grapheme: blank(), style: Style::new(), flags: Flag::wide_end() }
    }

    /// The blank cell left at the end of a line where a wide grapheme did not fit.
    pub fn wide_leading() -> (r: Self)
        ensures
            r.view_of() == (CellView { grapheme: seq![' '], style: Style::spec_empty(), flags: 4 }),
    {
        Self { grapheme: blank(), style: Style::new(), flags: Flag::wide_leading() }
    }

    /// The cell of the grapheme `s` with no style.
    pub fn new_str(s: &str) -> (r: Self)
        requires
            extended_grapheme_indices(s@).len() == 1,
        ensures
            r.view_of() == (CellView { grapheme: s@, style: Style::spec_empty(), flags: 0 }),
    {
        Self::new(s, Style::new())
    }
}

impl Default for Cell {
    /// An empty cell.
    fn default() -> (r: Self)
        ensures
            r.view_of() == (CellView { grapheme: Seq::<char>::empty(), style: Style::spec_empty(), flags: 0 }),
    {
        Self { grapheme: String::new(), style: Style::new(), flags: Flag::empty() }
    }
}

/// A string holding one space.
fn blank() -> (r: String)
    ensures
        r@ == seq![' '],
{
    let s = " ";
    proof {
        reveal_strlit(" ");
    }
    let r = s.to_owned();
    assert(r@ =~= seq![' ']);
    r
}

} // verus!
