//! A grapheme cluster with its position, without byte offsets.

use vstd::prelude::*;

verus! {

/// One grapheme cluster of a string and its position among them.
#[derive(Debug)]
pub struct Grapheme<'a> {
    c: &'a str,
    pub(crate) index: usize,
}

impl<'a> Grapheme<'a> {
    /// The text of the grapheme, as used in contracts.
    pub closed spec fn spec_data(&self) -> &'a str {
        self.c
    }

    /// The position among the graphemes, as used in contracts.
    pub closed spec fn spec_index(&self) -> usize {
        self.index
    }

    /// The grapheme `c` at position `index`.
    pub(crate) fn new(index: usize, c: &'a str) -> (r: Self)
        ensures
            r.spec_data() == c,
            r.spec_index() == index,
    {
        Self { c, index }
    }

    /// The text of the grapheme.
    pub fn data(&self) -> (r: &'a str)
        ensures
            r == self.spec_data(),
    {
        self.c
    }
}

} // verus!
