//! Strings that carry styles and a size on the terminal.

use vstd::prelude::*;

use crate::{
    terminal::{cursor::Index, size::Size},
    text::{
        mask::StyleInfo,
        raw_text::{graphemes_of, lemma_size_scan_bounds, text_columns, text_lines, RawText},
        styled_text::Text,
    },
};

verus! {

/// A count capped at `Index::MAX`.
pub open spec fn capped_index(x: int) -> int {
    if x > Index::MAX { Index::MAX as int } else { x }
}

/// Converts a count to an `Index`, capping it at `Index::MAX`.
fn to_index(x: usize) -> (r: Index)
    ensures
        r == capped_index(x as int),
{
    if x > Index::MAX as usize {
        Index::MAX
    } else {
        x as Index
    }
}

/// Text that can be printed: its characters, its styles and its size on the terminal.
pub trait StyledStr {
    /// The characters.
    fn str(&self) -> &str;

    /// The styles, in ascending order.
    fn styles_iter(&self) -> Vec<StyleInfo>;

    /// The most columns of a line and the count of lines, each capped at `Index::MAX`.
    fn size(&self) -> Size;
}

impl StyledStr for str {
    fn str(&self) -> (r: &str)
        ensures
            r@ == self@,
    {
        self
    }

    /// A plain string has no style.
    fn styles_iter(&self) -> (r: Vec<StyleInfo>)
        ensures
            r@ == Seq::<StyleInfo>::empty(),
    {
        Vec::new()
    }

    fn size(&self) -> (r: Size)
        ensures
            r.width() == capped_index(text_columns(graphemes_of(self@))),
            r.height() == capped_index(text_lines(graphemes_of(self@))),
    {
        let raw_size = RawText::compute_size(self);
        proof {
            lemma_size_scan_bounds(graphemes_of(self@), graphemes_of(self@).len() as int);
        }
        Size::new(to_index(raw_size.column), to_index(raw_size.lines))
    }
}

impl StyledStr for Text {
    fn str(&self) -> (r: &str)
        ensures
            r@ == self.view_str(),
    {
        self.as_str()
    }

    /// The styles of the mask.
    fn styles_iter(&self) -> (r: Vec<StyleInfo>)
        ensures
            r@ == self.spec_mask(),
    {
        self.mask().clone().into_vec()
    }

    fn size(&self) -> (r: Size)
        ensures
            self.wf() ==> r.width() == capped_index(text_columns(self.clusters())),
            self.wf() ==> r.height() == capped_index(text_lines(self.clusters())),
    {
        let raw_size = RawText::compute_size(self.as_str());
        proof {
            lemma_size_scan_bounds(self.clusters(), self.clusters().len() as int);
        }
        Size::new(to_index(raw_size.column), to_index(raw_size.lines))
    }
}

} // verus!
