//! Strings with one style for the whole of each, and texts made of a few of them.

use smallvec::SmallVec;
use vstd::prelude::*;

use crate::{terminal::style::Style, text::raw_text::Content};

verus! {

/// A string, borrowed or owned, and its style.
#[derive(Debug, Clone)]
pub struct Str {
    content: Content,
    style: Style,
}

impl Str {
    /// The characters, as used in contracts.
    pub closed spec fn view_str(&self) -> Seq<char> {
        self.content.view_str()
    }

    /// Whether the content is borrowed, as used in contracts.
    pub closed spec fn spec_borrowed(&self) -> bool {
        self.content is Borrowed
    }

    /// The style, as used in contracts.
    pub closed spec fn spec_style(&self) -> Style {
        self.style
    }

    /// The string `content` with the default style.
    pub fn new(content: Content) -> (r: Self)
        ensures
            r.view_str() == content.view_str(),
            r.spec_borrowed() == (content is Borrowed),
            r.spec_style().get_fg() is None,
            r.spec_style().get_bg() is None,
            r.spec_style().get_modifier().bits() == 0,
    {
        Self { content, style: Style::default() }
    }

    /// The borrowed string `s` with the default style.
    pub fn from_static(s: &'static str) -> (r: Self)
        ensures
            r.view_str() == s@,
            r.spec_borrowed(),
            r.spec_style().get_fg() is None,
            r.spec_style().get_bg() is None,
            r.spec_style().get_modifier().bits() == 0,
    {
        Self::new(Content::Borrowed(s))
    }

    /// The owned string `s` with the default style.
    pub fn from_string(s: String) -> (r: Self)
        ensures
            r.view_str() == s@,
            !r.spec_borrowed(),
            r.spec_style().get_fg() is None,
            r.spec_style().get_bg() is None,
            r.spec_style().get_modifier().bits() == 0,
    {
        Self::new(Content::Owned(s))
    }

    /// Whether the content is borrowed.
    pub fn is_borrowed(&self) -> (r: bool)
        ensures
            r == self.spec_borrowed(),
    {
        match &self.content {
            Content::Borrowed(_) => true,
            Content::Owned(_) => false,
        }
    }

    /// Whether the content is owned.
    pub fn is_owned(&self) -> (r: bool)
        ensures
            r == !self.spec_borrowed(),
    {
        match &self.content {
            Content::Borrowed(_) => false,
            Content::Owned(_) => true,
        }
    }

    /// The style.
    pub fn styles(&self) -> (r: Style)
        ensures
            r == self.spec_style(),
    {
        self.style
    }

    /// The style, to change it.
    pub fn styles_mut(&mut self) -> (r: &mut Style)
        ensures
            *r == old(self).spec_style(),
            final(self).spec_style() == *final(r),
            final(self).view_str() == old(self).view_str(),
            final(self).spec_borrowed() == old(self).spec_borrowed(),
    {
        &mut self.style
    }
}

/// The strings of a text, held in a `SmallVec` that keeps up to two of them inline. Its field is
/// private and `str_vec_from` is the only way to make one.
#[verifier::external_body]
pub struct StrVec {
    items: SmallVec<[Str; 2]>,
}

/// The characters of each string that a vector of strings holds, in order.
pub uninterp spec fn str_vec_items(v: StrVec) -> Seq<Seq<char>>;

/// `SmallVec::from_iter` on the strings of `items`: the vector holds them in the same order.
#[verifier::external_body]
fn str_vec_from(items: Vec<Str>) -> (r: StrVec)
    ensures
        str_vec_items(r) == items@.map_values(|s: Str| s.view_str()),
{
    StrVec { items: SmallVec::from_iter(items) }
}

/// `SmallVec::spilled`: whether the strings were moved to the heap, that is, whether the vector's
/// capacity is above its inline size of two. Every `StrVec` comes from `str_vec_from`, where
/// `SmallVec::from_iter` reserves the exact count of a vector's iterator at once: nothing grows
/// for two strings or fewer, and for more the vector grows to the next power of two of the count,
/// above two, and stays there. So it has spilled exactly when it holds more than two strings.
#[verifier::external_body]
fn str_vec_spilled(v: &StrVec) -> (r: bool)
    ensures
        r == (str_vec_items(*v).len() > 2),
{
    v.items.spilled()
}

/// A text made of strings with a style each; up to two of them are kept inline.
pub struct Text {
    content: StrVec,
}

impl Text {
    /// The characters of each string, in order.
    pub closed spec fn strs(&self) -> Seq<Seq<char>> {
        str_vec_items(self.content)
    }

    /// The text made of `content`, in order.
    pub fn new(content: Vec<Str>) -> (r: Self)
        ensures
            r.strs() == content@.map_values(|s: Str| s.view_str()),
    {
        Self { content: str_vec_from(content) }
    }

    /// Whether the strings are kept on the heap rather than inline: they are exactly when there
    /// are more than two.
    pub fn spilled(&self) -> (r: bool)
        ensures
            r == (self.strs().len() > 2),
    {
        str_vec_spilled(&self.content)
    }
}

} // verus!
