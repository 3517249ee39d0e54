//! Comparing a text with plain strings by content.

use vstd::prelude::*;
use vstd::std_specs::cmp::PartialEqSpecImpl;

use crate::text::styled_text::Text;

verus! {

/// `==` on string slices: std compares their bytes, so two slices are equal exactly when they
/// hold the same characters.
pub assume_specification[ <std::primitive::str as PartialEq>::eq ](
    s: &std::primitive::str,
    other: &std::primitive::str,
) -> (res: bool)
    ensures
        res == (s@ == other@),
;

impl PartialEq<&str> for Text {
    fn eq(&self, other: &&str) -> (r: bool) {
        self.as_str().eq(*other)
    }
}

impl PartialEqSpecImpl<&str> for Text {
    open spec fn obeys_eq_spec() -> bool {
        true
    }

    open spec fn eq_spec(&self, other: &&str) -> bool {
        self.view_str() == other@
    }
}

impl PartialEq<String> for Text {
    fn eq(&self, other: &String) -> (r: bool) {
        self.as_str().eq(other.as_str())
    }
}

impl PartialEqSpecImpl<String> for Text {
    open spec fn obeys_eq_spec() -> bool {
        true
    }

    open spec fn eq_spec(&self, other: &String) -> bool {
        self.view_str() == other@
    }
}

impl PartialEq<Text> for &str {
    fn eq(&self, other: &Text) -> (r: bool) {
        (*self).eq(other.as_str())
    }
}

impl PartialEqSpecImpl<Text> for &str {
    open spec fn obeys_eq_spec() -> bool {
        true
    }

    open spec fn eq_spec(&self, other: &Text) -> bool {
        self@ == other.view_str()
    }
}

impl PartialEq<Text> for String {
    fn eq(&self, other: &Text) -> (r: bool) {
        self.as_str().eq(other.as_str())
    }
}

impl PartialEqSpecImpl<Text> for String {
    open spec fn obeys_eq_spec() -> bool {
        true
    }

    open spec fn eq_spec(&self, other: &Text) -> bool {
        self@ == other.view_str()
    }
}

} // verus!
