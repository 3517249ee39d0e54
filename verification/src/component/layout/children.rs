use vstd::prelude::*;

use crate::terminal::{
    cursor::{Cursor, Index},
    region::{ordered, Region},
};

verus! {

/// The corners of a child's region as the solver sets them one by one; until they are all
/// set, `right_bottom` may lie left of or above `left_top`.
#[derive(Debug, Clone, Copy)]
pub struct ChildRegion {
    left_top: Cursor,
    right_bottom: Cursor,
}

impl ChildRegion {
    /// The left-top corner, as used in contracts.
    pub closed spec fn spec_left_top(&self) -> Cursor {
        self.left_top
    }

    /// The right-bottom corner, as used in contracts.
    pub closed spec fn spec_right_bottom(&self) -> Cursor {
        self.right_bottom
    }

    /// Both corners at (0, 0).
    pub fn new() -> (r: Self)
        ensures
            r.spec_left_top().column() == 0 && r.spec_left_top().line() == 0,
            r.spec_right_bottom().column() == 0 && r.spec_right_bottom().line() == 0,
    {
        Self { left_top: Cursor::new(0, 0), right_bottom: Cursor::new(0, 0) }
    }

    /// The region, where the corners are ordered.
    pub fn try_build_region(&self) -> (r: Option<Region>)
        ensures
            r is Some <==> ordered(self.spec_left_top(), self.spec_right_bottom()),
            r matches Some(v) ==> v.left_top() == self.spec_left_top() && v.right_bottom() == self.spec_right_bottom(),
    {
        Region::try_new(self.left_top, self.right_bottom)
    }

    /// Sets the left column.
    pub fn left_x(&mut self, value: Index)
        ensures
            final(self).spec_left_top().column() == value,
            final(self).spec_left_top().line() == old(self).spec_left_top().line(),
            final(self).spec_right_bottom() == old(self).spec_right_bottom(),
    {
        self.left_top.set_column(value);
    }

    /// Sets the right column.
    pub fn right_x(&mut self, value: Index)
        ensures
            final(self).spec_right_bottom().column() == value,
            final(self).spec_right_bottom().line() == old(self).spec_right_bottom().line(),
            final(self).spec_left_top() == old(self).spec_left_top(),
    {
        self.right_bottom.set_column(value);
    }

    /// Sets the top line.
    pub fn left_y(&mut self, value: Index)
        ensures
            final(self).spec_left_top().line() == value,
            final(self).spec_left_top().column() == old(self).spec_left_top().column(),
            final(self).spec_right_bottom() == old(self).spec_right_bottom(),
    {
        self.left_top.set_line(value);
    }

    /// Sets the bottom line.
    pub fn right_y(&mut self, value: Index)
        ensures
            final(self).spec_right_bottom().line() == value,
            final(self).spec_right_bottom().column() == old(self).spec_right_bottom().column(),
            final(self).spec_left_top() == old(self).spec_left_top(),
    {
        self.right_bottom.set_line(value);
    }
}

impl Default for ChildRegion {
    fn default() -> (r: Self)
        ensures
            r.spec_left_top().column() == 0 && r.spec_left_top().line() == 0,
            r.spec_right_bottom().column() == 0 && r.spec_right_bottom().line() == 0,
    {
        Self::new()
    }
}

} // verus!
