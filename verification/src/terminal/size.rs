use vstd::prelude::*;

use crate::terminal::cursor::Index;

verus! {

/// Width and height of widget
#[derive(Debug, Eq, PartialEq, Structural, PartialOrd, Ord, Copy, Clone)]
pub struct Size {
    w: Index,
    h: Index,
}

impl Size {
    /// The width, as used in contracts.
    pub closed spec fn spec_width(&self) -> Index {
        self.w
    }

    /// The height, as used in contracts.
    pub closed spec fn spec_height(&self) -> Index {
        self.h
    }

    /// Construct new [`Size`]
    pub fn new(w: Index, h: Index) -> (r: Self)
        ensures
            r.width() == w,
            r.height() == h,
    {
        Self { w, h }
    }

    /// The largest size.
    pub fn max() -> (r: Self)
        ensures
            r.width() == Index::MAX,
            r.height() == Index::MAX,
    {
        Self::new(Index::MAX, Index::MAX)
    }

    /// The empty size.
    pub fn min() -> (r: Self)
        ensures
            r.width() == 0,
            r.height() == 0,
    {
        Self::default()
    }

    #[verifier::when_used_as_spec(spec_width)]
    pub fn width(&self) -> (r: Index)
        ensures
            r == self.spec_width(),
    {
        self.w
    }

    #[verifier::when_used_as_spec(spec_height)]
    pub fn height(&self) -> (r: Index)
        ensures
            r == self.spec_height(),
    {
        self.h
    }

    /// Count of cells: width times height.
    pub fn area(&self) -> (r: usize)
        ensures
            r == self.width() * self.height(),
    {
        proof {
            vstd::arithmetic::mul::lemma_mul_upper_bound(
                self.w as int,
                Index::MAX as int,
                self.h as int,
                Index::MAX as int,
            );
        }
        self.w as usize * self.h as usize
    }

    /// Component-wise saturating sum.
    pub fn saturating_add(self, rhs: Self) -> (r: Self)
        ensures
            r.width() == sat_add(self.width(), rhs.width()),
            r.height() == sat_add(self.height(), rhs.height()),
    {
        Self { w: self.w.saturating_add(rhs.w), h: self.h.saturating_add(rhs.h) }
    }

    /// Component-wise saturating difference.
    pub fn saturating_sub(self, rhs: Self) -> (r: Self)
        ensures
            r.width() == sat_sub(self.width(), rhs.width()),
            r.height() == sat_sub(self.height(), rhs.height()),
    {
        Self { w: self.w.saturating_sub(rhs.w), h: self.h.saturating_sub(rhs.h) }
    }
}

/// `a + b`, or `Index::MAX` when the sum does not fit.
pub open spec fn sat_add(a: Index, b: Index) -> Index {
    if a + b > Index::MAX {
        Index::MAX
    } else {
        (a + b) as Index
    }
}

/// `a - b`, or 0 when `b > a`.
pub open spec fn sat_sub(a: Index, b: Index) -> Index {
    if a < b {
        0
    } else {
        (a - b) as Index
    }
}

impl Default for Size {
    fn default() -> (r: Self)
        ensures
            r.width() == 0,
            r.height() == 0,
    {
        Self { w: 0, h: 0 }
    }
}

impl core::ops::Add for Size {
    type Output = Size;

    fn add(self, rhs: Self) -> (r: Self::Output)
        ensures
            r.width() == sat_add(self.width(), rhs.width()),
            r.height() == sat_add(self.height(), rhs.height()),
    {
        self.saturating_add(rhs)
    }
}

impl vstd::std_specs::ops::AddSpecImpl for Size {
    open spec fn obeys_add_spec() -> bool {
        true
    }

    open spec fn add_req(self, rhs: Self) -> bool {
        true
    }

    closed spec fn add_spec(self, rhs: Self) -> Self {
        Size { w: sat_add(self.w, rhs.w), h: sat_add(self.h, rhs.h) }
    }
}

impl core::ops::Sub for Size {
    type Output = Size;

    fn sub(self, rhs: Self) -> (r: Self::Output)
        ensures
            r.width() == sat_sub(self.width(), rhs.width()),
            r.height() == sat_sub(self.height(), rhs.height()),
    {
        self.saturating_sub(rhs)
    }
}

impl vstd::std_specs::ops::SubSpecImpl for Size {
    open spec fn obeys_sub_spec() -> bool {
        true
    }

    open spec fn sub_req(self, rhs: Self) -> bool {
        true
    }

    closed spec fn sub_spec(self, rhs: Self) -> Self {
        Size { w: sat_sub(self.w, rhs.w), h: sat_sub(self.h, rhs.h) }
    }
}

impl core::ops::AddAssign for Size {
    fn add_assign(&mut self, rhs: Self)
        ensures
            final(self).width() == sat_add(old(self).width(), rhs.width()),
            final(self).height() == sat_add(old(self).height(), rhs.height()),
    {
        self.w = self.w.saturating_add(rhs.w);
        self.h = self.h.saturating_add(rhs.h);
    }
}

impl core::ops::SubAssign for Size {
    fn sub_assign(&mut self, rhs: Self)
        ensures
            final(self).width() == sat_sub(old(self).width(), rhs.width()),
            final(self).height() == sat_sub(old(self).height(), rhs.height()),
    {
        self.w = self.w.saturating_sub(rhs.w);
        self.h = self.h.saturating_sub(rhs.h);
    }
}

} // verus!
