use vstd::prelude::*;

use crate::text::utils::{bound_ends, end_index, start_index, valid_bounds, Bound};

verus! {

/// Inclusive range [`start`; `end`]
#[derive(Debug, Clone, Copy, Eq, PartialEq, Structural, Ord, PartialOrd, Hash)]
pub struct Range {
    pub start: usize,
    pub end: usize,
}

/// `start <= end`: the range holds at least one index.
pub open spec fn proper(r: Range) -> bool {
    r.start <= r.end
}

/// Whether index `p` lies in `r`.
pub open spec fn holds(r: Range, p: int) -> bool {
    r.start <= p <= r.end
}

/// Whether the two ranges share an index.
pub open spec fn overlap(a: Range, b: Range) -> bool {
    a.start <= b.end && b.start <= a.end
}

/// The range `[start, end]`.
pub open spec fn span(start: int, end: int) -> Range {
    Range { start: start as usize, end: end as usize }
}

/// The parts of `s` left and right of `r`: what stays of `s` when `r` is cut out of it.
/// A range that `r` does not touch stays whole, as the left part.
pub open spec fn cut_spec(s: Range, r: Range) -> (Option<Range>, Option<Range>) {
    if r.start > s.end || r.end < s.start {
        (Some(s), None)
    } else {
        let st = if r.start < s.start { s.start as int } else { r.start as int };
        let en = if r.end > s.end { s.end as int } else { r.end as int };
        (
            if st != s.start { Some(span(s.start as int, st - 1)) } else { None },
            if en != s.end { Some(span(en + 1, s.end as int)) } else { None },
        )
    }
}

/// The indices both ranges hold, if there are any.
pub open spec fn intersection_spec(a: Range, b: Range) -> Option<Range> {
    if overlap(a, b) {
        Some(
            span(
                if a.start < b.start { b.start as int } else { a.start as int },
                if a.end < b.end { a.end as int } else { b.end as int },
            ),
        )
    } else {
        None
    }
}

/// Count of indices in a proper range.
pub open spec fn len_spec(r: Range) -> int {
    r.end - r.start + 1
}

/// `a` split against `b` into three ranges: for ranges with the same start, the common part
/// and what remains of the longer one; otherwise the part before the common one, the common
/// part and the part after it, up to the larger end. `[None, None, None]` when they do not
/// overlap.
pub open spec fn split_to_3_spec(a: Range, b: Range) -> (Option<Range>, Option<Range>, Option<Range>) {
    match intersection_spec(a, b) {
        None => (None, None, None),
        Some(i) => if a.start == b.start {
            let bigger = if len_spec(a) > len_spec(b) { a } else { b };
            (Some(i), cut_spec(bigger, i).1, None)
        } else {
            let min_start = if a.start < b.start { a.start as int } else { b.start as int };
            let max_end = if a.end > b.end { a.end as int } else { b.end as int };
            (
                Some(span(min_start, i.start - 1)),
                Some(i),
                if i.end < max_end { Some(span(i.end + 1, max_end)) } else { None },
            )
        },
    }
}

/// `a + d`, or `usize::MAX` when the sum does not fit.
pub open spec fn sat_add(a: usize, d: usize) -> usize {
    if a + d > usize::MAX { usize::MAX } else { (a + d) as usize }
}

/// `a - d`, or 0 when `d > a`.
pub open spec fn sat_sub(a: usize, d: usize) -> usize {
    if a < d { 0 } else { (a - d) as usize }
}

impl Range {
    /// The range of indices that `start` and `end` bound.
    pub fn new(start: Bound, end: Bound) -> (r: Self)
        requires
            valid_bounds(start, end),
        ensures
            r.start == start_index(start),
            r.end == end_index(end),
    {
        let (s, e) = bound_ends(start, end);
        Self { start: s, end: e }
    }

    /// Whether the ranges share an index.
    pub fn intersects_with(&self, rhs: Range) -> (r: bool)
        ensures
            r == overlap(*self, rhs),
    {
        self.start <= rhs.end && rhs.start <= self.end
    }

    /// Count of indices in the range.
    pub fn len(&self) -> (r: usize)
        requires
            proper(*self),
            len_spec(*self) <= usize::MAX,
        ensures
            r == len_spec(*self),
    {
        self.end - self.start + 1
    }

    /// What stays of `self` left and right of `range`.
    pub fn cut(&self, range: Range) -> (r: [Option<Self>; 2])
        ensures
            r[0] == cut_spec(*self, range).0,
            r[1] == cut_spec(*self, range).1,
    {
        let start = range.start;
        let end = range.end;

        if start > self.end || end < self.start {
            return [Some(*self), None];
        }
        let start = if start < self.start { self.start } else { start };
        let end = if end > self.end { self.end } else { end };

        let left = if start != self.start {
            Some(Self::new(Bound::Included(self.start), Bound::Excluded(start)))
        } else {
            None
        };
        let right = if end != self.end {
            Some(Self::new(Bound::Included(end + 1), Bound::Included(self.end)))
        } else {
            None
        };

        [left, right]
    }

    /// The indices both ranges hold.
    pub fn intersection(&self, range: Range) -> (r: Option<Self>)
        requires
            proper(*self),
            proper(range),
        ensures
            r == intersection_spec(*self, range),
    {
        if self.intersects_with(range) {
            let left = if self.start < range.start { range.start } else { self.start };
            let right = if self.end < range.end { self.end } else { range.end };
            Some(Self::new(Bound::Included(left), Bound::Included(right)))
        } else {
            None
        }
    }

    /// `self` and `range` split into three parts, see [`split_to_3_spec`].
    pub fn split_to_3(&self, range: Range) -> (r: [Option<Self>; 3])
        requires
            proper(*self),
            proper(range),
            self.start == range.start ==> len_spec(*self) <= usize::MAX && len_spec(range) <= usize::MAX,
        ensures
            r[0] == split_to_3_spec(*self, range).0,
            r[1] == split_to_3_spec(*self, range).1,
            r[2] == split_to_3_spec(*self, range).2,
    {
        if let Some(intersection) = self.intersection(range) {
            if self.start == range.start {
                let bigger_range = if self.len() > range.len() { *self } else { range };
                let cut = bigger_range.cut(intersection);
                return [Some(intersection), cut[1], None];
            }
            let min_start = if self.start < range.start { self.start } else { range.start };
            let max_end = if self.end > range.end { self.end } else { range.end };

            let left_result = Some(Self::new(Bound::Included(min_start), Bound::Excluded(intersection.start)));
            let middle_result = Some(intersection);
            let right_result = if intersection.end < max_end {
                Some(Self::new(Bound::Included(intersection.end + 1), Bound::Included(max_end)))
            } else {
                None
            };

            [left_result, middle_result, right_result]
        } else {
            [None, None, None]
        }
    }
}

impl Default for Range {
    fn default() -> (r: Self)
        ensures
            r.start == 0,
            r.end == 0,
    {
        Range { start: 0, end: 0 }
    }
}

impl core::ops::AddAssign<usize> for Range {
    fn add_assign(&mut self, rhs: usize)
        ensures
            final(self).start == sat_add(old(self).start, rhs),
            final(self).end == sat_add(old(self).end, rhs),
    {
        self.start = self.start.saturating_add(rhs);
        self.end = self.end.saturating_add(rhs);
    }
}

impl core::ops::Add<usize> for Range {
    type Output = Self;

    fn add(self, rhs: usize) -> (r: Self::Output)
        ensures
            r.start == sat_add(self.start, rhs),
            r.end == sat_add(self.end, rhs),
    {
        Range { start: self.start.saturating_add(rhs), end: self.end.saturating_add(rhs) }
    }
}

impl vstd::std_specs::ops::AddSpecImpl<usize> for Range {
    open spec fn obeys_add_spec() -> bool {
        true
    }

    open spec fn add_req(self, rhs: usize) -> bool {
        true
    }

    open spec fn add_spec(self, rhs: usize) -> Self {
        Range { start: sat_add(self.start, rhs), end: sat_add(self.end, rhs) }
    }
}

impl core::ops::SubAssign<usize> for Range {
    fn sub_assign(&mut self, rhs: usize)
        ensures
            final(self).start == sat_sub(old(self).start, rhs),
            final(self).end == sat_sub(old(self).end, rhs),
    {
        self.start = self.start.saturating_sub(rhs);
        self.end = self.end.saturating_sub(rhs);
    }
}

impl core::ops::Sub<usize> for Range {
    type Output = Self;

    fn sub(self, rhs: usize) -> (r: Self::Output)
        ensures
            r.start == sat_sub(self.start, rhs),
            r.end == sat_sub(self.end, rhs),
    {
        Range { start: self.start.saturating_sub(rhs), end: self.end.saturating_sub(rhs) }
    }
}

impl vstd::std_specs::ops::SubSpecImpl<usize> for Range {
    open spec fn obeys_sub_spec() -> bool {
        true
    }

    open spec fn sub_req(self, rhs: usize) -> bool {
        true
    }

    open spec fn sub_spec(self, rhs: usize) -> Self {
        Range { start: sat_sub(self.start, rhs), end: sat_sub(self.end, rhs) }
    }
}

/// Cutting `r` out of `s` and intersecting them split `s`: each index of `s` lies in exactly one
/// of the part left of `r`, the intersection and the part right of `r`, and no other index
/// lies in any of them.
pub proof fn law_cut_and_intersection_split(s: Range, r: Range, p: int)
    requires
        proper(s),
        proper(r),
    ensures
        ({
            let (left, right) = cut_spec(s, r);
            let mid = intersection_spec(s, r);
            let in_left = left matches Some(x) && holds(x, p);
            let in_mid = mid matches Some(x) && holds(x, p);
            let in_right = right matches Some(x) && holds(x, p);
            &&& holds(s, p) <==> (in_left || in_mid || in_right)
            &&& !(in_left && in_mid) && !(in_left && in_right) && !(in_mid && in_right)
        }),
{
}

} // verus!
