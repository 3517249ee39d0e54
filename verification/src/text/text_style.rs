use vstd::prelude::*;

use crate::text::mask::range::{
    cut_spec, intersection_spec, len_spec, overlap, proper, sat_add, sat_sub, split_to_3_spec,
    Range as Span,
};
use crate::text::mask::spec::{add_all, add_spec, all_proper, remove_range_spec, remove_spec, clip_spec};
use crate::text::mask::{shift_add_spec, shift_sub_spec, Iter as MaskIter, Mask, RangeIter, StyleInfo as Info};
use crate::text::style::Style;
use crate::text::utils::{bound_ends, end_index, start_index, valid_bounds, Bound};

use core::ops::RangeInclusive;

verus! {

/// A style with the inclusive range of grapheme positions it covers.
pub type StyleInfo = (RangeInclusive<usize>, Style);

/// `t` holds exactly the range and style of `x`.
pub open spec fn same_info(t: StyleInfo, x: Info) -> bool {
    &&& t.0@.start == x.range.start
    &&& t.0@.end == x.range.end
    &&& !t.0@.exhausted
    &&& t.1 == x.style
}

/// `t` names a proper range.
pub open spec fn proper_info(t: StyleInfo) -> bool {
    t.0@.start <= t.0@.end && !t.0@.exhausted
}

/// The lower bound of the range.
pub assume_specification<Idx>[ RangeInclusive::<Idx>::start ](r: &RangeInclusive<Idx>) -> (ret: &Idx)
    ensures
        *ret == r@.start,
;

/// The upper bound of the range.
pub assume_specification<Idx>[ RangeInclusive::<Idx>::end ](r: &RangeInclusive<Idx>) -> (ret: &Idx)
    ensures
        *ret == r@.end,
;

/// Styles for grapheme positions: ranges in ascending order that never overlap, each with
/// its style.
#[derive(Debug, Clone, PartialEq, Eq, Hash)]
pub struct TextStyle {
    data: Mask,
}

impl View for TextStyle {
    type V = Seq<Info>;

    closed spec fn view(&self) -> Seq<Info> {
        self.data@
    }
}

impl Default for TextStyle {
    /// A text style with no style.
    fn default() -> (r: Self)
        ensures
            r@ == Seq::<Info>::empty(),
    {
        Self::new()
    }
}

impl TextStyle {
    pub fn new() -> (r: Self)
        ensures
            r@ == Seq::<Info>::empty(),
    {
        TextStyle { data: Mask::new() }
    }

    /// Add style for the range that `start` and `end` bound.
    ///
    /// There are no checks for grapheme offsets on target Text.
    /// This allows to create styles for content that doesn't exists yet.
    /// It merges all styles for overlaping ranges.
    pub fn add(&mut self, start: Bound, end: Bound, style: Style)
        requires
            valid_bounds(start, end),
        ensures
            final(self)@ == add_spec(old(self)@, Span { start: start_index(start) as usize, end: end_index(end) as usize }, style),
    {
        self.add_inner(start, end, style);
    }

    fn add_inner(&mut self, start: Bound, end: Bound, style: Style)
        requires
            valid_bounds(start, end),
        ensures
            final(self)@ == add_spec(old(self)@, Span { start: start_index(start) as usize, end: end_index(end) as usize }, style),
    {
        let range = RangeWrapper::new(start, end);
        self.data.add(Span { start: range.start(), end: range.end() }, style);
    }

    /// Remove style whose range is exactly the given one.
    ///
    /// It removes only full match of the range. If it is a part of a bigger range then
    /// there will be no changes. Possibly you want [`remove`](Self::remove).
    pub fn remove_range(&mut self, start: Bound, end: Bound)
        requires
            valid_bounds(start, end),
        ensures
            final(self)@ == remove_range_spec(old(self)@, Span { start: start_index(start) as usize, end: end_index(end) as usize }),
    {
        let range = RangeWrapper::new(start, end);
        self.data.remove_range(Span { start: range.start(), end: range.end() });
    }

    /// Remove all styles for the range.
    ///
    /// Unlike [`remove_range`][Self::remove_range] it removes all intersections
    /// with the range of bigger ranges. Possibly you want use it for style clearing.
    pub fn remove(&mut self, start: Bound, end: Bound)
        requires
            valid_bounds(start, end),
        ensures
            final(self)@ == remove_spec(old(self)@, Span { start: start_index(start) as usize, end: end_index(end) as usize }),
    {
        let (s, e) = bound_ends(start, end);
        self.data.remove(Span { start: s, end: e });
    }

    /// Gets an iterator that visits the elements in the `TextStyle` in ascending order.
    pub fn iter(&self) -> (r: Iter<'_>)
        ensures
            r.remaining() == self@,
    {
        Iter::new(self.data.iter())
    }

    /// Gets an iterator over a sub-range of styles. Iterator will yield all styles for
    /// specified range, each clipped to it.
    pub fn range(&self, start: Bound, end: Bound) -> (r: Range<'_>)
        requires
            valid_bounds(start, end),
        ensures
            r.remaining() == clip_spec(self@, Span { start: start_index(start) as usize, end: end_index(end) as usize }),
    {
        let range = RangeWrapper::new(start, end);
        Range::new(self.data.range(Span { start: range.start(), end: range.end() }))
    }

    /// The styles with their ranges, in ascending order.
    pub fn into_vec(self) -> (r: Vec<StyleInfo>)
        ensures
            r@.len() == self@.len(),
            forall|i: int| 0 <= i < r@.len() ==> same_info(#[trigger] r@[i], self@[i]),
    {
        let mut it = self.iter();
        let mut out: Vec<StyleInfo> = Vec::new();
        let ghost all = self@;
        loop
            invariant
                out@.len() + it.remaining().len() == all.len(),
                forall|i: int| 0 <= i < out@.len() ==> same_info(#[trigger] out@[i], all[i]),
                forall|i: int| 0 <= i < it.remaining().len() ==> #[trigger] it.remaining()[i] == all[out@.len() + i],
            ensures
                out@.len() == all.len(),
                forall|i: int| 0 <= i < out@.len() ==> same_info(#[trigger] out@[i], all[i]),
            decreases it.remaining().len(),
        {
            let ghost rem = it.remaining();
            match it.next() {
                Some(x) => {
                    assert(rem[0] == all[out@.len() as int]);
                    out.push(x);
                    assert forall|i: int| 0 <= i < it.remaining().len() implies #[trigger] it.remaining()[i]
                        == all[out@.len() + i] by {
                        assert(it.remaining()[i] == rem[i + 1]);
                    }
                },
                None => {
                    break;
                },
            }
        }
        out
    }

    /// Removes every style.
    pub fn clear(&mut self)
        ensures
            final(self)@ == Seq::<Info>::empty(),
    {
        self.data.clear()
    }

    /// Count of styled ranges.
    pub fn len(&self) -> (r: usize)
        ensures
            r == self@.len(),
    {
        self.data.len()
    }

    pub fn is_empty(&self) -> (r: bool)
        ensures
            r == (self@.len() == 0),
    {
        self.len() == 0
    }

    /// Shift all existing styles in the range by `delta` positions (to the left when
    /// negative).
    ///
    /// The styles in the range are clipped to it, cleared there, and added again `delta`
    /// positions away, merging with what is there. Positions saturate at 0 and `usize::MAX`.
    pub fn shift_add(&mut self, start: Bound, end: Bound, delta: i64)
        requires
            valid_bounds(start, end),
            delta != i64::MIN,
        ensures
            delta >= 0 ==> final(self)@ == shift_add_spec(old(self)@, Span { start: start_index(start) as usize, end: end_index(end) as usize }, delta as usize),
            delta < 0 ==> final(self)@ == shift_sub_spec(old(self)@, Span { start: start_index(start) as usize, end: end_index(end) as usize }, (-delta) as usize),
    {
        let (s, e) = bound_ends(start, end);
        let range = Span { start: s, end: e };
        if delta < 0 {
            let d = (-delta) as usize;
            self.data.shift_sub(range, d);
        } else {
            let d = delta as usize;
            self.data.shift_add(range, d);
        }
    }

    /// Adds every style of `items`, in order.
    pub fn extend(&mut self, items: Vec<StyleInfo>)
        requires
            forall|i: int| 0 <= i < items@.len() ==> proper_info(#[trigger] items@[i]),
        ensures
            exists|infos: Seq<Info>|
                #![trigger add_all(old(self)@, infos)]
                infos.len() == items@.len()
                && (forall|i: int| 0 <= i < infos.len() ==> same_info(items@[i], #[trigger] infos[i]))
                && final(self)@ == add_all(old(self)@, infos),
    {
        let n = items.len();
        let mut infos: Vec<Info> = Vec::new();
        let mut i: usize = 0;
        while i < n
            invariant
                n == items@.len(),
                i <= n,
                infos@.len() == i,
                forall|k: int| 0 <= k < n ==> proper_info(#[trigger] items@[k]),
                forall|k: int| 0 <= k < i ==> same_info(items@[k], #[trigger] infos@[k]),
            decreases n - i,
        {
            let item = &items[i];
            let s = *item.0.start();
            let e = *item.0.end();
            assert(proper_info(items@[i as int]));
            infos.push(Info { range: Span { start: s, end: e }, style: item.1 });
            i += 1;
        }
        assert(all_proper(infos@)) by {
            assert forall|k: int| 0 <= k < infos@.len() implies proper(#[trigger] infos@[k].range) by {
                assert(same_info(items@[k], infos@[k]));
                assert(proper_info(items@[k]));
            }
        }
        let ghost is = infos@;
        self.data.extend(infos);
        assert(final(self)@ == add_all(old(self)@, is));
    }
}

/// An iterator over the items of `TextStyle`.
///
/// This struct is created by the [`iter`](TextStyle::iter) method on [`TextStyle`](TextStyle).
#[derive(Clone)]
pub struct Iter<'a> {
    inner: MaskIter<'a>,
}

impl<'a> Iter<'a> {
    /// The styles still to be yielded, front to back.
    pub closed spec fn remaining(&self) -> Seq<Info> {
        self.inner.remaining()
    }

    fn new(inner: MaskIter<'a>) -> (r: Self)
        ensures
            r.remaining() == inner.remaining(),
    {
        Self { inner }
    }

    /// The next style from the front.
    pub fn next(&mut self) -> (r: Option<StyleInfo>)
        ensures
            old(self).remaining().len() == 0 ==> r is None && final(self).remaining() == old(self).remaining(),
            old(self).remaining().len() > 0 ==> r is Some && same_info(r.unwrap(), old(self).remaining()[0])
                && final(self).remaining() == old(self).remaining().drop_first(),
    {
        match self.inner.next() {
            Some(x) => Some((RangeInclusive::new(x.range.start, x.range.end), x.style)),
            None => None,
        }
    }

    /// The next style from the back.
    pub fn next_back(&mut self) -> (r: Option<StyleInfo>)
        ensures
            old(self).remaining().len() == 0 ==> r is None && final(self).remaining() == old(self).remaining(),
            old(self).remaining().len() > 0 ==> r is Some && same_info(r.unwrap(), old(self).remaining().last())
                && final(self).remaining() == old(self).remaining().drop_last(),
    {
        match self.inner.next_back() {
            Some(x) => Some((RangeInclusive::new(x.range.start, x.range.end), x.style)),
            None => None,
        }
    }

    /// Exact count of the styles left, as lower and upper bound.
    pub fn size_hint(&self) -> (r: (usize, Option<usize>))
        ensures
            r.0 == self.remaining().len(),
            r.1 == Some(self.remaining().len() as usize),
    {
        self.inner.size_hint()
    }

    /// The last style.
    pub fn last(self) -> (r: Option<StyleInfo>)
        ensures
            self.remaining().len() == 0 ==> r is None,
            self.remaining().len() > 0 ==> r is Some && same_info(r.unwrap(), self.remaining().last()),
    {
        let mut it = self;
        it.next_back()
    }

    /// The style with the smallest positions: the first.
    pub fn min(self) -> (r: Option<StyleInfo>)
        ensures
            self.remaining().len() == 0 ==> r is None,
            self.remaining().len() > 0 ==> r is Some && same_info(r.unwrap(), self.remaining()[0]),
    {
        let mut it = self;
        it.next()
    }

    /// The style with the largest positions: the last.
    pub fn max(self) -> (r: Option<StyleInfo>)
        ensures
            self.remaining().len() == 0 ==> r is None,
            self.remaining().len() > 0 ==> r is Some && same_info(r.unwrap(), self.remaining().last()),
    {
        let mut it = self;
        it.next_back()
    }
}

/// An iterator over the items of `TextStyle`.
///
/// This struct is created by the [`range`](TextStyle::range) method on [`TextStyle`](TextStyle).
pub struct Range<'a> {
    inner: RangeIter<'a>,
}

impl<'a> Range<'a> {
    /// The clipped styles still to be yielded, front to back.
    pub closed spec fn remaining(&self) -> Seq<Info> {
        self.inner.remaining()
    }

    fn new(inner: RangeIter<'a>) -> (r: Self)
        ensures
            r.remaining() == inner.remaining(),
    {
        Self { inner }
    }

    /// The next clipped style from the front.
    pub fn next(&mut self) -> (r: Option<StyleInfo>)
        ensures
            old(self).remaining().len() == 0 ==> r is None && final(self).remaining() == old(self).remaining(),
            old(self).remaining().len() > 0 ==> r is Some && same_info(r.unwrap(), old(self).remaining()[0])
                && final(self).remaining() == old(self).remaining().drop_first(),
    {
        match self.inner.next() {
            Some(x) => Some((RangeInclusive::new(x.range.start, x.range.end), x.style)),
            None => None,
        }
    }

    /// The next clipped style from the back.
    pub fn next_back(&mut self) -> (r: Option<StyleInfo>)
        ensures
            old(self).remaining().len() == 0 ==> r is None && final(self).remaining() == old(self).remaining(),
            old(self).remaining().len() > 0 ==> r is Some && same_info(r.unwrap(), old(self).remaining().last())
                && final(self).remaining() == old(self).remaining().drop_last(),
    {
        match self.inner.next_back() {
            Some(x) => Some((RangeInclusive::new(x.range.start, x.range.end), x.style)),
            None => None,
        }
    }
}

/// An inclusive range of grapheme positions.
#[derive(Debug, Clone, Copy, PartialEq, Eq, Structural, Hash, PartialOrd, Ord)]
pub struct RangeWrapper {
    start: usize,
    end: usize,
}

/// The range a wrapper stands for, if any.
pub open spec fn span_of(r: Option<RangeWrapper>) -> Option<Span> {
    match r {
        Some(w) => Some(w@),
        None => None,
    }
}

impl View for RangeWrapper {
    type V = Span;

    closed spec fn view(&self) -> Span {
        Span { start: self.start, end: self.end }
    }
}

impl RangeWrapper {
    #[verifier::type_invariant]
    spec fn inv(self) -> bool {
        self.start <= self.end
    }

    fn from_span(s: Span) -> (r: Self)
        requires
            proper(s),
        ensures
            r@ == s,
    {
        RangeWrapper { start: s.start, end: s.end }
    }

    fn from_opt(s: Option<Span>) -> (r: Option<Self>)
        requires
            s matches Some(v) ==> proper(v),
        ensures
            span_of(r) == s,
    {
        match s {
            Some(v) => Some(Self::from_span(v)),
            None => None,
        }
    }

    /// The range that `start` and `end` bound.
    pub fn new(start: Bound, end: Bound) -> (r: Self)
        requires
            valid_bounds(start, end),
        ensures
            r@.start == start_index(start),
            r@.end == end_index(end),
    {
        let (s, e) = bound_ends(start, end);
        RangeWrapper { start: s, end: e }
    }

    /// What stays of `self` left and right of the given range.
    pub fn cut(&self, start: Bound, end: Bound) -> (r: [Option<RangeWrapper>; 2])
        requires
            valid_bounds(start, end),
        ensures
            span_of(r[0]) == cut_spec(self@, Span { start: start_index(start) as usize, end: end_index(end) as usize }).0,
            span_of(r[1]) == cut_spec(self@, Span { start: start_index(start) as usize, end: end_index(end) as usize }).1,
    {
        proof {
            use_type_invariant(self);
        }
        let (s, e) = bound_ends(start, end);
        let c = Span { start: self.start, end: self.end }.cut(Span { start: s, end: e });
        [Self::from_opt(c[0]), Self::from_opt(c[1])]
    }

    /// The positions both ranges hold.
    pub fn intersection(&self, start: Bound, end: Bound) -> (r: Option<RangeWrapper>)
        requires
            valid_bounds(start, end),
        ensures
            span_of(r) == intersection_spec(self@, Span { start: start_index(start) as usize, end: end_index(end) as usize }),
    {
        proof {
            use_type_invariant(self);
        }
        let (s, e) = bound_ends(start, end);
        let i = Span { start: self.start, end: self.end }.intersection(Span { start: s, end: e });
        Self::from_opt(i)
    }

    /// `self` and the given range split into three parts, see
    /// [`split_to_3_spec`](crate::text::mask::range::split_to_3_spec).
    pub fn split_to_3(&self, start: Bound, end: Bound) -> (r: [Option<RangeWrapper>; 3])
        requires
            valid_bounds(start, end),
            self@.start == start_index(start) ==> len_spec(self@) <= usize::MAX && end_index(end) - start_index(start) + 1 <= usize::MAX,
        ensures
            span_of(r[0]) == split_to_3_spec(self@, Span { start: start_index(start) as usize, end: end_index(end) as usize }).0,
            span_of(r[1]) == split_to_3_spec(self@, Span { start: start_index(start) as usize, end: end_index(end) as usize }).1,
            span_of(r[2]) == split_to_3_spec(self@, Span { start: start_index(start) as usize, end: end_index(end) as usize }).2,
    {
        proof {
            use_type_invariant(self);
        }
        let (s, e) = bound_ends(start, end);
        let p = Span { start: self.start, end: self.end }.split_to_3(Span { start: s, end: e });
        [Self::from_opt(p[0]), Self::from_opt(p[1]), Self::from_opt(p[2])]
    }

    /// Whether the ranges share a position.
    pub fn overlap_with(&self, start: Bound, end: Bound) -> (r: bool)
        requires
            valid_bounds(start, end),
        ensures
            r == overlap(self@, Span { start: start_index(start) as usize, end: end_index(end) as usize }),
    {
        let (s, e) = bound_ends(start, end);
        self.start <= e && s <= self.end
    }

    #[verifier::when_used_as_spec(spec_start)]
    pub fn start(&self) -> (r: usize)
        ensures
            r == self@.start,
    {
        self.start
    }

    #[verifier::when_used_as_spec(spec_end)]
    pub fn end(&self) -> (r: usize)
        ensures
            r == self@.end,
    {
        self.end
    }

    /// The first position, as used in contracts.
    pub closed spec fn spec_start(&self) -> usize {
        self.start
    }

    /// The last position, as used in contracts.
    pub closed spec fn spec_end(&self) -> usize {
        self.end
    }

    /// The range as `start..=end`.
    pub fn range(&self) -> (r: RangeInclusive<usize>)
        ensures
            r@.start == self@.start,
            r@.end == self@.end,
            !r@.exhausted,
    {
        RangeInclusive::new(self.start, self.end)
    }

    /// Count of positions in the range.
    pub fn len(&self) -> (r: usize)
        requires
            len_spec(self@) <= usize::MAX,
        ensures
            r == len_spec(self@),
    {
        proof {
            use_type_invariant(self);
        }
        self.end - self.start + 1
    }

    /// The range moved by `rhs` positions (to the left when negative), saturating.
    pub fn shifted(self, rhs: i64) -> (r: Self)
        requires
            rhs != i64::MIN,
        ensures
            rhs >= 0 ==> r@ == (Span { start: sat_add(self@.start, rhs as usize), end: sat_add(self@.end, rhs as usize) }),
            rhs < 0 ==> r@ == (Span { start: sat_sub(self@.start, (-rhs) as usize), end: sat_sub(self@.end, (-rhs) as usize) }),
    {
        proof {
            use_type_invariant(&self);
        }
        if rhs < 0 {
            let d = (-rhs) as usize;
            RangeWrapper { start: self.start.saturating_sub(d), end: self.end.saturating_sub(d) }
        } else {
            let d = rhs as usize;
            RangeWrapper { start: self.start.saturating_add(d), end: self.end.saturating_add(d) }
        }
    }
}

impl core::ops::AddAssign<usize> for RangeWrapper {
    fn add_assign(&mut self, rhs: usize)
        ensures
            final(self)@ == (Span { start: sat_add(old(self)@.start, rhs), end: sat_add(old(self)@.end, rhs) }),
    {
        proof {
            use_type_invariant(&*self);
        }
        let start = self.start.saturating_add(rhs);
        let end = self.end.saturating_add(rhs);
        *self = RangeWrapper { start, end };
    }
}

impl core::ops::SubAssign<usize> for RangeWrapper {
    fn sub_assign(&mut self, rhs: usize)
        ensures
            final(self)@ == (Span { start: sat_sub(old(self)@.start, rhs), end: sat_sub(old(self)@.end, rhs) }),
    {
        proof {
            use_type_invariant(&*self);
        }
        let start = self.start.saturating_sub(rhs);
        let end = self.end.saturating_sub(rhs);
        *self = RangeWrapper { start, end };
    }
}

impl core::ops::Add<usize> for RangeWrapper {
    type Output = RangeWrapper;

    /// The range moved right by `rhs` positions, saturating.
    fn add(self, rhs: usize) -> (r: RangeWrapper)
        ensures
            r@ == (Span { start: sat_add(self@.start, rhs), end: sat_add(self@.end, rhs) }),
    {
        proof {
            use_type_invariant(&self);
        }
        RangeWrapper { start: self.start.saturating_add(rhs), end: self.end.saturating_add(rhs) }
    }
}

impl vstd::std_specs::ops::AddSpecImpl<usize> for RangeWrapper {
    open spec fn obeys_add_spec() -> bool {
        true
    }

    open spec fn add_req(self, rhs: usize) -> bool {
        true
    }

    closed spec fn add_spec(self, rhs: usize) -> RangeWrapper {
        RangeWrapper { start: sat_add(self.start, rhs), end: sat_add(self.end, rhs) }
    }
}

impl core::ops::Sub<usize> for RangeWrapper {
    type Output = RangeWrapper;

    /// The range moved left by `rhs` positions, saturating.
    fn sub(self, rhs: usize) -> (r: RangeWrapper)
        ensures
            r@ == (Span { start: sat_sub(self@.start, rhs), end: sat_sub(self@.end, rhs) }),
    {
        proof {
            use_type_invariant(&self);
        }
        RangeWrapper { start: self.start.saturating_sub(rhs), end: self.end.saturating_sub(rhs) }
    }
}

impl vstd::std_specs::ops::SubSpecImpl<usize> for RangeWrapper {
    open spec fn obeys_sub_spec() -> bool {
        true
    }

    open spec fn sub_req(self, rhs: usize) -> bool {
        true
    }

    closed spec fn sub_spec(self, rhs: usize) -> RangeWrapper {
        RangeWrapper { start: sat_sub(self.start, rhs), end: sat_sub(self.end, rhs) }
    }
}

} // verus!
