use vstd::prelude::*;

pub mod laws;
pub mod lemmas;
pub mod range;
pub mod spec;
mod store;

use core::marker::PhantomData;
use std::collections::BTreeMap;

use crate::text::style::Style;
use lemmas::{lemma_add_from_wf, lemma_clip_concat, lemma_clip_proper, lemma_remove_wf, starts_from};
use range::{overlap, proper, sat_add, sat_sub, Range};
use store::{entries, lemma_entries_len, lemma_entries_unique, read_styles, store_styles};
use spec::{
    add_all, add_from, add_spec, all_proper, clip_spec, cut_pieces, info, remove_all,
    remove_range_spec, remove_spec, wf,
};

verus! {

/// A style for a range of grapheme positions.
#[derive(Debug, Clone, Copy, PartialEq, Eq, Structural)]
pub struct StyleInfo {
    pub range: Range,
    pub style: Style,
}

impl StyleInfo {
    pub fn new(range: Range, style: Style) -> (r: Self)
        ensures
            r.range == range,
            r.style == style,
    {
        Self { range, style }
    }
}

/// Styles for grapheme positions: ranges in ascending order that never overlap, each with
/// its style. Each style is kept in a map under the first and last position of its range.
#[derive(Debug, PartialEq, Eq, Hash)]
pub struct Mask {
    data: BTreeMap<(usize, usize), Style>,
}

impl View for Mask {
    type V = Seq<StyleInfo>;

    /// The styled ranges in ascending order: the one well-formed sequence whose entries the map
    /// holds.
    closed spec fn view(&self) -> Seq<StyleInfo> {
        choose|s: Seq<StyleInfo>| wf(s) && entries(s) == self.data@
    }
}

/// The styled ranges of `es`, each moved up by `d` (saturating at `usize::MAX`).
pub open spec fn shift_up(es: Seq<StyleInfo>, d: usize) -> Seq<StyleInfo> {
    Seq::new(
        es.len(),
        |i: int|
            StyleInfo {
                range: Range { start: sat_add(es[i].range.start, d), end: sat_add(es[i].range.end, d) },
                style: es[i].style,
            },
    )
}

/// The styled ranges of `es`, each moved down by `d` (saturating at 0).
pub open spec fn shift_down(es: Seq<StyleInfo>, d: usize) -> Seq<StyleInfo> {
    Seq::new(
        es.len(),
        |i: int|
            StyleInfo {
                range: Range { start: sat_sub(es[i].range.start, d), end: sat_sub(es[i].range.end, d) },
                style: es[i].style,
            },
    )
}

/// What [`Mask::shift_add`] makes of `s`.
pub open spec fn shift_add_spec(s: Seq<StyleInfo>, r: Range, d: usize) -> Seq<StyleInfo> {
    let moved = clip_spec(s, r);
    add_all(remove_all(s, moved), shift_up(moved, d))
}

/// What [`Mask::shift_sub`] makes of `s`.
pub open spec fn shift_sub_spec(s: Seq<StyleInfo>, r: Range, d: usize) -> Seq<StyleInfo> {
    let moved = clip_spec(s, r);
    add_all(remove_all(s, moved), shift_down(moved, d))
}

impl Mask {
    #[verifier::type_invariant]
    spec fn inv(self) -> bool {
        exists|s: Seq<StyleInfo>| wf(s) && entries(s) == self.data@
    }

    /// The styled ranges, in ascending order.
    fn styles(&self) -> (r: Vec<StyleInfo>)
        ensures
            r@ == self@,
            wf(r@),
    {
        proof {
            use_type_invariant(self);
        }
        read_styles(&self.data, Ghost(self@))
    }

    /// The mask holding the styled ranges `v`.
    fn from_styles(v: Vec<StyleInfo>) -> (r: Self)
        requires
            wf(v@),
        ensures
            r@ == v@,
    {
        let data = store_styles(&v);
        let r = Mask { data };
        proof {
            let s = r@;
            assert(wf(s) && entries(s) == data@);
            lemma_entries_unique(s, v@);
        }
        r
    }

    /// Every mask is well-formed.
    pub fn lemma_wf(&self)
        ensures
            wf(self@),
    {
        proof {
            use_type_invariant(self);
        }
    }

    pub fn new() -> (r: Self)
        ensures
            r@ == Seq::<StyleInfo>::empty(),
    {
        Self::from_styles(Vec::new())
    }

    /// Add style for the `range`.
    ///
    /// It merges all styles for overlaping ranges: inside `range` every existing style is
    /// merged with `style`, positions without a style get `style`.
    pub fn add(&mut self, range: Range, style: Style)
        requires
            proper(range),
        ensures
            final(self)@ == add_spec(old(self)@, range, style),
    {
        self.add_inner(range, style);
    }

    #[verifier::rlimit(60)]
    fn add_inner(&mut self, range: Range, style: Style)
        requires
            proper(range),
        ensures
            final(self)@ == add_spec(old(self)@, range, style),
    {
        proof {
            use_type_invariant(&*self);
        }
        let data = self.styles();
        let ghost s = data@;
        let n = data.len();
        let hi = range.end;
        let mut lo = range.start;
        let mut done = false;
        let mut out: Vec<StyleInfo> = Vec::new();
        let mut i: usize = 0;
        assert(s.subrange(0, n as int) =~= s);
        while i < n
            invariant
                s == data@,
                wf(s),
                n == s.len(),
                i <= n,
                hi == range.end,
                !done ==> lo <= hi,
                out@ + add_from(s.subrange(i as int, n as int), if done { hi + 1 } else { lo as int }, hi as int, style)
                    == add_from(s, range.start as int, range.end as int, style),
            decreases n - i,
        {
            let x = data[i];
            let ghost glo: int = if done { hi + 1 } else { lo as int };
            let ghost sub = s.subrange(i as int, n as int);
            let ghost next = s.subrange(i + 1, n as int);
            assert(sub[0] == x);
            assert(sub.drop_first() =~= next);
            let ghost before = out@;
            if done || x.range.end < lo {
                out.push(x);
                assert(out@ + add_from(next, glo, hi as int, style) =~= before + add_from(sub, glo, hi as int, style));
            } else if x.range.start > hi {
                let gap = StyleInfo { range: Range { start: lo, end: hi }, style };
                out.push(gap);
                out.push(x);
                done = true;
                assert(add_from(sub, glo, hi as int, style) == seq![info(lo as int, hi as int, style)] + sub);
                assert(info(lo as int, hi as int, style) == gap);
                assert(out@ + add_from(next, hi + 1, hi as int, style) =~= before + add_from(sub, glo, hi as int, style));
            } else {
                if x.range.start < lo {
                    out.push(StyleInfo { range: Range { start: x.range.start, end: lo - 1 }, style: x.style });
                }
                if lo < x.range.start {
                    out.push(StyleInfo { range: Range { start: lo, end: x.range.start - 1 }, style });
                }
                let mid_start = if x.range.start < lo { lo } else { x.range.start };
                let mid_end = if x.range.end < hi { x.range.end } else { hi };
                out.push(StyleInfo { range: Range { start: mid_start, end: mid_end }, style: x.style.merge(style) });
                if x.range.end > hi {
                    out.push(StyleInfo { range: Range { start: hi + 1, end: x.range.end }, style: x.style });
                }
                let ghost new_lo = x.range.end + 1;
                if x.range.end >= hi {
                    done = true;
                    assert(add_from(next, new_lo, hi as int, style) == next);
                    assert(add_from(next, hi + 1, hi as int, style) == next);
                } else {
                    lo = x.range.end + 1;
                }
                assert(out@ + add_from(next, if done { hi + 1 } else { lo as int }, hi as int, style)
                    =~= before + add_from(sub, glo, hi as int, style));
            }
            i += 1;
        }
        let ghost glo: int = if done { hi + 1 } else { lo as int };
        assert(s.subrange(n as int, n as int) =~= Seq::<StyleInfo>::empty());
        if !done {
            out.push(StyleInfo { range: Range { start: lo, end: hi }, style });
            assert(out@ =~= add_from(s, range.start as int, range.end as int, style));
        } else {
            assert(out@ =~= add_from(s, range.start as int, range.end as int, style));
        }
        proof {
            lemma_add_from_wf(s, range.start as int, range.end as int, style, 0);
        }
        *self = Self::from_styles(out);
    }

    /// Remove the style whose range is exactly `range`.
    ///
    /// A range that is only a part of a bigger one is left as it is; possibly you want
    /// [`remove`](Self::remove).
    pub fn remove_range(&mut self, range: Range)
        ensures
            final(self)@ == remove_range_spec(old(self)@, range),
    {
        proof {
            use_type_invariant(&*self);
        }
        let data = self.styles();
        let ghost s = data@;
        let n = data.len();
        let mut i: usize = 0;
        while i < n
            invariant
                s == data@,
                wf(s),
                n == s.len(),
                i <= n,
                forall|j: int| 0 <= j < i ==> #[trigger] s[j].range != range,
                s == old(self)@,
                self@ == s,
            decreases n - i,
        {
            let r = data[i].range;
            if r.start == range.start && r.end == range.end {
                proof {
                    assert(s[i as int].range == range);
                    assert(exists|j: int| 0 <= j < s.len() && #[trigger] s[j].range == range);
                    let k = choose|k: int| 0 <= k < s.len() && #[trigger] s[k].range == range;
                    assert(k == i) by {
                        assert(proper(s[i as int].range));
                        if k < i {
                            assert(s[k].range.end < s[i as int].range.start);
                        } else if k > i {
                            assert(s[i as int].range.end < s[k].range.start);
                        }
                    }
                    assert(remove_range_spec(s, range) == s.remove(i as int));
                    let t = s.remove(i as int);
                    assert forall|a: int, b: int| 0 <= a < b < t.len() implies #[trigger] t[a].range.end
                        < #[trigger] t[b].range.start by {
                        let a2 = if a < i { a } else { a + 1 };
                        let b2 = if b < i { b } else { b + 1 };
                        assert(t[a] == s[a2] && t[b] == s[b2]);
                    }
                    assert forall|a: int| 0 <= a < t.len() implies proper(#[trigger] t[a].range) by {
                        let a2 = if a < i { a } else { a + 1 };
                        assert(t[a] == s[a2]);
                    }
                }
                let mut left = data.clone();
                assert(left@ =~= s);
                left.remove(i);
                *self = Self::from_styles(left);
                return;
            }
            i += 1;
        }
    }

    /// Remove all styles for the `range`.
    ///
    /// Unlike [`remove_range`][Self::remove_range] it removes all intersections
    /// with `range` of bigger ranges.
    pub fn remove(&mut self, range: Range)
        requires
            proper(range),
        ensures
            final(self)@ == remove_spec(old(self)@, range),
    {
        proof {
            use_type_invariant(&*self);
        }
        let data = self.styles();
        let ghost s = data@;
        let n = data.len();
        let mut out: Vec<StyleInfo> = Vec::new();
        let mut i: usize = 0;
        assert(s.subrange(0, n as int) =~= s);
        while i < n
            invariant
                s == data@,
                n == s.len(),
                i <= n,
                out@ + remove_spec(s.subrange(i as int, n as int), range) == remove_spec(s, range),
            decreases n - i,
        {
            let x = data[i];
            let ghost sub = s.subrange(i as int, n as int);
            let ghost next = s.subrange(i + 1, n as int);
            assert(sub[0] == x);
            assert(sub.drop_first() =~= next);
            let ghost before = out@;
            let cut = x.range.cut(range);
            if let Some(left) = cut[0] {
                out.push(StyleInfo { range: left, style: x.style });
            }
            if let Some(right) = cut[1] {
                out.push(StyleInfo { range: right, style: x.style });
            }
            assert(out@ =~= before + cut_pieces(x, range));
            assert(out@ + remove_spec(next, range) =~= before + remove_spec(sub, range));
            i += 1;
        }
        assert(s.subrange(n as int, n as int) =~= Seq::<StyleInfo>::empty());
        assert(out@ =~= remove_spec(s, range));
        proof {
            lemma_remove_wf(s, range, 0);
        }
        *self = Self::from_styles(out);
    }

    /// Gets an iterator that visits the elements in the `Mask` in ascending order.
    pub fn iter(&self) -> (r: Iter<'_>)
        ensures
            r.remaining() == self@,
    {
        Iter::new(self.styles())
    }

    /// Gets an iterator over a sub-range of styles. Iterator will yield all styles for
    /// specified `range`, each clipped to it.
    pub fn range(&self, range: Range) -> (r: RangeIter<'_>)
        ensures
            r.remaining() == clip_spec(self@, range),
            r.bounds() == range,
    {
        let styles = self.styles();
        let ghost all = styles@;
        let r = RangeIter::new(styles, range.start, range.end);
        assert(all.subrange(0, all.len() as int) =~= all);
        r
    }

    /// The styled ranges in ascending order.
    pub fn into_vec(self) -> (r: Vec<StyleInfo>)
        ensures
            r@ == self@,
    {
        self.styles()
    }

    /// Removes every style.
    pub fn clear(&mut self)
        ensures
            final(self)@ == Seq::<StyleInfo>::empty(),
    {
        *self = Self::new();
    }

    /// Count of styled ranges.
    pub fn len(&self) -> (r: usize)
        ensures
            r == self@.len(),
    {
        proof {
            use_type_invariant(self);
            lemma_entries_len(self@);
        }
        self.data.len()
    }

    pub fn is_empty(&self) -> (r: bool)
        ensures
            r == (self@.len() == 0),
    {
        self.len() == 0
    }

    /// Adds every styled range of `items`, in order.
    pub fn extend(&mut self, items: Vec<StyleInfo>)
        requires
            all_proper(items@),
        ensures
            final(self)@ == add_all(old(self)@, items@),
    {
        let n = items.len();
        let mut i: usize = 0;
        assert(items@.subrange(0, n as int) =~= items@);
        while i < n
            invariant
                n == items@.len(),
                i <= n,
                all_proper(items@),
                add_all(self@, items@.subrange(i as int, n as int)) == add_all(old(self)@, items@),
            decreases n - i,
        {
            let x = items[i];
            let ghost sub = items@.subrange(i as int, n as int);
            assert(sub[0] == x);
            assert(sub.drop_first() =~= items@.subrange(i + 1, n as int));
            assert(proper(items@[i as int].range));
            self.add(x.range, x.style);
            i += 1;
        }
        assert(items@.subrange(n as int, n as int) =~= Seq::<StyleInfo>::empty());
    }

    /// Moves the styles in `range` up by `delta` positions.
    ///
    /// The styles in `range` are clipped to it, cleared there, and added again `delta`
    /// positions further, merging with what is there.
    pub fn shift_add(&mut self, range: Range, delta: usize)
        requires
            proper(range),
        ensures
            final(self)@ == shift_add_spec(old(self)@, range, delta),
    {
        let moved = self.collect_range(range);
        let ghost m = moved@;
        self.remove_each(&moved);
        let n = moved.len();
        let mut shifted: Vec<StyleInfo> = Vec::new();
        let mut i: usize = 0;
        while i < n
            invariant
                n == m.len(),
                m == moved@,
                i <= n,
                all_proper(m),
                shifted@ =~= shift_up(m, delta).take(i as int),
            decreases n - i,
        {
            let x = moved[i];
            shifted.push(StyleInfo { range: x.range + delta, style: x.style });
            i += 1;
        }
        assert(shifted@ =~= shift_up(m, delta));
        assert(all_proper(shifted@)) by {
            assert forall|k: int| 0 <= k < shifted@.len() implies proper(#[trigger] shifted@[k].range) by {
                assert(proper(m[k].range));
            }
        }
        self.extend(shifted);
    }

    /// Moves the styles in `range` down by `delta` positions.
    ///
    /// The styles in `range` are clipped to it, cleared there, and added again `delta`
    /// positions before, merging with what is there.
    pub fn shift_sub(&mut self, range: Range, delta: usize)
        requires
            proper(range),
        ensures
            final(self)@ == shift_sub_spec(old(self)@, range, delta),
    {
        let moved = self.collect_range(range);
        let ghost m = moved@;
        self.remove_each(&moved);
        let n = moved.len();
        let mut shifted: Vec<StyleInfo> = Vec::new();
        let mut i: usize = 0;
        while i < n
            invariant
                n == m.len(),
                m == moved@,
                i <= n,
                all_proper(m),
                shifted@ =~= shift_down(m, delta).take(i as int),
            decreases n - i,
        {
            let x = moved[i];
            shifted.push(StyleInfo { range: x.range - delta, style: x.style });
            i += 1;
        }
        assert(shifted@ =~= shift_down(m, delta));
        assert(all_proper(shifted@)) by {
            assert forall|k: int| 0 <= k < shifted@.len() implies proper(#[trigger] shifted@[k].range) by {
                assert(proper(m[k].range));
            }
        }
        self.extend(shifted);
    }

    /// The styles in `range`, clipped to it, in ascending order.
    fn collect_range(&self, range: Range) -> (r: Vec<StyleInfo>)
        requires
            proper(range),
        ensures
            r@ == clip_spec(self@, range),
            all_proper(r@),
    {
        proof {
            use_type_invariant(self);
            lemma_clip_proper(self@, range);
        }
        let mut it = self.range(range);
        let mut out: Vec<StyleInfo> = Vec::new();
        loop
            invariant
                out@ + it.remaining() == clip_spec(self@, range),
            ensures
                out@ == clip_spec(self@, range),
            decreases it.remaining().len(),
        {
            let ghost before = out@;
            let ghost rem = it.remaining();
            match it.next() {
                Some(x) => {
                    out.push(x);
                    assert(out@ + it.remaining() =~= before + rem);
                },
                None => {
                    assert(out@ =~= out@ + rem);
                    break;
                },
            }
        }
        out
    }

    /// Clears the range of every entry of `items`, in order.
    fn remove_each(&mut self, items: &Vec<StyleInfo>)
        requires
            all_proper(items@),
        ensures
            final(self)@ == remove_all(old(self)@, items@),
    {
        let n = items.len();
        let mut i: usize = 0;
        assert(items@.subrange(0, n as int) =~= items@);
        while i < n
            invariant
                n == items@.len(),
                i <= n,
                all_proper(items@),
                remove_all(self@, items@.subrange(i as int, n as int)) == remove_all(old(self)@, items@),
            decreases n - i,
        {
            let x = items[i];
            let ghost sub = items@.subrange(i as int, n as int);
            assert(sub[0] == x);
            assert(sub.drop_first() =~= items@.subrange(i + 1, n as int));
            assert(proper(items@[i as int].range));
            self.remove(x.range);
            i += 1;
        }
        assert(items@.subrange(n as int, n as int) =~= Seq::<StyleInfo>::empty());
    }
}

/// An iterator over the items of `Mask`.
///
/// This struct is created by the [`iter`](Mask::iter) method on [`Mask`](Mask).
pub struct Iter<'a> {
    inner: Vec<StyleInfo>,
    front: usize,
    back: usize,
    mask: PhantomData<&'a Mask>,
}

impl<'a> Iter<'a> {
    #[verifier::type_invariant]
    spec fn inv(self) -> bool {
        self.front <= self.back <= self.inner@.len()
    }

    /// The styled ranges still to be yielded, front to back.
    pub closed spec fn remaining(&self) -> Seq<StyleInfo> {
        self.inner@.subrange(self.front as int, self.back as int)
    }

    fn new(inner: Vec<StyleInfo>) -> (r: Self)
        ensures
            r.remaining() == inner@,
    {
        let ghost all = inner@;
        let back = inner.len();
        let r = Self { inner, front: 0, back, mask: PhantomData };
        assert(all.subrange(0, all.len() as int) =~= all);
        r
    }

    /// The next styled range from the front.
    pub fn next(&mut self) -> (r: Option<StyleInfo>)
        ensures
            old(self).remaining().len() == 0 ==> r is None && final(self).remaining() == old(self).remaining(),
            old(self).remaining().len() > 0 ==> r == Some(old(self).remaining()[0])
                && final(self).remaining() == old(self).remaining().drop_first(),
    {
        proof {
            use_type_invariant(&*self);
        }
        if self.front < self.back {
            let x = self.inner[self.front];
            self.front = self.front + 1;
            assert(self.remaining() =~= old(self).remaining().drop_first());
            Some(x)
        } else {
            None
        }
    }

    /// The next styled range from the back.
    pub fn next_back(&mut self) -> (r: Option<StyleInfo>)
        ensures
            old(self).remaining().len() == 0 ==> r is None && final(self).remaining() == old(self).remaining(),
            old(self).remaining().len() > 0 ==> r == Some(old(self).remaining().last())
                && final(self).remaining() == old(self).remaining().drop_last(),
    {
        proof {
            use_type_invariant(&*self);
        }
        if self.front < self.back {
            self.back = self.back - 1;
            let x = self.inner[self.back];
            assert(self.remaining() =~= old(self).remaining().drop_last());
            Some(x)
        } else {
            None
        }
    }

    /// Exact count of the styled ranges left, as lower and upper bound.
    pub fn size_hint(&self) -> (r: (usize, Option<usize>))
        ensures
            r.0 == self.remaining().len(),
            r.1 == Some(self.remaining().len() as usize),
    {
        proof {
            use_type_invariant(self);
        }
        let n = self.back - self.front;
        (n, Some(n))
    }

    /// The last styled range.
    pub fn last(self) -> (r: Option<StyleInfo>)
        ensures
            r == (if self.remaining().len() > 0 { Some(self.remaining().last()) } else { None }),
    {
        let mut it = self;
        it.next_back()
    }

    /// The styled range with the smallest positions: the first.
    pub fn min(self) -> (r: Option<StyleInfo>)
        ensures
            r == (if self.remaining().len() > 0 { Some(self.remaining()[0]) } else { None }),
    {
        let mut it = self;
        it.next()
    }

    /// The styled range with the largest positions: the last.
    pub fn max(self) -> (r: Option<StyleInfo>)
        ensures
            r == (if self.remaining().len() > 0 { Some(self.remaining().last()) } else { None }),
    {
        let mut it = self;
        it.next_back()
    }
}

impl<'a> Clone for Iter<'a> {
    fn clone(&self) -> (r: Self)
        ensures
            r.remaining() == self.remaining(),
    {
        proof {
            use_type_invariant(self);
        }
        let inner = self.inner.clone();
        assert(inner@ =~= self.inner@);
        Iter { inner, front: self.front, back: self.back, mask: PhantomData }
    }
}

/// An iterator over the items of `Mask`.
///
/// This struct is created by the [`range`](Mask::range) method on [`Mask`](Mask).
pub struct RangeIter<'a> {
    inner: Vec<StyleInfo>,
    mask: PhantomData<&'a Mask>,
    front: usize,
    back: usize,
    start: usize,
    end: usize,
}

impl<'a> RangeIter<'a> {
    #[verifier::type_invariant]
    spec fn inv(self) -> bool {
        self.front <= self.back <= self.inner@.len()
    }

    /// The range the styles are clipped to.
    pub closed spec fn bounds(&self) -> Range {
        Range { start: self.start, end: self.end }
    }

    /// The clipped styles still to be yielded, front to back.
    pub closed spec fn remaining(&self) -> Seq<StyleInfo> {
        clip_spec(self.inner@.subrange(self.front as int, self.back as int), self.bounds())
    }

    fn new(inner: Vec<StyleInfo>, start: usize, end: usize) -> (r: Self)
        ensures
            r.remaining() == clip_spec(inner@.subrange(0, inner@.len() as int), Range { start, end }),
            r.bounds() == (Range { start, end }),
    {
        let back = inner.len();
        Self { inner, mask: PhantomData, front: 0, back, start, end }
    }

    /// `range` clipped to the bounds of the iterator.
    fn process_inner(&self, range: &Range, style: &Style) -> (r: StyleInfo)
        requires
            overlap(*range, self.bounds()),
        ensures
            r == info(
                if range.start < self.bounds().start { self.bounds().start as int } else { range.start as int },
                if range.end > self.bounds().end { self.bounds().end as int } else { range.end as int },
                *style,
            ),
    {
        let start = if range.start < self.start { self.start } else { range.start };
        let end = if range.end > self.end { self.end } else { range.end };
        StyleInfo { range: Range { start, end }, style: *style }
    }

    /// The next clipped style from the front.
    pub fn next(&mut self) -> (r: Option<StyleInfo>)
        ensures
            final(self).bounds() == old(self).bounds(),
            old(self).remaining().len() == 0 ==> r is None && final(self).remaining() == old(self).remaining(),
            old(self).remaining().len() > 0 ==> r == Some(old(self).remaining()[0])
                && final(self).remaining() == old(self).remaining().drop_first(),
    {
        proof {
            use_type_invariant(&*self);
        }
        let ghost target = self.remaining();
        assert(target == old(self).remaining());
        while self.front < self.back
            invariant
                self.front <= self.back <= self.inner@.len(),
                self.remaining() == target,
                target == old(self).remaining(),
                self.bounds() == old(self).bounds(),
            decreases self.back - self.front,
        {
            let ghost sub = self.inner@.subrange(self.front as int, self.back as int);
            let x = self.inner[self.front];
            assert(sub[0] == x);
            assert(sub.drop_first() =~= self.inner@.subrange(self.front + 1, self.back as int));
            self.front = self.front + 1;
            if x.range.intersects_with(Range { start: self.start, end: self.end }) {
                let r = self.process_inner(&x.range, &x.style);
                assert(target == seq![r] + self.remaining());
                assert(self.remaining() =~= target.drop_first());
                assert(target.len() > 0 && target[0] == r);
                return Some(r);
            }
        }
        assert(self.inner@.subrange(self.front as int, self.back as int) =~= Seq::<StyleInfo>::empty());
        None
    }

    /// The next clipped style from the back.
    pub fn next_back(&mut self) -> (r: Option<StyleInfo>)
        ensures
            final(self).bounds() == old(self).bounds(),
            old(self).remaining().len() == 0 ==> r is None && final(self).remaining() == old(self).remaining(),
            old(self).remaining().len() > 0 ==> r == Some(old(self).remaining().last())
                && final(self).remaining() == old(self).remaining().drop_last(),
    {
        proof {
            use_type_invariant(&*self);
        }
        let ghost target = self.remaining();
        assert(target == old(self).remaining());
        while self.front < self.back
            invariant
                self.front <= self.back <= self.inner@.len(),
                self.remaining() == target,
                target == old(self).remaining(),
                self.bounds() == old(self).bounds(),
            decreases self.back - self.front,
        {
            let ghost sub = self.inner@.subrange(self.front as int, self.back as int);
            let ghost init = self.inner@.subrange(self.front as int, self.back - 1);
            let x = self.inner[self.back - 1];
            assert(sub =~= init + seq![x]);
            proof {
                lemma_clip_concat(init, seq![x], self.bounds());
                assert(seq![x].drop_first() =~= Seq::<StyleInfo>::empty());
                assert(seq![x][0] == x);
                assert(clip_spec(Seq::<StyleInfo>::empty(), self.bounds()) == Seq::<StyleInfo>::empty());
            }
            self.back = self.back - 1;
            assert(self.inner@.subrange(self.front as int, self.back as int) == init);
            if x.range.intersects_with(Range { start: self.start, end: self.end }) {
                let r = self.process_inner(&x.range, &x.style);
                assert(clip_spec(seq![x], self.bounds()) =~= seq![r]);
                assert(target =~= self.remaining() + seq![r]);
                assert(self.remaining() =~= target.drop_last());
                return Some(r);
            }
            assert(clip_spec(seq![x], self.bounds()) =~= Seq::<StyleInfo>::empty());
            assert(target =~= self.remaining());
        }
        assert(self.inner@.subrange(self.front as int, self.back as int) =~= Seq::<StyleInfo>::empty());
        None
    }
}

impl Default for Mask {
    /// A mask with no style.
    fn default() -> (r: Self)
        ensures
            r@ == Seq::<StyleInfo>::empty(),
    {
        Self::new()
    }
}

impl Clone for Mask {
    fn clone(&self) -> (r: Self)
        ensures
            r@ == self@,
    {
        proof {
            use_type_invariant(self);
        }
        let data = self.data.clone();
        let r = Mask { data };
        assert(r@ == self@);
        r
    }
}

} // verus!
