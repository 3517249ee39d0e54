//! The mathematical model of a [`Mask`](super::Mask): a sequence of styled ranges, and what
//! each operation makes of it.

use vstd::prelude::*;

use super::range::{cut_spec, holds, overlap, proper, span, Range};
use super::StyleInfo;
use crate::text::style::Style;

verus! {

/// The ranges are proper, in ascending order and pairwise disjoint.
pub open spec fn wf(s: Seq<StyleInfo>) -> bool {
    &&& forall|i: int| 0 <= i < s.len() ==> proper(#[trigger] s[i].range)
    &&& forall|i: int, j: int| 0 <= i < j < s.len() ==> #[trigger] s[i].range.end < #[trigger] s[j].range.start
}

/// The styled range `[start, end]`.
pub open spec fn info(start: int, end: int, style: Style) -> StyleInfo {
    StyleInfo { range: span(start, end), style }
}

/// The style a position had, merged with `style`; the bare `style` where there was none.
pub open spec fn merged_at(old: Option<Style>, style: Style) -> Style {
    match old {
        Some(s) => s.spec_merge(style),
        None => style,
    }
}

/// `s` with `style` added over the positions `[lo, hi]`, none of which lies in a range of
/// `s` that comes before the first range of `s` reaching `lo`. Existing ranges are cut at
/// `lo` and `hi`: their parts inside get the merged style, their parts outside keep theirs,
/// and each stretch of `[lo, hi]` that no range holds becomes a range of its own with
/// `style`. When `lo > hi` nothing is left to add.
pub open spec fn add_from(s: Seq<StyleInfo>, lo: int, hi: int, style: Style) -> Seq<StyleInfo>
    decreases s.len(),
{
    if lo > hi {
        s
    } else if s.len() == 0 {
        seq![info(lo, hi, style)]
    } else {
        let r = s[0];
        let rest = s.drop_first();
        if r.range.end < lo {
            seq![r] + add_from(rest, lo, hi, style)
        } else if r.range.start > hi {
            seq![info(lo, hi, style)] + s
        } else {
            let left_old: Seq<StyleInfo> = if r.range.start < lo {
                seq![info(r.range.start as int, lo - 1, r.style)]
            } else {
                seq![]
            };
            let gap: Seq<StyleInfo> = if lo < r.range.start {
                seq![info(lo, r.range.start - 1, style)]
            } else {
                seq![]
            };
            let mid = info(
                if r.range.start < lo { lo } else { r.range.start as int },
                if r.range.end < hi { r.range.end as int } else { hi },
                r.style.spec_merge(style),
            );
            let right_old: Seq<StyleInfo> = if r.range.end > hi {
                seq![info(hi + 1, r.range.end as int, r.style)]
            } else {
                seq![]
            };
            left_old + gap + seq![mid] + right_old + add_from(rest, r.range.end + 1, hi, style)
        }
    }
}

/// `s` with `style` added over the range `r`.
pub open spec fn add_spec(s: Seq<StyleInfo>, r: Range, style: Style) -> Seq<StyleInfo> {
    add_from(s, r.start as int, r.end as int, style)
}

/// The parts of one styled range left when `r` is cut out of it.
pub open spec fn cut_pieces(x: StyleInfo, r: Range) -> Seq<StyleInfo> {
    let (left, right) = cut_spec(x.range, r);
    (if left is Some { seq![StyleInfo { range: left.unwrap(), style: x.style }] } else { seq![] })
        + (if right is Some { seq![StyleInfo { range: right.unwrap(), style: x.style }] } else { seq![] })
}

/// `s` with every position of `r` cleared.
pub open spec fn remove_spec(s: Seq<StyleInfo>, r: Range) -> Seq<StyleInfo>
    decreases s.len(),
{
    if s.len() == 0 {
        seq![]
    } else {
        cut_pieces(s[0], r) + remove_spec(s.drop_first(), r)
    }
}

/// The styled ranges of `s` that share a position with `r`, each clipped to `r`.
pub open spec fn clip_spec(s: Seq<StyleInfo>, r: Range) -> Seq<StyleInfo>
    decreases s.len(),
{
    if s.len() == 0 {
        seq![]
    } else {
        let x = s[0];
        (if overlap(x.range, r) {
            seq![info(
                if x.range.start < r.start { r.start as int } else { x.range.start as int },
                if x.range.end > r.end { r.end as int } else { x.range.end as int },
                x.style,
            )]
        } else {
            seq![]
        }) + clip_spec(s.drop_first(), r)
    }
}

/// The style at position `p`, if a range of `s` holds it.
pub open spec fn style_at(s: Seq<StyleInfo>, p: int) -> Option<Style>
    decreases s.len(),
{
    if s.len() == 0 {
        None
    } else if holds(s[0].range, p) {
        Some(s[0].style)
    } else {
        style_at(s.drop_first(), p)
    }
}

/// `s` after every range of `es` was removed from it, in order.
pub open spec fn remove_all(s: Seq<StyleInfo>, es: Seq<StyleInfo>) -> Seq<StyleInfo>
    decreases es.len(),
{
    if es.len() == 0 {
        s
    } else {
        remove_all(remove_spec(s, es[0].range), es.drop_first())
    }
}

/// `s` after every styled range of `es` was added to it, in order.
pub open spec fn add_all(s: Seq<StyleInfo>, es: Seq<StyleInfo>) -> Seq<StyleInfo>
    decreases es.len(),
{
    if es.len() == 0 {
        s
    } else {
        add_all(add_spec(s, es[0].range, es[0].style), es.drop_first())
    }
}

/// Every range of `es` is proper.
pub open spec fn all_proper(es: Seq<StyleInfo>) -> bool {
    forall|i: int| 0 <= i < es.len() ==> proper(#[trigger] es[i].range)
}

/// `s` without the entry whose range is exactly `r`, if there is one.
pub open spec fn remove_range_spec(s: Seq<StyleInfo>, r: Range) -> Seq<StyleInfo> {
    if exists|i: int| 0 <= i < s.len() && #[trigger] s[i].range == r {
        s.remove(choose|i: int| 0 <= i < s.len() && #[trigger] s[i].range == r)
    } else {
        s
    }
}

} // verus!
