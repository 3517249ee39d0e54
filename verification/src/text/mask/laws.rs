//! What a mask does to the style of each position.

use vstd::prelude::*;

use super::lemmas::{ends_by, lemma_add_from_wf, lemma_remove_wf, lemma_wf_concat, lemma_wf_tail, starts_from};
use super::range::{cut_spec, holds, overlap, proper, Range};
use super::spec::{
    add_all, add_from, add_spec, all_proper, clip_spec, cut_pieces, info, merged_at, remove_all, remove_spec, style_at,
    wf,
};
use super::{shift_add_spec, shift_down, shift_sub_spec, shift_up, StyleInfo};
use crate::text::style::Style;

verus! {

/// No range starting after `p` holds it.
pub proof fn lemma_style_at_below(s: Seq<StyleInfo>, p: int)
    requires
        wf(s),
        starts_from(s, p + 1),
    ensures
        style_at(s, p) is None,
    decreases s.len(),
{
    if s.len() > 0 {
        lemma_wf_tail(s);
        lemma_style_at_below(s.drop_first(), p);
    }
}

/// The style of a position in a concatenation comes from the first part that holds it.
pub proof fn lemma_style_at_concat(a: Seq<StyleInfo>, b: Seq<StyleInfo>, p: int)
    ensures
        style_at(a + b, p) == (if style_at(a, p) is Some { style_at(a, p) } else { style_at(b, p) }),
    decreases a.len(),
{
    if a.len() == 0 {
        assert(a + b =~= b);
    } else {
        assert((a + b)[0] == a[0]);
        assert((a + b).drop_first() =~= a.drop_first() + b);
        lemma_style_at_concat(a.drop_first(), b, p);
    }
}

/// The style of a position in a single styled range.
pub proof fn lemma_style_at_one(x: StyleInfo, p: int)
    ensures
        style_at(seq![x], p) == (if holds(x.range, p) { Some(x.style) } else { None }),
{
    assert(seq![x].drop_first() =~= Seq::<StyleInfo>::empty());
    assert(seq![x][0] == x);
    assert(style_at(Seq::<StyleInfo>::empty(), p) is None);
}

/// Adding `style` over `[lo, hi]` merges it into the style of each position there, and
/// leaves every other position as it was.
pub proof fn lemma_add_from_at(s: Seq<StyleInfo>, lo: int, hi: int, style: Style, p: int)
    requires
        wf(s),
        0 <= lo,
        hi <= usize::MAX,
    ensures
        style_at(add_from(s, lo, hi, style), p) == (if lo <= p <= hi {
            Some(merged_at(style_at(s, p), style))
        } else {
            style_at(s, p)
        }),
    decreases s.len(),
{
    if lo > hi {
    } else if s.len() == 0 {
        lemma_style_at_one(info(lo, hi, style), p);
    } else {
        let r = s[0];
        let rest = s.drop_first();
        lemma_wf_tail(s);
        assert(proper(r.range));
        if r.range.end < lo {
            lemma_add_from_at(rest, lo, hi, style, p);
            lemma_style_at_concat(seq![r], add_from(rest, lo, hi, style), p);
            lemma_style_at_one(r, p);
        } else if r.range.start > hi {
            let g = info(lo, hi, style);
            lemma_style_at_concat(seq![g], s, p);
            lemma_style_at_one(g, p);
            if lo <= p <= hi {
                lemma_style_at_below(s, p);
            }
        } else {
            let left_old: Seq<StyleInfo> = if r.range.start < lo {
                seq![info(r.range.start as int, lo - 1, r.style)]
            } else {
                seq![]
            };
            let gap: Seq<StyleInfo> = if lo < r.range.start {
                seq![info(lo, r.range.start - 1, style)]
            } else {
                seq![]
            };
            let mid = info(
                if r.range.start < lo { lo } else { r.range.start as int },
                if r.range.end < hi { r.range.end as int } else { hi },
                r.style.spec_merge(style),
            );
            let right_old: Seq<StyleInfo> = if r.range.end > hi {
                seq![info(hi + 1, r.range.end as int, r.style)]
            } else {
                seq![]
            };
            let tail = add_from(rest, r.range.end + 1, hi, style);
            assert(add_from(s, lo, hi, style) == left_old + gap + seq![mid] + right_old + tail);
            lemma_add_from_at(rest, r.range.end + 1, hi, style, p);
            lemma_style_at_concat(left_old + gap + seq![mid] + right_old, tail, p);
            lemma_style_at_concat(left_old + gap + seq![mid], right_old, p);
            lemma_style_at_concat(left_old + gap, seq![mid], p);
            lemma_style_at_concat(left_old, gap, p);
            lemma_style_at_one(mid, p);
            if left_old.len() > 0 {
                lemma_style_at_one(left_old[0], p);
                assert(left_old =~= seq![left_old[0]]);
            } else {
                assert(style_at(left_old, p) is None);
            }
            if gap.len() > 0 {
                lemma_style_at_one(gap[0], p);
                assert(gap =~= seq![gap[0]]);
            } else {
                assert(style_at(gap, p) is None);
            }
            if right_old.len() > 0 {
                lemma_style_at_one(right_old[0], p);
                assert(right_old =~= seq![right_old[0]]);
            } else {
                assert(style_at(right_old, p) is None);
            }
            if p <= r.range.end {
                lemma_style_at_below(rest, p);
            }
        }
    }
}

/// Adding `style` over `range` merges it into the style of each position of `range`
/// (positions without a style get `style` itself), and leaves every other position as it
/// was.
pub proof fn law_add_style_at(s: Seq<StyleInfo>, range: Range, style: Style, p: int)
    requires
        wf(s),
        proper(range),
    ensures
        style_at(add_spec(s, range, style), p) == (if holds(range, p) {
            Some(merged_at(style_at(s, p), style))
        } else {
            style_at(s, p)
        }),
{
    lemma_add_from_at(s, range.start as int, range.end as int, style, p);
}

/// Cutting `r` out of one styled range leaves its style at the positions of the range outside
/// `r`, and no style anywhere else.
proof fn lemma_cut_pieces_at(x: StyleInfo, r: Range, p: int)
    requires
        proper(x.range),
        proper(r),
    ensures
        style_at(cut_pieces(x, r), p) == (if holds(r, p) {
            None
        } else if holds(x.range, p) {
            Some(x.style)
        } else {
            None
        }),
{
    let (left, right) = cut_spec(x.range, r);
    let lp: Seq<StyleInfo> = if left is Some { seq![StyleInfo { range: left.unwrap(), style: x.style }] } else { seq![] };
    let rp: Seq<StyleInfo> = if right is Some { seq![StyleInfo { range: right.unwrap(), style: x.style }] } else { seq![] };
    assert(cut_pieces(x, r) == lp + rp);
    lemma_style_at_concat(lp, rp, p);
    if left is Some {
        lemma_style_at_one(lp[0], p);
        assert(lp =~= seq![lp[0]]);
    } else {
        assert(style_at(lp, p) is None);
    }
    if right is Some {
        lemma_style_at_one(rp[0], p);
        assert(rp =~= seq![rp[0]]);
    } else {
        assert(style_at(rp, p) is None);
    }
}

/// Removing `range` clears the style of each of its positions and leaves every other position
/// as it was.
pub proof fn law_remove_style_at(s: Seq<StyleInfo>, range: Range, p: int)
    requires
        wf(s),
        proper(range),
    ensures
        style_at(remove_spec(s, range), p) == (if holds(range, p) { None } else { style_at(s, p) }),
    decreases s.len(),
{
    if s.len() > 0 {
        lemma_wf_tail(s);
        let rest = s.drop_first();
        law_remove_style_at(rest, range, p);
        lemma_cut_pieces_at(s[0], range, p);
        lemma_style_at_concat(cut_pieces(s[0], range), remove_spec(rest, range), p);
        if holds(s[0].range, p) && !holds(range, p) {
            lemma_style_at_below(rest, p);
        }
    }
}

/// Removing a range right after adding a style over it clears the range, and every other
/// position keeps the style it had before the add.
pub proof fn law_add_then_remove(s: Seq<StyleInfo>, range: Range, style: Style, p: int)
    requires
        wf(s),
        proper(range),
    ensures
        style_at(remove_spec(add_spec(s, range, style), range), p) == (if holds(range, p) {
            None
        } else {
            style_at(s, p)
        }),
{
    super::lemmas::lemma_add_from_wf(s, range.start as int, range.end as int, style, 0);
    law_remove_style_at(add_spec(s, range, style), range, p);
    law_add_style_at(s, range, style, p);
}

/// Clipping to `r` keeps the style of the positions of `r` and drops every other one.
proof fn lemma_clip_style_at(s: Seq<StyleInfo>, r: Range, q: int)
    ensures
        style_at(clip_spec(s, r), q) == (if holds(r, q) { style_at(s, q) } else { None }),
    decreases s.len(),
{
    if s.len() > 0 {
        let x = s[0];
        let rest = s.drop_first();
        lemma_clip_style_at(rest, r, q);
        let piece: Seq<StyleInfo> = if overlap(x.range, r) {
            seq![info(
                if x.range.start < r.start { r.start as int } else { x.range.start as int },
                if x.range.end > r.end { r.end as int } else { x.range.end as int },
                x.style,
            )]
        } else {
            seq![]
        };
        assert(clip_spec(s, r) == piece + clip_spec(rest, r));
        lemma_style_at_concat(piece, clip_spec(rest, r), q);
        if piece.len() > 0 {
            lemma_style_at_one(piece[0], q);
            assert(piece =~= seq![piece[0]]);
        } else {
            assert(style_at(piece, q) is None);
        }
    }
}

/// Clipping a well-formed sequence gives a well-formed one, that starts where it started.
proof fn lemma_clip_wf(s: Seq<StyleInfo>, r: Range, m: int)
    requires
        wf(s),
        proper(r),
        starts_from(s, m),
    ensures
        wf(clip_spec(s, r)),
        starts_from(clip_spec(s, r), m),
    decreases s.len(),
{
    if s.len() > 0 {
        let x = s[0];
        let rest = s.drop_first();
        lemma_wf_tail(s);
        lemma_clip_wf(rest, r, x.range.end + 1);
        let piece: Seq<StyleInfo> = if overlap(x.range, r) {
            seq![info(
                if x.range.start < r.start { r.start as int } else { x.range.start as int },
                if x.range.end > r.end { r.end as int } else { x.range.end as int },
                x.style,
            )]
        } else {
            seq![]
        };
        assert(clip_spec(s, r) == piece + clip_spec(rest, r));
        assert(wf(piece));
        assert(ends_by(piece, x.range.end as int));
        lemma_wf_concat(piece, clip_spec(rest, r), x.range.end + 1);
        assert(starts_from(clip_spec(s, r), m)) by {
            assert forall|k: int| 0 <= k < clip_spec(s, r).len() implies m <= #[trigger] clip_spec(s, r)[k].range.start by {
                if k >= piece.len() {
                    assert(clip_spec(s, r)[k] == clip_spec(rest, r)[k - piece.len()]);
                }
            }
        }
    }
}

/// Removing every range of `es` clears exactly the positions some range of `es` holds.
proof fn lemma_remove_all_style_at(t: Seq<StyleInfo>, es: Seq<StyleInfo>, p: int)
    requires
        wf(t),
        all_proper(es),
    ensures
        wf(remove_all(t, es)),
        style_at(remove_all(t, es), p) == (if style_at(es, p) is Some { None } else { style_at(t, p) }),
    decreases es.len(),
{
    if es.len() > 0 {
        let e = es[0];
        let t2 = remove_spec(t, e.range);
        assert(proper(e.range));
        lemma_remove_wf(t, e.range, 0);
        law_remove_style_at(t, e.range, p);
        assert(all_proper(es.drop_first())) by {
            assert forall|i: int| 0 <= i < es.drop_first().len() implies proper(#[trigger] es.drop_first()[i].range) by {
                assert(es.drop_first()[i] == es[i + 1]);
            }
        }
        lemma_remove_all_style_at(t2, es.drop_first(), p);
    }
}

/// Adding every styled range of the well-formed `es` merges into each position the style of
/// the one range that holds it, if any.
proof fn lemma_add_all_style_at(t: Seq<StyleInfo>, es: Seq<StyleInfo>, p: int)
    requires
        wf(t),
        wf(es),
    ensures
        wf(add_all(t, es)),
        style_at(add_all(t, es), p) == (match style_at(es, p) {
            Some(st) => Some(merged_at(style_at(t, p), st)),
            None => style_at(t, p),
        }),
    decreases es.len(),
{
    if es.len() > 0 {
        let e = es[0];
        let rest = es.drop_first();
        let t2 = add_spec(t, e.range, e.style);
        assert(proper(e.range));
        lemma_add_from_wf(t, e.range.start as int, e.range.end as int, e.style, 0);
        law_add_style_at(t, e.range, e.style, p);
        lemma_wf_tail(es);
        lemma_add_all_style_at(t2, rest, p);
        if holds(e.range, p) {
            lemma_style_at_below(rest, p);
        }
    }
}

/// Moving every range of `es` up by `d` moves the style of each position up by `d`.
proof fn lemma_shift_up_style_at(es: Seq<StyleInfo>, d: usize, p: int)
    requires
        forall|i: int| 0 <= i < es.len() ==> #[trigger] es[i].range.end + d <= usize::MAX,
        all_proper(es),
    ensures
        style_at(shift_up(es, d), p) == (if p >= d { style_at(es, p - d) } else { None }),
    decreases es.len(),
{
    if es.len() > 0 {
        let rest = es.drop_first();
        assert(shift_up(es, d).drop_first() =~= shift_up(rest, d));
        assert(all_proper(rest)) by {
            assert forall|i: int| 0 <= i < rest.len() implies proper(#[trigger] rest[i].range) by {
                assert(rest[i] == es[i + 1]);
            }
        }
        assert forall|i: int| 0 <= i < rest.len() implies #[trigger] rest[i].range.end + d <= usize::MAX by {
            assert(rest[i] == es[i + 1]);
        }
        lemma_shift_up_style_at(rest, d, p);
        assert(proper(es[0].range));
    }
}

/// Moving every range of `es` down by `d` moves the style of each position down by `d`.
proof fn lemma_shift_down_style_at(es: Seq<StyleInfo>, d: usize, p: int)
    requires
        forall|i: int| 0 <= i < es.len() ==> #[trigger] es[i].range.start >= d,
        all_proper(es),
        p >= 0,
    ensures
        style_at(shift_down(es, d), p) == style_at(es, p + d),
    decreases es.len(),
{
    if es.len() > 0 {
        let rest = es.drop_first();
        assert(shift_down(es, d).drop_first() =~= shift_down(rest, d));
        assert(all_proper(rest)) by {
            assert forall|i: int| 0 <= i < rest.len() implies proper(#[trigger] rest[i].range) by {
                assert(rest[i] == es[i + 1]);
            }
        }
        assert forall|i: int| 0 <= i < rest.len() implies #[trigger] rest[i].range.start >= d by {
            assert(rest[i] == es[i + 1]);
        }
        lemma_shift_down_style_at(rest, d, p);
        assert(proper(es[0].range));
    }
}

/// Shifting a well-formed sequence up without reaching `usize::MAX` keeps it well-formed.
proof fn lemma_shift_up_wf(es: Seq<StyleInfo>, d: usize)
    requires
        wf(es),
        forall|i: int| 0 <= i < es.len() ==> #[trigger] es[i].range.end + d <= usize::MAX,
    ensures
        wf(shift_up(es, d)),
{
    let t = shift_up(es, d);
    assert forall|i: int, j: int| 0 <= i < j < t.len() implies #[trigger] t[i].range.end < #[trigger] t[j].range.start by {
        assert(es[i].range.end < es[j].range.start);
    }
    assert forall|i: int| 0 <= i < t.len() implies proper(#[trigger] t[i].range) by {
        assert(proper(es[i].range));
    }
}

/// Shifting a well-formed sequence down without going below 0 keeps it well-formed.
proof fn lemma_shift_down_wf(es: Seq<StyleInfo>, d: usize)
    requires
        wf(es),
        forall|i: int| 0 <= i < es.len() ==> #[trigger] es[i].range.start >= d,
    ensures
        wf(shift_down(es, d)),
{
    let t = shift_down(es, d);
    assert forall|i: int, j: int| 0 <= i < j < t.len() implies #[trigger] t[i].range.end < #[trigger] t[j].range.start by {
        assert(es[i].range.end < es[j].range.start);
        assert(proper(es[i].range));
    }
    assert forall|i: int| 0 <= i < t.len() implies proper(#[trigger] t[i].range) by {
        assert(proper(es[i].range));
    }
}

/// Shifting the styles of `range` up by `delta` clears `range` and merges the style each of
/// its positions had into the position `delta` further; every other position keeps its style.
pub proof fn law_shift_add_style_at(s: Seq<StyleInfo>, range: Range, delta: usize, p: int)
    requires
        wf(s),
        proper(range),
        range.end + delta <= usize::MAX || ends_by(s, usize::MAX - delta),
    ensures
        ({
            let base = if holds(range, p) { None } else { style_at(s, p) };
            style_at(shift_add_spec(s, range, delta), p) == (
                if p >= delta && holds(range, p - delta) && style_at(s, p - delta) is Some {
                    Some(merged_at(base, style_at(s, p - delta).unwrap()))
                } else {
                    base
                })
        }),
{
    let moved = clip_spec(s, range);
    lemma_clip_wf(s, range, 0);
    super::lemmas::lemma_wf_all_proper(moved);
    if ends_by(s, usize::MAX - delta) {
        lemma_clip_ends_by(s, range, usize::MAX - delta);
    }
    assert forall|i: int| 0 <= i < moved.len() implies #[trigger] moved[i].range.end + delta <= usize::MAX by {
        lemma_clip_in_range(s, range, i);
    }
    lemma_shift_up_wf(moved, delta);
    lemma_remove_all_style_at(s, moved, p);
    lemma_clip_style_at(s, range, p);
    lemma_add_all_style_at(remove_all(s, moved), shift_up(moved, delta), p);
    lemma_shift_up_style_at(moved, delta, p);
    if p >= delta {
        lemma_clip_style_at(s, range, p - delta);
    }
}

/// Shifting the styles of `range` down by `delta` clears `range` and merges the style each of
/// its positions had into the position `delta` before; every other position keeps its style.
pub proof fn law_shift_sub_style_at(s: Seq<StyleInfo>, range: Range, delta: usize, p: int)
    requires
        wf(s),
        proper(range),
        range.start >= delta,
        p >= 0,
    ensures
        ({
            let base = if holds(range, p) { None } else { style_at(s, p) };
            style_at(shift_sub_spec(s, range, delta), p) == (
                if holds(range, p + delta) && style_at(s, p + delta) is Some {
                    Some(merged_at(base, style_at(s, p + delta).unwrap()))
                } else {
                    base
                })
        }),
{
    let moved = clip_spec(s, range);
    lemma_clip_wf(s, range, 0);
    super::lemmas::lemma_wf_all_proper(moved);
    assert forall|i: int| 0 <= i < moved.len() implies #[trigger] moved[i].range.start >= delta by {
        lemma_clip_in_range(s, range, i);
    }
    lemma_shift_down_wf(moved, delta);
    lemma_remove_all_style_at(s, moved, p);
    lemma_clip_style_at(s, range, p);
    lemma_add_all_style_at(remove_all(s, moved), shift_down(moved, delta), p);
    lemma_shift_down_style_at(moved, delta, p);
    lemma_clip_style_at(s, range, p + delta);
}

/// Every range of a clip lies inside the range clipped to.
proof fn lemma_clip_in_range(s: Seq<StyleInfo>, r: Range, i: int)
    requires
        0 <= i < clip_spec(s, r).len(),
    ensures
        r.start <= clip_spec(s, r)[i].range.start,
        clip_spec(s, r)[i].range.end <= r.end,
    decreases s.len(),
{
    if s.len() > 0 {
        let x = s[0];
        let rest = s.drop_first();
        let piece: Seq<StyleInfo> = if overlap(x.range, r) {
            seq![info(
                if x.range.start < r.start { r.start as int } else { x.range.start as int },
                if x.range.end > r.end { r.end as int } else { x.range.end as int },
                x.style,
            )]
        } else {
            seq![]
        };
        assert(clip_spec(s, r) == piece + clip_spec(rest, r));
        if i >= piece.len() {
            assert(clip_spec(s, r)[i] == clip_spec(rest, r)[i - piece.len()]);
            lemma_clip_in_range(rest, r, i - piece.len());
        }
    }
}

/// Clipping keeps every range ending by `m` where every range of the sequence did.
proof fn lemma_clip_ends_by(s: Seq<StyleInfo>, r: Range, m: int)
    requires
        ends_by(s, m),
    ensures
        ends_by(clip_spec(s, r), m),
    decreases s.len(),
{
    if s.len() > 0 {
        let x = s[0];
        let rest = s.drop_first();
        assert(ends_by(rest, m)) by {
            assert forall|k: int| 0 <= k < rest.len() implies #[trigger] rest[k].range.end <= m by {
                assert(rest[k] == s[k + 1]);
            }
        }
        lemma_clip_ends_by(rest, r, m);
        let piece: Seq<StyleInfo> = if overlap(x.range, r) {
            seq![info(
                if x.range.start < r.start { r.start as int } else { x.range.start as int },
                if x.range.end > r.end { r.end as int } else { x.range.end as int },
                x.style,
            )]
        } else {
            seq![]
        };
        assert(clip_spec(s, r) == piece + clip_spec(rest, r));
        assert(x.range.end <= m);
        assert forall|k: int| 0 <= k < clip_spec(s, r).len() implies #[trigger] clip_spec(s, r)[k].range.end <= m by {
            if k >= piece.len() {
                assert(clip_spec(s, r)[k] == clip_spec(rest, r)[k - piece.len()]);
            }
        }
    }
}

/// Removing a range keeps every range ending by `m` where every range did.
pub proof fn lemma_remove_ends_by(s: Seq<StyleInfo>, r: Range, m: int)
    requires
        ends_by(s, m),
        all_proper(s),
        proper(r),
    ensures
        ends_by(remove_spec(s, r), m),
    decreases s.len(),
{
    if s.len() > 0 {
        let x = s[0];
        let rest = s.drop_first();
        assert(ends_by(rest, m) && all_proper(rest)) by {
            assert forall|k: int| 0 <= k < rest.len() implies #[trigger] rest[k].range.end <= m by {
                assert(rest[k] == s[k + 1]);
            }
            assert forall|k: int| 0 <= k < rest.len() implies proper(#[trigger] rest[k].range) by {
                assert(rest[k] == s[k + 1]);
            }
        }
        lemma_remove_ends_by(rest, r, m);
        assert(x.range.end <= m);
        assert(proper(x.range));
        let (left, right) = cut_spec(x.range, r);
        let lp: Seq<StyleInfo> = if left is Some { seq![StyleInfo { range: left.unwrap(), style: x.style }] } else { seq![] };
        let rp: Seq<StyleInfo> = if right is Some { seq![StyleInfo { range: right.unwrap(), style: x.style }] } else { seq![] };
        assert(cut_pieces(x, r) == lp + rp);
        assert(remove_spec(s, r) == lp + rp + remove_spec(rest, r));
        assert forall|k: int| 0 <= k < remove_spec(s, r).len() implies #[trigger] remove_spec(s, r)[k].range.end <= m by {
            if k >= lp.len() + rp.len() {
                assert(remove_spec(s, r)[k] == remove_spec(rest, r)[k - lp.len() - rp.len()]);
            }
        }
    }
}

/// Adding ranges that all start after `p` leaves the style of `p` as it was.
proof fn lemma_add_all_after(t: Seq<StyleInfo>, es: Seq<StyleInfo>, p: int)
    requires
        wf(t),
        all_proper(es),
        forall|i: int| 0 <= i < es.len() ==> #[trigger] es[i].range.start > p,
    ensures
        wf(add_all(t, es)),
        style_at(add_all(t, es), p) == style_at(t, p),
    decreases es.len(),
{
    if es.len() > 0 {
        let e = es[0];
        let rest = es.drop_first();
        let t2 = add_spec(t, e.range, e.style);
        assert(proper(e.range));
        lemma_add_from_wf(t, e.range.start as int, e.range.end as int, e.style, 0);
        law_add_style_at(t, e.range, e.style, p);
        assert(all_proper(rest)) by {
            assert forall|i: int| 0 <= i < rest.len() implies proper(#[trigger] rest[i].range) by {
                assert(rest[i] == es[i + 1]);
            }
        }
        assert forall|i: int| 0 <= i < rest.len() implies #[trigger] rest[i].range.start > p by {
            assert(rest[i] == es[i + 1]);
        }
        lemma_add_all_after(t2, rest, p);
    }
}

/// Shifting the styles of `range` up by `delta` leaves every position before `range` with the
/// style it had.
pub proof fn law_shift_add_keeps_before(s: Seq<StyleInfo>, range: Range, delta: usize, p: int)
    requires
        wf(s),
        proper(range),
        p < range.start,
    ensures
        style_at(shift_add_spec(s, range, delta), p) == style_at(s, p),
{
    let moved = clip_spec(s, range);
    lemma_clip_wf(s, range, 0);
    super::lemmas::lemma_wf_all_proper(moved);
    lemma_remove_all_style_at(s, moved, p);
    lemma_clip_style_at(s, range, p);
    let up = shift_up(moved, delta);
    assert(all_proper(up)) by {
        assert forall|i: int| 0 <= i < up.len() implies proper(#[trigger] up[i].range) by {
            assert(proper(moved[i].range));
        }
    }
    assert forall|i: int| 0 <= i < up.len() implies #[trigger] up[i].range.start > p by {
        lemma_clip_in_range(s, range, i);
    }
    lemma_add_all_after(remove_all(s, moved), up, p);
}

} // verus!
