//! Facts about the model of a mask: every operation keeps the ranges proper, ordered and
//! disjoint, and the style each position ends up with.

use vstd::prelude::*;

use super::range::{holds, overlap, proper, span, Range};
use super::spec::{add_from, all_proper, clip_spec, cut_pieces, info, remove_spec, wf};
use super::StyleInfo;
use crate::text::style::Style;

verus! {

/// Every range of `s` starts at `m` or later.
pub open spec fn starts_from(s: Seq<StyleInfo>, m: int) -> bool {
    forall|k: int| 0 <= k < s.len() ==> m <= #[trigger] s[k].range.start
}

/// Every range of `s` ends at `m` or earlier.
pub open spec fn ends_by(s: Seq<StyleInfo>, m: int) -> bool {
    forall|k: int| 0 <= k < s.len() ==> #[trigger] s[k].range.end <= m
}

/// Two well-formed sequences, the first ending before the second starts, make a
/// well-formed sequence.
pub proof fn lemma_wf_concat(a: Seq<StyleInfo>, b: Seq<StyleInfo>, m: int)
    requires
        wf(a),
        wf(b),
        ends_by(a, m - 1),
        starts_from(b, m),
    ensures
        wf(a + b),
{
    let c = a + b;
    assert forall|i: int| 0 <= i < c.len() implies proper(#[trigger] c[i].range) by {
        if i < a.len() {
            assert(c[i] == a[i]);
        } else {
            assert(c[i] == b[i - a.len()]);
        }
    }
    assert forall|i: int, j: int| 0 <= i < j < c.len() implies #[trigger] c[i].range.end
        < #[trigger] c[j].range.start by {
        if j < a.len() {
            assert(c[i] == a[i] && c[j] == a[j]);
        } else if i >= a.len() {
            assert(c[i] == b[i - a.len()] && c[j] == b[j - a.len()]);
        } else {
            assert(c[i] == a[i] && c[j] == b[j - a.len()]);
        }
    }
}

/// The tail of a well-formed sequence is well-formed and starts after its head ends.
pub proof fn lemma_wf_tail(s: Seq<StyleInfo>)
    requires
        wf(s),
        s.len() > 0,
    ensures
        wf(s.drop_first()),
        starts_from(s.drop_first(), s[0].range.end + 1),
        starts_from(s, s[0].range.start as int),
{
    let t = s.drop_first();
    assert forall|k: int| 0 <= k < t.len() implies s[0].range.end + 1 <= #[trigger] t[k].range.start by {
        assert(t[k] == s[k + 1]);
    }
    assert forall|i: int, j: int| 0 <= i < j < t.len() implies #[trigger] t[i].range.end
        < #[trigger] t[j].range.start by {
        assert(t[i] == s[i + 1] && t[j] == s[j + 1]);
    }
    assert forall|k: int| 0 <= k < s.len() implies s[0].range.start <= #[trigger] s[k].range.start by {
        if k > 0 {
            assert(s[0].range.end < s[k].range.start);
        }
        assert(proper(s[0].range));
    }
}

/// Adding a style keeps the sequence well-formed, and nothing in the result starts before
/// `m` when nothing in `s`, nor `lo`, does.
pub proof fn lemma_add_from_wf(s: Seq<StyleInfo>, lo: int, hi: int, style: Style, m: int)
    requires
        wf(s),
        0 <= lo,
        hi <= usize::MAX,
        lo <= hi ==> m <= lo,
        starts_from(s, m),
    ensures
        wf(add_from(s, lo, hi, style)),
        starts_from(add_from(s, lo, hi, style), m),
    decreases s.len(),
{
    let res = add_from(s, lo, hi, style);
    if lo > hi {
    } else if s.len() == 0 {
        assert(res =~= seq![info(lo, hi, style)]);
    } else {
        let r = s[0];
        let rest = s.drop_first();
        lemma_wf_tail(s);
        if r.range.end < lo {
            lemma_add_from_wf(rest, lo, hi, style, r.range.end + 1);
            let one = seq![r];
            assert(wf(one));
            lemma_wf_concat(one, add_from(rest, lo, hi, style), r.range.end + 1);
            assert(res == one + add_from(rest, lo, hi, style));
            assert forall|k: int| 0 <= k < res.len() implies m <= #[trigger] res[k].range.start by {
                if k > 0 {
                    assert(res[k] == add_from(rest, lo, hi, style)[k - 1]);
                }
            }
        } else if r.range.start > hi {
            let one = seq![info(lo, hi, style)];
            assert(wf(one));
            lemma_wf_concat(one, s, hi + 1);
            assert forall|k: int| 0 <= k < res.len() implies m <= #[trigger] res[k].range.start by {
                if k > 0 {
                    assert(res[k] == s[k - 1]);
                }
            }
        } else {
            let left_old: Seq<StyleInfo> = if r.range.start < lo {
                seq![info(r.range.start as int, lo - 1, r.style)]
            } else {
                seq![]
            };
            let gap: Seq<StyleInfo> = if lo < r.range.start {
                seq![info(lo, r.range.start - 1, style)]
            } else {
                seq![]
            };
            let mid = info(
                if r.range.start < lo { lo } else { r.range.start as int },
                if r.range.end < hi { r.range.end as int } else { hi },
                r.style.spec_merge(style),
            );
            let right_old: Seq<StyleInfo> = if r.range.end > hi {
                seq![info(hi + 1, r.range.end as int, r.style)]
            } else {
                seq![]
            };
            let pieces = left_old + gap + seq![mid] + right_old;
            let tail = add_from(rest, r.range.end + 1, hi, style);
            assert(res == pieces + tail);
            lemma_add_from_wf(rest, r.range.end + 1, hi, style, r.range.end + 1);
            assert(proper(r.range));
            // the pieces are ordered and end by `r`'s end
            assert(wf(pieces) && ends_by(pieces, r.range.end as int) && starts_from(pieces, m)) by {
                assert forall|i: int| 0 <= i < pieces.len() implies proper(#[trigger] pieces[i].range)
                    && pieces[i].range.end <= r.range.end && m <= pieces[i].range.start by {
                    if r.range.start < lo {
                        if i == 0 {
                        } else if i == 1 {
                            assert(pieces[1] == mid);
                        } else {
                            assert(pieces[2] == right_old[0]);
                        }
                    } else if lo < r.range.start {
                        if i == 0 {
                        } else if i == 1 {
                            assert(pieces[1] == mid);
                        } else {
                            assert(pieces[2] == right_old[0]);
                        }
                    } else {
                        if i == 0 {
                            assert(pieces[0] == mid);
                        } else {
                            assert(pieces[1] == right_old[0]);
                        }
                    }
                }
                assert forall|i: int, j: int| 0 <= i < j < pieces.len() implies #[trigger] pieces[i].range.end
                    < #[trigger] pieces[j].range.start by {
                    if r.range.start < lo {
                        assert(pieces[0] == left_old[0]);
                        assert(pieces[1] == mid);
                        if pieces.len() > 2 {
                            assert(pieces[2] == right_old[0]);
                        }
                    } else if lo < r.range.start {
                        assert(pieces[0] == gap[0]);
                        assert(pieces[1] == mid);
                        if pieces.len() > 2 {
                            assert(pieces[2] == right_old[0]);
                        }
                    } else {
                        assert(pieces[0] == mid);
                        if pieces.len() > 1 {
                            assert(pieces[1] == right_old[0]);
                        }
                    }
                }
            }
            lemma_wf_concat(pieces, tail, r.range.end + 1);
            assert forall|k: int| 0 <= k < res.len() implies m <= #[trigger] res[k].range.start by {
                if k < pieces.len() {
                    assert(res[k] == pieces[k]);
                } else {
                    assert(res[k] == tail[k - pieces.len()]);
                }
            }
        }
    }
}

/// Cutting a range out keeps the sequence well-formed, and nothing starts before `m`.
pub proof fn lemma_remove_wf(s: Seq<StyleInfo>, r: Range, m: int)
    requires
        wf(s),
        proper(r),
        starts_from(s, m),
    ensures
        wf(remove_spec(s, r)),
        starts_from(remove_spec(s, r), m),
    decreases s.len(),
{
    if s.len() > 0 {
        let x = s[0];
        let rest = s.drop_first();
        lemma_wf_tail(s);
        lemma_remove_wf(rest, r, x.range.end + 1);
        let p = cut_pieces(x, r);
        let tail = remove_spec(rest, r);
        assert(proper(x.range));
        assert(wf(p) && ends_by(p, x.range.end as int) && starts_from(p, m)) by {
            if p.len() == 2 {
                assert(p[0].range.end < p[1].range.start);
            }
        }
        lemma_wf_concat(p, tail, x.range.end + 1);
        let res = remove_spec(s, r);
        assert(res == p + tail);
        assert forall|k: int| 0 <= k < res.len() implies m <= #[trigger] res[k].range.start by {
            if k < p.len() {
                assert(res[k] == p[k]);
            } else {
                assert(res[k] == tail[k - p.len()]);
            }
        }
    }
}

/// Clipping distributes over concatenation.
pub proof fn lemma_clip_concat(a: Seq<StyleInfo>, b: Seq<StyleInfo>, r: Range)
    ensures
        clip_spec(a + b, r) == clip_spec(a, r) + clip_spec(b, r),
    decreases a.len(),
{
    if a.len() == 0 {
        assert(a + b =~= b);
        assert(clip_spec(a, r) + clip_spec(b, r) =~= clip_spec(b, r));
    } else {
        assert((a + b).drop_first() =~= a.drop_first() + b);
        assert((a + b)[0] == a[0]);
        lemma_clip_concat(a.drop_first(), b, r);
        let h: Seq<StyleInfo> = clip_spec(seq![a[0]], r);
        assert(clip_spec(a + b, r) =~= clip_spec(a, r) + clip_spec(b, r));
    }
}

/// Clipped pieces of proper ranges are proper.
pub proof fn lemma_clip_proper(s: Seq<StyleInfo>, r: Range)
    requires
        all_proper(s),
        proper(r),
    ensures
        all_proper(clip_spec(s, r)),
    decreases s.len(),
{
    if s.len() > 0 {
        let rest = s.drop_first();
        assert forall|i: int| 0 <= i < rest.len() implies proper(#[trigger] rest[i].range) by {
            assert(rest[i] == s[i + 1]);
        }
        lemma_clip_proper(rest, r);
        let x = s[0];
        assert(proper(x.range));
        let c = clip_spec(s, r);
        let h: Seq<StyleInfo> = if overlap(x.range, r) {
            seq![info(
                if x.range.start < r.start { r.start as int } else { x.range.start as int },
                if x.range.end > r.end { r.end as int } else { x.range.end as int },
                x.style,
            )]
        } else {
            seq![]
        };
        assert(c == h + clip_spec(rest, r));
        assert forall|i: int| 0 <= i < c.len() implies proper(#[trigger] c[i].range) by {
            if i < h.len() {
                assert(c[i] == h[i]);
            } else {
                assert(c[i] == clip_spec(rest, r)[i - h.len()]);
            }
        }
    }
}

/// A well-formed sequence has proper ranges.
pub proof fn lemma_wf_all_proper(s: Seq<StyleInfo>)
    requires
        wf(s),
    ensures
        all_proper(s),
{
}

} // verus!
