//! Splitting a styled string into the longest runs that print alike.

use vstd::prelude::*;

use crate::text::{
    grapheme::{
        char_offsets, cluster_texts, create_graphemes, extended_grapheme_indices, lemma_slice_of_flatten, str_width,
        texts_of, Grapheme,
    },
    mask::{
        range::holds,
        spec::{style_at, wf},
        StyleInfo,
    },
    style::Style,
};

verus! {

/// A piece of text to print: a run of graphemes with their count of columns and their style,
/// or a line break.
#[derive(Debug, Eq, PartialEq)]
pub enum Part<'a> {
    Str(&'a str, usize, Style),
    NewLine,
}

/// Whether the grapheme `g` breaks the line.
pub open spec fn is_newline(g: Seq<char>) -> bool {
    g == seq!['\n'] || g == seq!['\r', '\n']
}

/// The first position from `p` on of a grapheme that fills columns or breaks the line, or the
/// count of graphemes where there is none.
pub open spec fn skip_invisible(gs: Seq<Seq<char>>, p: int) -> int
    decreases gs.len() - p,
{
    if p >= gs.len() {
        gs.len() as int
    } else if str_width(gs[p]) != 0 || is_newline(gs[p]) {
        p
    } else {
        skip_invisible(gs, p + 1)
    }
}

/// The last position of the run of graphemes that fill columns from `q` on, not past `limit`.
pub open spec fn run_end(gs: Seq<Seq<char>>, q: int, limit: int) -> int
    decreases gs.len() - q,
{
    if q + 1 <= limit && q + 1 < gs.len() && str_width(gs[q + 1]) != 0 {
        run_end(gs, q + 1, limit)
    } else {
        q
    }
}

/// The count of columns of the graphemes `a..=b`.
pub open spec fn columns_of(gs: Seq<Seq<char>>, a: int, b: int) -> int
    decreases b - a + 1,
{
    if b < a {
        0
    } else {
        columns_of(gs, a, b - 1) + str_width(gs[b])
    }
}

/// The first style from `sp` on whose range does not end before position `q`.
pub open spec fn style_for(styles: Seq<StyleInfo>, sp: int, q: int) -> int
    decreases styles.len() - sp,
{
    if sp >= styles.len() {
        styles.len() as int
    } else if styles[sp].range.end >= q {
        sp
    } else {
        style_for(styles, sp + 1, q)
    }
}

/// The last position a part starting at `q` may reach under the style at `sp`.
pub open spec fn part_limit(styles: Seq<StyleInfo>, sp: int, q: int) -> int {
    if sp < styles.len() {
        if q < styles[sp].range.start {
            styles[sp].range.start - 1
        } else {
            styles[sp].range.end as int
        }
    } else {
        q + usize::MAX
    }
}

/// The style of a part starting at `q` under the style at `sp`.
pub open spec fn part_style(styles: Seq<StyleInfo>, sp: int, q: int) -> Style {
    if sp < styles.len() && styles[sp].range.start <= q {
        styles[sp].style
    } else {
        Style::spec_empty()
    }
}

/// Styles from `sp` on are in ascending order, do not overlap, and end before `usize::MAX`.
pub open spec fn styles_ordered_from(styles: Seq<StyleInfo>, sp: int) -> bool {
    &&& forall|j: int| sp <= j && j + 1 < styles.len() ==> #[trigger] styles[j + 1].range.start > styles[j].range.end
    &&& forall|j: int| sp <= j < styles.len() ==> #[trigger] styles[j].range.end < usize::MAX
}

/// The columns of `a..=b` split at `m`.
proof fn lemma_columns_split(gs: Seq<Seq<char>>, a: int, m: int, b: int)
    requires
        a - 1 <= m <= b,
    ensures
        columns_of(gs, a, b) == columns_of(gs, a, m) + columns_of(gs, m + 1, b),
    decreases b - m,
{
    if m < b {
        lemma_columns_split(gs, a, m, b - 1);
    }
}

/// Columns are never negative.
proof fn lemma_columns_nonneg(gs: Seq<Seq<char>>, a: int, b: int)
    ensures
        columns_of(gs, a, b) >= 0,
    decreases b - a + 1,
{
    if b >= a {
        lemma_columns_nonneg(gs, a, b - 1);
    }
}

/// In a well-formed style list, a position a range holds has that range's style.
proof fn lemma_style_at_holder(styles: Seq<StyleInfo>, j: int, i: int)
    requires
        wf(styles),
        0 <= j < styles.len(),
        holds(styles[j].range, i),
    ensures
        style_at(styles, i) == Some(styles[j].style),
    decreases j,
{
    if j > 0 {
        assert(styles[0].range.end < styles[j].range.start);
        let rest = styles.drop_first();
        assert(rest[j - 1] == styles[j]);
        assert(wf(rest)) by {
            assert forall|a: int, b: int| 0 <= a < b < rest.len() implies #[trigger] rest[a].range.end < #[trigger] rest[b].range.start by {
                assert(rest[a] == styles[a + 1] && rest[b] == styles[b + 1]);
            }
            assert forall|a: int| 0 <= a < rest.len() implies crate::text::mask::range::proper(#[trigger] rest[a].range) by {
                assert(rest[a] == styles[a + 1]);
            }
        }
        lemma_style_at_holder(rest, j - 1, i);
    }
}

/// A position no range holds has no style.
proof fn lemma_style_at_none(styles: Seq<StyleInfo>, i: int)
    requires
        forall|j: int| 0 <= j < styles.len() ==> !holds(#[trigger] styles[j].range, i),
    ensures
        style_at(styles, i) is None,
    decreases styles.len(),
{
    if styles.len() > 0 {
        let rest = styles.drop_first();
        assert(!holds(styles[0].range, i));
        assert forall|j: int| 0 <= j < rest.len() implies !holds(#[trigger] rest[j].range, i) by {
            assert(rest[j] == styles[j + 1]);
        }
        lemma_style_at_none(rest, i);
    }
}

/// What [`style_for`] finds: the styles it passes end before `q`, and the one it stops at
/// does not.
proof fn lemma_style_for(styles: Seq<StyleInfo>, sp: int, q: int)
    requires
        0 <= sp <= styles.len(),
    ensures
        sp <= style_for(styles, sp, q) <= styles.len(),
        forall|j: int| sp <= j < style_for(styles, sp, q) ==> #[trigger] styles[j].range.end < q,
        style_for(styles, sp, q) < styles.len() ==> styles[style_for(styles, sp, q)].range.end >= q,
    decreases styles.len() - sp,
{
    if sp < styles.len() && styles[sp].range.end < q {
        lemma_style_for(styles, sp + 1, q);
    }
}

/// A run never reaches past its limit.
proof fn lemma_run_end_bound(gs: Seq<Seq<char>>, q: int, limit: int)
    requires
        q <= limit,
    ensures
        q <= run_end(gs, q, limit) <= limit,
    decreases gs.len() - q,
{
    if q + 1 <= limit && q + 1 < gs.len() && str_width(gs[q + 1]) != 0 {
        lemma_run_end_bound(gs, q + 1, limit);
    }
}

/// Parts leave nothing visible out: the graphemes that a step passes over before its part (from
/// position `p` up to `skip_invisible(gs, p)`) neither fill a column nor break the line, the
/// step stops at one that does, and every grapheme of a run of text, up to `run_end`, fills
/// columns. As each step goes on right after the last grapheme it used, the parts in order hold
/// every visible grapheme once.
pub proof fn law_parts_skip_only_invisible(gs: Seq<Seq<char>>, p: int, limit: int)
    requires
        0 <= p <= gs.len(),
    ensures
        p <= skip_invisible(gs, p) <= gs.len(),
        forall|i: int| p <= i < skip_invisible(gs, p) ==> str_width(#[trigger] gs[i]) == 0 && !is_newline(gs[i]),
        skip_invisible(gs, p) < gs.len() ==> (str_width(gs[skip_invisible(gs, p)]) != 0 || is_newline(
            gs[skip_invisible(gs, p)],
        )),
        ({
            let q = skip_invisible(gs, p);
            q < gs.len() ==> forall|i: int| q < i <= run_end(gs, q, limit) ==> str_width(#[trigger] gs[i]) != 0
        }),
    decreases gs.len() - p,
{
    if p < gs.len() && !(str_width(gs[p]) != 0 || is_newline(gs[p])) {
        law_parts_skip_only_invisible(gs, p + 1, limit);
    } else if p < gs.len() {
        lemma_run_visible(gs, p, limit);
    }
}

/// The graphemes after the first of a run all fill columns.
proof fn lemma_run_visible(gs: Seq<Seq<char>>, q: int, limit: int)
    requires
        0 <= q < gs.len(),
    ensures
        q <= run_end(gs, q, limit) < gs.len(),
        forall|i: int| q < i <= run_end(gs, q, limit) ==> str_width(#[trigger] gs[i]) != 0,
    decreases gs.len() - q,
{
    if q + 1 <= limit && q + 1 < gs.len() && str_width(gs[q + 1]) != 0 {
        lemma_run_visible(gs, q + 1, limit);
    }
}

/// Every grapheme of a part has, in the well-formed style list, the style of the part: the
/// style of the range that holds the part where there is one, and none where the part lies
/// between ranges. So a part prints alike from its first grapheme to its last.
pub proof fn law_part_is_uniform(gs: Seq<Seq<char>>, styles: Seq<StyleInfo>, sp0: int, q: int, i: int)
    requires
        wf(styles),
        0 <= sp0 <= styles.len(),
        forall|j: int| 0 <= j < sp0 ==> #[trigger] styles[j].range.end < q,
        0 <= q,
        q <= i <= run_end(gs, q, part_limit(styles, style_for(styles, sp0, q), q)),
    ensures
        ({
            let sp = style_for(styles, sp0, q);
            style_at(styles, i) == (if sp < styles.len() && styles[sp].range.start <= q {
                Some(styles[sp].style)
            } else {
                None
            })
        }),
{
    let sp = style_for(styles, sp0, q);
    lemma_style_for(styles, sp0, q);
    let limit = part_limit(styles, sp, q);
    if sp < styles.len() {
        assert(crate::text::mask::range::proper(styles[sp].range));
    }
    lemma_run_end_bound(gs, q, limit);
    if sp < styles.len() && styles[sp].range.start <= q {
        lemma_style_at_holder(styles, sp, i);
    } else {
        assert forall|j: int| 0 <= j < styles.len() implies !holds(#[trigger] styles[j].range, i) by {
            if j < sp0 {
            } else if j < sp {
            } else if j == sp {
            } else {
                assert(styles[sp].range.end < styles[j].range.start);
                assert(crate::text::mask::range::proper(styles[sp].range));
            }
        }
        lemma_style_at_none(styles, i);
    }
}

/// The style a part gets is the mask's style of its first grapheme, or the empty style where no
/// range of the mask holds that grapheme: the style of a range never spills onto the unstyled
/// graphemes around it. Here the styles before `sp0` are those a part iterator has passed
/// (they end before `q`), as [`PartIter::next`] keeps them.
pub proof fn law_part_style_is_mask_style(styles: Seq<StyleInfo>, sp0: int, q: int)
    requires
        wf(styles),
        0 <= sp0 <= styles.len(),
        forall|j: int| 0 <= j < sp0 ==> #[trigger] styles[j].range.end < q,
        0 <= q,
    ensures
        part_style(styles, style_for(styles, sp0, q), q) == (match style_at(styles, q) {
            Some(st) => st,
            None => Style::spec_empty(),
        }),
{
    let sp = style_for(styles, sp0, q);
    lemma_style_for(styles, sp0, q);
    if sp < styles.len() {
        assert(crate::text::mask::range::proper(styles[sp].range));
    }
    if sp < styles.len() && styles[sp].range.start <= q {
        lemma_style_at_holder(styles, sp, q);
    } else {
        assert forall|j: int| 0 <= j < styles.len() implies !holds(#[trigger] styles[j].range, q) by {
            if j < sp0 {
            } else if j < sp {
            } else if j == sp {
            } else {
                assert(styles[sp].range.end < styles[j].range.start);
            }
        }
        lemma_style_at_none(styles, q);
    }
}

/// The count of line breaks ("\n" or "\r\n") among the graphemes `gs`.
pub open spec fn line_break_count(gs: Seq<Seq<char>>) -> int {
    gs.filter(|g: Seq<char>| g == seq!['\n'] || g == seq!['\r', '\n']).len() as int
}

/// One grapheme more adds one line break exactly when that grapheme is one.
pub proof fn lemma_line_break_count_step(gs: Seq<Seq<char>>, k: int)
    requires
        0 <= k < gs.len(),
    ensures
        line_break_count(gs.take(k + 1)) == line_break_count(gs.take(k)) + if gs[k] == seq!['\n'] || gs[k]
            == seq!['\r', '\n'] {
            1int
        } else {
            0int
        },
{
    reveal(Seq::filter);
    assert(gs.take(k + 1).drop_last() =~= gs.take(k));
    assert(gs.take(k + 1).last() == gs[k]);
}

/// Whether the grapheme `s` breaks the line.
pub(crate) fn is_new_line(s: &str) -> (r: bool)
    ensures
        r == is_newline(s@),
{
    let n = s.unicode_len();
    let r = (n == 1 && s.get_char(0) == '\n') || (n == 2 && s.get_char(0) == '\r' && s.get_char(1) == '\n');
    proof {
        if n == 1 && s@[0] == '\n' {
            assert(s@ =~= seq!['\n']);
        }
        if n == 2 && s@[0] == '\r' && s@[1] == '\n' {
            assert(s@ =~= seq!['\r', '\n']);
        }
    }
    r
}

/// Iterator over the parts of a styled string.
pub struct PartIter<'a> {
    data: &'a str,
    graphemes: Vec<Grapheme<'a>>,
    offsets: Vec<usize>,
    pos: usize,
    styles: Vec<StyleInfo>,
    style_pos: usize,
}

/// The parts of `s` styled by `styles`, whose ranges are positions of graphemes.
pub fn parts<'a>(s: &'a str, styles: Vec<StyleInfo>) -> (r: PartIter<'a>)
    ensures
        r.wf(),
        r.spec_data() == s,
        r.clusters() == cluster_texts(extended_grapheme_indices(s@)),
        r.spec_pos() == 0,
        r.spec_styles() == styles@,
        r.spec_style_pos() == 0,
        r.styles_behind(),
{
    let graphemes = create_graphemes(s);
    let ghost gs = cluster_texts(extended_grapheme_indices(s@));
    let offsets = char_offsets(s, &graphemes);
    let r = PartIter { data: s, graphemes, offsets, pos: 0, styles, style_pos: 0 };
    proof {
        assert(r.clusters() =~= gs);
    }
    r
}

impl<'a> PartIter<'a> {
    /// The string split into parts.
    pub closed spec fn spec_data(&self) -> &'a str {
        self.data
    }

    /// The grapheme clusters of the string.
    pub closed spec fn clusters(&self) -> Seq<Seq<char>> {
        texts_of(self.graphemes@)
    }

    /// Position of the next grapheme to look at.
    pub closed spec fn spec_pos(&self) -> int {
        self.pos as int
    }

    /// The styles.
    pub closed spec fn spec_styles(&self) -> Seq<StyleInfo> {
        self.styles@
    }

    /// Position of the current style.
    pub closed spec fn spec_style_pos(&self) -> int {
        self.style_pos as int
    }

    /// The graphemes make up the string, the offsets are where each one starts, and the
    /// positions are in range.
    pub closed spec fn wf(&self) -> bool {
        let gs = self.clusters();
        &&& gs.flatten() == self.data@
        &&& self.offsets@.len() == gs.len() + 1
        &&& forall|i: int| 0 <= i <= gs.len() ==> #[trigger] self.offsets@[i] == gs.take(i).flatten().len()
        &&& forall|i: int| 0 <= i < self.graphemes@.len() ==> (#[trigger] self.graphemes@[i]).spec_data()@.len() > 0
        &&& self.pos <= gs.len()
        &&& self.style_pos <= self.styles@.len()
    }

    /// The styles passed over end before the next grapheme to look at.
    pub open spec fn styles_behind(&self) -> bool {
        forall|j: int| 0 <= j < self.spec_style_pos() ==> #[trigger] self.spec_styles()[j].range.end < self.spec_pos()
    }

    /// The columns of the graphemes not looked at yet fit in a `usize`.
    pub open spec fn columns_fit(&self) -> bool {
        columns_of(self.clusters(), self.spec_pos(), self.clusters().len() - 1) <= usize::MAX
    }

    /// The next part, or `None` once every grapheme was looked at.
    ///
    /// Graphemes that fill no column and do not break the line are skipped; a line break is a
    /// part of its own; otherwise the part is the longest run of graphemes that fill columns and
    /// share a style.
    pub fn next(&mut self) -> (r: Option<Part<'a>>)
        requires
            old(self).wf(),
            old(self).columns_fit(),
            styles_ordered_from(old(self).spec_styles(), old(self).spec_style_pos()),
        ensures
            final(self).wf(),
            final(self).spec_data() == old(self).spec_data(),
            final(self).clusters() == old(self).clusters(),
            final(self).spec_styles() == old(self).spec_styles(),
            old(self).styles_behind() ==> final(self).styles_behind(),
            ({
                let gs = old(self).clusters();
                let q = skip_invisible(gs, old(self).spec_pos());
                if q == gs.len() {
                    &&& r is None
                    &&& final(self).spec_pos() == gs.len()
                    &&& final(self).spec_style_pos() == old(self).spec_style_pos()
                } else if str_width(gs[q]) == 0 {
                    &&& r == Some(Part::<'a>::NewLine)
                    &&& final(self).spec_pos() == q + 1
                    &&& final(self).spec_style_pos() == old(self).spec_style_pos()
                } else {
                    let sp = style_for(old(self).spec_styles(), old(self).spec_style_pos(), q);
                    let e = run_end(gs, q, part_limit(old(self).spec_styles(), sp, q));
                    &&& r matches Some(Part::Str(s, count, style)) && {
                        &&& s@ == gs.subrange(q, e + 1).flatten()
                        &&& count == columns_of(gs, q, e)
                        &&& style == part_style(old(self).spec_styles(), sp, q)
                    }
                    &&& final(self).spec_pos() == e + 1
                    &&& final(self).spec_style_pos() == sp
                }
            }),
    {
        self.get_max_part()
    }

    fn get_max_part(&mut self) -> (r: Option<Part<'a>>)
        requires
            old(self).wf(),
            old(self).columns_fit(),
            styles_ordered_from(old(self).spec_styles(), old(self).spec_style_pos()),
        ensures
            final(self).wf(),
            final(self).spec_data() == old(self).spec_data(),
            final(self).clusters() == old(self).clusters(),
            final(self).spec_styles() == old(self).spec_styles(),
            old(self).styles_behind() ==> final(self).styles_behind(),
            ({
                let gs = old(self).clusters();
                let q = skip_invisible(gs, old(self).spec_pos());
                if q == gs.len() {
                    &&& r is None
                    &&& final(self).spec_pos() == gs.len()
                    &&& final(self).spec_style_pos() == old(self).spec_style_pos()
                } else if str_width(gs[q]) == 0 {
                    &&& r == Some(Part::<'a>::NewLine)
                    &&& final(self).spec_pos() == q + 1
                    &&& final(self).spec_style_pos() == old(self).spec_style_pos()
                } else {
                    let sp = style_for(old(self).spec_styles(), old(self).spec_style_pos(), q);
                    let e = run_end(gs, q, part_limit(old(self).spec_styles(), sp, q));
                    &&& r matches Some(Part::Str(s, count, style)) && {
                        &&& s@ == gs.subrange(q, e + 1).flatten()
                        &&& count == columns_of(gs, q, e)
                        &&& style == part_style(old(self).spec_styles(), sp, q)
                    }
                    &&& final(self).spec_pos() == e + 1
                    &&& final(self).spec_style_pos() == sp
                }
            }),
    {
        let ghost gs = self.clusters();
        let ghost pos0 = self.pos as int;
        let ghost sp0 = self.style_pos as int;
        let ghost d0 = self.data;
        let ghost g0 = self.graphemes@;
        let ghost st0 = self.styles@;
        let ghost behind = old(self).styles_behind();
        let n = self.graphemes.len();
        // 1. Get first non-zero width grapheme
        let mut q = self.pos;
        let mut width: usize = 0;
        loop
            invariant_except_break
                self.wf(),
                self.clusters() == gs,
                self.data == d0,
                self.graphemes@ == g0,
                self.styles@ == st0,
                self.pos == pos0,
                self.style_pos == sp0,
                n == gs.len(),
                pos0 <= q <= n,
                skip_invisible(gs, pos0) == skip_invisible(gs, q as int),
                d0 == old(self).data,
                g0 == old(self).graphemes@,
                st0 == old(self).styles@,
                gs == old(self).clusters(),
                pos0 == old(self).pos,
                sp0 == old(self).style_pos,
                behind == old(self).styles_behind(),
                behind ==> forall|j: int| 0 <= j < sp0 ==> #[trigger] st0[j].range.end < pos0,
            ensures
                self.wf(),
                self.clusters() == gs,
                self.data == d0,
                self.graphemes@ == g0,
                self.styles@ == st0,
                self.pos == pos0,
                self.style_pos == sp0,
                n == gs.len(),
                pos0 <= q < n,
                skip_invisible(gs, pos0) == q,
                width == str_width(gs[q as int]),
                width != 0,
                behind ==> forall|j: int| 0 <= j < sp0 ==> #[trigger] st0[j].range.end < pos0,
            decreases n - q,
        {
            if q >= n {
                self.pos = n;
                return None;
            }
            proof {
                assert(gs[q as int] == self.graphemes@[q as int].spec_data()@);
            }
            width = self.graphemes[q].columns();
            if width != 0 {
                break;
            }
            if is_new_line(self.graphemes[q].data()) {
                self.pos = q + 1;
                return Some(Part::NewLine);
            }
            q += 1;
        }

        // 2. We could skip some styles because of 0-width graphemes, find new style range
        // for current grapheme.
        let ghost styles = self.styles@;
        while self.style_pos < self.styles.len() && self.styles[self.style_pos].range.end < q
            invariant
                self.wf(),
                self.clusters() == gs,
                self.data == d0,
                self.graphemes@ == g0,
                self.styles@ == st0,
                self.styles@ == styles,
                self.pos == pos0,
                sp0 <= self.style_pos <= styles.len(),
                style_for(styles, sp0, q as int) == style_for(styles, self.style_pos as int, q as int),
                styles == st0,
                pos0 <= q,
                behind ==> forall|j: int| 0 <= j < sp0 ==> #[trigger] st0[j].range.end < pos0,
                forall|j: int| sp0 <= j < self.style_pos ==> #[trigger] styles[j].range.end < q,
            decreases styles.len() - self.style_pos,
        {
            self.style_pos += 1;
        }

        // 3. Find maximum range for current grapheme.
        let mut left: usize = if self.style_pos < self.styles.len() {
            let cur = self.styles[self.style_pos];
            if q < cur.range.start {
                cur.range.start - (q + 1)
            } else {
                cur.range.end - q
            }
        } else {
            usize::MAX
        };
        let style = if self.style_pos < self.styles.len() && self.styles[self.style_pos].range.start <= q {
            self.styles[self.style_pos].style
        } else {
            Style::new()
        };
        let ghost limit = part_limit(styles, self.style_pos as int, q as int);
        let ghost spf = self.style_pos as int;
        let mut count: usize = width;
        let mut e = q;
        proof {
            lemma_columns_split(gs, pos0, q as int - 1, n as int - 1);
            lemma_columns_split(gs, q as int, q as int, n as int - 1);
            lemma_columns_nonneg(gs, pos0, q as int - 1);
            lemma_columns_nonneg(gs, q as int + 1, n as int - 1);
            assert(columns_of(gs, q as int, q as int - 1) == 0);
        }

        // 4. Check graphemes only in the range found above. A grapheme of no width stays for
        // the next part.
        loop
            invariant_except_break
                self.wf(),
                self.clusters() == gs,
                self.data == d0,
                self.graphemes@ == g0,
                self.styles@ == st0,
                self.styles@ == styles,
                self.pos == pos0,
                q <= e < n,
                n == gs.len(),
                e + left == limit,
                run_end(gs, q as int, limit) == run_end(gs, e as int, limit),
                count == columns_of(gs, q as int, e as int),
                columns_of(gs, q as int, n as int - 1) <= usize::MAX,
                self.style_pos == spf,
            ensures
                self.wf(),
                self.clusters() == gs,
                self.data == d0,
                self.graphemes@ == g0,
                self.styles@ == st0,
                self.styles@ == styles,
                self.pos == pos0,
                q <= e < n,
                run_end(gs, q as int, limit) == e,
                count == columns_of(gs, q as int, e as int),
                self.style_pos == spf,
            decreases n - e,
        {
            if left == 0 || e + 1 >= n {
                break;
            }
            proof {
                assert(gs[e + 1] == self.graphemes@[e + 1].spec_data()@);
            }
            let w = self.graphemes[e + 1].columns();
            if w == 0 {
                break;
            }
            proof {
                lemma_columns_split(gs, q as int, e as int + 1, n as int - 1);
                lemma_columns_nonneg(gs, e as int + 2, n as int - 1);
            }
            count = count + w;
            e = e + 1;
            left = left - 1;
        }
        self.pos = e + 1;
        let start = self.offsets[q];
        let end = self.offsets[e + 1];
        proof {
            lemma_slice_of_flatten(gs, q as int, e + 1);
        }
        let s = self.data.substring_char(start, end);
        Some(Part::Str(s, count, style))
    }

}

} // verus!
