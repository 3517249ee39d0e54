//! Text with a style mask, edited grapheme by grapheme.

use vstd::prelude::*;

use crate::text::{
    grapheme::{char_offsets, create_graphemes, lemma_slice_of_flatten, texts_of, Grapheme},
    mask::{
        range::{proper, Range},
        laws::{law_remove_style_at, law_shift_add_style_at, law_shift_sub_style_at, lemma_remove_ends_by},
        lemmas::{ends_by, lemma_remove_wf, lemma_wf_all_proper},
        spec::{merged_at, remove_spec, style_at, wf},
        Mask, StyleInfo,
    },
    part::{is_new_line, is_newline, lemma_line_break_count_step, line_break_count},
    raw_text::{graphemes_of, text_columns, text_lines, RawText},
    utils::{end_index, start_index, valid_bounds, Bound},
};

verus! {

/// Appends `ch` to the string, as `String::push` does.
pub assume_specification[ String::push ](s: &mut String, ch: char)
    ensures
        final(s)@ == old(s)@.push(ch),
;

/// Reserves room for at least `additional` more bytes; the content does not change.
pub assume_specification[ String::reserve ](s: &mut String, additional: usize)
    ensures
        final(s)@ == old(s)@,
;

/// Reserves room for `additional` more bytes; the content does not change.
pub assume_specification[ String::reserve_exact ](s: &mut String, additional: usize)
    ensures
        final(s)@ == old(s)@,
;

/// Shrinks the allocation to the content; the content does not change.
pub assume_specification[ String::shrink_to_fit ](s: &mut String)
    ensures
        final(s)@ == old(s)@,
;

/// Shrinks the allocation, keeping room for `min_capacity` bytes; the content does not change.
pub assume_specification[ String::shrink_to ](s: &mut String, min_capacity: usize)
    ensures
        final(s)@ == old(s)@,
;

/// The room of the allocation, in bytes. Its value depends on the allocator; what std documents
/// of every outcome is that it is never below the length in bytes, and a string holds at least
/// one byte for each of its characters.
pub assume_specification[ String::capacity ](s: &String) -> (r: usize)
    ensures
        r >= s@.len(),
;

/// The graphemes of `gs` whose flag in `keep` is set, in order.
pub open spec fn kept(gs: Seq<Seq<char>>, keep: Seq<bool>) -> Seq<Seq<char>>
    decreases gs.len(),
{
    if gs.len() == 0 || keep.len() == 0 {
        Seq::empty()
    } else {
        let rest = kept(gs.drop_last(), keep.drop_last());
        if keep.last() { rest.push(gs.last()) } else { rest }
    }
}

/// `f` answered `keep[i]` for the grapheme `gs[i]`, passed as `args[i]`, for each `i`.
pub open spec fn answers<'a, F: FnMut(&str) -> bool>(f: F, gs: Seq<Seq<char>>, args: Seq<&'a str>, keep: Seq<bool>) -> bool {
    &&& args.len() == gs.len()
    &&& keep.len() == gs.len()
    &&& forall|i: int| 0 <= i < args.len() ==> (#[trigger] args[i])@ == gs[i] && call_ensures(f, (args[i],), keep[i])
}

/// The count of line breaks among the first `k` graphemes of `gs`.
pub open spec fn breaks_before(gs: Seq<Seq<char>>, k: int) -> int
    decreases k,
{
    if k <= 0 {
        0
    } else {
        breaks_before(gs, k - 1) + if is_newline(gs[k - 1]) { 1int } else { 0int }
    }
}

/// `breaks_before` counts the line breaks, "\n" and "\r\n" alike, among the first `k`
/// graphemes.
pub proof fn law_breaks_before_counts(gs: Seq<Seq<char>>, k: int)
    requires
        0 <= k <= gs.len(),
    ensures
        breaks_before(gs, k) == line_break_count(gs.take(k)),
    decreases k,
{
    if k == 0 {
        reveal(Seq::filter);
        assert(gs.take(0) =~= Seq::<Seq<char>>::empty());
    } else {
        law_breaks_before_counts(gs, k - 1);
        lemma_line_break_count_step(gs, k - 1);
    }
}

/// From a position with fewer than `n` line breaks before it, the cut [`lines_cut`] finds is at
/// the line break that makes them `n`, or at the end of the text where there are fewer.
proof fn lemma_lines_cut(gs: Seq<Seq<char>>, n: int, from: int)
    requires
        n >= 1,
        0 <= from <= gs.len(),
        breaks_before(gs, from) < n,
    ensures
        from <= lines_cut(gs, n, from) <= gs.len(),
        lines_cut(gs, n, from) < gs.len() ==> is_newline(gs[lines_cut(gs, n, from)]) && breaks_before(
            gs,
            lines_cut(gs, n, from),
        ) == n - 1,
        lines_cut(gs, n, from) == gs.len() ==> breaks_before(gs, gs.len() as int) < n,
    decreases gs.len() - from,
{
    if from < gs.len() && breaks_before(gs, from + 1) != n {
        lemma_lines_cut(gs, n, from + 1);
    }
}

/// Line breaks only add up: there are never fewer of them among more graphemes.
proof fn lemma_breaks_before_grows(gs: Seq<Seq<char>>, i: int, j: int)
    requires
        i <= j,
    ensures
        breaks_before(gs, i) <= breaks_before(gs, j),
    decreases j - i,
{
    if i < j {
        lemma_breaks_before_grows(gs, i, j - 1);
    }
}

/// Truncating to no line keeps nothing, unless the text starts with a line break: then no line
/// ends before a line break and the text stays whole.
pub proof fn law_truncate_lines_zero(gs: Seq<Seq<char>>)
    requires
        gs.len() > 0,
    ensures
        !(gs[0] == seq!['\n'] || gs[0] == seq!['\r', '\n']) ==> lines_cut(gs, 0, 0) == 0,
        (gs[0] == seq!['\n'] || gs[0] == seq!['\r', '\n']) ==> lines_cut(gs, 0, 0) == gs.len(),
{
    assert(breaks_before(gs, 0) == 0);
    assert(breaks_before(gs, 1) == if is_newline(gs[0]) { 1int } else { 0int });
    if gs[0] == seq!['\n'] || gs[0] == seq!['\r', '\n'] {
        lemma_lines_cut_none(gs, 0);
    }
}

/// Where the text starts with a line break, no count of line breaks is ever 0 past it.
proof fn lemma_lines_cut_none(gs: Seq<Seq<char>>, from: int)
    requires
        gs.len() > 0,
        is_newline(gs[0]),
        0 <= from <= gs.len(),
    ensures
        lines_cut(gs, 0, from) == gs.len(),
    decreases gs.len() - from,
{
    if from < gs.len() {
        assert(breaks_before(gs, 0) == 0);
        assert(breaks_before(gs, 1) == 1);
        lemma_breaks_before_grows(gs, 1, from + 1);
        lemma_lines_cut_none(gs, from + 1);
    }
}

/// Truncating to `n` lines, for `n` from 1 to the count of lines, keeps the graphemes before the
/// line break that ends line `n`: the text kept holds exactly `n - 1` line breaks ("\n" or
/// "\r\n"), and the grapheme cut off first is a line break, unless nothing was cut.
pub proof fn law_truncate_lines_cut(gs: Seq<Seq<char>>, n: int)
    requires
        1 <= n <= line_break_count(gs) + 1,
    ensures
        0 <= lines_cut(gs, n, 0) <= gs.len(),
        line_break_count(gs.take(lines_cut(gs, n, 0))) == n - 1,
        lines_cut(gs, n, 0) < gs.len() ==> (gs[lines_cut(gs, n, 0)] == seq!['\n'] || gs[lines_cut(gs, n, 0)]
            == seq!['\r', '\n']),
{
    lemma_lines_cut(gs, n, 0);
    let c = lines_cut(gs, n, 0);
    law_breaks_before_counts(gs, c);
    law_breaks_before_counts(gs, gs.len() as int);
    assert(gs.take(gs.len() as int) =~= gs);
}

/// The first position `i` from `from` on whose grapheme makes the count of line breaks up to
/// it equal to `lines`, or the count of graphemes where there is none.
pub open spec fn lines_cut(gs: Seq<Seq<char>>, lines: int, from: int) -> int
    decreases gs.len() - from,
{
    if from >= gs.len() {
        gs.len() as int
    } else if breaks_before(gs, from + 1) == lines {
        from
    } else {
        lines_cut(gs, lines, from + 1)
    }
}

/// The count of graphemes since the last line break, up to and with the `k`-th; a line break
/// counts as none.
pub open spec fn line_position(gs: Seq<Seq<char>>, k: int) -> int
    decreases k,
{
    if k <= 0 {
        0
    } else if is_newline(gs[k - 1]) {
        0
    } else {
        line_position(gs, k - 1) + 1
    }
}

/// `line_position` is the count of graphemes of the line the `k`-th grapheme ends: from `j`,
/// the start of the text or the grapheme after a line break, up to `k` with no line break
/// between; and a line break itself stands at 0.
pub proof fn law_line_position_counts(gs: Seq<Seq<char>>, j: int, k: int)
    requires
        0 <= j <= k <= gs.len(),
        j == 0 || gs[j - 1] == seq!['\n'] || gs[j - 1] == seq!['\r', '\n'],
        forall|i: int| j <= i < k ==> !(#[trigger] gs[i] == seq!['\n'] || gs[i] == seq!['\r', '\n']),
    ensures
        line_position(gs, k) == k - j,
    decreases k,
{
    if k > j {
        law_line_position_counts(gs, j, k - 1);
        assert(!(gs[k - 1] == seq!['\n'] || gs[k - 1] == seq!['\r', '\n']));
    }
}

/// Which graphemes stay when lines are cut after `columns` graphemes.
pub open spec fn column_keep(gs: Seq<Seq<char>>, columns: int) -> Seq<bool> {
    Seq::new(gs.len(), |i: int| line_position(gs, i + 1) <= columns)
}

/// The positions `(first, last)` a grapheme range with bounds `start` and `end` selects among
/// `n` graphemes.
pub open spec fn selected(start: Bound, end: Bound, n: int) -> (int, int) {
    (start_index(start), if end is Unbounded { n - 1 } else { end_index(end) })
}

/// The bounds select graphemes that exist.
pub open spec fn selects_graphemes(start: Bound, end: Bound, n: int) -> bool {
    &&& valid_bounds(start, end)
    &&& start_index(start) < n
    &&& (end is Unbounded || end_index(end) < n)
}

/// The mask after the graphemes `a..=b` were replaced by `new_len` graphemes: the styles of the
/// range are removed and the styles after it move by the difference of the lengths.
pub open spec fn polite_mask(mask: Seq<StyleInfo>, a: int, b: int, new_len: int) -> Seq<StyleInfo> {
    let old_len = b - a + 1;
    let removed = remove_spec(mask, Range { start: a as usize, end: b as usize });
    let tail = Range { start: (b + 1) as usize, end: usize::MAX };
    if old_len < new_len {
        crate::text::mask::shift_add_spec(removed, tail, (new_len - old_len) as usize)
    } else {
        crate::text::mask::shift_sub_spec(removed, tail, (old_len - new_len) as usize)
    }
}

/// After a polite replacement of the graphemes `a..=b` by `new_len` graphemes, each grapheme
/// after the range keeps its style at its new position.
pub proof fn law_polite_keeps_styles_after(mask: Seq<StyleInfo>, a: int, b: int, new_len: int, p: int)
    requires
        wf(mask),
        0 <= a <= b < usize::MAX,
        0 <= new_len,
        b < p <= usize::MAX,
        p + new_len - (b - a + 1) <= usize::MAX,
        b - a + 1 < new_len ==> ends_by(mask, usize::MAX - (new_len - (b - a + 1))),
        new_len - (b - a + 1) <= usize::MAX,
    ensures
        style_at(polite_mask(mask, a, b, new_len), p + new_len - (b - a + 1)) == style_at(mask, p),
{
    let old_len = b - a + 1;
    let range = Range { start: a as usize, end: b as usize };
    let removed = remove_spec(mask, range);
    let tail = Range { start: (b + 1) as usize, end: usize::MAX };
    lemma_remove_wf(mask, range, 0);
    law_remove_style_at(mask, range, p);
    if old_len < new_len {
        let d = (new_len - old_len) as usize;
        lemma_wf_all_proper(mask);
        lemma_remove_ends_by(mask, range, usize::MAX - d);
        law_shift_add_style_at(removed, tail, d, p + d);
        law_remove_style_at(mask, range, p + d);
        if style_at(removed, p) is Some {
            assert(merged_at(None, style_at(removed, p).unwrap()) == style_at(removed, p).unwrap());
        }
    } else {
        let d = (old_len - new_len) as usize;
        law_shift_sub_style_at(removed, tail, d, p - d);
        law_remove_style_at(mask, range, p - d);
        if style_at(removed, p) is Some {
            assert(merged_at(None, style_at(removed, p).unwrap()) == style_at(removed, p).unwrap());
        }
    }
}

/// After a polite replacement of the graphemes `a..=b` by `new_len` graphemes, each grapheme
/// before the range keeps its style, in place.
pub proof fn law_polite_keeps_styles_before(mask: Seq<StyleInfo>, a: int, b: int, new_len: int, p: int)
    requires
        wf(mask),
        0 <= a <= b < usize::MAX,
        0 <= new_len,
        0 <= p < a,
        new_len - (b - a + 1) <= usize::MAX,
    ensures
        style_at(polite_mask(mask, a, b, new_len), p) == style_at(mask, p),
{
    let old_len = b - a + 1;
    let range = Range { start: a as usize, end: b as usize };
    let removed = remove_spec(mask, range);
    let tail = Range { start: (b + 1) as usize, end: usize::MAX };
    lemma_remove_wf(mask, range, 0);
    law_remove_style_at(mask, range, p);
    if old_len < new_len {
        let d = (new_len - old_len) as usize;
        crate::text::mask::laws::law_shift_add_keeps_before(removed, tail, d, p);
    } else {
        let d = (old_len - new_len) as usize;
        law_shift_sub_style_at(removed, tail, d, p);
    }
}

/// After a polite split at grapheme `at`, each grapheme of the split-off part keeps its style at
/// its new position, `at` places earlier.
pub proof fn law_split_keeps_styles(mask: Seq<StyleInfo>, at: int, p: int)
    requires
        wf(mask),
        1 <= at <= p <= usize::MAX,
    ensures
        style_at(
            crate::text::mask::shift_sub_spec(
                remove_spec(mask, Range { start: 0, end: (at - 1) as usize }),
                Range { start: at as usize, end: usize::MAX },
                at as usize,
            ),
            p - at,
        ) == style_at(mask, p),
{
    let range = Range { start: 0, end: (at - 1) as usize };
    let removed = remove_spec(mask, range);
    let tail = Range { start: at as usize, end: usize::MAX };
    lemma_remove_wf(mask, range, 0);
    law_remove_style_at(mask, range, p);
    law_remove_style_at(mask, range, p - at);
    law_shift_sub_style_at(removed, tail, at as usize, p - at);
    if style_at(removed, p) is Some {
        assert(merged_at(None, style_at(removed, p).unwrap()) == style_at(removed, p).unwrap());
    }
}

/// Text with styles on ranges of its graphemes.
#[derive(Debug)]
pub struct Text {
    raw: RawText,
    mask: Mask,
}

impl Text {
    /// The characters of the text.
    pub closed spec fn view_str(&self) -> Seq<char> {
        self.raw.view_str()
    }

    /// The graphemes of the text.
    pub open spec fn clusters(&self) -> Seq<Seq<char>> {
        graphemes_of(self.view_str())
    }

    /// The styled ranges of the mask.
    pub closed spec fn spec_mask(&self) -> Seq<StyleInfo> {
        self.mask@
    }

    /// Whether the content is borrowed.
    pub closed spec fn spec_borrowed(&self) -> bool {
        self.raw.spec_borrowed()
    }

    /// The cached size matches the content.
    pub closed spec fn wf(&self) -> bool {
        self.raw.wf()
    }

    /// An empty text with no style.
    pub fn new() -> (r: Self)
        ensures
            r.wf(),
            r.view_str() == Seq::<char>::empty(),
            r.spec_mask() == Seq::<StyleInfo>::empty(),
            !r.spec_borrowed(),
    {
        Text { raw: RawText::owned(String::new()), mask: Mask::new() }
    }

    /// The text borrowing `s`, with no style.
    pub fn from_static(s: &'static str) -> (r: Self)
        ensures
            r.wf(),
            r.view_str() == s@,
            r.spec_mask() == Seq::<StyleInfo>::empty(),
            r.spec_borrowed(),
    {
        Text { raw: RawText::borrowed(s), mask: Mask::new() }
    }

    /// The text owning `s`, with no style.
    pub fn from_string(s: String) -> (r: Self)
        ensures
            r.wf(),
            r.view_str() == s@,
            r.spec_mask() == Seq::<StyleInfo>::empty(),
            !r.spec_borrowed(),
    {
        Text { raw: RawText::owned(s), mask: Mask::new() }
    }

    /// The content as an owned string, as the text is shown.
    pub fn to_string(&self) -> (r: String)
        ensures
            r@ == self.view_str(),
    {
        let mut r = String::new();
        r.append(self.as_str());
        r
    }

    /// The text of the one character `c`.
    pub fn from_char(c: char) -> (r: Self)
        ensures
            r.wf(),
            r.view_str() == seq![c],
            r.spec_mask() == Seq::<StyleInfo>::empty(),
            !r.spec_borrowed(),
    {
        let mut s = String::new();
        s.push(c);
        assert(s@ =~= seq![c]);
        Self::from_string(s)
    }

    /// The content.
    pub fn as_str(&self) -> (r: &str)
        ensures
            r@ == self.view_str(),
    {
        self.raw.as_str()
    }

    /// The graphemes of the text, numbered from 0.
    pub fn graphemes(&self) -> (r: Vec<Grapheme<'_>>)
        ensures
            texts_of(r@) == self.clusters(),
            forall|i: int| 0 <= i < r@.len() ==> (#[trigger] r@[i]).spec_index() == i,
    {
        create_graphemes(self.as_str())
    }

    /// Sets the content to `s`, keeping the mask.
    fn set_content(&mut self, s: String)
        ensures
            final(self).wf(),
            final(self).view_str() == s@,
            final(self).spec_mask() == old(self).spec_mask(),
            !final(self).spec_borrowed(),
    {
        self.raw = RawText::owned(s);
    }

    /// The graphemes `a..b` followed by `middle` and the graphemes `c..` of the content.
    fn splice(&self, a: usize, middle: &str, c: usize) -> (r: String)
        requires
            a <= c <= self.clusters().len(),
        ensures
            r@ == self.clusters().take(a as int).flatten() + middle@ + self.clusters().skip(c as int).flatten(),
    {
        let s = self.as_str();
        let graphemes = create_graphemes(s);
        let offsets = char_offsets(s, &graphemes);
        let ghost gs = self.clusters();
        let n = graphemes.len();
        proof {
            lemma_slice_of_flatten(gs, 0, a as int);
            lemma_slice_of_flatten(gs, c as int, n as int);
            assert(gs.take(0) =~= Seq::<Seq<char>>::empty());
            assert(gs.subrange(0, a as int) =~= gs.take(a as int));
            assert(gs.subrange(c as int, n as int) =~= gs.skip(c as int));
            assert(gs.take(n as int) =~= gs);
        }
        let mut r = String::new();
        r.append(s.substring_char(0, offsets[a]));
        r.append(middle);
        r.append(s.substring_char(offsets[c], offsets[n]));
        proof {
            assert(Seq::<char>::empty() + gs.take(a as int).flatten() =~= gs.take(a as int).flatten());
        }
        r
    }

    /// The graphemes of the text together with its mask, to change the styles while looking
    /// at the graphemes.
    pub fn parts(&mut self) -> (r: (Vec<Grapheme<'_>>, &mut Mask))
        ensures
            texts_of(r.0@) == old(self).clusters(),
            forall|i: int| 0 <= i < r.0@.len() ==> (#[trigger] r.0@[i]).spec_index() == i,
            r.1@ == old(self).spec_mask(),
            final(self).spec_mask() == final(r.1)@,
            final(self).view_str() == old(self).view_str(),
            final(self).wf() == old(self).wf(),
    {
        (create_graphemes(self.raw.as_str()), &mut self.mask)
    }

    /// Modify text in place with a given closure, which gets the content as an owned string
    /// and may return a value. The mask does not change.
    pub fn modify<F, R>(&mut self, f: F) -> (r: R)
        where
            F: FnOnce(&mut String) -> R,
        requires
            forall|s: &mut String| call_requires(f, (s,)),
        ensures
            final(self).wf(),
            final(self).spec_mask() == old(self).spec_mask(),
            !final(self).spec_borrowed(),
            exists|m: &mut String|
                {
                    &&& (*m)@ == old(self).view_str()
                    &&& (*final(m))@ == final(self).view_str()
                    &&& call_ensures(f, (m,), r)
                },
    {
        let mut content = String::new();
        content.append(self.as_str());
        let r = f(&mut content);
        self.set_content(content);
        r
    }

    /// Reserves room for at least `additional` more bytes. A borrowed content becomes owned.
    pub fn reserve(&mut self, additional: usize)
        requires
            old(self).wf(),
        ensures
            final(self).wf(),
            final(self).view_str() == old(self).view_str(),
            final(self).spec_mask() == old(self).spec_mask(),
            !final(self).spec_borrowed(),
    {
        let mut content = self.raw.take_owned();
        content.reserve(additional);
        self.set_content(content);
    }

    /// Reserves room for `additional` more bytes. A borrowed content becomes owned.
    pub fn reserve_exact(&mut self, additional: usize)
        requires
            old(self).wf(),
        ensures
            final(self).wf(),
            final(self).view_str() == old(self).view_str(),
            final(self).spec_mask() == old(self).spec_mask(),
            !final(self).spec_borrowed(),
    {
        let mut content = self.raw.take_owned();
        content.reserve_exact(additional);
        self.set_content(content);
    }

    /// Shrinks the allocation of an owned content to its length; no-op for a borrowed one.
    pub fn shrink_to_fit(&mut self)
        requires
            old(self).wf(),
        ensures
            final(self).wf(),
            final(self).view_str() == old(self).view_str(),
            final(self).spec_mask() == old(self).spec_mask(),
            final(self).spec_borrowed() == old(self).spec_borrowed(),
    {
        if self.is_owned() {
            let mut content = self.raw.take_owned();
            content.shrink_to_fit();
            self.set_content(content);
        }
    }

    /// Shrinks the allocation of an owned content, keeping room for `min_capacity` bytes;
    /// no-op for a borrowed one.
    pub fn shrink_to(&mut self, min_capacity: usize)
        requires
            old(self).wf(),
        ensures
            final(self).wf(),
            final(self).view_str() == old(self).view_str(),
            final(self).spec_mask() == old(self).spec_mask(),
            final(self).spec_borrowed() == old(self).spec_borrowed(),
    {
        if self.is_owned() {
            let mut content = self.raw.take_owned();
            content.shrink_to(min_capacity);
            self.set_content(content);
        }
    }

    /// The room of the allocation of an owned content, in bytes, at least its length; 0 for a
    /// borrowed one.
    pub fn capacity(&self) -> (r: usize)
        ensures
            self.spec_borrowed() ==> r == 0,
            !self.spec_borrowed() ==> r >= self.view_str().len(),
    {
        self.raw.capacity()
    }

    /// Appends a given string slice onto the end of this `Text`.
    pub fn push_str(&mut self, s: &str)
        ensures
            final(self).wf(),
            final(self).view_str() == old(self).view_str() + s@,
            final(self).spec_mask() == old(self).spec_mask(),
            !final(self).spec_borrowed(),
    {
        let mut content = String::new();
        content.append(self.as_str());
        content.append(s);
        self.set_content(content);
    }

    /// Appends the given `char` to the end of this `Text`.
    pub fn push(&mut self, c: char)
        ensures
            final(self).wf(),
            final(self).view_str() == old(self).view_str().push(c),
            final(self).spec_mask() == old(self).spec_mask(),
            !final(self).spec_borrowed(),
    {
        let mut content = String::new();
        content.append(self.as_str());
        content.push(c);
        self.set_content(content);
    }

    /// Remove a `grapheme` from this text at `grapheme_idx` position. Styles remain untouched.
    pub fn remove(&mut self, grapheme_idx: usize)
        requires
            old(self).wf(),
            grapheme_idx < old(self).clusters().len(),
        ensures
            final(self).wf(),
            final(self).view_str() == old(self).clusters().take(grapheme_idx as int).flatten()
                + old(self).clusters().skip(grapheme_idx + 1).flatten(),
            final(self).spec_mask() == old(self).spec_mask(),
    {
        self.replace_range(Bound::Included(grapheme_idx), Bound::Included(grapheme_idx), "");
        proof {
            reveal_strlit("");
            let gs = old(self).clusters();
            assert(gs.take(grapheme_idx as int).flatten() + ""@ + gs.skip(grapheme_idx + 1).flatten()
                =~= gs.take(grapheme_idx as int).flatten() + gs.skip(grapheme_idx + 1).flatten());
        }
    }

    /// The graphemes the range selects, checked against the graphemes of the text.
    fn selected_positions(&self, start: Bound, end: Bound) -> (r: (usize, usize))
        requires
            selects_graphemes(start, end, self.clusters().len() as int),
        ensures
            r.0 == selected(start, end, self.clusters().len() as int).0,
            r.1 == selected(start, end, self.clusters().len() as int).1,
            self.clusters().len() <= usize::MAX,
    {
        let n = self.graphemes().len();
        let first = match start {
            Bound::Included(v) => v,
            Bound::Excluded(v) => v + 1,
            Bound::Unbounded => 0,
        };
        let last = match end {
            Bound::Included(v) => v,
            Bound::Excluded(v) => v - 1,
            Bound::Unbounded => n - 1,
        };
        (first, last)
    }

    /// Remove the specified range of graphemes in the text, and replaces it with the given
    /// string. The mask does not change.
    pub fn replace_range(&mut self, start: Bound, end: Bound, replace_with: &str)
        requires
            old(self).wf(),
            selects_graphemes(start, end, old(self).clusters().len() as int),
        ensures
            final(self).wf(),
            ({
                let (a, b) = selected(start, end, old(self).clusters().len() as int);
                final(self).view_str() == old(self).clusters().take(a).flatten() + replace_with@
                    + old(self).clusters().skip(b + 1).flatten()
            }),
            final(self).spec_mask() == old(self).spec_mask(),
    {
        let (a, b) = self.selected_positions(start, end);
        let content = self.splice(a, replace_with, b + 1);
        self.set_content(content);
    }

    /// Remove the specified range of graphemes in the text, and replaces it with the given
    /// string. The styles of the range are removed and the styles after it shifted so that
    /// the rest of the text keeps its styles.
    pub fn replace_range_polite(&mut self, start: Bound, end: Bound, replace_with: &str)
        requires
            old(self).wf(),
            selects_graphemes(start, end, old(self).clusters().len() as int),
        ensures
            final(self).wf(),
            ({
                let (a, b) = selected(start, end, old(self).clusters().len() as int);
                &&& final(self).view_str() == old(self).clusters().take(a).flatten() + replace_with@
                    + old(self).clusters().skip(b + 1).flatten()
                &&& final(self).spec_mask() == polite_mask(
                    old(self).spec_mask(),
                    a,
                    b,
                    graphemes_of(replace_with@).len() as int,
                )
            }),
    {
        let (a, b) = self.selected_positions(start, end);
        let content = self.splice(a, replace_with, b + 1);
        self.set_content(content);
        self.mask.remove(Range { start: a, end: b });
        let old_len = b - a + 1;
        let new_len = create_graphemes(replace_with).len();
        let tail = Range { start: b + 1, end: usize::MAX };
        if old_len < new_len {
            self.mask.shift_add(tail, new_len - old_len);
        } else {
            self.mask.shift_sub(tail, old_len - new_len);
        }
    }

    /// Removes the last `grapheme` from the text. If the text is empty it is noop. Styles
    /// remain untouched.
    pub fn pop(&mut self)
        requires
            old(self).wf(),
        ensures
            final(self).wf(),
            final(self).view_str() == (if old(self).clusters().len() > 0 {
                old(self).clusters().drop_last().flatten()
            } else {
                old(self).view_str()
            }),
            final(self).spec_mask() == old(self).spec_mask(),
    {
        let n = self.graphemes().len();
        if n > 0 {
            let content = self.splice(n - 1, "", n);
            proof {
                let gs = self.clusters();
                assert(gs.skip(n as int) =~= Seq::<Seq<char>>::empty());
                assert(gs.take(n - 1) =~= gs.drop_last());
                assert(gs.drop_last().flatten() + ""@ + Seq::<Seq<char>>::empty().flatten() =~= gs.drop_last().flatten()) by {
                    reveal_strlit("");
                }
            }
            self.set_content(content);
        }
    }

    /// Inserts a string slice into this `Text` at `grapheme` index.
    pub fn insert_str(&mut self, grapheme_idx: usize, s: &str)
        requires
            old(self).wf(),
            grapheme_idx <= old(self).clusters().len(),
        ensures
            final(self).wf(),
            final(self).view_str() == old(self).clusters().take(grapheme_idx as int).flatten() + s@
                + old(self).clusters().skip(grapheme_idx as int).flatten(),
            final(self).spec_mask() == old(self).spec_mask(),
    {
        let content = self.splice(grapheme_idx, s, grapheme_idx);
        self.set_content(content);
    }

    /// Retains only the `graphemes` specified by the predicate: every grapheme `g` for which
    /// `f(g)` returns false is removed. The mask does not change.
    pub fn retain<F>(&mut self, mut f: F)
        where
            F: FnMut(&str) -> bool,
        requires
            old(self).wf(),
            forall|g: &str| call_requires(f, (g,)),
        ensures
            final(self).wf(),
            final(self).spec_mask() == old(self).spec_mask(),
            exists|args: Seq<&str>, keep: Seq<bool>|
                #[trigger] answers(f, old(self).clusters(), args, keep)
                    && final(self).view_str() == kept(old(self).clusters(), keep).flatten(),
    {
        let ghost gs = self.clusters();
        let ghost f0 = f;
        let mut out = String::new();
        let ghost mut keep: Seq<bool> = Seq::empty();
        {
            let graphemes = self.graphemes();
            let n = graphemes.len();
            let ghost mut args: Seq<&str> = Seq::empty();
            let mut k: usize = 0;
            proof {
                assert(gs.take(0) =~= Seq::<Seq<char>>::empty());
            }
            while k < n
                invariant
                    texts_of(graphemes@) == gs,
                    n == gs.len(),
                    k <= n,
                    forall|g: &str| call_requires(f, (g,)),
                    f == f0,
                    args.len() == k,
                    keep.len() == k,
                    forall|i: int| 0 <= i < k ==> (#[trigger] args[i])@ == gs[i] && call_ensures(f, (args[i],), keep[i]),
                    out@ == kept(gs.take(k as int), keep).flatten(),
                decreases n - k,
            {
                let g = graphemes[k].data();
                proof {
                    assert(texts_of(graphemes@)[k as int] == graphemes@[k as int].spec_data()@);
                }
                let b = f(g);
                let ghost before = out@;
                if b {
                    out.append(g);
                }
                proof {
                    let nk = keep.push(b);
                    assert(gs.take(k + 1).drop_last() =~= gs.take(k as int));
                    assert(nk.drop_last() =~= keep);
                    if b {
                        kept(gs.take(k as int), keep).lemma_flatten_push(gs[k as int]);
                    }
                    args = args.push(g);
                    keep = nk;
                }
                k += 1;
            }
            proof {
                assert(gs.take(n as int) =~= gs);
                assert(out@ == kept(gs, keep).flatten());
                assert(answers(f, gs, args, keep));
            }
        }
        self.set_content(out);
    }

    /// Split the `Text` into two at the given `grapheme` index: `self` keeps graphemes
    /// `[0, at)` and its mask, the returned `Text` gets graphemes `[at, len)` with the styles of
    /// that part of the mask, moved to start at 0.
    pub fn split_off_polite(&mut self, at: usize) -> (r: Text)
        requires
            old(self).wf(),
            1 <= at < old(self).clusters().len(),
        ensures
            final(self).wf(),
            r.wf(),
            final(self).view_str() == old(self).clusters().take(at as int).flatten(),
            final(self).spec_mask() == old(self).spec_mask(),
            r.view_str() == old(self).clusters().skip(at as int).flatten(),
            r.spec_mask() == crate::text::mask::shift_sub_spec(
                remove_spec(old(self).spec_mask(), Range { start: 0, end: (at - 1) as usize }),
                Range { start: at, end: usize::MAX },
                at,
            ),
    {
        let mut mask = self.mask.clone();
        mask.remove(Range { start: 0, end: at - 1 });
        mask.shift_sub(Range { start: at, end: usize::MAX }, at);
        let n = self.graphemes().len();
        let tail = self.splice(0, "", at);
        let head = self.splice(at, "", n);
        proof {
            reveal_strlit("");
            let gs = old(self).clusters();
            assert(gs.take(0) =~= Seq::<Seq<char>>::empty());
            assert(gs.skip(n as int) =~= Seq::<Seq<char>>::empty());
            assert(tail@ =~= gs.skip(at as int).flatten());
            assert(head@ =~= gs.take(at as int).flatten());
        }
        self.set_content(head);
        Text { raw: RawText::owned(tail), mask }
    }

    /// Shortens this `Text` to the specified lines count: the text is cut before the line
    /// break that ends line `new_lines`. If `new_lines` is greater than the current lines count
    /// this is no-op. Styles remain untouched.
    pub fn truncate_lines(&mut self, new_lines: usize)
        requires
            old(self).wf(),
        ensures
            final(self).wf(),
            final(self).view_str() == (if new_lines <= text_lines(old(self).clusters()) {
                old(self).clusters().take(lines_cut(old(self).clusters(), new_lines as int, 0)).flatten()
            } else {
                old(self).view_str()
            }),
            final(self).spec_mask() == old(self).spec_mask(),
    {
        if new_lines <= self.lines() {
            let ghost gs = self.clusters();
            let mut k: usize = 0;
            let n;
            {
                let graphemes = self.graphemes();
                n = graphemes.len();
                let mut lines: usize = 0;
                while k < n
                    invariant_except_break
                        texts_of(graphemes@) == gs,
                        n == gs.len(),
                        k <= n,
                        lines == breaks_before(gs, k as int),
                        lines <= k,
                        lines_cut(gs, new_lines as int, 0) == lines_cut(gs, new_lines as int, k as int),
                    ensures
                        k <= n,
                        n == gs.len(),
                        lines_cut(gs, new_lines as int, 0) == k,
                    decreases n - k,
                {
                    proof {
                        assert(texts_of(graphemes@)[k as int] == graphemes@[k as int].spec_data()@);
                    }
                    if is_new_line(graphemes[k].data()) {
                        lines += 1;
                    }
                    if lines == new_lines {
                        break;
                    }
                    k += 1;
                }
            }
            let content = self.splice(k, "", n);
            proof {
                reveal_strlit("");
                assert(gs.skip(n as int) =~= Seq::<Seq<char>>::empty());
                assert(content@ =~= gs.take(k as int).flatten());
            }
            self.set_content(content);
        }
    }

    /// Shortens each line of this `Text` to `new_columns` graphemes. If `new_columns` is not
    /// below the current max columns this is no-op. Styles remain untouched.
    pub fn truncate_columns(&mut self, new_columns: usize)
        requires
            old(self).wf(),
        ensures
            final(self).wf(),
            final(self).view_str() == (if new_columns < text_columns(old(self).clusters()) {
                kept(old(self).clusters(), column_keep(old(self).clusters(), new_columns as int)).flatten()
            } else {
                old(self).view_str()
            }),
            final(self).spec_mask() == old(self).spec_mask(),
    {
        if new_columns < self.columns() {
            let ghost gs = self.clusters();
            let ghost all_keep = column_keep(gs, new_columns as int);
            let mut out = String::new();
            {
                let graphemes = self.graphemes();
                let n = graphemes.len();
                let mut count: usize = 0;
                let mut k: usize = 0;
                proof {
                    assert(gs.take(0) =~= Seq::<Seq<char>>::empty());
                    assert(all_keep.take(0) =~= Seq::<bool>::empty());
                }
                while k < n
                    invariant
                        texts_of(graphemes@) == gs,
                        n == gs.len(),
                        all_keep == column_keep(gs, new_columns as int),
                        k <= n,
                        count == line_position(gs, k as int),
                        count <= k,
                        out@ == kept(gs.take(k as int), all_keep.take(k as int)).flatten(),
                    decreases n - k,
                {
                    let g = graphemes[k].data();
                    proof {
                        assert(texts_of(graphemes@)[k as int] == graphemes@[k as int].spec_data()@);
                    }
                    count += 1;
                    if is_new_line(g) {
                        count = 0;
                    }
                    let keep_it = count <= new_columns;
                    if keep_it {
                        out.append(g);
                    }
                    proof {
                        assert(gs.take(k + 1).drop_last() =~= gs.take(k as int));
                        assert(all_keep.take(k + 1).drop_last() =~= all_keep.take(k as int));
                        assert(all_keep.take(k + 1).last() == keep_it);
                        if keep_it {
                            kept(gs.take(k as int), all_keep.take(k as int)).lemma_flatten_push(gs[k as int]);
                        }
                    }
                    k += 1;
                }
                proof {
                    assert(gs.take(n as int) =~= gs);
                    assert(all_keep.take(n as int) =~= all_keep);
                }
            }
            self.set_content(out);
        }
    }

    /// The text of the graphemes the range selects.
    pub fn index(&self, start: Bound, end: Bound) -> (r: &str)
        requires
            selects_graphemes(start, end, self.clusters().len() as int),
        ensures
            ({
                let (a, b) = selected(start, end, self.clusters().len() as int);
                r@ == self.clusters().subrange(a, b + 1).flatten()
            }),
    {
        let (a, b) = self.selected_positions(start, end);
        let s = self.as_str();
        let graphemes = create_graphemes(s);
        let offsets = char_offsets(s, &graphemes);
        proof {
            lemma_slice_of_flatten(self.clusters(), a as int, b + 1);
        }
        s.substring_char(offsets[a], offsets[b + 1])
    }

    /// Shortens this `Text` to the specified length in graphemes. If `new_len` is not below
    /// the current length this is no-op. Styles remain untouched.
    pub fn truncate(&mut self, new_len: usize)
        requires
            old(self).wf(),
        ensures
            final(self).wf(),
            final(self).view_str() == (if new_len < old(self).clusters().len() {
                old(self).clusters().take(new_len as int).flatten()
            } else {
                old(self).view_str()
            }),
            final(self).spec_mask() == old(self).spec_mask(),
    {
        let n = self.graphemes().len();
        if new_len < n {
            let content = self.splice(new_len, "", n);
            proof {
                let gs = self.clusters();
                assert(gs.skip(n as int) =~= Seq::<Seq<char>>::empty());
                assert(gs.take(new_len as int).flatten() + ""@ + Seq::<Seq<char>>::empty().flatten()
                    =~= gs.take(new_len as int).flatten()) by {
                    reveal_strlit("");
                }
            }
            self.set_content(content);
        }
    }

    /// Returns the length of this `Text` in `graphemes`.
    pub fn len(&self) -> (r: usize)
        ensures
            r == self.clusters().len(),
    {
        self.graphemes().len()
    }

    /// Removing all graphemes from the text. Styles remain untouched.
    pub fn clear(&mut self)
        requires
            old(self).wf(),
        ensures
            final(self).wf(),
            final(self).view_str() == Seq::<char>::empty(),
            final(self).spec_mask() == old(self).spec_mask(),
    {
        self.set_content(String::new());
    }

    /// Removing all graphemes and mask from the text.
    pub fn clear_all(&mut self)
        requires
            old(self).wf(),
        ensures
            final(self).wf(),
            final(self).view_str() == Seq::<char>::empty(),
            final(self).spec_mask() == Seq::<StyleInfo>::empty(),
    {
        self.clear();
        self.mask.clear();
    }

    /// Mask of this `Text`
    pub fn mask(&self) -> (r: &Mask)
        ensures
            r@ == self.spec_mask(),
    {
        &self.mask
    }

    /// Mask of this `Text`, to change it.
    pub fn mask_mut(&mut self) -> (r: &mut Mask)
        ensures
            r@ == old(self).spec_mask(),
            final(self).spec_mask() == final(r)@,
            final(self).view_str() == old(self).view_str(),
            final(self).wf() == old(self).wf(),
    {
        &mut self.mask
    }

    /// Count of lines in text.
    pub fn lines(&self) -> (r: usize)
        requires
            self.wf(),
        ensures
            r == text_lines(self.clusters()),
    {
        proof {
            crate::text::raw_text::lemma_size_scan_bounds(self.clusters(), self.clusters().len() as int);
        }
        self.raw.size().lines
    }

    /// Max count of columns (in the terminal way) in all lines in the text.
    pub fn columns(&self) -> (r: usize)
        requires
            self.wf(),
        ensures
            r == text_columns(self.clusters()),
    {
        proof {
            crate::text::raw_text::lemma_size_scan_bounds(self.clusters(), self.clusters().len() as int);
        }
        self.raw.size().column
    }

    /// Returns `true` if this text has a length of zero, and `false` otherwise.
    pub fn is_empty(&self) -> (r: bool)
        ensures
            r == (self.view_str().len() == 0),
    {
        self.as_str().unicode_len() == 0
    }

    /// Returns `true` if text content is borrowed and `false` otherwise.
    pub fn is_borrowed(&self) -> (r: bool)
        ensures
            r == self.spec_borrowed(),
    {
        self.raw.is_borrowed()
    }

    /// Returns `true` if text content is owned and `false` otherwise.
    pub fn is_owned(&self) -> (r: bool)
        ensures
            r == !self.spec_borrowed(),
    {
        self.raw.is_owned()
    }
}

impl core::ops::AddAssign<&str> for Text {
    /// Appends `rhs`, as [`Text::push_str`] does.
    fn add_assign(&mut self, rhs: &str)
        ensures
            final(self).wf(),
            final(self).view_str() == old(self).view_str() + rhs@,
            final(self).spec_mask() == old(self).spec_mask(),
            !final(self).spec_borrowed(),
    {
        self.push_str(rhs);
    }
}

impl core::ops::Add<&str> for Text {
    type Output = Text;

    /// The text with `rhs` appended, as [`Text::push_str`] does.
    fn add(self, rhs: &str) -> (r: Text)
        ensures
            r.wf(),
            r.view_str() == self.view_str() + rhs@,
            r.spec_mask() == self.spec_mask(),
            !r.spec_borrowed(),
    {
        let mut r = self;
        r.push_str(rhs);
        r
    }
}

/// What `+` gives on texts is stated by the `ensures` of [`Text::add`]; the generic operator
/// spec claims nothing here, as `obeys_add_spec` is false.
impl vstd::std_specs::ops::AddSpecImpl<&str> for Text {
    open spec fn obeys_add_spec() -> bool {
        false
    }

    open spec fn add_req(self, rhs: &str) -> bool {
        true
    }

    open spec fn add_spec(self, rhs: &str) -> Text {
        self
    }
}

impl std::str::FromStr for Text {
    type Err = std::convert::Infallible;

    /// The text owning a copy of `s`, with no style; it never fails.
    fn from_str(s: &str) -> (r: Result<Text, std::convert::Infallible>)
        ensures
            r matches Ok(t) && t.wf() && t.view_str() == s@ && t.spec_mask() == Seq::<StyleInfo>::empty(),
    {
        let mut content = String::new();
        content.append(s);
        Ok(Text::from_string(content))
    }
}

} // verus!
