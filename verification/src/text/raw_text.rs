//! The characters of a text with their size on the terminal, kept up to date.

use vstd::prelude::*;

use crate::text::{
    grapheme::{cluster_texts, create_graphemes, extended_grapheme_indices, str_width, texts_of},
    part::{columns_of, is_new_line, is_newline, lemma_line_break_count_step, line_break_count},
};

verus! {

/// A value capped at `usize::MAX`.
pub open spec fn capped(x: int) -> int {
    if x > usize::MAX { usize::MAX as int } else { x }
}

/// After the first `k` graphemes of `gs`: the columns of the current line, the most columns of
/// a line so far, and the count of line breaks.
pub open spec fn size_scan(gs: Seq<Seq<char>>, k: int) -> (int, int, int)
    decreases k,
{
    if k <= 0 {
        (0, 0, 0)
    } else {
        let (c, m, n) = size_scan(gs, k - 1);
        if is_newline(gs[k - 1]) {
            (0, m, n + 1)
        } else {
            let c2 = capped(c + str_width(gs[k - 1]));
            (c2, if c2 > m { c2 } else { m }, n)
        }
    }
}

/// The scanned counts stay between 0 and `usize::MAX`, and there are at most `k` line breaks.
pub proof fn lemma_size_scan_bounds(gs: Seq<Seq<char>>, k: int)
    ensures
        0 <= size_scan(gs, k).0 <= usize::MAX,
        0 <= size_scan(gs, k).1 <= usize::MAX,
        0 <= size_scan(gs, k).2 <= if k < 0 { 0 } else { k },
    decreases k,
{
    if k > 0 {
        lemma_size_scan_bounds(gs, k - 1);
    }
}

/// The scan counts every line break, "\n" and "\r\n" alike, among the first `k` graphemes,
/// whatever comes before or after it.
pub proof fn law_size_scan_counts_breaks(gs: Seq<Seq<char>>, k: int)
    requires
        0 <= k <= gs.len(),
    ensures
        size_scan(gs, k).2 == line_break_count(gs.take(k)),
    decreases k,
{
    if k == 0 {
        reveal(Seq::filter);
        assert(gs.take(0) =~= Seq::<Seq<char>>::empty());
    } else {
        law_size_scan_counts_breaks(gs, k - 1);
        lemma_line_break_count_step(gs, k - 1);
    }
}

/// A text without graphemes has no line; any other has one line more than it has line breaks
/// ("\n" or "\r\n"), capped at `usize::MAX`.
pub proof fn law_text_lines_counts_breaks(gs: Seq<Seq<char>>)
    ensures
        text_lines(gs) == if gs.len() == 0 { 0 } else { capped(line_break_count(gs) + 1) },
{
    law_size_scan_counts_breaks(gs, gs.len() as int);
    assert(gs.take(gs.len() as int) =~= gs);
}

/// After the first `k` graphemes, the scan's current columns are those (capped) of the graphemes
/// of the line `k` stands on: from `j`, the start of the text or the grapheme after a line
/// break, up to `k`, with no line break between.
pub proof fn law_size_scan_current_line(gs: Seq<Seq<char>>, j: int, k: int)
    requires
        0 <= j <= k <= gs.len(),
        j == 0 || gs[j - 1] == seq!['\n'] || gs[j - 1] == seq!['\r', '\n'],
        forall|i: int| j <= i < k ==> !(#[trigger] gs[i] == seq!['\n'] || gs[i] == seq!['\r', '\n']),
    ensures
        size_scan(gs, k).0 == capped(columns_of(gs, j, k - 1)),
    decreases k,
{
    if k > j {
        law_size_scan_current_line(gs, j, k - 1);
        assert(!(gs[k - 1] == seq!['\n'] || gs[k - 1] == seq!['\r', '\n']));
    }
}

/// After the first `k` graphemes, the scan's most columns is the largest of its current columns
/// at every step up to `k`: at least each of them, and one of them (or 0).
pub proof fn law_size_scan_most(gs: Seq<Seq<char>>, k: int)
    requires
        0 <= k,
    ensures
        forall|i: int| 0 <= i <= k ==> #[trigger] size_scan(gs, i).0 <= size_scan(gs, k).1,
        size_scan(gs, k).1 == 0 || exists|i: int| 1 <= i <= k && #[trigger] size_scan(gs, i).0 == size_scan(gs, k).1,
    decreases k,
{
    if k > 0 {
        law_size_scan_most(gs, k - 1);
        lemma_size_scan_bounds(gs, k - 1);
        assert forall|i: int| 0 <= i <= k implies #[trigger] size_scan(gs, i).0 <= size_scan(gs, k).1 by {
            if i < k {
                assert(size_scan(gs, i).0 <= size_scan(gs, k - 1).1);
            }
        }
        if size_scan(gs, k).1 != 0 && size_scan(gs, k).1 != size_scan(gs, k - 1).1 {
            assert(size_scan(gs, k).0 == size_scan(gs, k).1);
        }
    }
}

/// The most columns a line of `gs` fills (capped at `usize::MAX`).
pub open spec fn text_columns(gs: Seq<Seq<char>>) -> int {
    size_scan(gs, gs.len() as int).1
}

/// The count of lines of `gs`: none for no grapheme, else one more than its line breaks.
pub open spec fn text_lines(gs: Seq<Seq<char>>) -> int {
    if gs.len() == 0 { 0 } else { capped(size_scan(gs, gs.len() as int).2 + 1) }
}

/// The graphemes of `s`.
pub open spec fn graphemes_of(s: Seq<char>) -> Seq<Seq<char>> {
    cluster_texts(extended_grapheme_indices(s))
}

/// The content of a text: a borrowed static string or an owned one.
#[derive(Debug, Clone)]
pub enum Content {
    Borrowed(&'static str),
    Owned(String),
}

/// The size of a text on the terminal.
#[derive(Debug, Clone, Copy, PartialEq, Eq, Structural, Default)]
pub struct RawTextSize {
    pub column: usize,
    pub lines: usize,
    pub graphemes: usize,
}

/// Simple wrapper around `String` with **cached** size in terminal way
#[derive(Debug)]
pub struct RawText {
    content: Content,
    size: RawTextSize,
}

impl Content {
    /// The characters.
    pub open spec fn view_str(&self) -> Seq<char> {
        match self {
            Content::Borrowed(s) => s@,
            Content::Owned(s) => s@,
        }
    }
}

impl RawTextSize {
    /// The size of a string whose graphemes are `gs`.
    pub open spec fn of(gs: Seq<Seq<char>>) -> RawTextSize {
        RawTextSize {
            column: text_columns(gs) as usize,
            lines: text_lines(gs) as usize,
            graphemes: gs.len() as usize,
        }
    }
}

impl RawText {
    /// The characters of the text.
    pub closed spec fn view_str(&self) -> Seq<char> {
        self.content.view_str()
    }

    /// Whether the content is borrowed.
    pub closed spec fn spec_borrowed(&self) -> bool {
        self.content is Borrowed
    }

    /// The cached size is the size of the content.
    pub closed spec fn wf(&self) -> bool {
        self.size == RawTextSize::of(graphemes_of(self.view_str()))
    }

    /// The size of `s` on the terminal.
    pub fn compute_size(s: &str) -> (r: RawTextSize)
        ensures
            r == RawTextSize::of(graphemes_of(s@)),
    {
        let graphemes = create_graphemes(s);
        let ghost gs = graphemes_of(s@);
        let n = graphemes.len();
        let mut current: usize = 0;
        let mut most: usize = 0;
        let mut breaks: usize = 0;
        let mut k: usize = 0;
        while k < n
            invariant
                n == gs.len(),
                texts_of(graphemes@) == gs,
                k <= n,
                size_scan(gs, k as int) == (current as int, most as int, breaks as int),
                breaks <= k,
            decreases n - k,
        {
            proof {
                assert(texts_of(graphemes@)[k as int] == graphemes@[k as int].spec_data()@);
            }
            let g = graphemes[k].data();
            if is_new_line(g) {
                current = 0;
                breaks = breaks + 1;
            } else {
                current = current.saturating_add(graphemes[k].columns());
                if current > most {
                    most = current;
                }
            }
            k += 1;
        }
        let lines = if n == 0 { 0 } else { breaks.saturating_add(1) };
        RawTextSize { column: most, lines, graphemes: n }
    }

    /// The text borrowing `s`.
    pub fn borrowed(s: &'static str) -> (r: Self)
        ensures
            r.wf(),
            r.view_str() == s@,
            r.spec_borrowed(),
    {
        RawText { content: Content::Borrowed(s), size: Self::compute_size(s) }
    }

    /// The text owning `s`.
    pub fn owned(s: String) -> (r: Self)
        ensures
            r.wf(),
            r.view_str() == s@,
            !r.spec_borrowed(),
    {
        let size = Self::compute_size(s.as_str());
        RawText { content: Content::Owned(s), size }
    }

    /// The content.
    pub fn as_str(&self) -> (r: &str)
        ensures
            r@ == self.view_str(),
    {
        match &self.content {
            Content::Borrowed(s) => s,
            Content::Owned(s) => s.as_str(),
        }
    }

    /// The cached size.
    pub fn size(&self) -> (r: RawTextSize)
        requires
            self.wf(),
        ensures
            r == RawTextSize::of(graphemes_of(self.view_str())),
    {
        self.size
    }

    /// The content as an owned string, leaving this text empty and owned.
    pub fn take_owned(&mut self) -> (r: String)
        requires
            old(self).wf(),
        ensures
            r@ == old(self).view_str(),
            final(self).wf(),
            final(self).view_str() == Seq::<char>::empty(),
    {
        let mut content = Content::Owned(String::new());
        std::mem::swap(&mut content, &mut self.content);
        let empty = "";
        proof {
            reveal_strlit("");
            assert(empty@ =~= Seq::<char>::empty());
        }
        self.size = Self::compute_size(empty);
        match content {
            Content::Borrowed(s) => s.to_owned(),
            Content::Owned(s) => s,
        }
    }

    /// The room of the allocation of an owned content, in bytes, at least its length; 0 for a
    /// borrowed one.
    pub fn capacity(&self) -> (r: usize)
        ensures
            self.spec_borrowed() ==> r == 0,
            !self.spec_borrowed() ==> r >= self.view_str().len(),
    {
        match &self.content {
            Content::Borrowed(_) => 0,
            Content::Owned(s) => s.capacity(),
        }
    }

    /// Whether the content is borrowed.
    pub fn is_borrowed(&self) -> (r: bool)
        ensures
            r == self.spec_borrowed(),
    {
        match &self.content {
            Content::Borrowed(_) => true,
            Content::Owned(_) => false,
        }
    }

    /// Whether the content is owned.
    pub fn is_owned(&self) -> (r: bool)
        ensures
            r == !self.spec_borrowed(),
    {
        !self.is_borrowed()
    }
}

} // verus!
