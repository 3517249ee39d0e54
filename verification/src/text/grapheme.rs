//! Grapheme clusters of a string and their widths in terminal columns.

use vstd::prelude::*;

use core::ops::RangeInclusive;
use vstd::string::StringSliceAdditionalSpecFns;

verus! {

/// The extended grapheme clusters of `s` with their byte offsets, as
/// `unicode_segmentation::UnicodeSegmentation::grapheme_indices(s, true)` yields them.
pub uninterp spec fn extended_grapheme_indices(s: Seq<char>) -> Seq<(usize, Seq<char>)>;

/// The count of terminal columns of `s`, as `unicode_width::UnicodeWidthStr::width` gives it.
pub uninterp spec fn str_width(s: Seq<char>) -> nat;

/// The text of each pair of `indices`.
pub open spec fn cluster_texts(indices: Seq<(usize, Seq<char>)>) -> Seq<Seq<char>> {
    indices.map_values(|p: (usize, Seq<char>)| p.1)
}

/// The UTF-8 bytes of each of `texts`, one after the other.
pub open spec fn bytes_of(texts: Seq<&str>) -> Seq<u8> {
    texts.map_values(|t: &str| t.spec_bytes()).flatten()
}

/// Calls `unicode_segmentation::UnicodeSegmentation::grapheme_indices(s, true)` and collects
/// the pairs. The pairs are named by `extended_grapheme_indices`; as the crate's source shows,
/// the clusters are non-empty slices of `s` that follow each other and together make up `s`,
/// so their bytes make up the bytes of `s`, and the offset of each is the count of bytes of
/// the clusters before it.
#[verifier::external_body]
fn grapheme_indices(s: &str) -> (r: Vec<(usize, &str)>)
    ensures
        r@.map_values(|p: (usize, &str)| (p.0, p.1@)) == extended_grapheme_indices(s@),
        r@.map_values(|p: (usize, &str)| p.1@).flatten() == s@,
        forall|i: int| 0 <= i < r@.len() ==> (#[trigger] r@[i]).1@.len() > 0,
        bytes_of(r@.map_values(|p: (usize, &str)| p.1)) == s.spec_bytes(),
        forall|i: int|
            0 <= i < r@.len() ==> (#[trigger] r@[i]).0 == bytes_of(r@.take(i).map_values(|p: (usize, &str)| p.1)).len(),
{
    unicode_segmentation::UnicodeSegmentation::grapheme_indices(s, true).collect()
}

/// Calls `unicode_width::UnicodeWidthStr::width(s)`, the count of terminal columns of `s`,
/// named by `str_width`.
#[verifier::external_body]
pub(crate) fn display_width(s: &str) -> (r: usize)
    ensures
        r == str_width(s@),
{
    unicode_width::UnicodeWidthStr::width(s)
}

/// One grapheme cluster of a string.
#[derive(Debug, Clone, Copy)]
pub struct Grapheme<'a> {
    g: &'a str,
    byte_offset: usize,
    index: usize,
}

/// How many terminal columns a grapheme fills.
#[derive(Debug, Eq, PartialEq, Structural, Clone, Copy)]
pub enum GraphemeWidth {
    Zero,
    One,
    Two,
}

/// Where a grapheme stands in its string: its position among the graphemes, its length in
/// bytes and the offset of its first byte.
#[derive(Debug, Clone, Copy)]
pub struct GraphemeInfo {
    index: usize,
    bytes: usize,
    byte_offset: usize,
}

/// The graphemes of `s`, numbered from 0.
pub fn create_graphemes(s: &str) -> (r: Vec<Grapheme<'_>>)
    ensures
        r@.len() == extended_grapheme_indices(s@).len(),
        forall|i: int|
            0 <= i < r@.len() ==> {
                &&& (#[trigger] r@[i]).spec_index() == i
                &&& r@[i].spec_data()@ == extended_grapheme_indices(s@)[i].1
                &&& r@[i].spec_start() == extended_grapheme_indices(s@)[i].0
            },
        cluster_texts(extended_grapheme_indices(s@)).flatten() == s@,
        forall|i: int| 0 <= i < r@.len() ==> (#[trigger] r@[i]).spec_data()@.len() > 0,
        texts_of(r@) == cluster_texts(extended_grapheme_indices(s@)),
        bytes_of(r@.map_values(|g: Grapheme| g.spec_data())) == s.spec_bytes(),
        forall|i: int|
            0 <= i < r@.len() ==> (#[trigger] r@[i]).spec_start() == bytes_of(
                r@.take(i).map_values(|g: Grapheme| g.spec_data()),
            ).len(),
{
    let pairs = grapheme_indices(s);
    let ghost named = extended_grapheme_indices(s@);
    proof {
        assert forall|i: int| 0 <= i < pairs@.len() implies (#[trigger] pairs@[i]).0 == named[i].0
            && pairs@[i].1@ == named[i].1 by {
            assert(pairs@.map_values(|p: (usize, &str)| (p.0, p.1@))[i] == named[i]);
        }
        assert(cluster_texts(named) =~= pairs@.map_values(|p: (usize, &str)| p.1@));
    }
    let mut r: Vec<Grapheme<'_>> = Vec::new();
    let mut i: usize = 0;
    while i < pairs.len()
        invariant
            i <= pairs@.len(),
            r@.len() == i,
            pairs@.len() == named.len(),
            forall|k: int| 0 <= k < pairs@.len() ==> (#[trigger] pairs@[k]).0 == named[k].0
                && pairs@[k].1@ == named[k].1 && pairs@[k].1@.len() > 0,
            forall|k: int|
                0 <= k < i ==> {
                    &&& (#[trigger] r@[k]).spec_index() == k
                    &&& r@[k].spec_data()@ == named[k].1
                    &&& r@[k].spec_start() == named[k].0
                    &&& r@[k].spec_data()@.len() > 0
                    &&& r@[k].spec_data() == pairs@[k].1
                },
        decreases pairs@.len() - i,
    {
        let (offset, g) = pairs[i];
        r.push(Grapheme::new(i, offset, g));
        i += 1;
    }
    assert(texts_of(r@) =~= cluster_texts(named));
    proof {
        let slices = pairs@.map_values(|p: (usize, &str)| p.1);
        assert(r@.map_values(|g: Grapheme| g.spec_data()) =~= slices);
        assert forall|i: int| 0 <= i < r@.len() implies (#[trigger] r@[i]).spec_start() == bytes_of(
            r@.take(i).map_values(|g: Grapheme| g.spec_data()),
        ).len() by {
            assert(r@.take(i).map_values(|g: Grapheme| g.spec_data()) =~= pairs@.take(i).map_values(
                |p: (usize, &str)| p.1,
            ));
            assert(pairs@[i].0 == bytes_of(pairs@.take(i).map_values(|p: (usize, &str)| p.1)).len());
        }
    }
    r
}

impl<'a> Grapheme<'a> {
    /// The text of the grapheme, as used in contracts.
    pub closed spec fn spec_data(&self) -> &'a str {
        self.g
    }

    /// The position among the graphemes of the string, as used in contracts.
    pub closed spec fn spec_index(&self) -> usize {
        self.index
    }

    /// The offset of the first byte in the string, as used in contracts.
    pub closed spec fn spec_start(&self) -> usize {
        self.byte_offset
    }

    /// The grapheme `g` at position `index`, whose first byte is at `byte_offset`.
    pub(crate) fn new(index: usize, byte_offset: usize, g: &'a str) -> (r: Self)
        ensures
            r.spec_index() == index,
            r.spec_start() == byte_offset,
            r.spec_data() == g,
    {
        Self { g, byte_offset, index }
    }

    /// The text of the grapheme.
    pub fn data(&self) -> (r: &'a str)
        ensures
            r == self.spec_data(),
    {
        self.g
    }

    /// The position among the graphemes of the string.
    pub fn index(&self) -> (r: usize)
        ensures
            r == self.spec_index(),
    {
        self.index
    }

    /// The offset of the first byte in the string.
    pub fn start(&self) -> (r: usize)
        ensures
            r == self.spec_start(),
    {
        self.byte_offset
    }

    /// The offset of the last byte in the string.
    pub fn end(&self) -> (r: usize)
        requires
            self.spec_data().spec_bytes().len() as usize > 0,
            self.spec_start() + self.spec_data().spec_bytes().len() as usize - 1 <= usize::MAX,
        ensures
            r == self.spec_start() + self.spec_data().spec_bytes().len() as usize - 1,
    {
        self.info().end()
    }

    /// How many terminal columns the grapheme fills, where that is at most two.
    pub fn width(&self) -> (r: GraphemeWidth)
        requires
            str_width(self.spec_data()@) <= 2,
        ensures
            r.spec_num() == str_width(self.spec_data()@),
    {
        match display_width(self.g) {
            0 => GraphemeWidth::Zero,
            1 => GraphemeWidth::One,
            _ => GraphemeWidth::Two,
        }
    }

    /// How many terminal columns the grapheme fills, or `None` where that is more than two.
    pub fn try_width(&self) -> (r: Option<GraphemeWidth>)
        ensures
            r is Some <==> str_width(self.spec_data()@) <= 2,
            r matches Some(w) ==> w.spec_num() == str_width(self.spec_data()@),
    {
        if display_width(self.g) <= 2 {
            Some(self.width())
        } else {
            None
        }
    }

    /// How many terminal columns the grapheme fills, any count.
    pub fn columns(&self) -> (r: usize)
        ensures
            r == str_width(self.spec_data()@),
    {
        display_width(self.g)
    }

    /// Where the grapheme stands in its string.
    pub(crate) fn info(self) -> (r: GraphemeInfo)
        ensures
            r.spec_index() == self.spec_index(),
            r.spec_len() == self.spec_data().spec_bytes().len() as usize,
            r.spec_start() == self.spec_start(),
    {
        GraphemeInfo::new(self.index, self.g.len(), self.byte_offset)
    }
}

impl GraphemeInfo {
    /// The position among the graphemes, as used in contracts.
    pub closed spec fn spec_index(&self) -> usize {
        self.index
    }

    /// The length in bytes, as used in contracts.
    pub closed spec fn spec_len(&self) -> usize {
        self.bytes
    }

    /// The offset of the first byte, as used in contracts.
    pub closed spec fn spec_start(&self) -> usize {
        self.byte_offset
    }

    /// The offset of the last byte, as used in contracts.
    pub open spec fn spec_end(&self) -> int {
        self.spec_start() + self.spec_len() - 1
    }

    /// The last byte offset can be computed: the grapheme is not empty and ends in range.
    pub open spec fn has_end(&self) -> bool {
        self.spec_len() > 0 && self.spec_end() <= usize::MAX
    }

    pub fn new(index: usize, bytes: usize, byte_offset: usize) -> (r: Self)
        ensures
            r.spec_index() == index,
            r.spec_len() == bytes,
            r.spec_start() == byte_offset,
    {
        Self { index, bytes, byte_offset }
    }

    /// The length in bytes.
    pub fn len(&self) -> (r: usize)
        ensures
            r == self.spec_len(),
    {
        self.bytes
    }

    /// The offset of the first byte.
    pub fn start(&self) -> (r: usize)
        ensures
            r == self.spec_start(),
    {
        self.byte_offset
    }

    /// The offset of the last byte.
    pub fn end(&self) -> (r: usize)
        requires
            self.has_end(),
        ensures
            r == self.spec_end(),
    {
        self.byte_offset + (self.len() - 1)
    }

    /// The position among the graphemes.
    pub fn index(&self) -> (r: usize)
        ensures
            r == self.spec_index(),
    {
        self.index
    }

    /// The bytes of the grapheme, first to last.
    pub fn bytes_range(&self) -> (r: RangeInclusive<usize>)
        requires
            self.has_end(),
        ensures
            r@.start == self.spec_start(),
            r@.end == self.spec_end(),
            !r@.exhausted,
    {
        RangeInclusive::new(self.start(), self.end())
    }

    /// The bytes from the first one of this grapheme to the last one of `g2`.
    pub fn bytes_to(&self, g2: GraphemeInfo) -> (r: RangeInclusive<usize>)
        requires
            self.spec_start() <= g2.spec_start(),
            g2.has_end(),
        ensures
            r@.start == self.spec_start(),
            r@.end == g2.spec_end(),
            !r@.exhausted,
    {
        RangeInclusive::new(self.start(), g2.end())
    }
}

impl GraphemeWidth {
    /// The count of columns, as used in contracts.
    pub open spec fn spec_num(self) -> nat {
        match self {
            GraphemeWidth::Zero => 0,
            GraphemeWidth::One => 1,
            GraphemeWidth::Two => 2,
        }
    }

    /// The count of columns.
    pub fn num(self) -> (r: usize)
        ensures
            r == self.spec_num(),
    {
        usize::from(self)
    }
}

impl From<GraphemeWidth> for usize {
    fn from(val: GraphemeWidth) -> (r: Self)
        ensures
            r == val.spec_num(),
    {
        match val {
            GraphemeWidth::Zero => 0,
            GraphemeWidth::One => 1,
            GraphemeWidth::Two => 2,
        }
    }
}

impl vstd::std_specs::convert::FromSpecImpl<GraphemeWidth> for usize {
    open spec fn obeys_from_spec() -> bool {
        true
    }

    open spec fn from_spec(v: GraphemeWidth) -> usize {
        v.spec_num() as usize
    }
}

/// The text of the graphemes `q..e` is the slice of the whole text between the counts of
/// characters before each.
pub proof fn lemma_slice_of_flatten(gs: Seq<Seq<char>>, q: int, e: int)
    requires
        0 <= q <= e <= gs.len(),
    ensures
        gs.take(q).flatten().len() <= gs.take(e).flatten().len() <= gs.flatten().len(),
        gs.flatten().subrange(gs.take(q).flatten().len() as int, gs.take(e).flatten().len() as int)
            == gs.subrange(q, e).flatten(),
{
    vstd::seq_lib::lemma_flatten_concat(gs.take(q), gs.subrange(q, e));
    assert(gs.take(q) + gs.subrange(q, e) =~= gs.take(e));
    vstd::seq_lib::lemma_flatten_concat(gs.take(e), gs.skip(e));
    assert(gs.take(e) + gs.skip(e) =~= gs);
    let a = gs.take(q).flatten();
    let b = gs.subrange(q, e).flatten();
    let c = gs.skip(e).flatten();
    assert(gs.flatten() == a + b + c);
    assert((a + b + c).subrange(a.len() as int, (a.len() + b.len()) as int) =~= b);
}

/// The texts of `graphemes`.
pub open spec fn texts_of<'a>(graphemes: Seq<Grapheme<'a>>) -> Seq<Seq<char>> {
    graphemes.map_values(|g: Grapheme<'a>| g.spec_data()@)
}

/// For each grapheme of `graphemes`, which together make up `s`, the count of characters
/// before it, and the count of all characters last.
pub fn char_offsets(s: &str, graphemes: &Vec<Grapheme<'_>>) -> (r: Vec<usize>)
    requires
        texts_of(graphemes@).flatten() == s@,
    ensures
        r@.len() == graphemes@.len() + 1,
        forall|i: int| 0 <= i <= graphemes@.len() ==> #[trigger] r@[i] == texts_of(graphemes@).take(i).flatten().len(),
        r@[graphemes@.len() as int] == s@.len(),
{
    let ghost gs = texts_of(graphemes@);
    let total = s.unicode_len();
    let mut offsets: Vec<usize> = Vec::new();
    offsets.push(0);
    let mut sum: usize = 0;
    let mut k: usize = 0;
    proof {
        assert(gs.take(0) =~= Seq::<Seq<char>>::empty());
        lemma_slice_of_flatten(gs, 0, gs.len() as int);
        assert(gs.take(gs.len() as int) =~= gs);
    }
    while k < graphemes.len()
        invariant
            gs == texts_of(graphemes@),
            gs.flatten() == s@,
            total == s@.len(),
            k <= graphemes@.len(),
            offsets@.len() == k + 1,
            sum == offsets@[k as int],
            forall|i: int| 0 <= i <= k ==> #[trigger] offsets@[i] == gs.take(i).flatten().len(),
        decreases graphemes@.len() - k,
    {
        let n = graphemes[k].data().unicode_len();
        proof {
            lemma_slice_of_flatten(gs, k as int, k + 1);
            lemma_slice_of_flatten(gs, k + 1, gs.len() as int);
            assert(gs.subrange(k as int, k + 1) =~= seq![gs[k as int]]);
            gs.subrange(k as int, k + 1).lemma_flatten_one_element();
            assert(gs.take(gs.len() as int) =~= gs);
        }
        sum = sum + n;
        offsets.push(sum);
        k += 1;
    }
    proof {
        assert(gs.take(gs.len() as int) =~= gs);
    }
    offsets
}

} // verus!
