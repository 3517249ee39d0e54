//! Keeping the styled ranges of a mask in a `BTreeMap` keyed by the ends of each range.

use std::collections::BTreeMap;

use vstd::prelude::*;
use vstd::std_specs::cmp::OrdSpec;
use vstd::std_specs::iter::IteratorSpec;

use super::range::Range;
use super::spec::wf;
use super::StyleInfo;
use crate::text::style::Style;

verus! {

broadcast use vstd::std_specs::btree::group_btree_axioms;

/// The key a styled range is stored under: its first and last position.
pub open spec fn key_of(e: StyleInfo) -> (usize, usize) {
    (e.range.start, e.range.end)
}

/// The map that holds the styles of `s`, each under the key of its range.
pub open spec fn entries(s: Seq<StyleInfo>) -> Map<(usize, usize), Style>
    decreases s.len(),
{
    if s.len() == 0 {
        Map::empty()
    } else {
        entries(s.drop_last()).insert(key_of(s.last()), s.last().style)
    }
}

/// Key `a` comes before key `b`: by first position, then by last.
pub open spec fn key_before(a: (usize, usize), b: (usize, usize)) -> bool {
    a.0 < b.0 || (a.0 == b.0 && a.1 < b.1)
}

/// The keys of `s` ascend strictly.
pub open spec fn keys_ascend(s: Seq<StyleInfo>) -> bool {
    forall|i: int, j: int| 0 <= i < j < s.len() ==> key_before(key_of(#[trigger] s[i]), key_of(#[trigger] s[j]))
}

/// The ranges of a well-formed sequence have ascending keys.
proof fn lemma_wf_keys_ascend(s: Seq<StyleInfo>)
    requires
        wf(s),
    ensures
        keys_ascend(s),
{
    assert forall|i: int, j: int| 0 <= i < j < s.len() implies key_before(key_of(#[trigger] s[i]), key_of(#[trigger] s[j])) by {
        assert(s[i].range.start <= s[i].range.end);
    }
}

/// What `entries` holds: the style of each range of `s` under its key, and nothing else.
proof fn lemma_entries(s: Seq<StyleInfo>)
    requires
        keys_ascend(s),
    ensures
        forall|i: int| 0 <= i < s.len() ==> #[trigger] entries(s).contains_key(key_of(s[i])) && entries(s)[key_of(s[i])] == s[i].style,
        forall|k: (usize, usize)| #[trigger] entries(s).contains_key(k) ==> exists|i: int| 0 <= i < s.len() && key_of(s[i]) == k,
    decreases s.len(),
{
    if s.len() > 0 {
        let t = s.drop_last();
        assert forall|i: int, j: int| 0 <= i < j < t.len() implies key_before(key_of(#[trigger] t[i]), key_of(#[trigger] t[j])) by {
            assert(t[i] == s[i] && t[j] == s[j]);
        }
        lemma_entries(t);
        assert forall|i: int| 0 <= i < s.len() implies #[trigger] entries(s).contains_key(key_of(s[i])) && entries(s)[key_of(s[i])] == s[i].style by {
            if i < s.len() - 1 {
                assert(t[i] == s[i]);
                assert(entries(t).contains_key(key_of(t[i])));
                assert(key_before(key_of(s[i]), key_of(s[s.len() - 1])));
                assert(key_of(s[i]) != key_of(s.last()));
            } else {
                assert(s[i] == s.last());
            }
        }
        assert forall|k: (usize, usize)| #[trigger] entries(s).contains_key(k) implies exists|i: int| 0 <= i < s.len() && key_of(s[i]) == k by {
            if k == key_of(s.last()) {
                assert(key_of(s[s.len() - 1]) == k);
            } else {
                assert(entries(t).contains_key(k));
                let i = choose|i: int| 0 <= i < t.len() && key_of(t[i]) == k;
                assert(key_of(s[i]) == k);
            }
        }
    }
}

/// Two sequences with strictly ascending keys that hold the same styled ranges are equal.
proof fn lemma_same_ascending(a: Seq<StyleInfo>, b: Seq<StyleInfo>)
    requires
        keys_ascend(a),
        keys_ascend(b),
        forall|i: int| 0 <= i < a.len() ==> b.contains(#[trigger] a[i]),
        forall|i: int| 0 <= i < b.len() ==> a.contains(#[trigger] b[i]),
    ensures
        a == b,
    decreases a.len(),
{
    if a.len() == 0 {
        if b.len() > 0 {
            assert(a.contains(b[0]));
        }
        assert(a =~= b);
    } else {
        if b.len() == 0 {
            assert(b.contains(a[0]));
        }
        assert(b.contains(a[0]));
        let j = choose|j: int| 0 <= j < b.len() && b[j] == a[0];
        assert(a.contains(b[0]));
        let k = choose|k: int| 0 <= k < a.len() && a[k] == b[0];
        if j > 0 {
            assert(key_before(key_of(b[0]), key_of(b[j])));
            if k > 0 {
                assert(key_before(key_of(a[0]), key_of(a[k])));
            }
        }
        assert(a[0] == b[0]);
        let a1 = a.drop_first();
        let b1 = b.drop_first();
        assert forall|i: int, j: int| 0 <= i < j < a1.len() implies key_before(key_of(#[trigger] a1[i]), key_of(#[trigger] a1[j])) by {
            assert(a1[i] == a[i + 1] && a1[j] == a[j + 1]);
        }
        assert forall|i: int, j: int| 0 <= i < j < b1.len() implies key_before(key_of(#[trigger] b1[i]), key_of(#[trigger] b1[j])) by {
            assert(b1[i] == b[i + 1] && b1[j] == b[j + 1]);
        }
        assert forall|i: int| 0 <= i < a1.len() implies b1.contains(#[trigger] a1[i]) by {
            assert(a1[i] == a[i + 1]);
            assert(b.contains(a[i + 1]));
            let m = choose|m: int| 0 <= m < b.len() && b[m] == a[i + 1];
            assert(key_before(key_of(a[0]), key_of(a[i + 1])));
            assert(m != 0);
            assert(b1[m - 1] == b[m]);
        }
        assert forall|i: int| 0 <= i < b1.len() implies a1.contains(#[trigger] b1[i]) by {
            assert(b1[i] == b[i + 1]);
            assert(a.contains(b[i + 1]));
            let m = choose|m: int| 0 <= m < a.len() && a[m] == b[i + 1];
            assert(key_before(key_of(b[0]), key_of(b[i + 1])));
            assert(m != 0);
            assert(a1[m - 1] == a[m]);
        }
        lemma_same_ascending(a1, b1);
        assert(a =~= b) by {
            assert forall|i: int| 0 <= i < a.len() implies a[i] == b[i] by {
                if i > 0 {
                    assert(a[i] == a1[i - 1] && b[i] == b1[i - 1]);
                }
            }
        }
    }
}

/// Two well-formed sequences whose entries are the same map are the same sequence.
pub proof fn lemma_entries_unique(a: Seq<StyleInfo>, b: Seq<StyleInfo>)
    requires
        wf(a),
        wf(b),
        entries(a) == entries(b),
    ensures
        a == b,
{
    lemma_wf_keys_ascend(a);
    lemma_wf_keys_ascend(b);
    lemma_entries(a);
    lemma_entries(b);
    assert forall|i: int| 0 <= i < a.len() implies b.contains(#[trigger] a[i]) by {
        assert(entries(a).contains_key(key_of(a[i])));
        let j = choose|j: int| 0 <= j < b.len() && key_of(b[j]) == key_of(a[i]);
        assert(entries(b).contains_key(key_of(b[j])));
        assert(a[i] == b[j]);
    }
    assert forall|i: int| 0 <= i < b.len() implies a.contains(#[trigger] b[i]) by {
        assert(entries(b).contains_key(key_of(b[i])));
        let j = choose|j: int| 0 <= j < a.len() && key_of(a[j]) == key_of(b[i]);
        assert(entries(a).contains_key(key_of(a[j])));
        assert(b[i] == a[j]);
    }
    lemma_same_ascending(a, b);
}

/// A well-formed sequence has as many entries as ranges.
pub proof fn lemma_entries_len(s: Seq<StyleInfo>)
    requires
        wf(s),
    ensures
        entries(s).dom().finite(),
        entries(s).dom().len() == s.len(),
    decreases s.len(),
{
    if s.len() > 0 {
        let t = s.drop_last();
        assert(wf(t)) by {
            assert forall|i: int| 0 <= i < t.len() implies super::range::proper(#[trigger] t[i].range) by {
                assert(t[i] == s[i]);
            }
            assert forall|i: int, j: int| 0 <= i < j < t.len() implies #[trigger] t[i].range.end < #[trigger] t[j].range.start by {
                assert(t[i] == s[i] && t[j] == s[j]);
            }
        }
        lemma_entries_len(t);
        lemma_wf_keys_ascend(t);
        lemma_entries(t);
        if entries(t).contains_key(key_of(s.last())) {
            let i = choose|i: int| 0 <= i < t.len() && key_of(t[i]) == key_of(s.last());
            assert(t[i] == s[i]);
            assert(s[i].range.end < s[s.len() - 1].range.start);
            assert(s[s.len() - 1].range.start <= s[s.len() - 1].range.end);
        }
        assert(entries(s).dom() =~= entries(t).dom().insert(key_of(s.last())));
    }
}

/// The map holding the styled ranges of `styles`, each under its key.
pub(crate) fn store_styles(styles: &Vec<StyleInfo>) -> (m: BTreeMap<(usize, usize), Style>)
    ensures
        m@ == entries(styles@),
{
    let mut m: BTreeMap<(usize, usize), Style> = BTreeMap::new();
    let mut i: usize = 0;
    while i < styles.len()
        invariant
            i <= styles@.len(),
            m@ == entries(styles@.take(i as int)),
        decreases styles@.len() - i,
    {
        let e = styles[i];
        m.insert((e.range.start, e.range.end), e.style);
        proof {
            assert(styles@.take(i + 1).drop_last() =~= styles@.take(i as int));
        }
        i += 1;
    }
    proof {
        assert(styles@.take(styles@.len() as int) =~= styles@);
    }
    m
}

/// The styled ranges that `m` holds, in ascending order of their keys: those of `s`, where
/// `m` holds exactly the styles of the well-formed `s`.
pub(crate) fn read_styles(m: &BTreeMap<(usize, usize), Style>, Ghost(s): Ghost<Seq<StyleInfo>>) -> (r: Vec<StyleInfo>)
    requires
        wf(s),
        m@ == entries(s),
    ensures
        r@ == s,
{
    let mut out: Vec<StyleInfo> = Vec::new();
    let ghost items = vstd::std_specs::btree::spec_btree_map_iter(m).remaining();
    for kv in it: m.iter()
        invariant
            it.seq() == items,
            out@.len() == it.index(),
            forall|i: int| 0 <= i < it.index() ==> #[trigger] out@[i] == (StyleInfo {
                range: Range { start: (*items[i].0).0, end: (*items[i].0).1 },
                style: *items[i].1,
            }),
    {
        let (k, v) = kv;
        out.push(StyleInfo { range: Range { start: k.0, end: k.1 }, style: *v });
    }
    proof {
        lemma_wf_keys_ascend(s);
        lemma_entries(s);
        let r = out@;
        assert(r.len() == items.len());
        assert(vstd::std_specs::btree::increasing_seq(items.map_values(|kv: (&(usize, usize), &Style)| *kv.0)));
        assert(keys_ascend(r)) by {
            assert forall|i: int, j: int| 0 <= i < j < r.len() implies key_before(key_of(#[trigger] r[i]), key_of(#[trigger] r[j])) by {
                let ks = items.map_values(|kv: (&(usize, usize), &Style)| *kv.0);
                assert(ks[i] == key_of(r[i]) && ks[j] == key_of(r[j]));
                assert(ks[i].cmp_spec(&ks[j]) is Less);
            }
        }
        assert forall|i: int| 0 <= i < r.len() implies s.contains(#[trigger] r[i]) by {
            let k = key_of(r[i]);
            assert(m@.contains_key(*items[i].0));
            let j = choose|j: int| 0 <= j < s.len() && key_of(s[j]) == k;
            assert(entries(s).contains_key(key_of(s[j])));
            assert(r[i] == s[j]);
        }
        assert forall|j: int| 0 <= j < s.len() implies r.contains(#[trigger] s[j]) by {
            let k = key_of(s[j]);
            assert(entries(s).contains_key(k));
            assert(items.contains((&k, &m@[k])));
            let i = choose|i: int| 0 <= i < items.len() && items[i] == (&k, &m@[k]);
            assert(r[i] == s[j]);
        }
        lemma_same_ascending(r, s);
    }
    out
}

} // verus!
