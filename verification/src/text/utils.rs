use vstd::prelude::*;

verus! {

/// One end of a range of indices, like `std::ops::Bound<usize>`.
#[derive(Debug, Clone, Copy, PartialEq, Eq, Structural)]
pub enum Bound {
    Included(usize),
    Excluded(usize),
    Unbounded,
}

/// The first index a range with this start bound contains.
pub open spec fn start_index(b: Bound) -> int {
    match b {
        Bound::Included(n) => n as int,
        Bound::Excluded(n) => n + 1,
        Bound::Unbounded => 0,
    }
}

/// The last index a range with this end bound contains.
pub open spec fn end_index(b: Bound) -> int {
    match b {
        Bound::Included(n) => n as int,
        Bound::Excluded(n) => n - 1,
        Bound::Unbounded => usize::MAX as int,
    }
}

/// The bounds describe a non-empty range of `usize` indices.
pub open spec fn valid_bounds(start: Bound, end: Bound) -> bool {
    &&& 0 <= start_index(start) <= end_index(end) <= usize::MAX
}

/// The inclusive ends `(first, last)` of the range given by `start` and `end`.
pub fn bound_ends(start: Bound, end: Bound) -> (r: (usize, usize))
    requires
        valid_bounds(start, end),
    ensures
        r.0 == start_index(start),
        r.1 == end_index(end),
{
    let s = match start {
        Bound::Included(n) => n,
        Bound::Excluded(n) => n + 1,
        Bound::Unbounded => 0,
    };
    let e = match end {
        Bound::Included(n) => n,
        Bound::Excluded(n) => n - 1,
        Bound::Unbounded => usize::MAX,
    };
    (s, e)
}

/// Converts any range to an inclusive one.
pub fn bound_to_range(start: Bound, end: Bound) -> (r: core::ops::RangeInclusive<usize>)
    requires
        valid_bounds(start, end),
    ensures
        r@.start == start_index(start),
        r@.end == end_index(end),
        !r@.exhausted,
{
    let (s, e) = bound_ends(start, end);
    core::ops::RangeInclusive::new(s, e)
}

/// The first and the last element of `items` that the range selects.
pub fn iter_bound<K: Copy>(items: &[K], start: Bound, end: Bound) -> (r: [K; 2])
    requires
        valid_bounds(start, end),
        end_index(end) < items@.len() || (end is Unbounded && start_index(start) < items@.len()),
    ensures
        r[0] == items@[start_index(start)],
        r[1] == (if end is Unbounded { items@.last() } else { items@[end_index(end)] }),
{
    let s = match start {
        Bound::Included(n) => n,
        Bound::Excluded(n) => n + 1,
        Bound::Unbounded => 0,
    };
    let left = items[s];
    let right = match end {
        Bound::Unbounded => items[items.len() - 1],
        Bound::Included(n) => items[n],
        Bound::Excluded(n) => items[n - 1],
    };
    [left, right]
}

} // verus!
