use yatui::text::utils::{bound_to_range, iter_bound, Bound};

use Bound::{Excluded, Included, Unbounded};

#[test]
fn bound_to_range_() {
    assert_eq!(bound_to_range(Unbounded, Unbounded), 0..=usize::MAX); // ..
    assert_eq!(bound_to_range(Included(1), Unbounded), 1..=usize::MAX); // 1..
    assert_eq!(bound_to_range(Unbounded, Excluded(5)), 0..=4); // ..5
    assert_eq!(bound_to_range(Included(1), Excluded(4)), 1..=3); // 1..4
    assert_eq!(bound_to_range(Included(3), Included(6)), 3..=6); // 3..=6
    assert_eq!(bound_to_range(Unbounded, Included(6)), 0..=6); // ..=6
}

#[test]
fn iter_bound_() {
    let arr = [0, 1, 2, 3, 4, 5, 6];

    assert_eq!(iter_bound(&arr, Unbounded, Unbounded), [0, 6]); // ..
    assert_eq!(iter_bound(&arr, Included(1), Unbounded), [1, 6]); // 1..
    assert_eq!(iter_bound(&arr, Unbounded, Excluded(5)), [0, 4]); // ..5
    assert_eq!(iter_bound(&arr, Included(1), Excluded(4)), [1, 3]); // 1..4
    assert_eq!(iter_bound(&arr, Included(3), Included(6)), [3, 6]); // 3..=6
    assert_eq!(iter_bound(&arr, Unbounded, Included(6)), [0, 6]); // ..=6
}
