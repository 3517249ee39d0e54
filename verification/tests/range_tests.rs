use yatui::text::mask::range::Range;

fn r(start: usize, end: usize) -> Range {
    Range { start, end }
}

#[test]
fn range_cut() {
    let s = r(0, 4);

    let [left, right] = s.cut(r(1, 2));
    assert_eq!(left, Some(r(0, 0)));
    assert_eq!(right, Some(r(3, 4)));

    let [left, right] = s.cut(r(0, 1));
    assert_eq!(left, None);
    assert_eq!(right, Some(r(2, 4)));

    let [left, right] = s.cut(r(3, 4));
    assert_eq!(left, Some(r(0, 2)));
    assert_eq!(right, None);

    let s = r(1, 2);

    let [left, right] = s.cut(r(1, 2));
    assert_eq!(left, None);
    assert_eq!(right, None);

    let [left, right] = s.cut(r(0, 4));
    assert_eq!(left, None);
    assert_eq!(right, None);

    let s = r(1, 1);

    let [left, right] = s.cut(r(3, 5));
    assert_eq!(left, Some(r(1, 1)));
    assert_eq!(right, None);

    let [left, right] = s.cut(r(0, 0));
    assert_eq!(left, Some(r(1, 1)));
    assert_eq!(right, None);

    let s = r(2, 10);
    let [left, right] = s.cut(r(2, 5));
    assert_eq!(left, None);
    assert_eq!(right, Some(r(6, 10)));
}

#[test]
fn range_intersection() {
    let s = r(2, 5);
    assert_eq!(s.intersection(r(0, 1)), None);
    assert_eq!(s.intersection(r(3, 8)), Some(r(3, 5)));
    assert_eq!(s.intersection(r(1, 3)), Some(r(2, 3)));
}

//     ─────────────
// ───                          - 1
// ────                         - 2
// ──────────                   - 3
// ─────────────────            - 4
// ───────────────────────      - 5
//     ─────                    - 6
//     ─────────────            - 7
//     ───────────────────      - 8
//           ────               - 9
//           ───────            - 10
//           ─────────────      - 11
//                  ──────      - 12
//                      ──────  - 13
// ━━━━━━━━━━━━━━━━━━━━━━━━━━━
// 0   2            5
#[test]
fn range_split_to_3() {
    let s = r(2, 5);
    assert_eq!(s.split_to_3(r(0, 1)), [None, None, None]); // 1
    assert_eq!(s.split_to_3(r(0, 2)), [Some(r(0, 1)), Some(r(2, 2)), Some(r(3, 5))]); // 2
    assert_eq!(s.split_to_3(r(0, 4)), [Some(r(0, 1)), Some(r(2, 4)), Some(r(5, 5))]); // 3
    assert_eq!(s.split_to_3(r(0, 5)), [Some(r(0, 1)), Some(r(2, 5)), None]); // 4
    assert_eq!(s.split_to_3(r(0, 10)), [Some(r(0, 1)), Some(r(2, 5)), Some(r(6, 10))]); // 5
    assert_eq!(s.split_to_3(r(2, 3)), [Some(r(2, 3)), Some(r(4, 5)), None]); // 6
    assert_eq!(s.split_to_3(r(2, 5)), [Some(r(2, 5)), None, None]); // 7
    assert_eq!(s.split_to_3(r(2, 10)), [Some(r(2, 5)), Some(r(6, 10)), None]); // 8
    assert_eq!(s.split_to_3(r(3, 4)), [Some(r(2, 2)), Some(r(3, 4)), Some(r(5, 5))]); // 9
    assert_eq!(s.split_to_3(r(3, 5)), [Some(r(2, 2)), Some(r(3, 5)), None]); // 10
    assert_eq!(s.split_to_3(r(3, 10)), [Some(r(2, 2)), Some(r(3, 5)), Some(r(6, 10))]); // 11
    assert_eq!(s.split_to_3(r(5, 10)), [Some(r(2, 4)), Some(r(5, 5)), Some(r(6, 10))]); // 12
    assert_eq!(s.split_to_3(r(6, 10)), [None, None, None]); // 13
}

#[test]
fn range_cut_and_intersection_split_the_range() {
    let s = r(2, 9);
    let cut_out = r(4, 6);
    let [left, right] = s.cut(cut_out);
    let mid = s.intersection(cut_out);
    for p in 0..12usize {
        let in_left = left.map_or(false, |x| x.start <= p && p <= x.end);
        let in_mid = mid.map_or(false, |x| x.start <= p && p <= x.end);
        let in_right = right.map_or(false, |x| x.start <= p && p <= x.end);
        let count = [in_left, in_mid, in_right].iter().filter(|b| **b).count();
        assert_eq!(count, if (2..=9).contains(&p) { 1 } else { 0 }, "position {}", p);
    }
}
