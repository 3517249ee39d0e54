use yatui::text::style::{Color, Style};
use yatui::text::text_style::{RangeWrapper, TextStyle};
use yatui::text::utils::Bound::{self, Excluded, Included, Unbounded};

fn rw(start: usize, end: usize) -> RangeWrapper {
    RangeWrapper::new(Included(start), Included(end))
}

fn inc(start: usize, end: usize) -> (Bound, Bound) {
    (Included(start), Included(end))
}

#[test]
fn text_style_cut() {
    let s = rw(0, 4);

    let (a, b) = inc(1, 2);
    let [left, right] = s.cut(a, b);
    assert_eq!(left, Some(rw(0, 0)));
    assert_eq!(right, Some(rw(3, 4)));

    let (a, b) = inc(0, 1);
    let [left, right] = s.cut(a, b);
    assert_eq!(left, None);
    assert_eq!(right, Some(rw(2, 4)));

    let (a, b) = inc(3, 4);
    let [left, right] = s.cut(a, b);
    assert_eq!(left, Some(rw(0, 2)));
    assert_eq!(right, None);

    let s = rw(1, 2);

    let (a, b) = inc(1, 2);
    let [left, right] = s.cut(a, b);
    assert_eq!(left, None);
    assert_eq!(right, None);

    let (a, b) = inc(0, 4);
    let [left, right] = s.cut(a, b);
    assert_eq!(left, None);
    assert_eq!(right, None);

    let s = rw(1, 1);

    let (a, b) = inc(3, 5);
    let [left, right] = s.cut(a, b);
    assert_eq!(left, Some(rw(1, 1)));
    assert_eq!(right, None);

    let (a, b) = inc(0, 0);
    let [left, right] = s.cut(a, b);
    assert_eq!(left, Some(rw(1, 1)));
    assert_eq!(right, None);

    let s = rw(2, 10);
    let (a, b) = inc(2, 5);
    let [left, right] = s.cut(a, b);
    assert_eq!(left, None);
    assert_eq!(right, Some(rw(6, 10)));
}

#[test]
fn text_style_intersection() {
    let s = rw(2, 5);
    assert_eq!(s.intersection(Included(0), Included(1)), None);
    assert_eq!(s.intersection(Included(3), Included(8)), Some(rw(3, 5)));
    assert_eq!(s.intersection(Included(1), Included(3)), Some(rw(2, 3)));
}

#[test]
fn text_style_split_to_3() {
    let s = rw(2, 5);
    let sp = |a: usize, b: usize| s.split_to_3(Included(a), Included(b));
    assert_eq!(sp(0, 1), [None, None, None]); // 1
    assert_eq!(sp(0, 2), [Some(rw(0, 1)), Some(rw(2, 2)), Some(rw(3, 5))]); // 2
    assert_eq!(sp(0, 4), [Some(rw(0, 1)), Some(rw(2, 4)), Some(rw(5, 5))]); // 3
    assert_eq!(sp(0, 5), [Some(rw(0, 1)), Some(rw(2, 5)), None]); // 4
    assert_eq!(sp(0, 10), [Some(rw(0, 1)), Some(rw(2, 5)), Some(rw(6, 10))]); // 5
    assert_eq!(sp(2, 3), [Some(rw(2, 3)), Some(rw(4, 5)), None]); // 6
    assert_eq!(sp(2, 5), [Some(rw(2, 5)), None, None]); // 7
    assert_eq!(sp(2, 10), [Some(rw(2, 5)), Some(rw(6, 10)), None]); // 8
    assert_eq!(sp(3, 4), [Some(rw(2, 2)), Some(rw(3, 4)), Some(rw(5, 5))]); // 9
    assert_eq!(sp(3, 5), [Some(rw(2, 2)), Some(rw(3, 5)), None]); // 10
    assert_eq!(sp(3, 10), [Some(rw(2, 2)), Some(rw(3, 5)), Some(rw(6, 10))]); // 11
    assert_eq!(sp(5, 10), [Some(rw(2, 4)), Some(rw(5, 5)), Some(rw(6, 10))]); // 12
    assert_eq!(sp(6, 10), [None, None, None]); // 13
}

#[test]
fn text_style_add_same_range_keeps_last_color() {
    let mut style = TextStyle::new();
    style.add(Included(0), Included(1), Style::new().fg(Color::Red));
    style.add(Included(0), Included(1), Style::new().fg(Color::Yellow));

    assert_eq!(style.into_vec(), vec![(0..=1, Style::new().fg(Color::Yellow))]);
}

#[test]
fn text_style_remove_range_exact_only() {
    let mut style = TextStyle::new();
    style.add(Included(0), Included(3), Style::new().bg(Color::Red));
    style.add(Included(4), Included(6), Style::new().fg(Color::Red));
    style.remove_range(Included(0), Included(3));

    assert_eq!(style.into_vec(), vec![(4..=6, Style::new().fg(Color::Red))]);
}

#[test]
fn text_style_remove_clears_everything_inside() {
    let mut style = TextStyle::new();
    style.add(Included(0), Included(3), Style::new().bg(Color::Red));
    style.add(Included(1), Included(2), Style::new().fg(Color::Red));
    style.remove(Included(0), Included(3));

    assert_eq!(style.into_vec(), vec![]);
}

#[test]
fn text_style_remove_cuts_bigger_ranges() {
    let mut style = TextStyle::new();
    style.add(Included(0), Included(3), Style::new().bg(Color::Red));
    style.add(Included(4), Included(6), Style::new().fg(Color::Red));
    style.remove(Included(1), Excluded(2));

    assert_eq!(
        style.into_vec(),
        vec![
            (0..=0, Style::new().bg(Color::Red)),
            (2..=3, Style::new().bg(Color::Red)),
            (4..=6, Style::new().fg(Color::Red))
        ]
    );
}

#[test]
fn text_style_shift_left() {
    let mut style = TextStyle::new();
    style.add(Included(0), Included(3), Style::new().bg(Color::Green));
    style.add(Included(4), Included(6), Style::new().fg(Color::Red));

    style.shift_add(Included(4), Included(6), -1);

    assert_eq!(
        style.into_vec(),
        vec![
            (0..=2, Style::new().bg(Color::Green)),
            (3..=3, Style::new().bg(Color::Green).fg(Color::Red)),
            (4..=5, Style::new().fg(Color::Red))
        ]
    );
}

#[test]
fn text_style_range_clips_to_bounds() {
    let mut style = TextStyle::new();
    style.add(Included(0), Included(3), Style::new().bg(Color::Green));
    style.add(Included(5), Included(9), Style::new().fg(Color::Red));
    style.add(Included(20), Unbounded, Style::new().fg(Color::Blue));

    let mut it = style.range(Included(2), Included(6));
    assert_eq!(it.next(), Some((2..=3, Style::new().bg(Color::Green))));
    assert_eq!(it.next(), Some((5..=6, Style::new().fg(Color::Red))));
    assert_eq!(it.next(), None);

    let mut it = style.range(Included(2), Included(6));
    assert_eq!(it.next_back(), Some((5..=6, Style::new().fg(Color::Red))));
}

#[test]
fn range_wrapper_moves_saturating() {
    assert_eq!(rw(1, 3) + 2, rw(3, 5));
    assert_eq!(rw(1, 3) - 2, rw(0, 1));
    assert_eq!(rw(1, usize::MAX - 1) + 5, rw(6, usize::MAX));
    let mut r = rw(4, 6);
    r += 1;
    assert_eq!(r, rw(5, 7));
    r -= 10;
    assert_eq!(r, rw(0, 0));
    assert_eq!(rw(4, 6).shifted(-5), rw(0, 1));
}

#[test]
fn text_style_default_and_equality() {
    let mut a = TextStyle::default();
    assert_eq!(a, TextStyle::new());
    assert!(a.is_empty());
    a.add(Included(0), Included(2), Style::new().fg(Color::Red));
    let mut b = TextStyle::new();
    b.add(Included(0), Included(2), Style::new().fg(Color::Red));
    assert_eq!(a, b);
    b.add(Included(5), Included(5), Style::new().fg(Color::Red));
    assert_ne!(a, b);
}
