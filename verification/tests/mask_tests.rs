use std::collections::hash_map::DefaultHasher;
use std::hash::{Hash, Hasher};
use yatui::text::mask::range::Range;
use yatui::text::mask::{Mask, StyleInfo};
use yatui::text::style::{Color, Style};

fn r(start: usize, end: usize) -> Range {
    Range { start, end }
}

fn info(start: usize, end: usize, style: Style) -> StyleInfo {
    StyleInfo::new(r(start, end), style)
}

#[test]
fn mask_add_same_range_merges() {
    let mut mask = Mask::new();
    mask.add(r(0, 1), Style::new().fg(Color::Red));
    mask.add(r(0, 1), Style::new().fg(Color::Yellow));
    assert_eq!(mask.into_vec(), vec![info(0, 1, Style::new().fg(Color::Yellow))]);
}

#[test]
fn mask_add_overlapping_merges_inside_only() {
    let mut mask = Mask::new();
    mask.add(r(0, 3), Style::new().bg(Color::Green));
    mask.add(r(2, 5), Style::new().fg(Color::Red));
    assert_eq!(
        mask.into_vec(),
        vec![
            info(0, 1, Style::new().bg(Color::Green)),
            info(2, 3, Style::new().bg(Color::Green).fg(Color::Red)),
            info(4, 5, Style::new().fg(Color::Red)),
        ]
    );
}

#[test]
fn mask_remove_range_exact() {
    let mut mask = Mask::new();
    mask.add(r(0, 3), Style::new().bg(Color::Red));
    mask.add(r(4, 6), Style::new().fg(Color::Red));
    mask.remove_range(r(0, 3));
    assert_eq!(mask.into_vec(), vec![info(4, 6, Style::new().fg(Color::Red))]);
}

#[test]
fn mask_remove_clears_everything_inside() {
    let mut mask = Mask::new();
    mask.add(r(0, 3), Style::new().bg(Color::Red));
    mask.add(r(1, 2), Style::new().fg(Color::Red));
    mask.remove(r(0, 3));
    assert_eq!(mask.into_vec(), vec![]);
}

#[test]
fn mask_remove_cuts_bigger_ranges() {
    let mut mask = Mask::new();
    mask.add(r(0, 3), Style::new().bg(Color::Red));
    mask.add(r(4, 6), Style::new().fg(Color::Red));
    mask.remove(r(1, 1));
    assert_eq!(
        mask.into_vec(),
        vec![
            info(0, 0, Style::new().bg(Color::Red)),
            info(2, 3, Style::new().bg(Color::Red)),
            info(4, 6, Style::new().fg(Color::Red)),
        ]
    );
}

#[test]
fn mask_shift_add() {
    let mut mask = Mask::new();
    mask.add(r(0, 3), Style::new().bg(Color::Green));
    mask.add(r(4, 6), Style::new().fg(Color::Red));
    mask.shift_add(r(3, 3), 2);
    assert_eq!(
        mask.into_vec(),
        vec![
            info(0, 2, Style::new().bg(Color::Green)),
            info(4, 4, Style::new().fg(Color::Red)),
            info(5, 5, Style::new().fg(Color::Red).bg(Color::Green)),
            info(6, 6, Style::new().fg(Color::Red)),
        ]
    );
}

#[test]
fn mask_shift_sub() {
    let mut mask = Mask::new();
    mask.add(r(0, 3), Style::new().bg(Color::Green));
    mask.add(r(5, 8), Style::new().fg(Color::Red));
    mask.shift_sub(r(5, 5), 2);
    assert_eq!(
        mask.into_vec(),
        vec![
            info(0, 2, Style::new().bg(Color::Green)),
            info(3, 3, Style::new().bg(Color::Green).fg(Color::Red)),
            info(6, 8, Style::new().fg(Color::Red)),
        ]
    );
}

#[test]
fn mask_add_then_remove_restores_outside() {
    let mut mask = Mask::new();
    mask.add(r(0, 5), Style::new().bg(Color::Blue));
    mask.add(r(2, 3), Style::new().fg(Color::Red));
    mask.remove(r(2, 3));
    assert_eq!(
        mask.into_vec(),
        vec![info(0, 1, Style::new().bg(Color::Blue)), info(4, 5, Style::new().bg(Color::Blue))]
    );
}

#[test]
fn mask_range_iter_clips() {
    let mut mask = Mask::new();
    mask.add(r(0, 5), Style::new().bg(Color::Blue));
    mask.add(r(8, 9), Style::new().fg(Color::Red));
    let mut iter = mask.range(r(3, 8));
    assert_eq!(iter.next(), Some(info(3, 5, Style::new().bg(Color::Blue))));
    assert_eq!(iter.next(), Some(info(8, 8, Style::new().fg(Color::Red))));
    assert_eq!(iter.next(), None);
}

#[test]
fn mask_len_and_clear() {
    let mut mask = Mask::new();
    assert!(mask.is_empty());
    mask.add(r(0, 1), Style::new());
    mask.add(r(3, 4), Style::new());
    assert_eq!(mask.len(), 2);
    mask.clear();
    assert_eq!(mask.len(), 0);
}

#[test]
fn mask_default_equality_and_hash() {
    let mut a = Mask::default();
    assert_eq!(a, Mask::new());
    assert_eq!(a.len(), 0);
    let style = Style::new().fg(Color::Red);
    a.add(Range { start: 1, end: 3 }, style);
    let mut b = Mask::new();
    b.add(Range { start: 2, end: 3 }, style);
    b.add(Range { start: 1, end: 1 }, style);
    assert_ne!(a, b);
    let mut c = Mask::new();
    c.add(Range { start: 1, end: 3 }, style);
    assert_eq!(a, c);
    let hash = |m: &Mask| {
        let mut h = DefaultHasher::new();
        m.hash(&mut h);
        h.finish()
    };
    assert_eq!(hash(&a), hash(&c));
}
