use yatui::text::mask::range::Range;
use yatui::text::mask::StyleInfo;
use yatui::text::style::{Color, Style};
use yatui::text::utils::Bound::{Excluded, Included, Unbounded};
use yatui::text::Text;

fn r(start: usize, end: usize) -> Range {
    Range { start, end }
}

#[test]
fn text_graphemes() {
    let text = Text::from_static("y\u{0306}ello老");
    let g: Vec<&str> = text.graphemes().iter().map(|g| g.data()).collect();
    assert_eq!(g, vec!["y\u{0306}", "e", "l", "l", "o", "老"]);
}

#[test]
fn text_push_str() {
    let mut text = Text::from_static("hello");
    text.push_str(" world");
    assert_eq!(text.as_str(), "hello world");
}

#[test]
fn text_remove() {
    let mut text = Text::from_static("hello");
    text.remove(0);
    assert_eq!(text.as_str(), "ello");
}

#[test]
fn text_replace_range_keeps_mask() {
    let mut text = Text::from_static("hello");
    text.mask_mut().add(r(1, 3), Style::new().bg(Color::Red));
    text.mask_mut().add(r(4, 4), Style::new().bg(Color::Yellow));
    text.replace_range(Included(1), Included(3), " new content ");

    assert_eq!(text.as_str(), "h new content o");
    assert_eq!(
        text.mask().clone().into_vec(),
        vec![
            StyleInfo::new(r(1, 3), Style::new().bg(Color::Red)),
            StyleInfo::new(r(4, 4), Style::new().bg(Color::Yellow))
        ]
    );
}

#[test]
fn text_replace_range_polite_moves_mask() {
    let mut text = Text::from_static("hello");
    text.mask_mut().add(r(1, 3), Style::new().bg(Color::Red));
    text.mask_mut().add(r(4, 4), Style::new().bg(Color::Yellow));
    text.replace_range_polite(Included(1), Included(3), " new content ");

    assert_eq!(text.as_str(), "h new content o");
    assert_eq!(text.mask().clone().into_vec(), vec![StyleInfo::new(r(14, 14), Style::new().bg(Color::Yellow))]);
}

#[test]
fn text_pop() {
    let mut text = Text::from_static("foo");
    text.pop();
    assert_eq!(text.as_str(), "fo");
    let mut empty = Text::new();
    empty.pop();
    assert_eq!(empty.as_str(), "");
}

#[test]
fn text_push() {
    let mut text = Text::from_static("foo");
    text.push('1');
    assert_eq!(text.as_str(), "foo1");
}

#[test]
fn text_insert_str() {
    let mut text = Text::from_static("老y\u{0306}f");
    text.insert_str(2, "bar");
    assert_eq!(text.as_str(), "老y\u{0306}barf");
}

#[test]
fn text_retain_by_value() {
    let mut text = Text::from_static("y\u{0306} - is not y");
    text.retain(|s| s != "y");
    assert_eq!(text.as_str(), "y\u{0306} - is not ");
}

#[test]
fn text_retain_with_state() {
    let mut text = Text::from_static("y\u{0306}老🧡пh");
    let keep = [true, false, false, true, true];
    let mut iter = keep.iter();
    text.retain(|_| *iter.next().unwrap());
    assert_eq!(text.as_str(), "y\u{0306}пh");
}

#[test]
fn text_split_off_polite() {
    let mut text = Text::from_static("foobar");
    text.mask_mut().add(r(3, 5), Style::new().fg(Color::Red));
    let new_text = text.split_off_polite(3);

    assert_eq!(text.as_str(), "foo");
    assert_eq!(new_text.as_str(), "bar");
    assert_eq!(text.mask().clone().into_vec(), vec![StyleInfo::new(r(3, 5), Style::new().fg(Color::Red))]);
    assert_eq!(new_text.mask().clone().into_vec(), vec![StyleInfo::new(r(0, 2), Style::new().fg(Color::Red))]);
}

#[test]
fn text_truncate() {
    let mut text = Text::from_static("y\u{0306}ellow");
    text.truncate(1);
    assert_eq!(text.as_str(), "y\u{0306}");

    let mut text = Text::from_static("hello");
    text.truncate(100);
    assert_eq!(text.as_str(), "hello");
}

#[test]
fn text_truncate_lines() {
    let mut text = Text::from_static("foo\nbar\r\n!");
    text.truncate_lines(1);
    assert_eq!(text.as_str(), "foo");
}

#[test]
fn text_truncate_lines_more_than_there_are_is_noop() {
    let mut text = Text::from_static("foo\nbar");
    text.truncate_lines(5);
    assert_eq!(text.as_str(), "foo\nbar");
}

#[test]
fn text_truncate_columns() {
    let mut text = Text::from_static("text\ntext\r\ntext very big");
    text.truncate_columns(4);
    assert_eq!(text.as_str(), "text\ntext\r\ntext");
}

#[test]
fn text_len() {
    let text = Text::from_static("y\u{0306}ö老п\r\n");
    assert_eq!(text.len(), 5);
}

#[test]
fn text_clear_keeps_mask() {
    let mut text = Text::from_static("hello");
    text.mask_mut().add(r(0, usize::MAX), Style::new().bg(Color::Red));
    text.clear();
    assert!(text.is_empty());
    assert!(!text.mask_mut().is_empty());
}

#[test]
fn text_clear_all() {
    let mut text = Text::from_static("hello");
    text.mask_mut().add(r(0, usize::MAX), Style::new().bg(Color::Red));
    text.clear_all();
    assert!(text.is_empty());
    assert!(text.mask().is_empty());
}

#[test]
fn text_lines() {
    let text = Text::from_static("line1\nline2\r\nline3");
    assert_eq!(text.lines(), 3);
}

#[test]
fn text_columns() {
    let text = Text::from_static("c1\n老hello\r\ntext");
    assert_eq!(text.columns(), 7);
}

#[test]
fn text_is_empty() {
    assert!(Text::from_static("").is_empty());
    assert!(!Text::from_static("h").is_empty());
}

#[test]
fn text_borrowed_and_owned() {
    let mut text = Text::from_static("hello");
    assert!(text.is_borrowed());
    assert!(!text.is_owned());
    text.remove(0);
    assert!(!text.is_borrowed());
    assert!(text.is_owned());
}

#[test]
fn text_index() {
    let text = Text::from_static("老y\u{0306}\r\n");
    assert_eq!(text.index(Included(0), Excluded(1)), "老");
    assert_eq!(text.index(Included(1), Excluded(2)), "y\u{0306}");
    assert_eq!(text.index(Included(2), Excluded(3)), "\r\n");
    assert_eq!(text.index(Unbounded, Included(1)), "老y\u{0306}");
}

#[test]
fn text_from_char_and_string() {
    assert_eq!(Text::from_char('x').as_str(), "x");
    assert_eq!(Text::from_string("ab".to_string()).as_str(), "ab");
    assert_eq!(Text::new().len(), 0);
}

#[test]
fn text_modify() {
    let mut text = Text::from_static("hello");
    text.modify(|string| {
        *string = string.replace("el", "i ");
        string.push_str("ok");
        string.make_ascii_uppercase();
    });
    assert_eq!(text.as_str(), "HI LOOK");
    assert_eq!(text.columns(), 7);
}

#[test]
fn text_modify_returns_value() {
    let mut text = Text::from_static("hi");
    let vec: Vec<u8> = text.modify(|string| std::mem::take(string).into_bytes());
    assert_eq!(text.as_str(), "");
    assert_eq!(vec, [104, 105]);
}

#[test]
fn text_parts_gives_graphemes_and_mask() {
    let mut text = Text::from_static("hello");
    let (graphemes, mask) = text.parts();
    assert_eq!(graphemes.len(), 5);
    mask.add(r(0, 1), Style::new().fg(Color::Red));
    assert_eq!(text.mask().len(), 1);
    assert_eq!(text.as_str(), "hello");
}

#[test]
fn text_reserve() {
    let mut text = Text::from_static("hello");
    assert!(text.is_borrowed());
    assert_eq!(text.capacity(), 0);

    text.reserve(10);
    assert!(text.is_owned());
    assert_eq!(text.capacity(), 15);
    assert_eq!(text.as_str(), "hello");
}

#[test]
fn text_reserve_exact() {
    let mut text = Text::from_static("hello");
    text.reserve_exact(10);
    assert!(text.is_owned());
    assert_eq!(text.capacity(), 15);
}

#[test]
fn text_shrink_to_fit() {
    let mut text = Text::from_static("hello");
    text.shrink_to_fit();
    assert_eq!(text.capacity(), 0);

    text.reserve(100);
    text.shrink_to_fit();
    assert_eq!(text.capacity(), 5);
}

#[test]
fn text_shrink_to() {
    let mut text = Text::from_static("hello");
    text.shrink_to(10);
    assert_eq!(text.capacity(), 0);

    text.reserve(100);
    assert!(text.capacity() >= 100);

    text.shrink_to(10);
    assert!(text.capacity() >= 10);
    assert_eq!(text.as_str(), "hello");
}

#[test]
fn text_capacity() {
    let text = Text::from_static("h");
    assert_eq!(text.capacity(), 0);

    let text = Text::from_string(String::with_capacity(10));
    assert_eq!(text.capacity(), 10);
}

#[test]
fn text_operators_and_conversions() {
    let text = Text::from_static("he") + "llo";
    assert_eq!(text.as_str(), "hello");
    let mut text = text;
    text += " world";
    assert!(text == "hello world");
    assert!("hello world" == text);
    assert!(text == "hello world".to_string());
    assert!("hello world".to_string() == text);
    assert!(text != "hello");
    assert_eq!(text.to_string(), "hello world");
    let parsed: Text = "老y\u{0306}".parse().unwrap();
    assert_eq!(parsed.as_str(), "老y\u{0306}");
    assert_eq!(parsed.columns(), 3);
    assert!(parsed.is_owned());
}

#[test]
fn text_capacity_is_at_least_the_length() {
    let mut text = Text::from_string("老y\u{0306}".to_string());
    assert!(text.capacity() >= text.as_str().len());
    text.shrink_to(1);
    assert!(text.capacity() >= text.as_str().len());
    assert_eq!(text.as_str(), "老y\u{0306}");
}

#[test]
fn text_replace_range_from_the_last_grapheme() {
    let mut text = Text::from_static("hello");
    text.replace_range(Included(4), Unbounded, "x");
    assert_eq!(text.as_str(), "hellx");

    let mut text = Text::from_static("hello");
    text.mask_mut().add(Range { start: 0, end: 1 }, Style::new().fg(Color::Red));
    text.replace_range_polite(Included(4), Unbounded, "xy");
    assert_eq!(text.as_str(), "hellxy");
    assert_eq!(text.mask().iter().next(), Some(StyleInfo::new(Range { start: 0, end: 1 }, Style::new().fg(Color::Red))));

    let text = Text::from_static("老y\u{0306}\r\n");
    assert_eq!(text.index(Included(2), Unbounded), "\r\n");
}

#[test]
fn mask_keeps_ranges_in_order() {
    let mut text = Text::from_static("hello world");
    let red = Style::new().fg(Color::Red);
    let blue = Style::new().bg(Color::Blue);
    text.mask_mut().add(Range { start: 6, end: 8 }, red);
    text.mask_mut().add(Range { start: 0, end: 2 }, blue);
    text.mask_mut().add(Range { start: 2, end: 6 }, red);
    let items: Vec<StyleInfo> = text.mask().clone().into_vec();
    assert_eq!(
        items,
        vec![
            StyleInfo::new(Range { start: 0, end: 1 }, blue),
            StyleInfo::new(Range { start: 2, end: 2 }, blue.merge(red)),
            StyleInfo::new(Range { start: 3, end: 5 }, red),
            StyleInfo::new(Range { start: 6, end: 6 }, red.merge(red)),
            StyleInfo::new(Range { start: 7, end: 8 }, red),
        ]
    );
    assert_eq!(text.mask().len(), 5);
}
