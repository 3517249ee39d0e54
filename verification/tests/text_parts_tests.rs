use yatui::text::grapheme::{create_graphemes, GraphemeInfo, GraphemeWidth};
use yatui::text::mask::range::Range;
use yatui::text::mask::StyleInfo;
use yatui::text::part::{parts, Part};
use yatui::text::style::{Color, Style};

fn all_parts<'a>(s: &'a str, styles: Vec<StyleInfo>) -> Vec<Part<'a>> {
    let mut iter = parts(s, styles);
    let mut out = vec![];
    while let Some(p) = iter.next() {
        out.push(p);
    }
    assert!(iter.next().is_none());
    out
}

#[test]
fn graphemes_of_text() {
    let g = create_graphemes("y\u{0306}ello老");
    let data: Vec<&str> = g.iter().map(|g| g.data()).collect();
    assert_eq!(data, vec!["y\u{0306}", "e", "l", "l", "o", "老"]);
    let starts: Vec<usize> = g.iter().map(|g| g.start()).collect();
    assert_eq!(starts, vec![0, 3, 4, 5, 6, 7]);
    assert_eq!(g[5].index(), 5);
    assert_eq!(g[5].end(), 9);
    assert_eq!(g[0].end(), 2);
    assert_eq!(g[5].width(), GraphemeWidth::Two);
    assert_eq!(g[0].width(), GraphemeWidth::One);
    assert_eq!(g[5].try_width(), Some(GraphemeWidth::Two));
    assert_eq!(g[5].columns(), 2);
}

#[test]
fn graphemes_keep_crlf_together() {
    let g = create_graphemes("a\r\nb");
    let data: Vec<&str> = g.iter().map(|g| g.data()).collect();
    assert_eq!(data, vec!["a", "\r\n", "b"]);
    assert_eq!(g[1].width(), GraphemeWidth::Zero);
}

#[test]
fn grapheme_info_ranges() {
    let a = GraphemeInfo::new(2, 3, 7);
    assert_eq!(a.len(), 3);
    assert_eq!(a.start(), 7);
    assert_eq!(a.end(), 9);
    assert_eq!(a.index(), 2);
    assert_eq!(a.bytes_range(), 7..=9);
    let b = GraphemeInfo::new(4, 1, 12);
    assert_eq!(a.bytes_to(b), 7..=12);
}

#[test]
fn grapheme_width_num() {
    assert_eq!(GraphemeWidth::Zero.num(), 0);
    assert_eq!(GraphemeWidth::One.num(), 1);
    assert_eq!(usize::from(GraphemeWidth::Two), 2);
}

#[test]
fn parts_without_styles() {
    assert_eq!(all_parts("hello", vec![]), vec![Part::Str("hello", 5, Style::default())]);
}

#[test]
fn parts_split_at_new_lines() {
    assert_eq!(
        all_parts("ab\ncd\r\n", vec![]),
        vec![
            Part::Str("ab", 2, Style::default()),
            Part::NewLine,
            Part::Str("cd", 2, Style::default()),
            Part::NewLine,
        ]
    );
}

#[test]
fn parts_follow_styles() {
    let red = Style::new().fg(Color::Red);
    let styles = vec![StyleInfo::new(Range { start: 1, end: 3 }, red)];
    assert_eq!(
        all_parts("hello", styles),
        vec![
            Part::Str("h", 1, Style::default()),
            Part::Str("ell", 3, red),
            Part::Str("o", 1, Style::default()),
        ]
    );
}

#[test]
fn parts_count_columns_of_wide_graphemes() {
    assert_eq!(all_parts("老y\u{0306}a", vec![]), vec![Part::Str("老y\u{0306}a", 4, Style::default())]);
}

#[test]
fn parts_of_empty_text() {
    assert_eq!(all_parts("", vec![]), vec![]);
}

#[test]
fn parts_leave_out_only_invisible_graphemes() {
    // A zero width space fills no column and breaks no line: the parts go round it and
    // hold every other grapheme once.
    assert_eq!(
        all_parts("ab\u{200B}c\n\u{200B}d", vec![]),
        vec![
            Part::Str("ab", 2, Style::default()),
            Part::Str("c", 1, Style::default()),
            Part::NewLine,
            Part::Str("d", 1, Style::default()),
        ]
    );
}
