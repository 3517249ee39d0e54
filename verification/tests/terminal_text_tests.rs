use yatui::terminal::style::{Color, Style};
use yatui::terminal::text::{Str, Text};
use yatui::text::raw_text::Content;

#[test]
fn str_is_borrowed_or_owned() {
    let borrowed = Str::from_static("hello");
    assert!(borrowed.is_borrowed());
    assert!(!borrowed.is_owned());
    let owned = Str::from_string("hello".to_string());
    assert!(owned.is_owned());
    assert!(!owned.is_borrowed());
    assert!(Str::new(Content::Borrowed("x")).is_borrowed());
}

#[test]
fn str_style_can_be_changed() {
    let mut s = Str::from_static("hello");
    assert_eq!(s.styles(), Style::default());
    *s.styles_mut() = Style::new().fg(Color::Red);
    assert_eq!(s.styles(), Style::new().fg(Color::Red));
}

#[test]
fn text_spills_past_two_strings() {
    let two = Text::new(vec![Str::from_static("a"), Str::from_static("b")]);
    assert!(!two.spilled());
    let three = Text::new(vec![Str::from_static("a"), Str::from_static("b"), Str::from_string("c".to_string())]);
    assert!(three.spilled());
}

#[test]
fn str_clone_keeps_content_and_style() {
    let mut s = Str::from_string("hi".to_string());
    *s.styles_mut() = Style::new().fg(Color::Red);
    let c = s.clone();
    assert!(c.is_owned());
    assert_eq!(c.styles(), Style::new().fg(Color::Red));
}
