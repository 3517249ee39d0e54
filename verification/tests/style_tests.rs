use yatui::text::style::{Color, Modifier, Style};

#[test]
fn style_merge_empty_is_identity() {
    let s = Style::new().fg(Color::Red).modifier(Modifier::bold());
    assert_eq!(s.merge(Style::new()), s);
    assert_eq!(Style::new().merge(s), s);
}

#[test]
fn style_merge_is_idempotent() {
    let s = Style::new().bg(Color::Blue).modifier(Modifier::italic());
    assert_eq!(s.merge(s), s);
}

#[test]
fn style_merge_is_associative() {
    let a = Style::new().fg(Color::Red).modifier(Modifier::bold());
    let b = Style::new().bg(Color::Green);
    let c = Style::new().fg(Color::Yellow).modifier(Modifier::underline());
    assert_eq!(a.merge(b).merge(c), a.merge(b.merge(c)));
    assert_eq!(a.merge(b).merge(c).get_fg(), Some(Color::Yellow));
    assert_eq!(a.merge(b).merge(c).get_bg(), Some(Color::Green));
}

#[test]
fn style_merge_replaces_colors_and_adds_modifiers() {
    let style1 = Style::new().bg(Color::Black).fg(Color::Black).modifier(Modifier::bold());
    let style2 = Style::new().bg(Color::White).fg(Color::White).modifier(Modifier::italic());
    let new_style = style1.merge(style2);

    assert_eq!(new_style, style2.modifier(Modifier::bold() | Modifier::italic()));
}
