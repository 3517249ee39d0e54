use yatui::terminal::style::{Color, Modifier, Style};
use yatui::component::layout::children::ChildRegion;
use yatui::component::Subscription;
use yatui::compositor::{plan_draw, DrawPlan};
use yatui::terminal::character::{Character, Characters};
use yatui::terminal::{Cursor, Region, Size};

#[test]
fn cursor_moves_saturate() {
    let c = Cursor::new(3, 4);
    assert_eq!(c.next_line(), Cursor::new(3, 5));
    assert_eq!(c.prev_line(), Cursor::new(3, 3));
    assert_eq!(c.next_column(), Cursor::new(4, 4));
    assert_eq!(c.prev_column(), Cursor::new(2, 4));
    assert_eq!(c.wrap_line(), Cursor::new(0, 5));
    assert_eq!(Cursor::new(0, 0).prev_column(), Cursor::new(0, 0));
    assert_eq!(Cursor::new(0, 0).prev_line(), Cursor::new(0, 0));
    assert_eq!(Cursor::new(u16::MAX, 1).next_column(), Cursor::new(u16::MAX, 1));
    assert_eq!(Cursor::from((7, 8)), Cursor::new(7, 8));
}

#[test]
fn cursor_setters_and_map() {
    let mut c = Cursor::default();
    c.set_line(5);
    c.set_column(6);
    assert_eq!(c, Cursor::new(6, 5));
    c.map_line(|l| *l += 1);
    c.map_column(|col| *col -= 1);
    assert_eq!(c, Cursor::new(5, 6));
}

#[test]
fn size_arithmetic_saturates() {
    let a = Size::new(10, 20);
    let b = Size::new(u16::MAX, 5);
    assert_eq!(a.saturating_add(b), Size::new(u16::MAX, 25));
    assert_eq!(a.saturating_sub(b), Size::new(0, 15));
    assert_eq!(a + Size::new(1, 2), Size::new(11, 22));
    assert_eq!(a - Size::new(1, 2), Size::new(9, 18));
    assert_eq!(a.area(), 200);
    assert_eq!(Size::max(), Size::new(u16::MAX, u16::MAX));
    assert_eq!(Size::min(), Size::new(0, 0));
    let mut c = a;
    c += Size::new(5, 5);
    c -= Size::new(1, 1);
    assert_eq!(c, Size::new(14, 24));
}

#[test]
fn region_construction() {
    assert!(Region::try_new(Cursor::new(2, 2), Cursor::new(1, 5)).is_none());
    let r = Region::try_new(Cursor::new(1, 2), Cursor::new(4, 6)).unwrap();
    assert_eq!(r.width(), 4);
    assert_eq!(r.height(), 5);
    assert_eq!(r.area(), 20);
    assert_eq!(r.size(), Size::new(4, 5));
    assert_eq!(Region::with_size(Cursor::new(1, 2), Size::new(4, 5)), r);
    assert_eq!(Region::from_size(Size::new(3, 2)), Region::new(Cursor::new(0, 0), Cursor::new(2, 1)));
}

#[test]
fn region_lines_and_columns() {
    let r = Region::new(Cursor::new(1, 2), Cursor::new(4, 6));
    assert_eq!(r.first_line(), Region::new(Cursor::new(1, 2), Cursor::new(4, 2)));
    assert_eq!(r.last_line(), Region::new(Cursor::new(1, 6), Cursor::new(4, 6)));
    assert_eq!(r.first_column(), Region::new(Cursor::new(1, 2), Cursor::new(1, 6)));
    assert_eq!(r.last_column(), Region::new(Cursor::new(4, 2), Cursor::new(4, 6)));
    assert_eq!(r.n_line(1), Some(Region::new(Cursor::new(1, 3), Cursor::new(4, 3))));
    assert_eq!(r.n_line(5), None);
    assert_eq!(r.n_column(3), Some(Region::new(Cursor::new(4, 2), Cursor::new(4, 6))));
    assert_eq!(r.n_column(4), None);
}

#[test]
fn region_iterates_line_by_line() {
    let r = Region::new(Cursor::new(1, 1), Cursor::new(2, 2));
    let mut iter = r.into_iter();
    let mut cells = vec![];
    while let Some(c) = iter.next() {
        cells.push(c);
    }
    assert_eq!(cells, vec![Cursor::new(1, 1), Cursor::new(2, 1), Cursor::new(1, 2), Cursor::new(2, 2)]);
}

#[test]
fn characters_of_string() {
    let chars = Characters::from_str("a老b");
    let symbols: Vec<char> = chars.0.iter().map(|c| c.symbol()).collect();
    assert_eq!(symbols, vec!['a', '老', 'b']);
    assert_eq!(Character::default().symbol(), ' ');
    assert_eq!(Character::new('x').update_symbol('y').symbol(), 'y');
    assert_eq!(Character::from('q').symbol(), 'q');
    assert_eq!(Character::new('老').to_string(), "老");
}

#[test]
fn subscription_keeps_ids_in_order() {
    let mut sub = Subscription::new();
    assert!(sub.data().is_empty());
    sub.push(3);
    sub.push(1);
    assert_eq!(sub.data(), &vec![3, 1]);
    assert_eq!(Subscription::with_data(vec![7, 8]).data(), &vec![7, 8]);
}

#[test]
fn child_region_builds_when_ordered() {
    let mut region = ChildRegion::default();
    region.right_x(4);
    region.right_y(2);
    assert_eq!(region.try_build_region(), Some(Region::new(Cursor::new(0, 0), Cursor::new(4, 2))));
    region.left_x(5);
    assert_eq!(region.try_build_region(), None);
    region.left_y(1);
    region.right_x(6);
    assert_eq!(region.try_build_region(), Some(Region::new(Cursor::new(5, 1), Cursor::new(6, 2))));
}

#[test]
fn compositor_draw_plan() {
    let a = Size::new(10, 5);
    let b = Size::new(12, 5);
    assert_eq!(plan_draw(a, b, true), DrawPlan::ResizeAndDraw(b));
    assert_eq!(plan_draw(a, a, true), DrawPlan::Skip);
    assert_eq!(plan_draw(a, a, false), DrawPlan::Draw);
}

#[test]
fn terminal_style_builders() {
    let mut style = Style::new();
    let copy = style.fg(Color::Red);
    assert_eq!(copy, style);
    assert_eq!(style.get_fg(), Some(Color::Red));
    style.bg(Color::Blue);
    style.modifier(Modifier::bold().union(Modifier::italic()));
    assert!(style.get_modifier().contains(Modifier::italic()));
    assert_eq!(style.get_bg(), Some(Color::Blue));
    style.clear_fg();
    assert_eq!(style.get_fg(), None);
    style.clear_bg();
    assert_eq!(style.get_bg(), None);
    style.clear_modifier();
    assert_eq!(style.get_modifier(), Modifier::empty());
}

#[test]
fn region_iterator_ends_at_the_largest_coordinate() {
    let corner = Cursor::new(65535, 65535);
    let mut iter = Region::new(corner, corner).into_iter();
    assert_eq!(iter.next(), Some(corner));
    assert_eq!(iter.next(), None);
    assert_eq!(iter.next(), None);

    let r = Region::new(Cursor::new(65534, 65533), Cursor::new(65535, 65534));
    let mut iter = r.into_iter();
    let mut cells = vec![];
    while let Some(c) = iter.next() {
        cells.push(c);
    }
    assert_eq!(
        cells,
        vec![Cursor::new(65534, 65533), Cursor::new(65535, 65533), Cursor::new(65534, 65534), Cursor::new(65535, 65534)]
    );
    assert_eq!(iter.next(), None);
}
