use yatui::backend::raw::{Cell, Flag, Terminal};
use yatui::text::style::{Color, Style};
use yatui::text::utils::Bound::{Excluded, Included, Unbounded};

fn set_grid(terminal: &mut Terminal, width: usize, grid: Vec<Cell>) {
    for (i, cell) in grid.into_iter().enumerate() {
        terminal.set_cell(i % width, i / width, cell);
    }
}

#[test]
fn line_to_string() {
    let mut terminal = Terminal::new(5, 4);

    let mut widecell = Cell::new_str("老");
    widecell.flags = Flag::wide_start();

    let grid = vec![
        // 0
        Cell::new_str("h"),
        Cell::new_str("e"),
        Cell::new_str("l"),
        Cell::new_str("l"),
        Cell::new_str("o"),
        // 1
        widecell.clone(),
        Cell::wide_end(),
        Cell::new_str(" "),
        Cell::new_str("!"),
        Cell::new_str("@"),
        // 2
        Cell::new_str("1"),
        Cell::new_str("2"),
        Cell::new_str("3"),
        Cell::new_str("4"),
        Cell::wide_leading(),
        // 3
        widecell.clone(),
        Cell::wide_end(),
        Cell::new_str(" "),
        Cell::new_str("!"),
        Cell::new_str("y\u{0306}"),
    ];
    set_grid(&mut terminal, 5, grid);

    let line0 = "hello";
    let line1 = "老 !@";
    let line2 = "1234 ";
    let line3 = "老 !y\u{0306}";

    assert_eq!(terminal.line_to_string(0), line0);
    assert_eq!(terminal.line_to_string(1), line1);
    assert_eq!(terminal.line_to_string(2), line2);
    assert_eq!(terminal.line_to_string(3), line3);

    assert_eq!(terminal.lines_to_vec(), vec![line0, line1, line2, line3]);
}

#[test]
fn write_str() {
    let mut terminal = Terminal::new(5, 5);

    terminal.write_str("hello", Style::default());
    terminal.write_str("老!34", Style::new().bg(Color::Yellow));

    terminal.write_str("1", Style::new().fg(Color::Red));
    terminal.write_str("2", Style::new().fg(Color::Blue));
    terminal.write_str("3", Style::new().fg(Color::Green));
    terminal.write_str("4", Style::new().fg(Color::Yellow));
    terminal.write_str("老", Style::new().fg(Color::Magenta));

    terminal.write_str("y\u{0306}et more tex@", Style::default());

    let lines = vec!["hello", "老!34", "1234 ", "老y\u{0306}et", " mor@"];

    assert_eq!(terminal.lines_to_vec(), lines);
    assert!(terminal.styles_are((Included(0), Included(4)), (Included(1), Included(1)), Style::new().bg(Color::Yellow)));
    assert_eq!(terminal.get(0, 2).style, Style::new().fg(Color::Red));
    assert_eq!(terminal.get(1, 2).style, Style::new().fg(Color::Blue));
    assert_eq!(terminal.get(2, 2).style, Style::new().fg(Color::Green));
    assert_eq!(terminal.get(3, 2).style, Style::new().fg(Color::Yellow));
    assert_eq!(terminal.get(4, 2).style, Style::new().fg(Color::Magenta));
}

#[test]
fn write_str_new_line_blanks_cell_and_moves_on() {
    let mut terminal = Terminal::new(4, 3);
    terminal.write_str("ab\ncd", Style::default());
    // the line break blanks its cell and the cursor moves one column after it
    assert_eq!(terminal.get(2, 0).grapheme, "");
    assert_eq!(terminal.get(1, 1).grapheme, "c");
    assert_eq!(terminal.get(2, 1).grapheme, "d");
    assert_eq!(terminal.lines_to_vec(), vec!["ab", "cd", ""]);
}

#[test]
fn wide_grapheme_marks_two_cells() {
    let mut terminal = Terminal::new(3, 2);
    terminal.write_str("a老", Style::default());
    assert!(terminal.get(1, 0).flags.contains(Flag::wide_start()));
    assert!(terminal.get(2, 0).flags.contains(Flag::wide_end()));
    assert_eq!(terminal.line_to_string(0), "a老");
}

#[test]
fn wide_grapheme_moves_to_next_line_when_it_does_not_fit() {
    let mut terminal = Terminal::new(3, 2);
    terminal.write_str("ab老", Style::new().fg(Color::Red));
    assert!(terminal.get(2, 0).flags.contains(Flag::wide_leading()));
    assert_eq!(terminal.get(2, 0).style, Style::new().fg(Color::Red));
    assert_eq!(terminal.lines_to_vec(), vec!["ab ", "老"]);
}

#[test]
fn fill_stops_before_last_column() {
    let mut terminal = Terminal::new(4, 3);
    terminal.fill("x");
    assert_eq!(terminal.line_to_string(0), "xxx");
}

#[test]
fn cell_try_new_needs_one_grapheme() {
    assert!(Cell::try_new("y\u{0306}", Style::default()).is_some());
    assert!(Cell::try_new("ab", Style::default()).is_none());
    assert!(Cell::try_new("", Style::default()).is_none());
}

#[test]
fn styles_are_checks_every_cell_of_the_block() {
    let mut terminal = Terminal::new(4, 3);
    let red = Style::new().fg(Color::Red);
    terminal.write_str("abcd", red);
    terminal.write_str("ef", Style::default());
    assert!(terminal.styles_are((Unbounded, Excluded(4)), (Included(0), Included(0)), red));
    assert!(!terminal.styles_are((Included(0), Included(3)), (Included(0), Included(1)), red));
    assert!(terminal.styles_are((Included(0), Included(1)), (Included(1), Included(1)), Style::default()));
    assert!(terminal.styles_are((Included(0), Included(3)), (Included(2), Included(2)), Style::default()));
}
