use yatui::error::Error;
use yatui::terminal::buffer::state::MappedStateBuffer;
use yatui::terminal::buffer::Buffer;
use yatui::terminal::character::{Character, Characters};
use yatui::terminal::{Cursor, Region, Size};

fn text_of(buffer: &Buffer) -> Vec<String> {
    let size = buffer.size();
    (0..size.height())
        .map(|line| (0..size.width()).map(|column| buffer.get(Cursor::new(column, line)).symbol()).collect())
        .collect()
}

#[test]
fn buffer_new_is_blank() {
    let buffer = Buffer::new(Size::new(3, 2));
    assert_eq!(buffer.size(), Size::new(3, 2));
    assert_eq!(text_of(&buffer), vec!["   ", "   "]);
}

#[test]
fn buffer_write_character_and_index() {
    let mut buffer = Buffer::new(Size::new(3, 2));
    buffer.write_character(Character::new('x'), Cursor::new(2, 1));
    assert_eq!(buffer.get_index(&Cursor::new(2, 1)), 5);
    assert_eq!(buffer.get(Cursor::new(2, 1)).symbol(), 'x');
    assert_eq!(text_of(&buffer), vec!["   ", "  x"]);
}

#[test]
fn buffer_get_mut_changes_cell() {
    let mut buffer = Buffer::new(Size::new(2, 2));
    *buffer.get_mut(Cursor::new(0, 1)) = Character::new('q');
    assert_eq!(text_of(&buffer), vec!["  ", "q "]);
}

#[test]
fn buffer_resize_keeps_first_cells() {
    let mut buffer = Buffer::from_lines(vec!["ab".to_string(), "cd".to_string()]);
    buffer.resize(Size::new(3, 2));
    assert_eq!(buffer.size(), Size::new(3, 2));
    let cells: String = buffer.absorb().iter().map(|c| c.symbol()).collect();
    assert_eq!(cells, "abcd  ");
}

#[test]
fn buffer_from_lines_pads_to_longest() {
    let buffer = Buffer::from_lines(vec!["hello".to_string(), "hi".to_string()]);
    assert_eq!(buffer.size(), Size::new(5, 2));
    assert_eq!(text_of(&buffer), vec!["hello", "hi   "]);
}

#[test]
fn mapped_buffer_writes_in_local_coordinates() {
    let mut buffer = Buffer::new(Size::new(4, 3));
    {
        let mut mapped = buffer.map(Region::new(Cursor::new(1, 1), Cursor::new(3, 2)));
        mapped.write_character(Character::new('a'), Cursor::new(0, 0));
        mapped.write_character(Character::new('b'), Cursor::new(2, 1));
        assert_eq!(mapped.get(Cursor::new(0, 0)).symbol(), 'a');
    }
    assert_eq!(text_of(&buffer), vec!["    ", " a  ", "   b"]);
}

#[test]
fn mapped_buffer_try_write_outside_is_error() {
    let mut buffer = Buffer::new(Size::new(4, 3));
    let mut mapped = buffer.map(Region::new(Cursor::new(1, 1), Cursor::new(2, 2)));
    assert!(mapped.try_write_character(Character::new('a'), Cursor::new(1, 1)).is_ok());
    let result = mapped.try_write_character(Character::new('z'), Cursor::new(2, 0));
    assert!(matches!(result, Err(Error::Buffer(_))));
    drop(mapped);
    assert_eq!(text_of(&buffer), vec!["    ", "    ", "  a "]);
}

#[test]
fn mapped_buffer_fill_and_clear() {
    let mut buffer = Buffer::new(Size::new(4, 3));
    {
        let mut full = buffer.full_map();
        full.fill(Character::new('.'));
        let mut inner = full.map(Region::new(Cursor::new(1, 0), Cursor::new(2, 1)));
        inner.clear();
    }
    assert_eq!(text_of(&buffer), vec![".  .", ".  .", "...."]);
}

#[test]
fn mapped_buffer_write_line_blanks_rest() {
    let mut buffer = Buffer::from_lines(vec!["xxxx".to_string(), "yyyy".to_string()]);
    {
        let mut full = buffer.full_map();
        full.write_line(Characters::from_str("ab"), 1);
    }
    assert_eq!(text_of(&buffer), vec!["xxxx", "ab  "]);
}

#[test]
fn mapped_buffer_write_column_blanks_rest() {
    let mut buffer = Buffer::from_lines(vec!["xxx".to_string(), "yyy".to_string(), "zzz".to_string()]);
    {
        let mut full = buffer.full_map();
        full.write_column(Characters::from_str("q"), 2);
    }
    assert_eq!(text_of(&buffer), vec!["xxq", "yy ", "zz "]);
}

#[test]
fn mapped_buffer_map_line_and_column() {
    let mut buffer = Buffer::new(Size::new(3, 3));
    {
        let mut full = buffer.full_map();
        let line = full.map_line(1);
        assert_eq!(line.region(), Region::new(Cursor::new(0, 1), Cursor::new(2, 1)));
    }
    {
        let mut full = buffer.full_map();
        let mut column = full.map_column(2);
        assert_eq!(column.region(), Region::new(Cursor::new(2, 0), Cursor::new(2, 2)));
        column.fill(Character::new('|'));
    }
    assert_eq!(text_of(&buffer), vec!["  |", "  |", "  |"]);
}

#[test]
fn mapped_state_buffer_write_text() {
    let mut buffer = Buffer::new(Size::new(5, 2));
    {
        let mapped = buffer.map(Region::new(Cursor::new(1, 1), Cursor::new(4, 1)));
        let state = MappedStateBuffer::new(mapped, 7);
        let state = state.write_text("abc");
        assert_eq!(state.state, 7);
        let _ = state.without_state();
    }
    assert_eq!(text_of(&buffer), vec!["     ", " abc "]);
}

#[test]
fn buffer_to_string_breaks_after_the_last_column_index() {
    let buffer = Buffer::from_lines(vec!["ab".to_string(), "cd".to_string(), "ef".to_string()]);
    assert_eq!(buffer.to_string(), "ab\ncdef");
    let blank = Buffer::new(Size::new(1, 2));
    assert_eq!(blank.to_string(), " \n ");
}

#[test]
fn try_write_character_on_a_map_larger_than_the_buffer() {
    let mut buffer = Buffer::new(Size::new(2, 2));
    let mut mapped = buffer.map(Region::new(Cursor::new(0, 0), Cursor::new(9, 9)));
    assert!(mapped.try_write_character(Character::new('x'), Cursor::new(1, 1)).is_ok());
    assert!(matches!(mapped.try_write_character(Character::new('y'), Cursor::new(20, 0)), Err(Error::Buffer(_))));
    assert_eq!(buffer.get(Cursor::new(1, 1)).symbol(), 'x');
}

#[test]
fn try_write_character_error_shows_cursor_and_region() {
    let mut buffer = Buffer::new(Size::new(20, 12));
    let region = Region::new(Cursor::new(3, 10), Cursor::new(12, 11));
    let mut mapped = buffer.map(region);
    let cursor = Cursor::new(10, 7);
    let err = mapped.try_write_character(Character::new('y'), cursor).unwrap_err();
    let expected = format!("Cursor {:?} not included in the mapped region {:?}", cursor, region);
    assert_eq!(
        expected,
        "Cursor Cursor { column: 10, line: 7 } not included in the mapped region Region { left_top: Cursor { column: 3, line: 10 }, right_bottom: Cursor { column: 12, line: 11 } }"
    );
    match err {
        Error::Buffer(m) => assert_eq!(m, expected),
        _ => panic!("expected a buffer error"),
    }
}

#[test]
fn try_write_character_error_shows_large_coordinates() {
    let mut buffer = Buffer::new(Size::new(1, 1));
    let region = Region::new(Cursor::new(0, 0), Cursor::new(0, 0));
    let mut mapped = buffer.map(region);
    let cursor = Cursor::new(65535, 100);
    match mapped.try_write_character(Character::new('y'), cursor) {
        Err(Error::Buffer(m)) => {
            assert_eq!(m, format!("Cursor {:?} not included in the mapped region {:?}", cursor, region))
        },
        _ => panic!("expected a buffer error"),
    }
}
