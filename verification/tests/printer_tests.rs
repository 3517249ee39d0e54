use yatui::backend::Backend;
use yatui::error::Error;
use yatui::terminal::{Cursor, Printer, Region, Size};
use yatui::text::style::Style;

struct FixedBackend {
    size: Size,
}

impl Backend for FixedBackend {
    fn get_size(&self) -> Result<Size, Error> {
        Ok(self.size)
    }
    fn move_cursor(&mut self, _pos: Cursor) {}
    fn hide_cursor(&mut self) {}
    fn show_cursor(&mut self) {}
    fn clear_screen(&mut self) {}
    fn draw(&mut self, _s: &str, _style: Style) {}
    fn flush(&mut self) {}
}

fn backend(w: u16, h: u16) -> FixedBackend {
    FixedBackend { size: Size::new(w, h) }
}

#[test]
fn printer_try_map() {
    let mut backend = backend(5, 5);
    let mut printer = Printer::new(&mut backend).unwrap();
    assert!(printer.try_map(Region::new(Cursor::new(1, 1), Cursor::new(3, 3))).is_some());
    assert!(printer.try_map(Region::new(Cursor::new(10, 15), Cursor::new(30, 30))).is_none());
}

#[test]
fn printer_map_line() {
    let mut backend = backend(5, 5);
    let mut printer = Printer::new(&mut backend).unwrap();
    let printer = printer.map_line(1);
    assert_eq!(printer.height(), 1);
    assert_eq!(printer.mapped_region(), Region::new(Cursor::new(0, 1), Cursor::new(4, 1)));
}

#[test]
fn printer_map_first_and_last_line() {
    let mut backend = backend(5, 5);
    let mut printer = Printer::new(&mut backend).unwrap();
    assert_eq!(printer.map_first_line().height(), 1);
    let last = printer.map_last_line();
    assert_eq!(last.height(), 1);
    assert_eq!(last.mapped_region(), Region::new(Cursor::new(0, 4), Cursor::new(4, 4)));
}

#[test]
fn printer_map_columns() {
    let mut backend = backend(5, 5);
    let mut printer = Printer::new(&mut backend).unwrap();
    assert_eq!(printer.map_column(1).width(), 1);
    assert_eq!(printer.map_first_column().width(), 1);
    let last = printer.map_last_column();
    assert_eq!(last.width(), 1);
    assert_eq!(last.mapped_region(), Region::new(Cursor::new(4, 0), Cursor::new(4, 4)));
}

#[test]
fn printer_size() {
    let mut backend = backend(6, 5);
    let printer = Printer::new(&mut backend).unwrap();
    assert_eq!(printer.height(), 5);
    assert_eq!(printer.width(), 6);
}

#[test]
fn printer_local_region() {
    let mut backend = backend(5, 5);
    let mut printer = Printer::new(&mut backend).unwrap();
    assert_eq!(printer.local_region(), Region::new(Cursor::new(0, 0), Cursor::new(4, 4)));
    let inner = printer.map(Region::new(Cursor::new(1, 2), Cursor::new(3, 4)));
    assert_eq!(inner.local_region(), Region::new(Cursor::new(0, 0), Cursor::new(2, 2)));
    assert_eq!(inner.mapped_region(), Region::new(Cursor::new(1, 2), Cursor::new(3, 4)));
}

#[test]
fn printer_nested_map_translates_coordinates() {
    let mut backend = backend(10, 10);
    let mut printer = Printer::new(&mut backend).unwrap();
    let mut inner = printer.map(Region::new(Cursor::new(2, 3), Cursor::new(8, 9)));
    let inner2 = inner.map(Region::new(Cursor::new(1, 1), Cursor::new(2, 2)));
    assert_eq!(inner2.mapped_region(), Region::new(Cursor::new(3, 4), Cursor::new(4, 5)));
}

#[test]
fn printer_padding() {
    let mut backend = backend(6, 5);
    let mut printer = Printer::new(&mut backend).unwrap();
    let padded = printer.padding(1);
    assert_eq!(padded.mapped_region(), Region::new(Cursor::new(1, 1), Cursor::new(4, 3)));
    assert!(printer.try_padding(5).is_none());
}

#[test]
fn printer_needs_a_size() {
    let mut backend = backend(0, 5);
    assert!(Printer::new(&mut backend).is_none());
}
