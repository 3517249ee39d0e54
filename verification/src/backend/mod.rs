//! Backend trait

use vstd::prelude::*;

pub mod raw;

use crate::{
    error::Error,
    terminal::{cursor::Cursor, size::Size},
    text::style::Style,
};

verus! {

/// What draws on a terminal. Implemented by the terminal drivers of the application and by
/// test terminals.
pub trait Backend {
    /// Current size of the terminal.
    fn get_size(&self) -> Result<Size, Error>;

    /// Moves the cursor to `pos`.
    fn move_cursor(&mut self, pos: Cursor);

    /// Hides the cursor.
    fn hide_cursor(&mut self);

    /// Shows the cursor.
    fn show_cursor(&mut self);

    /// Clears the whole screen.
    fn clear_screen(&mut self);

    /// Draws `s` with `style` from the cursor.
    fn draw(&mut self, s: &str, style: Style);

    /// Sends what was drawn to the terminal.
    fn flush(&mut self);
}

} // verus!
