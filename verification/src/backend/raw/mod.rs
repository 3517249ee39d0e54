//! A terminal emulator for tests.

pub mod cell;
pub mod terminal;

pub use cell::{Cell, Flag};
pub use terminal::Terminal;
