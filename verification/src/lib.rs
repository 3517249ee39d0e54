//! A small terminal user interface toolkit: styled text, terminal geometry,
//! cell buffers and a test terminal emulator, with their behaviour stated as
//! contracts and checked by Verus.

pub mod backend;
pub mod component;
pub mod compositor;
pub mod error;
pub mod terminal;
pub mod terminal_new;
pub mod text;
