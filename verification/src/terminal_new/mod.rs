//! Printers that write through a raw printer of the backend.

pub mod printer;
pub mod raw_printer;

pub use printer::Printer;
pub use raw_printer::RawPrinter;
