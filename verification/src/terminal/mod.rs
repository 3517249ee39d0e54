//! Terminal geometry: cursors, sizes and regions.

pub mod buffer;
pub mod character;
pub mod cursor;
pub mod modifier;
pub mod printer;
pub mod region;
pub mod size;
pub mod style;
pub mod text;

pub use cursor::{Cursor, Index};
pub use printer::Printer;
pub use region::{Region, RegionIter};
pub use size::Size;
