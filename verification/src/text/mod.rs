//! Styled text: styles, style masks over grapheme ranges and helpers.

pub mod grapheme;
pub mod graphemes;
pub mod mask;
pub mod part;
pub mod raw_text;
pub mod style;
pub mod styled_str;
pub mod styled_text;
pub mod text_eq;
pub mod text_style;
pub mod utils;


pub use grapheme::Grapheme;
pub use style::{Color, Modifier, Style};
pub use styled_str::StyledStr;
pub use styled_text::Text;
