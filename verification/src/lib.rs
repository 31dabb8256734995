//! Parsing and generation of TTML lyric files in the Apple Music and AMLL dialects.

pub mod amll;
pub mod error;
pub mod generator;
pub mod maps;
pub mod model;
pub mod parser;
pub mod text;
pub mod timestamp;
pub mod utils;
pub mod xml;

pub use generator::{generate_ttml, GeneratorConfig};
pub use parser::parse_ttml;
