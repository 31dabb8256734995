//! Conversions between the parsed TTML structures and the simpler structures of AMLL.

pub mod model;
pub mod to_amll;
pub mod to_ttml;
