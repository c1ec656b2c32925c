//! Renders byte streams as multi-column dumps: an offset index, a field of
//! encoded byte values and an ASCII panel, with repeated rows collapsed.
pub mod encode;
pub mod endian;
pub mod grouped;
pub mod hexd;
pub mod hexdump;
pub mod iter;
pub mod laws;
pub mod options;
pub mod reader;
pub mod render;
pub mod row;
pub mod writer;

pub use crate::hexd::{AsHexd, AsHexdGrouped, Hexd};
