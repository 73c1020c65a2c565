//! Codec for the binary colour set format: a named palette of colours, each
//! with an optional name, written as nested length-prefixed little-endian
//! records.

pub mod buffer;
pub mod color;
pub mod color_name;
pub mod color_segment;
pub mod color_segments;
pub mod colorset;
pub mod colorset_name;
pub mod common;
pub mod sjis;
pub mod text;
pub mod utf16;
pub mod wire;
