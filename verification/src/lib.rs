//! Paints a line of text with a smooth color gradient: anchor colors are
//! decoded from hex strings, interpolated across the line's grapheme
//! clusters, and each cluster is wrapped in a 24-bit ANSI escape sequence.

pub mod color;
pub mod gradient;
pub mod paint;
pub mod parse;
