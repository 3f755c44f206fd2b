use vstd::prelude::*;

verus! {

/// An RGB color with three 8-bit channels.
#[derive(Clone, Copy, PartialEq, Eq, Structural, Debug)]
pub struct Color {
    pub r: u8,
    pub g: u8,
    pub b: u8,
}

impl Color {
    pub fn new(r: u8, g: u8, b: u8) -> (c: Color)
        ensures
            c == (Color { r, g, b }),
    {
        Color { r, g, b }
    }
}

/// Why a gradient could not be built from the given arguments.
#[derive(Clone, Copy, PartialEq, Eq, Structural, Debug)]
pub enum GradientError {
    /// The argument at position `index` is not a six-digit hex color.
    InvalidColorArgument { index: usize },
    /// Fewer than two colors were supplied.
    InsufficientColors,
}

} // verus!
