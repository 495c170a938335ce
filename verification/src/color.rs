//! The two ink states of a monochrome plane.

use vstd::prelude::*;

verus! {

/// Logical color of one pixel on one plane.
#[derive(Clone, Copy, Debug, PartialEq, Eq, Structural)]
pub enum Color {
    /// Colored ink (black on the black/white plane, red on the red plane).
    Black,
    /// No ink.
    White,
}

impl Color {
    /// The raw byte that fills a plane with this color, before any
    /// per-plane polarity flip: white maps to all bits set.
    pub open spec fn spec_byte_value(self) -> u8 {
        match self {
            Color::Black => 0x00,
            Color::White => 0xFF,
        }
    }

    /// The opposite color.
    pub open spec fn spec_inverse(self) -> Color {
        match self {
            Color::Black => Color::White,
            Color::White => Color::Black,
        }
    }

    /// Byte value used to fill a whole plane with this color.
    pub fn get_byte_value(self) -> (r: u8)
        ensures
            r == self.spec_byte_value(),
    {
        match self {
            Color::Black => 0x00,
            Color::White => 0xFF,
        }
    }

    /// Returns the opposite color.
    pub fn inverse(self) -> (r: Color)
        ensures
            r == self.spec_inverse(),
    {
        match self {
            Color::Black => Color::White,
            Color::White => Color::Black,
        }
    }
}

} // verus!
