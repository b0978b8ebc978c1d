//! An RGBA colour with 8 bits per channel.

use vstd::prelude::*;

verus! {

/// One RGBA pixel value.
#[derive(Clone, Copy, PartialEq, Eq, Structural, Debug)]
pub struct Colour {
    pub r: u8,
    pub g: u8,
    pub b: u8,
    pub a: u8,
}

impl Colour {
    pub fn new(r: u8, g: u8, b: u8, a: u8) -> (c: Colour)
        ensures
            c == (Colour { r, g, b, a }),
    {
        Colour { r, g, b, a }
    }

    /// Opaque white, the flat colour given to loaded geometry.
    pub fn white() -> (c: Colour)
        ensures
            c == (Colour { r: 255u8, g: 255u8, b: 255u8, a: 255u8 }),
    {
        Colour { r: 255, g: 255, b: 255, a: 255 }
    }

    /// Opaque black, the default clear colour.
    pub fn black() -> (c: Colour)
        ensures
            c == (Colour { r: 0u8, g: 0u8, b: 0u8, a: 255u8 }),
    {
        Colour { r: 0, g: 0, b: 0, a: 255 }
    }
}

} // verus!
