//! Cell colors: four 8-bit channels, and the "unmarked" background color
//! that distinguishes the two branches of the agent rule.

use vstd::prelude::*;

verus! {

/// One cell's color: red, green, blue and alpha, each an 8-bit channel.
#[derive(Clone, Copy, PartialEq, Eq, Structural, Debug)]
pub struct Color {
    pub r: u8,
    pub g: u8,
    pub b: u8,
    pub a: u8,
}

/// The "unmarked" background color: opaque white.
pub open spec fn background() -> Color {
    Color { r: 255, g: 255, b: 255, a: 255 }
}

/// A cell counts as unmarked when its red, green and blue channels match the
/// background; alpha is ignored, since every color the engine writes is
/// fully opaque.
pub open spec fn is_unmarked(c: Color) -> bool {
    c.r == 255 && c.g == 255 && c.b == 255
}

/// The channel of a color selected by index, in storage order: red, green,
/// blue, then alpha.
pub open spec fn channel(c: Color, k: int) -> u8 {
    if k == 0 {
        c.r
    } else if k == 1 {
        c.g
    } else if k == 2 {
        c.b
    } else {
        c.a
    }
}

impl Color {
    /// The background color as an executable value.
    pub fn background() -> (c: Color)
        ensures
            c == background(),
    {
        Color { r: 255, g: 255, b: 255, a: 255 }
    }

    /// Whether this color counts as the unmarked background.
    pub fn is_unmarked(&self) -> (r: bool)
        ensures
            r == is_unmarked(*self),
    {
        self.r == 255 && self.g == 255 && self.b == 255
    }
}

} // verus!
