//! Driver core for SK6812-class RGBW LED strips.
//!
//! The strip expects each color bit as a precisely timed high/low pulse pair
//! on a single wire. Two strategies produce that signal: timed toggling of a
//! digital output ([`sk6812_gpio`]) and expansion of every two color bits
//! into a fixed serial pattern byte ([`sk6812_spi`]). Both consume the same
//! four-channel [`Rgbw`] color values.

use vstd::prelude::*;

pub mod pulse;
pub mod serial;
pub mod sk6812_gpio;
pub mod sk6812_spi;

verus! {

/// A four-channel color value: red, green, blue and white intensities.
///
/// Every byte value is legal in every channel; the driver encodes the
/// channels in the fixed order red, green, blue, white.
#[derive(Clone, Copy, PartialEq, Eq, Structural, Debug)]
pub struct Rgbw {
    /// Red intensity.
    pub r: u8,
    /// Green intensity.
    pub g: u8,
    /// Blue intensity.
    pub b: u8,
    /// White intensity.
    pub w: u8,
}

/// Build an [`Rgbw`] from its four channel bytes.
pub fn new_rgbw(r: u8, g: u8, b: u8, w: u8) -> (c: Rgbw)
    ensures
        c == (Rgbw { r, g, b, w }),
{
    Rgbw { r, g, b, w }
}

} // verus!
