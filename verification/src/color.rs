//! The in-memory pixel layouts a caller can convert from and to.

use vstd::prelude::*;

verus! {

/// The color layout of the caller's pixel buffer.
///
/// Only the in-memory side of a conversion varies; the encoded stream is
/// always packed RGB565.
#[derive(Clone, Copy, Debug, PartialEq, Eq)]
pub enum ColorType {
    /// Three bytes per pixel: `[r, g, b]`.
    Rgb888,
    /// Two bytes per pixel: a packed RGB565 value in little-endian order.
    Rgb565,
    /// Four bytes per pixel: `[r, g, b, a]`.
    Rgba8888,
}

impl ColorType {
    /// Bytes of one pixel in this layout.
    pub open spec fn spec_bytes_per_pixel(self) -> usize {
        match self {
            ColorType::Rgb888 => 3,
            ColorType::Rgb565 => 2,
            ColorType::Rgba8888 => 4,
        }
    }

    /// Bytes of one pixel in this layout.
    #[verifier::when_used_as_spec(spec_bytes_per_pixel)]
    pub fn bytes_per_pixel(self) -> (n: usize)
        ensures
            n == self.spec_bytes_per_pixel(),
    {
        match self {
            ColorType::Rgb888 => 3,
            ColorType::Rgb565 => 2,
            ColorType::Rgba8888 => 4,
        }
    }
}

} // verus!
