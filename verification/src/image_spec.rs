//! The in-memory description of an image: dimensions, optional transparent
//! color key, and the byte order of the encoded pixel stream.

use vstd::prelude::*;

verus! {

/// Byte order of the encoded pixel data region.
///
/// The header's own integer fields are always little-endian; this choice
/// governs only the two bytes of each encoded pixel.
#[derive(Clone, Copy, Debug, PartialEq, Eq)]
pub enum DataEndian {
    /// Big-endian pixel bytes: high byte first.
    Big,
    /// Little-endian pixel bytes: low byte first.
    Little,
}

/// The specification of an image, as carried in its header.
#[derive(Clone, Copy, Debug, PartialEq, Eq)]
pub struct ImageSpec {
    /// Image width in pixels.
    pub width: u16,
    /// Image height in pixels.
    pub height: u16,
    /// Transparent color key in packed RGB565 form, or `None` when the
    /// image has no transparent color.
    pub transparent_color: Option<u16>,
    /// Byte order of the encoded pixel data.
    pub data_endian: DataEndian,
}

/// Total number of pixels of an image with this spec.
pub open spec fn spec_num_pixels(s: ImageSpec) -> int {
    s.width * s.height
}

/// The header flag byte of this spec: bit 0 set for little-endian pixel
/// data, bit 1 set when a transparent color key is present.
pub open spec fn spec_flag(s: ImageSpec) -> u8 {
    (match s.data_endian {
        DataEndian::Big => 0u8,
        DataEndian::Little => 1u8,
    }) | (match s.transparent_color {
        Some(_) => 2u8,
        None => 0u8,
    })
}

/// The pixel count of any image fits a `usize`: both dimensions are 16-bit,
/// so the product stays below `2^32 - 1`.
pub proof fn lemma_num_pixels_fits(width: u16, height: u16)
    ensures
        width * height <= 0xFFFE0001,
{
    assert(width * height <= 0xFFFF * 0xFFFF) by (nonlinear_arith)
        requires
            width <= 0xFFFF,
            height <= 0xFFFF,
    ;
}

impl ImageSpec {
    /// Creates a spec with the given dimensions, no transparent color, and
    /// little-endian pixel data.
    pub fn new(width: u16, height: u16) -> (s: ImageSpec)
        ensures
            s == (ImageSpec {
                width,
                height,
                transparent_color: None,
                data_endian: DataEndian::Little,
            }),
    {
        ImageSpec { width, height, transparent_color: None, data_endian: DataEndian::Little }
    }

    /// Creates a spec with the given dimensions and transparent color key,
    /// and little-endian pixel data.
    pub fn with_transparent_color(width: u16, height: u16, transparent_color: u16) -> (s:
        ImageSpec)
        ensures
            s == (ImageSpec {
                width,
                height,
                transparent_color: Some(transparent_color),
                data_endian: DataEndian::Little,
            }),
    {
        ImageSpec {
            width,
            height,
            transparent_color: Some(transparent_color),
            data_endian: DataEndian::Little,
        }
    }

    /// Creates a spec with the given dimensions and pixel-data byte order,
    /// and no transparent color.
    pub fn with_data_endian(width: u16, height: u16, data_endian: DataEndian) -> (s: ImageSpec)
        ensures
            s == (ImageSpec { width, height, transparent_color: None, data_endian }),
    {
        ImageSpec { width, height, transparent_color: None, data_endian }
    }

    /// Total number of pixels: `width * height`, computed in `usize` so the
    /// 16-bit dimensions cannot overflow.
    pub fn num_pixels(&self) -> (n: usize)
        ensures
            n == spec_num_pixels(*self),
    {
        proof {
            lemma_num_pixels_fits(self.width, self.height);
        }
        self.width as usize * self.height as usize
    }

    /// True when the width or the height is zero, so the spec describes no
    /// pixels and is invalid for encoding.
    pub fn is_zero_dimensions(&self) -> (z: bool)
        ensures
            z == (self.width == 0 || self.height == 0),
    {
        self.width == 0 || self.height == 0
    }

    /// The flag byte written into the header for this spec.
    pub fn flag(&self) -> (f: u8)
        ensures
            f == spec_flag(*self),
    {
        let endian_bit: u8 = match self.data_endian {
            DataEndian::Big => 0,
            DataEndian::Little => 1,
        };
        let transparent_bit: u8 = match self.transparent_color {
            Some(_) => 2,
            None => 0,
        };
        endian_bit | transparent_bit
    }
}

} // verus!
