//! Bit-level packing and unpacking of single RGB565 pixels.
//!
//! Packing keeps the top 5/6/5 bits of the 8-bit red/green/blue channels by
//! truncation; unpacking widens each field back to 8 bits by bit replication.

use vstd::prelude::*;

verus! {

/// Number of bytes of one encoded (packed RGB565) pixel.
pub const PIXEL_BYTES: usize = 2;

/// Number of bytes of one RGB888 pixel.
pub const RGB_CHANNELS: usize = 3;

/// Mask of the red field of a packed pixel (top 5 bits).
pub const PIXEL_R_MASK: u16 = 0xF800;

/// Mask of the green field of a packed pixel (middle 6 bits).
pub const PIXEL_G_MASK: u16 = 0x07E0;

/// Mask of the blue field of a packed pixel (low 5 bits).
pub const PIXEL_B_MASK: u16 = 0x001F;

/// The red field contributed by an 8-bit red channel: its top 5 bits,
/// placed at bit offset 11.
pub open spec fn spec_red_to_pixel(r: u8) -> u16 {
    ((r as u16) << 8) & PIXEL_R_MASK
}

/// The green field contributed by an 8-bit green channel: its top 6 bits,
/// placed at bit offset 5.
pub open spec fn spec_green_to_pixel(g: u8) -> u16 {
    ((g as u16) << 3) & PIXEL_G_MASK
}

/// The blue field contributed by an 8-bit blue channel: its top 5 bits,
/// placed at bit offset 0.
pub open spec fn spec_blue_to_pixel(b: u8) -> u16 {
    ((b as u16) >> 3) & PIXEL_B_MASK
}

/// The packed RGB565 pixel of an 8-bit RGB triple.
pub open spec fn spec_rgb_to_pixel(r: u8, g: u8, b: u8) -> u16 {
    spec_red_to_pixel(r) | spec_green_to_pixel(g) | spec_blue_to_pixel(b)
}

/// The 8-bit red channel reconstructed from a packed pixel by bit
/// replication of the 5-bit field.
pub open spec fn spec_pixel_to_red(p: u16) -> u8 {
    let r = ((p & PIXEL_R_MASK) >> 11) as u8;
    (r << 3) | (r >> 2)
}

/// The 8-bit green channel reconstructed from a packed pixel by bit
/// replication of the 6-bit field.
pub open spec fn spec_pixel_to_green(p: u16) -> u8 {
    let g = ((p & PIXEL_G_MASK) >> 5) as u8;
    (g << 2) | (g >> 4)
}

/// The 8-bit blue channel reconstructed from a packed pixel by bit
/// replication of the 5-bit field.
pub open spec fn spec_pixel_to_blue(p: u16) -> u8 {
    let b = (p & PIXEL_B_MASK) as u8;
    (b << 3) | (b >> 2)
}

/// The alpha byte synthesized for a packed pixel against a transparent
/// color key: fully transparent on an exact match, fully opaque otherwise.
pub open spec fn spec_pixel_to_alpha(p: u16, transparent_color: u16) -> u8 {
    if p == transparent_color {
        0
    } else {
        0xFF
    }
}

/// Converts an `[R, G, B]` triple to a packed RGB565 pixel, truncating each
/// channel to its field width.
pub fn rgb_to_pixel(rgb: [u8; 3]) -> (p: u16)
    ensures
        p == spec_rgb_to_pixel(rgb[0], rgb[1], rgb[2]),
{
    red_to_pixel(rgb[0]) | green_to_pixel(rgb[1]) | blue_to_pixel(rgb[2])
}

/// The red field of the packed pixel for an 8-bit red channel.
pub fn red_to_pixel(r: u8) -> (p: u16)
    ensures
        p == spec_red_to_pixel(r),
{
    ((r as u16) << 8) & PIXEL_R_MASK
}

/// The green field of the packed pixel for an 8-bit green channel.
pub fn green_to_pixel(g: u8) -> (p: u16)
    ensures
        p == spec_green_to_pixel(g),
{
    ((g as u16) << 3) & PIXEL_G_MASK
}

/// The blue field of the packed pixel for an 8-bit blue channel.
pub fn blue_to_pixel(b: u8) -> (p: u16)
    ensures
        p == spec_blue_to_pixel(b),
{
    ((b as u16) >> 3) & PIXEL_B_MASK
}

/// Converts a packed RGB565 pixel to an `[R, G, B]` triple by bit
/// replication of each field.
pub fn pixel_to_rgb(pixel: u16) -> (rgb: [u8; 3])
    ensures
        rgb[0] == spec_pixel_to_red(pixel),
        rgb[1] == spec_pixel_to_green(pixel),
        rgb[2] == spec_pixel_to_blue(pixel),
{
    [pixel_to_red(pixel), pixel_to_green(pixel), pixel_to_blue(pixel)]
}

/// The reconstructed 8-bit red channel of a packed pixel.
pub fn pixel_to_red(pixel: u16) -> (r: u8)
    ensures
        r == spec_pixel_to_red(pixel),
{
    let r = ((pixel & PIXEL_R_MASK) >> 11) as u8;
    (r << 3) | (r >> 2)
}

/// The reconstructed 8-bit green channel of a packed pixel.
pub fn pixel_to_green(pixel: u16) -> (g: u8)
    ensures
        g == spec_pixel_to_green(pixel),
{
    let g = ((pixel & PIXEL_G_MASK) >> 5) as u8;
    (g << 2) | (g >> 4)
}

/// The reconstructed 8-bit blue channel of a packed pixel.
pub fn pixel_to_blue(pixel: u16) -> (b: u8)
    ensures
        b == spec_pixel_to_blue(pixel),
{
    let b = (pixel & PIXEL_B_MASK) as u8;
    (b << 3) | (b >> 2)
}

/// The alpha byte for a packed pixel under a transparent color key.
pub fn pixel_to_alpha(pixel: u16, transparent_color: u16) -> (a: u8)
    ensures
        a == spec_pixel_to_alpha(pixel, transparent_color),
{
    if pixel == transparent_color {
        0
    } else {
        0xFF
    }
}

} // verus!
