//! The 12-byte Limg header: its constants, its byte layout as a spec, and
//! the field-by-field `ImageHeader` form.

use vstd::prelude::*;

use crate::image_spec::{spec_flag, DataEndian, ImageSpec};

verus! {

/// Size in bytes of the Limg header.
pub const HEADER_SIZE: usize = 12;

/// The header format version this codec writes.
pub const CURRENT_VARSION: u8 = 1;

/// Flag bit: set when the pixel data region is little-endian, clear when it
/// is big-endian.
pub const FLAG_ENDIAN_BIT: u8 = 0b00000001;

/// Flag bit: set when the header carries a transparent color key.
pub const FLAG_USE_TRANSPARENT_BIT: u8 = 0b00000010;

/// The four ASCII signature bytes, `"LIMG"`.
pub open spec fn spec_signature() -> Seq<u8> {
    seq![0x4Cu8, 0x49u8, 0x4Du8, 0x47u8]
}

/// The twelve header bytes written for a spec: signature, version, flag,
/// then width, height and transparent color as little-endian `u16`s (zero
/// when no key is present).
pub open spec fn spec_header_bytes(s: ImageSpec) -> Seq<u8> {
    let tc: u16 = match s.transparent_color {
        Some(k) => k,
        None => 0u16,
    };
    seq![
        0x4Cu8,
        0x49u8,
        0x4Du8,
        0x47u8,
        CURRENT_VARSION,
        spec_flag(s),
        (s.width & 0xFF) as u8,
        (s.width >> 8) as u8,
        (s.height & 0xFF) as u8,
        (s.height >> 8) as u8,
        (tc & 0xFF) as u8,
        (tc >> 8) as u8,
    ]
}

/// The width stored in a header's bytes (little-endian).
pub open spec fn spec_header_width(data: Seq<u8>) -> u16 {
    (data[6] as u16) | ((data[7] as u16) << 8)
}

/// The height stored in a header's bytes (little-endian).
pub open spec fn spec_header_height(data: Seq<u8>) -> u16 {
    (data[8] as u16) | ((data[9] as u16) << 8)
}

/// The transparent color stored in a header's bytes (little-endian).
pub open spec fn spec_header_key(data: Seq<u8>) -> u16 {
    (data[10] as u16) | ((data[11] as u16) << 8)
}

/// A structurally valid header: the signature matches and neither dimension
/// is zero. The version byte is not validated.
pub open spec fn spec_header_valid(data: Seq<u8>) -> bool {
    &&& data[0] == 0x4C
    &&& data[1] == 0x49
    &&& data[2] == 0x4D
    &&& data[3] == 0x47
    &&& spec_header_width(data) != 0
    &&& spec_header_height(data) != 0
}

/// The spec described by a header's bytes: dimensions, the endianness named
/// by flag bit 0, and the color key when flag bit 1 is set.
pub open spec fn spec_parsed_spec(data: Seq<u8>) -> ImageSpec {
    ImageSpec {
        width: spec_header_width(data),
        height: spec_header_height(data),
        transparent_color: if data[5] & FLAG_USE_TRANSPARENT_BIT != 0 {
            Some(spec_header_key(data))
        } else {
            None
        },
        data_endian: if data[5] & FLAG_ENDIAN_BIT != 0 {
            DataEndian::Little
        } else {
            DataEndian::Big
        },
    }
}

/// The field-by-field form of the 12-byte header, in the order the fields
/// are laid out on disk.
#[derive(Clone, Copy, Debug, PartialEq, Eq)]
pub struct ImageHeader {
    /// 4-byte format signature (`"LIMG"` in a valid header).
    pub signature: [u8; 4],
    /// Format version.
    pub version: u8,
    /// Format flags (endianness and transparent-color presence).
    pub flag: u8,
    /// Image width in pixels.
    pub width: u16,
    /// Image height in pixels.
    pub height: u16,
    /// Transparent color key in packed RGB565 form.
    pub transparent_color: u16,
}

impl ImageHeader {
    /// Reads the first twelve bytes of `data` into their field-by-field
    /// form. Performs no validation.
    pub fn from_bytes(data: &[u8]) -> (h: ImageHeader)
        requires
            data@.len() >= HEADER_SIZE,
        ensures
            h.signature[0] == data@[0],
            h.signature[1] == data@[1],
            h.signature[2] == data@[2],
            h.signature[3] == data@[3],
            h.version == data@[4],
            h.flag == data@[5],
            h.width == spec_header_width(data@),
            h.height == spec_header_height(data@),
            h.transparent_color == spec_header_key(data@),
    {
        ImageHeader {
            signature: [data[0], data[1], data[2], data[3]],
            version: data[4],
            flag: data[5],
            width: (data[6] as u16) | ((data[7] as u16) << 8),
            height: (data[8] as u16) | ((data[9] as u16) << 8),
            transparent_color: (data[10] as u16) | ((data[11] as u16) << 8),
        }
    }
}

/// Writes the twelve header bytes for `spec` at the start of `buf`; every
/// other byte of `buf` is left as it was.
pub fn write_header_bytes(buf: &mut [u8], spec: &ImageSpec)
    requires
        old(buf)@.len() >= HEADER_SIZE,
    ensures
        final(buf)@.len() == old(buf)@.len(),
        forall|j: int| 0 <= j < HEADER_SIZE ==> final(buf)@[j] == spec_header_bytes(*spec)[j],
        forall|j: int|
            HEADER_SIZE <= j < old(buf)@.len() ==> final(buf)@[j] == old(buf)@[j],
{
    let tc: u16 = match spec.transparent_color {
        Some(k) => k,
        None => 0,
    };
    buf[0] = 0x4C;
    buf[1] = 0x49;
    buf[2] = 0x4D;
    buf[3] = 0x47;
    buf[4] = CURRENT_VARSION;
    buf[5] = spec.flag();
    buf[6] = (spec.width & 0xFF) as u8;
    buf[7] = (spec.width >> 8) as u8;
    buf[8] = (spec.height & 0xFF) as u8;
    buf[9] = (spec.height >> 8) as u8;
    buf[10] = (tc & 0xFF) as u8;
    buf[11] = (tc >> 8) as u8;
}

} // verus!
