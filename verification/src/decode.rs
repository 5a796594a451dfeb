//! The checked and unchecked decoding entry points: header parsing, size
//! validation, and dispatch of the pixel region to the bulk engine.

use vstd::prelude::*;

use crate::color::ColorType;
use crate::error::Error;
use crate::header::{spec_header_valid, spec_parsed_spec, ImageHeader, HEADER_SIZE};
use crate::image_spec::{spec_num_pixels, ImageSpec};
use crate::model::{decode_range_ok, lemma_div_mul_bound, lemma_key_irrelevant_rgb};
use crate::wide256;

verus! {

broadcast use vstd::slice::group_slice_axioms, crate::model::lemma_slice_len_fits;

/// Bytes needed to hold `spec`'s pixels decoded to `color_type`:
/// bytes-per-pixel times the pixel count.
pub fn decoded_size(spec: &ImageSpec, color_type: ColorType) -> (n: usize)
    requires
        color_type.bytes_per_pixel() * spec_num_pixels(*spec) <= usize::MAX,
    ensures
        n == color_type.bytes_per_pixel() * spec_num_pixels(*spec),
{
    color_type.bytes_per_pixel() * spec.num_pixels()
}

/// Parses and validates the 12-byte header at the start of `data`, returning
/// the image spec and the number of bytes consumed.
///
/// Returns `InputBufferTooSmall` when fewer than 12 bytes are given, and
/// `UnsupportedFormat` when the signature does not match or a dimension is
/// zero. The version byte is not validated.
pub fn decode_header(data: &[u8]) -> (r: Result<(ImageSpec, usize), Error>)
    ensures
        data@.len() < HEADER_SIZE ==> r == Err::<(ImageSpec, usize), Error>(
            Error::InputBufferTooSmall,
        ),
        data@.len() >= HEADER_SIZE && !spec_header_valid(data@) ==> r == Err::<
            (ImageSpec, usize),
            Error,
        >(Error::UnsupportedFormat),
        data@.len() >= HEADER_SIZE && spec_header_valid(data@) ==> r == Ok::<
            (ImageSpec, usize),
            Error,
        >((spec_parsed_spec(data@), HEADER_SIZE)),
{
    if data.len() < HEADER_SIZE {
        return Err(Error::InputBufferTooSmall);
    }
    let h = ImageHeader::from_bytes(data);
    if h.signature[0] != 0x4C || h.signature[1] != 0x49 || h.signature[2] != 0x4D
        || h.signature[3] != 0x47 {
        return Err(Error::UnsupportedFormat);
    }
    if h.width == 0 || h.height == 0 {
        return Err(Error::UnsupportedFormat);
    }
    Ok((decode_header_unchecked(data), HEADER_SIZE))
}

/// Reads the header fields at the start of `data` without any validation;
/// the caller guarantees at least 12 bytes are present.
pub fn decode_header_unchecked(data: &[u8]) -> (s: ImageSpec)
    requires
        data@.len() >= HEADER_SIZE,
    ensures
        s == spec_parsed_spec(data@),
{
    let h = ImageHeader::from_bytes(data);
    let transparent_color = if h.flag & crate::header::FLAG_USE_TRANSPARENT_BIT != 0 {
        Some(h.transparent_color)
    } else {
        None
    };
    let data_endian = if h.flag & crate::header::FLAG_ENDIAN_BIT != 0 {
        crate::image_spec::DataEndian::Little
    } else {
        crate::image_spec::DataEndian::Big
    };
    ImageSpec { width: h.width, height: h.height, transparent_color, data_endian }
}

/// Converts the stream pixels starting at `data[d0]` into `buf` with the
/// engine for the requested color type; the caller guarantees both buffers
/// are large enough.
pub(crate) fn decode_logic(
    data: &[u8],
    d0: usize,
    buf: &mut [u8],
    spec: &ImageSpec,
    color_type: ColorType,
) -> (written: usize)
    requires
        d0 + 2 * spec_num_pixels(*spec) <= data@.len(),
        color_type.bytes_per_pixel() * spec_num_pixels(*spec) <= old(buf)@.len(),
    ensures
        written == color_type.bytes_per_pixel() * spec_num_pixels(*spec),
        decode_range_ok(
            data@,
            d0 as int,
            old(buf)@,
            final(buf)@,
            0,
            spec.data_endian,
            color_type,
            spec.transparent_color,
            0,
            spec_num_pixels(*spec),
        ),
{
    let n = spec.num_pixels();
    match color_type {
        ColorType::Rgb888 => {
            wide256::decode_to_rgb888(data, d0, buf, n, spec.data_endian);
            proof {
                lemma_key_irrelevant_rgb(
                    data@,
                    d0 as int,
                    buf@,
                    0,
                    spec.data_endian,
                    ColorType::Rgb888,
                    spec.transparent_color,
                    n as int,
                );
            }
            3 * n
        },
        ColorType::Rgb565 => {
            wide256::decode_to_rgb565(data, d0, buf, n, spec.data_endian);
            proof {
                lemma_key_irrelevant_rgb(
                    data@,
                    d0 as int,
                    buf@,
                    0,
                    spec.data_endian,
                    ColorType::Rgb565,
                    spec.transparent_color,
                    n as int,
                );
            }
            2 * n
        },
        ColorType::Rgba8888 => {
            match spec.transparent_color {
                Some(k) => {
                    wide256::decode_to_rgba8888_alpha(data, d0, buf, k, n, spec.data_endian);
                },
                None => {
                    wide256::decode_to_rgba8888(data, d0, buf, n, spec.data_endian);
                },
            }
            4 * n
        },
    }
}

/// Decodes the pixel region `data` (no header) into `buf` according to
/// `spec`, after validating both buffer sizes.
pub fn decode_data(data: &[u8], buf: &mut [u8], spec: &ImageSpec, color_type: ColorType) -> (r:
    Result<usize, Error>)
    ensures
        ({
            let n = spec_num_pixels(*spec);
            let bpp = color_type.bytes_per_pixel();
            if data@.len() < 2 * n {
                r == Err::<usize, Error>(Error::InputBufferTooSmall) && final(buf)@ == old(buf)@
            } else if old(buf)@.len() < bpp * n {
                r == Err::<usize, Error>(Error::OutputBufferTooSmall) && final(buf)@ == old(buf)@
            } else {
                r == Ok::<usize, Error>((bpp * n) as usize) && decode_range_ok(
                    data@,
                    0,
                    old(buf)@,
                    final(buf)@,
                    0,
                    spec.data_endian,
                    color_type,
                    spec.transparent_color,
                    0,
                    n,
                )
            }
        }),
{
    let n = spec.num_pixels();
    proof {
        lemma_div_mul_bound(data@.len() as int, n as int, 2);
        lemma_div_mul_bound(old(buf)@.len() as int, n as int, color_type.bytes_per_pixel() as int);
    }
    if data.len() / 2 < n {
        return Err(Error::InputBufferTooSmall);
    }
    if buf.len() / color_type.bytes_per_pixel() < n {
        return Err(Error::OutputBufferTooSmall);
    }
    Ok(decode_data_unchecked(data, buf, spec, color_type))
}

/// Decodes the pixel region `data` into `buf` without size validation; the
/// caller guarantees both buffers satisfy the size bounds.
pub fn decode_data_unchecked(
    data: &[u8],
    buf: &mut [u8],
    spec: &ImageSpec,
    color_type: ColorType,
) -> (written: usize)
    requires
        2 * spec_num_pixels(*spec) <= data@.len(),
        color_type.bytes_per_pixel() * spec_num_pixels(*spec) <= old(buf)@.len(),
    ensures
        written == color_type.bytes_per_pixel() * spec_num_pixels(*spec),
        decode_range_ok(
            data@,
            0,
            old(buf)@,
            final(buf)@,
            0,
            spec.data_endian,
            color_type,
            spec.transparent_color,
            0,
            spec_num_pixels(*spec),
        ),
{
    decode_logic(data, 0, buf, spec, color_type)
}

/// Decodes a whole Limg image — header and pixel region — into `buf`,
/// returning the parsed spec and the number of bytes written.
///
/// Validates the header first, then both buffer sizes; on any error the
/// output buffer is untouched.
pub fn decode(data: &[u8], buf: &mut [u8], color_type: ColorType) -> (r: Result<
    (ImageSpec, usize),
    Error,
>)
    ensures
        ({
            let s = spec_parsed_spec(data@);
            let n = spec_num_pixels(s);
            let bpp = color_type.bytes_per_pixel();
            if data@.len() < HEADER_SIZE {
                r == Err::<(ImageSpec, usize), Error>(Error::InputBufferTooSmall) && final(buf)@
                    == old(buf)@
            } else if !spec_header_valid(data@) {
                r == Err::<(ImageSpec, usize), Error>(Error::UnsupportedFormat) && final(buf)@
                    == old(buf)@
            } else if data@.len() - HEADER_SIZE < 2 * n {
                r == Err::<(ImageSpec, usize), Error>(Error::InputBufferTooSmall) && final(buf)@
                    == old(buf)@
            } else if old(buf)@.len() < bpp * n {
                r == Err::<(ImageSpec, usize), Error>(Error::OutputBufferTooSmall) && final(buf)@
                    == old(buf)@
            } else {
                r == Ok::<(ImageSpec, usize), Error>((s, (bpp * n) as usize)) && decode_range_ok(
                    data@,
                    HEADER_SIZE as int,
                    old(buf)@,
                    final(buf)@,
                    0,
                    s.data_endian,
                    color_type,
                    s.transparent_color,
                    0,
                    n,
                )
            }
        }),
{
    let spec = match decode_header(data) {
        Ok((s, _)) => s,
        Err(e) => {
            return Err(e);
        },
    };
    let n = spec.num_pixels();
    proof {
        lemma_div_mul_bound(data@.len() - HEADER_SIZE, n as int, 2);
        lemma_div_mul_bound(old(buf)@.len() as int, n as int, color_type.bytes_per_pixel() as int);
    }
    if (data.len() - HEADER_SIZE) / 2 < n {
        return Err(Error::InputBufferTooSmall);
    }
    if buf.len() / color_type.bytes_per_pixel() < n {
        return Err(Error::OutputBufferTooSmall);
    }
    let written = decode_logic(data, HEADER_SIZE, buf, &spec, color_type);
    Ok((spec, written))
}

/// Decodes a whole Limg image without any validation; the caller guarantees
/// a well-formed header and sufficient buffer sizes.
pub fn decode_unchecked(data: &[u8], buf: &mut [u8], color_type: ColorType) -> (r: (
    ImageSpec,
    usize,
))
    requires
        data@.len() >= HEADER_SIZE,
        HEADER_SIZE + 2 * spec_num_pixels(spec_parsed_spec(data@)) <= data@.len(),
        color_type.bytes_per_pixel() * spec_num_pixels(spec_parsed_spec(data@)) <= old(
            buf,
        )@.len(),
    ensures
        ({
            let s = spec_parsed_spec(data@);
            let n = spec_num_pixels(s);
            r == (s, (color_type.bytes_per_pixel() * n) as usize) && decode_range_ok(
                data@,
                HEADER_SIZE as int,
                old(buf)@,
                final(buf)@,
                0,
                s.data_endian,
                color_type,
                s.transparent_color,
                0,
                n,
            )
        }),
{
    let spec = decode_header_unchecked(data);
    let written = decode_logic(data, HEADER_SIZE, buf, &spec, color_type);
    (spec, written)
}

} // verus!
