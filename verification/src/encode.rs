//! The checked and unchecked encoding entry points: size validation, header
//! writing, and dispatch of the pixel region to the bulk engine.

use vstd::prelude::*;

use crate::color::ColorType;
use crate::error::Error;
use crate::header::{spec_header_bytes, write_header_bytes, HEADER_SIZE};
use crate::image_spec::{spec_num_pixels, ImageSpec};
use crate::model::{encode_range_ok, encoded_pixel_ok, lemma_div_mul_bound};
use crate::pixel::PIXEL_BYTES;
use crate::wide256;

verus! {

broadcast use vstd::slice::group_slice_axioms, crate::model::lemma_slice_len_fits;

/// Bytes needed to encode an image with this spec: the 12-byte header plus
/// two bytes per pixel.
pub fn encoded_size(spec: &ImageSpec) -> (n: usize)
    requires
        HEADER_SIZE + spec_num_pixels(*spec) * PIXEL_BYTES <= usize::MAX,
    ensures
        n == HEADER_SIZE + spec_num_pixels(*spec) * PIXEL_BYTES,
{
    HEADER_SIZE + spec.num_pixels() * PIXEL_BYTES
}

/// Bytes needed to encode an image with this spec; the bound checked by
/// `encode` against its output buffer.
pub fn encode_bounds(spec: &ImageSpec) -> (n: usize)
    requires
        HEADER_SIZE + spec_num_pixels(*spec) * PIXEL_BYTES <= usize::MAX,
    ensures
        n == HEADER_SIZE + spec_num_pixels(*spec) * PIXEL_BYTES,
{
    HEADER_SIZE + spec.num_pixels() * PIXEL_BYTES
}

/// Writes the 12-byte header for `spec` at the start of `buf`.
///
/// Returns `ZeroImageDimensions` when a dimension is zero and
/// `OutputBufferTooSmall` when `buf` is shorter than the header; in both
/// cases `buf` is untouched.
pub fn encode_header(buf: &mut [u8], spec: &ImageSpec) -> (r: Result<usize, Error>)
    ensures
        ({
            if spec.width == 0 || spec.height == 0 {
                r == Err::<usize, Error>(Error::ZeroImageDimensions) && final(buf)@ == old(buf)@
            } else if old(buf)@.len() < HEADER_SIZE {
                r == Err::<usize, Error>(Error::OutputBufferTooSmall) && final(buf)@ == old(buf)@
            } else {
                r == Ok::<usize, Error>(HEADER_SIZE) && final(buf)@.len() == old(buf)@.len()
                    && (forall|j: int|
                    0 <= j < HEADER_SIZE ==> final(buf)@[j] == spec_header_bytes(*spec)[j]) && (
                forall|j: int|
                    HEADER_SIZE <= j < old(buf)@.len() ==> final(buf)@[j] == old(buf)@[j])
            }
        }),
{
    if spec.is_zero_dimensions() {
        return Err(Error::ZeroImageDimensions);
    }
    if buf.len() < HEADER_SIZE {
        return Err(Error::OutputBufferTooSmall);
    }
    Ok(encode_header_unchecked(buf, spec))
}

/// Writes the 12-byte header for `spec` at the start of `buf` without
/// validation; the caller guarantees `buf` holds at least 12 bytes.
pub fn encode_header_unchecked(buf: &mut [u8], spec: &ImageSpec) -> (written: usize)
    requires
        old(buf)@.len() >= HEADER_SIZE,
    ensures
        written == HEADER_SIZE,
        final(buf)@.len() == old(buf)@.len(),
        forall|j: int| 0 <= j < HEADER_SIZE ==> final(buf)@[j] == spec_header_bytes(*spec)[j],
        forall|j: int| HEADER_SIZE <= j < old(buf)@.len() ==> final(buf)@[j] == old(buf)@[j],
{
    write_header_bytes(buf, spec);
    HEADER_SIZE
}

/// Converts buffer pixels of `data` into stream pixels written at
/// `buf[o0..]` with the engine for the given color type; the caller
/// guarantees both buffers are large enough.
pub(crate) fn encode_logic(
    data: &[u8],
    buf: &mut [u8],
    o0: usize,
    spec: &ImageSpec,
    color_type: ColorType,
) -> (written: usize)
    requires
        color_type.bytes_per_pixel() * spec_num_pixels(*spec) <= data@.len(),
        o0 + 2 * spec_num_pixels(*spec) <= old(buf)@.len(),
    ensures
        written == 2 * spec_num_pixels(*spec),
        encode_range_ok(
            data@,
            0,
            old(buf)@,
            final(buf)@,
            o0 as int,
            spec.data_endian,
            color_type,
            0,
            spec_num_pixels(*spec),
        ),
{
    let n = spec.num_pixels();
    match color_type {
        ColorType::Rgb888 => {
            wide256::encode_from_rgb888(data, buf, o0, n, spec.data_endian);
        },
        ColorType::Rgb565 => {
            wide256::encode_from_rgb565(data, buf, o0, n, spec.data_endian);
        },
        ColorType::Rgba8888 => {
            wide256::encode_from_rgba8888(data, buf, o0, n, spec.data_endian);
        },
    }
    2 * n
}

/// Encodes the pixels of `data` (no header is written) into `buf` according
/// to `spec`, after validating both buffer sizes.
pub fn encode_data(data: &[u8], buf: &mut [u8], spec: &ImageSpec, color_type: ColorType) -> (r:
    Result<usize, Error>)
    ensures
        ({
            let n = spec_num_pixels(*spec);
            let bpp = color_type.bytes_per_pixel();
            if data@.len() < bpp * n {
                r == Err::<usize, Error>(Error::InputBufferTooSmall) && final(buf)@ == old(buf)@
            } else if old(buf)@.len() < 2 * n {
                r == Err::<usize, Error>(Error::OutputBufferTooSmall) && final(buf)@ == old(buf)@
            } else {
                r == Ok::<usize, Error>((2 * n) as usize) && encode_range_ok(
                    data@,
                    0,
                    old(buf)@,
                    final(buf)@,
                    0,
                    spec.data_endian,
                    color_type,
                    0,
                    n,
                )
            }
        }),
{
    let n = spec.num_pixels();
    proof {
        lemma_div_mul_bound(data@.len() as int, n as int, color_type.bytes_per_pixel() as int);
        lemma_div_mul_bound(old(buf)@.len() as int, n as int, 2);
    }
    if data.len() / color_type.bytes_per_pixel() < n {
        return Err(Error::InputBufferTooSmall);
    }
    if buf.len() / 2 < n {
        return Err(Error::OutputBufferTooSmall);
    }
    Ok(encode_data_unchecked(data, buf, spec, color_type))
}

/// Encodes the pixels of `data` into `buf` without size validation; the
/// caller guarantees both buffers satisfy the size bounds.
pub fn encode_data_unchecked(
    data: &[u8],
    buf: &mut [u8],
    spec: &ImageSpec,
    color_type: ColorType,
) -> (written: usize)
    requires
        color_type.bytes_per_pixel() * spec_num_pixels(*spec) <= data@.len(),
        2 * spec_num_pixels(*spec) <= old(buf)@.len(),
    ensures
        written == 2 * spec_num_pixels(*spec),
        encode_range_ok(
            data@,
            0,
            old(buf)@,
            final(buf)@,
            0,
            spec.data_endian,
            color_type,
            0,
            spec_num_pixels(*spec),
        ),
{
    encode_logic(data, buf, 0, spec, color_type)
}

/// Encodes a whole Limg image — header then pixel region — into `buf`,
/// returning the total number of bytes written.
///
/// Validates the spec and both buffer sizes first; on any error the output
/// buffer is untouched.
pub fn encode(data: &[u8], buf: &mut [u8], spec: &ImageSpec, color_type: ColorType) -> (r: Result<
    usize,
    Error,
>)
    ensures
        ({
            let n = spec_num_pixels(*spec);
            let bpp = color_type.bytes_per_pixel();
            if n == 0 {
                r == Err::<usize, Error>(Error::ZeroImageDimensions) && final(buf)@ == old(buf)@
            } else if data@.len() < bpp * n {
                r == Err::<usize, Error>(Error::InputBufferTooSmall) && final(buf)@ == old(buf)@
            } else if old(buf)@.len() < HEADER_SIZE + 2 * n {
                r == Err::<usize, Error>(Error::OutputBufferTooSmall) && final(buf)@ == old(buf)@
            } else {
                r == Ok::<usize, Error>((HEADER_SIZE + 2 * n) as usize) && final(buf)@.len()
                    == old(buf)@.len() && (forall|j: int|
                    0 <= j < HEADER_SIZE ==> final(buf)@[j] == spec_header_bytes(*spec)[j]) && (
                forall|i: int|
                    0 <= i < n ==> encoded_pixel_ok(
                        data@,
                        0,
                        final(buf)@,
                        HEADER_SIZE as int,
                        spec.data_endian,
                        color_type,
                        i,
                    )) && (forall|j: int|
                    HEADER_SIZE + 2 * n <= j < old(buf)@.len() ==> final(buf)@[j] == old(buf)@[j])
            }
        }),
{
    let n = spec.num_pixels();
    if n == 0 {
        return Err(Error::ZeroImageDimensions);
    }
    proof {
        lemma_div_mul_bound(data@.len() as int, n as int, color_type.bytes_per_pixel() as int);
    }
    if data.len() / color_type.bytes_per_pixel() < n {
        return Err(Error::InputBufferTooSmall);
    }
    if buf.len() < HEADER_SIZE {
        return Err(Error::OutputBufferTooSmall);
    }
    proof {
        lemma_div_mul_bound(old(buf)@.len() - HEADER_SIZE, n as int, 2);
    }
    if (buf.len() - HEADER_SIZE) / 2 < n {
        return Err(Error::OutputBufferTooSmall);
    }
    Ok(encode_unchecked(data, buf, spec, color_type))
}

/// Encodes a whole Limg image without validation; the caller guarantees
/// both buffers satisfy the size bounds.
pub fn encode_unchecked(data: &[u8], buf: &mut [u8], spec: &ImageSpec, color_type: ColorType) -> (
    written: usize)
    requires
        color_type.bytes_per_pixel() * spec_num_pixels(*spec) <= data@.len(),
        HEADER_SIZE + 2 * spec_num_pixels(*spec) <= old(buf)@.len(),
    ensures
        written == HEADER_SIZE + 2 * spec_num_pixels(*spec),
        final(buf)@.len() == old(buf)@.len(),
        forall|j: int| 0 <= j < HEADER_SIZE ==> final(buf)@[j] == spec_header_bytes(*spec)[j],
        forall|i: int|
            0 <= i < spec_num_pixels(*spec) ==> encoded_pixel_ok(
                data@,
                0,
                final(buf)@,
                HEADER_SIZE as int,
                spec.data_endian,
                color_type,
                i,
            ),
        forall|j: int|
            HEADER_SIZE + 2 * spec_num_pixels(*spec) <= j < old(buf)@.len() ==> final(buf)@[j]
                == old(buf)@[j],
{
    let written = encode_header_unchecked(buf, spec);
    written + encode_logic(data, buf, HEADER_SIZE, spec, color_type)
}

} // verus!
