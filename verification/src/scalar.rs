//! The scalar reference engine: one pixel per step, each conversion proved
//! byte-exact against the model. Every bulk engine delegates its block
//! remainders and guard pixels to the range cores in this module, and is
//! held to the same contracts.

use vstd::prelude::*;

use crate::color::ColorType;
use crate::image_spec::DataEndian;
use crate::model::{
    decode_range_ok, decoded_pixel_ok, encode_range_ok, encoded_pixel_ok, lemma_decode_preserved,
    lemma_encode_preserved, spec_pixel_byte, spec_stream_pixel,
};
use crate::pixel::{pixel_to_alpha, pixel_to_rgb, rgb_to_pixel};

verus! {

broadcast use vstd::slice::group_slice_axioms, crate::model::lemma_slice_len_fits;

/// Reads stream pixel `i` (two bytes at `d0 + 2 * i`) in the given order.
fn read_stream_pixel(data: &[u8], d0: usize, e: DataEndian, i: usize) -> (p: u16)
    requires
        d0 + 2 * i + 2 <= data@.len(),
    ensures
        p == spec_stream_pixel(data@, d0 as int, e, i as int),
{
    let b0 = data[d0 + 2 * i];
    let b1 = data[d0 + 2 * i + 1];
    match e {
        DataEndian::Big => ((b0 as u16) << 8) | (b1 as u16),
        DataEndian::Little => ((b1 as u16) << 8) | (b0 as u16),
    }
}

/// Writes stream pixel `i` (two bytes at `o0 + 2 * i`) in the given order.
fn write_stream_pixel(buf: &mut [u8], o0: usize, e: DataEndian, i: usize, p: u16)
    requires
        o0 + 2 * i + 2 <= old(buf)@.len(),
    ensures
        final(buf)@.len() == old(buf)@.len(),
        final(buf)@[o0 + 2 * i] == spec_pixel_byte(p, e, 0),
        final(buf)@[o0 + 2 * i + 1] == spec_pixel_byte(p, e, 1),
        forall|j: int|
            0 <= j < old(buf)@.len() && !(o0 + 2 * i <= j < o0 + 2 * i + 2) ==> final(buf)@[j]
                == old(buf)@[j],
{
    match e {
        DataEndian::Big => {
            buf[o0 + 2 * i] = (p >> 8) as u8;
            buf[o0 + 2 * i + 1] = (p & 0xFF) as u8;
        },
        DataEndian::Little => {
            buf[o0 + 2 * i] = (p & 0xFF) as u8;
            buf[o0 + 2 * i + 1] = (p >> 8) as u8;
        },
    }
}

/// Decodes stream pixels `lo..hi` of `data` (stream at `d0`) into RGB888
/// pixels of `buf` (pixels at `o0`), one pixel per step.
#[verifier::loop_isolation(false)]
pub(crate) fn decode_rgb888_range(
    data: &[u8],
    d0: usize,
    buf: &mut [u8],
    o0: usize,
    e: DataEndian,
    key: Ghost<Option<u16>>,
    lo: usize,
    hi: usize,
)
    requires
        lo <= hi,
        d0 + 2 * hi <= data@.len(),
        o0 + 3 * hi <= old(buf)@.len(),
    ensures
        decode_range_ok(
            data@,
            d0 as int,
            old(buf)@,
            final(buf)@,
            o0 as int,
            e,
            ColorType::Rgb888,
            key@,
            lo as int,
            hi as int,
        ),
{
    let mut i = lo;
    while i < hi
        invariant
            lo <= i <= hi,
            buf@.len() == old(buf)@.len(),
            forall|k: int|
                lo <= k < i ==> decoded_pixel_ok(
                    data@,
                    d0 as int,
                    buf@,
                    o0 as int,
                    e,
                    ColorType::Rgb888,
                    key@,
                    k,
                ),
            forall|j: int|
                0 <= j < buf@.len() && !(o0 + 3 * lo <= j < o0 + 3 * i) ==> buf@[j] == old(
                    buf,
                )@[j],
        decreases hi - i,
    {
        let ghost prev = buf@;
        let p = read_stream_pixel(data, d0, e, i);
        let rgb = pixel_to_rgb(p);
        buf[o0 + 3 * i] = rgb[0];
        buf[o0 + 3 * i + 1] = rgb[1];
        buf[o0 + 3 * i + 2] = rgb[2];
        proof {
            lemma_decode_preserved(
                data@,
                d0 as int,
                prev,
                buf@,
                o0 as int,
                e,
                ColorType::Rgb888,
                key@,
                3,
                lo as int,
                i as int,
            );
        }
        i += 1;
    }
}

/// Decodes stream pixels `lo..hi` into RGB565 pixels (little-endian `u16`s)
/// of `buf`, one pixel per step.
#[verifier::loop_isolation(false)]
pub(crate) fn decode_rgb565_range(
    data: &[u8],
    d0: usize,
    buf: &mut [u8],
    o0: usize,
    e: DataEndian,
    key: Ghost<Option<u16>>,
    lo: usize,
    hi: usize,
)
    requires
        lo <= hi,
        d0 + 2 * hi <= data@.len(),
        o0 + 2 * hi <= old(buf)@.len(),
    ensures
        decode_range_ok(
            data@,
            d0 as int,
            old(buf)@,
            final(buf)@,
            o0 as int,
            e,
            ColorType::Rgb565,
            key@,
            lo as int,
            hi as int,
        ),
{
    let mut i = lo;
    while i < hi
        invariant
            lo <= i <= hi,
            buf@.len() == old(buf)@.len(),
            forall|k: int|
                lo <= k < i ==> decoded_pixel_ok(
                    data@,
                    d0 as int,
                    buf@,
                    o0 as int,
                    e,
                    ColorType::Rgb565,
                    key@,
                    k,
                ),
            forall|j: int|
                0 <= j < buf@.len() && !(o0 + 2 * lo <= j < o0 + 2 * i) ==> buf@[j] == old(
                    buf,
                )@[j],
        decreases hi - i,
    {
        let ghost prev = buf@;
        let p = read_stream_pixel(data, d0, e, i);
        write_stream_pixel(buf, o0, DataEndian::Little, i, p);
        proof {
            lemma_decode_preserved(
                data@,
                d0 as int,
                prev,
                buf@,
                o0 as int,
                e,
                ColorType::Rgb565,
                key@,
                2,
                lo as int,
                i as int,
            );
        }
        i += 1;
    }
}

/// Decodes stream pixels `lo..hi` into RGBA8888 pixels of `buf`, with alpha
/// synthesized against the optional transparent color key.
#[verifier::loop_isolation(false)]
pub(crate) fn decode_rgba8888_range(
    data: &[u8],
    d0: usize,
    buf: &mut [u8],
    o0: usize,
    e: DataEndian,
    key: Option<u16>,
    lo: usize,
    hi: usize,
)
    requires
        lo <= hi,
        d0 + 2 * hi <= data@.len(),
        o0 + 4 * hi <= old(buf)@.len(),
    ensures
        decode_range_ok(
            data@,
            d0 as int,
            old(buf)@,
            final(buf)@,
            o0 as int,
            e,
            ColorType::Rgba8888,
            key,
            lo as int,
            hi as int,
        ),
{
    let mut i = lo;
    while i < hi
        invariant
            lo <= i <= hi,
            buf@.len() == old(buf)@.len(),
            forall|k: int|
                lo <= k < i ==> decoded_pixel_ok(
                    data@,
                    d0 as int,
                    buf@,
                    o0 as int,
                    e,
                    ColorType::Rgba8888,
                    key,
                    k,
                ),
            forall|j: int|
                0 <= j < buf@.len() && !(o0 + 4 * lo <= j < o0 + 4 * i) ==> buf@[j] == old(
                    buf,
                )@[j],
        decreases hi - i,
    {
        let ghost prev = buf@;
        let p = read_stream_pixel(data, d0, e, i);
        let rgb = pixel_to_rgb(p);
        let a: u8 = match key {
            Some(k) => pixel_to_alpha(p, k),
            None => 0xFF,
        };
        buf[o0 + 4 * i] = rgb[0];
        buf[o0 + 4 * i + 1] = rgb[1];
        buf[o0 + 4 * i + 2] = rgb[2];
        buf[o0 + 4 * i + 3] = a;
        proof {
            lemma_decode_preserved(
                data@,
                d0 as int,
                prev,
                buf@,
                o0 as int,
                e,
                ColorType::Rgba8888,
                key,
                4,
                lo as int,
                i as int,
            );
        }
        i += 1;
    }
    proof {
        assert(buf@.len() == old(buf)@.len());
        assert(forall|k: int|
            lo <= k < hi ==> decoded_pixel_ok(
                data@,
                d0 as int,
                buf@,
                o0 as int,
                e,
                ColorType::Rgba8888,
                key,
                k,
            ));
        assert(forall|j: int|
            0 <= j < buf@.len() && !(o0 + lo * ColorType::Rgba8888.bytes_per_pixel() <= j < o0
                + hi * ColorType::Rgba8888.bytes_per_pixel()) ==> buf@[j] == old(buf)@[j]);
    }
}

/// Encodes buffer pixels `lo..hi` of `data` (RGB888 pixels at `d0`) into
/// stream pixels of `buf` (stream at `o0`), one pixel per step.
#[verifier::loop_isolation(false)]
pub(crate) fn encode_rgb888_range(
    data: &[u8],
    d0: usize,
    buf: &mut [u8],
    o0: usize,
    e: DataEndian,
    lo: usize,
    hi: usize,
)
    requires
        lo <= hi,
        d0 + 3 * hi <= data@.len(),
        o0 + 2 * hi <= old(buf)@.len(),
    ensures
        encode_range_ok(
            data@,
            d0 as int,
            old(buf)@,
            final(buf)@,
            o0 as int,
            e,
            ColorType::Rgb888,
            lo as int,
            hi as int,
        ),
{
    let mut i = lo;
    while i < hi
        invariant
            lo <= i <= hi,
            buf@.len() == old(buf)@.len(),
            forall|k: int|
                lo <= k < i ==> encoded_pixel_ok(
                    data@,
                    d0 as int,
                    buf@,
                    o0 as int,
                    e,
                    ColorType::Rgb888,
                    k,
                ),
            forall|j: int|
                0 <= j < buf@.len() && !(o0 + 2 * lo <= j < o0 + 2 * i) ==> buf@[j] == old(
                    buf,
                )@[j],
        decreases hi - i,
    {
        let ghost prev = buf@;
        let p = rgb_to_pixel([data[d0 + 3 * i], data[d0 + 3 * i + 1], data[d0 + 3 * i + 2]]);
        write_stream_pixel(buf, o0, e, i, p);
        proof {
            lemma_encode_preserved(
                data@,
                d0 as int,
                prev,
                buf@,
                o0 as int,
                e,
                ColorType::Rgb888,
                lo as int,
                i as int,
            );
        }
        i += 1;
    }
}

/// Encodes buffer pixels `lo..hi` of `data` (RGB565 pixels at `d0`) into
/// stream pixels of `buf`, one pixel per step.
#[verifier::loop_isolation(false)]
pub(crate) fn encode_rgb565_range(
    data: &[u8],
    d0: usize,
    buf: &mut [u8],
    o0: usize,
    e: DataEndian,
    lo: usize,
    hi: usize,
)
    requires
        lo <= hi,
        d0 + 2 * hi <= data@.len(),
        o0 + 2 * hi <= old(buf)@.len(),
    ensures
        encode_range_ok(
            data@,
            d0 as int,
            old(buf)@,
            final(buf)@,
            o0 as int,
            e,
            ColorType::Rgb565,
            lo as int,
            hi as int,
        ),
{
    let mut i = lo;
    while i < hi
        invariant
            lo <= i <= hi,
            buf@.len() == old(buf)@.len(),
            forall|k: int|
                lo <= k < i ==> encoded_pixel_ok(
                    data@,
                    d0 as int,
                    buf@,
                    o0 as int,
                    e,
                    ColorType::Rgb565,
                    k,
                ),
            forall|j: int|
                0 <= j < buf@.len() && !(o0 + 2 * lo <= j < o0 + 2 * i) ==> buf@[j] == old(
                    buf,
                )@[j],
        decreases hi - i,
    {
        let ghost prev = buf@;
        let p = read_stream_pixel(data, d0, DataEndian::Little, i);
        write_stream_pixel(buf, o0, e, i, p);
        proof {
            lemma_encode_preserved(
                data@,
                d0 as int,
                prev,
                buf@,
                o0 as int,
                e,
                ColorType::Rgb565,
                lo as int,
                i as int,
            );
        }
        i += 1;
    }
}

/// Encodes buffer pixels `lo..hi` of `data` (RGBA8888 pixels at `d0`) into
/// stream pixels of `buf`, one pixel per step. The alpha byte is discarded.
#[verifier::loop_isolation(false)]
pub(crate) fn encode_rgba8888_range(
    data: &[u8],
    d0: usize,
    buf: &mut [u8],
    o0: usize,
    e: DataEndian,
    lo: usize,
    hi: usize,
)
    requires
        lo <= hi,
        d0 + 4 * hi <= data@.len(),
        o0 + 2 * hi <= old(buf)@.len(),
    ensures
        encode_range_ok(
            data@,
            d0 as int,
            old(buf)@,
            final(buf)@,
            o0 as int,
            e,
            ColorType::Rgba8888,
            lo as int,
            hi as int,
        ),
{
    let mut i = lo;
    while i < hi
        invariant
            lo <= i <= hi,
            buf@.len() == old(buf)@.len(),
            forall|k: int|
                lo <= k < i ==> encoded_pixel_ok(
                    data@,
                    d0 as int,
                    buf@,
                    o0 as int,
                    e,
                    ColorType::Rgba8888,
                    k,
                ),
            forall|j: int|
                0 <= j < buf@.len() && !(o0 + 2 * lo <= j < o0 + 2 * i) ==> buf@[j] == old(
                    buf,
                )@[j],
        decreases hi - i,
    {
        let ghost prev = buf@;
        let p = rgb_to_pixel([data[d0 + 4 * i], data[d0 + 4 * i + 1], data[d0 + 4 * i + 2]]);
        write_stream_pixel(buf, o0, e, i, p);
        proof {
            lemma_encode_preserved(
                data@,
                d0 as int,
                prev,
                buf@,
                o0 as int,
                e,
                ColorType::Rgba8888,
                lo as int,
                i as int,
            );
        }
        i += 1;
    }
}

/// Decodes `num_pixels` stream pixels into RGB888 pixels.
pub fn decode_to_rgb888(data: &[u8], buf: &mut [u8], num_pixels: usize, e: DataEndian)
    requires
        2 * num_pixels <= data@.len(),
        3 * num_pixels <= old(buf)@.len(),
    ensures
        decode_range_ok(
            data@,
            0,
            old(buf)@,
            final(buf)@,
            0,
            e,
            ColorType::Rgb888,
            None,
            0,
            num_pixels as int,
        ),
{
    decode_rgb888_range(data, 0, buf, 0, e, Ghost(None), 0, num_pixels);
}

/// Decodes `num_pixels` stream pixels into RGB565 pixels (little-endian
/// `u16`s in memory).
pub fn decode_to_rgb565(data: &[u8], buf: &mut [u8], num_pixels: usize, e: DataEndian)
    requires
        2 * num_pixels <= data@.len(),
        2 * num_pixels <= old(buf)@.len(),
    ensures
        decode_range_ok(
            data@,
            0,
            old(buf)@,
            final(buf)@,
            0,
            e,
            ColorType::Rgb565,
            None,
            0,
            num_pixels as int,
        ),
{
    decode_rgb565_range(data, 0, buf, 0, e, Ghost(None), 0, num_pixels);
}

/// Decodes `num_pixels` stream pixels into fully opaque RGBA8888 pixels.
pub fn decode_to_rgba8888(data: &[u8], buf: &mut [u8], num_pixels: usize, e: DataEndian)
    requires
        2 * num_pixels <= data@.len(),
        4 * num_pixels <= old(buf)@.len(),
    ensures
        decode_range_ok(
            data@,
            0,
            old(buf)@,
            final(buf)@,
            0,
            e,
            ColorType::Rgba8888,
            None,
            0,
            num_pixels as int,
        ),
{
    decode_rgba8888_range(data, 0, buf, 0, e, None, 0, num_pixels);
}

/// Decodes `num_pixels` stream pixels into RGBA8888 pixels, with alpha zero
/// exactly where the packed pixel equals `transparent_color`.
pub fn decode_to_rgba8888_alpha(
    data: &[u8],
    buf: &mut [u8],
    transparent_color: u16,
    num_pixels: usize,
    e: DataEndian,
)
    requires
        2 * num_pixels <= data@.len(),
        4 * num_pixels <= old(buf)@.len(),
    ensures
        decode_range_ok(
            data@,
            0,
            old(buf)@,
            final(buf)@,
            0,
            e,
            ColorType::Rgba8888,
            Some(transparent_color),
            0,
            num_pixels as int,
        ),
{
    decode_rgba8888_range(data, 0, buf, 0, e, Some(transparent_color), 0, num_pixels);
}

/// Encodes `num_pixels` RGB888 pixels into the stream.
pub fn encode_from_rgb888(data: &[u8], buf: &mut [u8], num_pixels: usize, e: DataEndian)
    requires
        3 * num_pixels <= data@.len(),
        2 * num_pixels <= old(buf)@.len(),
    ensures
        encode_range_ok(
            data@,
            0,
            old(buf)@,
            final(buf)@,
            0,
            e,
            ColorType::Rgb888,
            0,
            num_pixels as int,
        ),
{
    encode_rgb888_range(data, 0, buf, 0, e, 0, num_pixels);
}

/// Encodes `num_pixels` RGB565 pixels into the stream.
pub fn encode_from_rgb565(data: &[u8], buf: &mut [u8], num_pixels: usize, e: DataEndian)
    requires
        2 * num_pixels <= data@.len(),
        2 * num_pixels <= old(buf)@.len(),
    ensures
        encode_range_ok(
            data@,
            0,
            old(buf)@,
            final(buf)@,
            0,
            e,
            ColorType::Rgb565,
            0,
            num_pixels as int,
        ),
{
    encode_rgb565_range(data, 0, buf, 0, e, 0, num_pixels);
}

/// Encodes `num_pixels` RGBA8888 pixels into the stream, discarding alpha.
pub fn encode_from_rgba8888(data: &[u8], buf: &mut [u8], num_pixels: usize, e: DataEndian)
    requires
        4 * num_pixels <= data@.len(),
        2 * num_pixels <= old(buf)@.len(),
    ensures
        encode_range_ok(
            data@,
            0,
            old(buf)@,
            final(buf)@,
            0,
            e,
            ColorType::Rgba8888,
            0,
            num_pixels as int,
        ),
{
    encode_rgba8888_range(data, 0, buf, 0, e, 0, num_pixels);
}

} // verus!
