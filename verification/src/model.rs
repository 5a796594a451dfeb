//! The byte-level model of every conversion: which packed pixel a pair of
//! stream bytes encodes, which bytes a conversion must produce, and the
//! predicates that every engine's contract states.
//!
//! All engines — the scalar reference and the block-at-a-time bulk engines —
//! promise exactly the predicates below, so their outputs are byte-identical
//! by contract.

use vstd::prelude::*;

use crate::color::ColorType;
use crate::image_spec::DataEndian;
use crate::pixel::{
    spec_pixel_to_alpha, spec_pixel_to_blue, spec_pixel_to_green, spec_pixel_to_red,
    spec_rgb_to_pixel,
};

verus! {

/// Every slice's length fits a `usize`; stated over the view so that index
/// arithmetic bounded by `s@.len()` is known not to overflow.
pub broadcast proof fn lemma_slice_len_fits<T>(s: &[T])
    ensures
        #[trigger] s@.len() <= usize::MAX,
{
    vstd::slice::axiom_spec_len::<T>(s);
}

/// Comparing a buffer length against `b * n` pixels can overflow a `usize`,
/// while `len / b < n` cannot; the two tests agree.
pub proof fn lemma_div_mul_bound(len: int, n: int, b: int)
    by (nonlinear_arith)
    requires
        len >= 0,
        n >= 0,
        b >= 1,
    ensures
        (len / b < n) <==> (len < b * n),
{
}

/// The packed pixel held by two adjacent stream bytes in the given order.
pub open spec fn spec_pixel_from_bytes(b0: u8, b1: u8, e: DataEndian) -> u16 {
    match e {
        DataEndian::Big => ((b0 as u16) << 8) | (b1 as u16),
        DataEndian::Little => ((b1 as u16) << 8) | (b0 as u16),
    }
}

/// Byte `k` (0 or 1) of a packed pixel when stored in the given order.
pub open spec fn spec_pixel_byte(p: u16, e: DataEndian, k: int) -> u8 {
    match e {
        DataEndian::Big => if k == 0 {
            (p >> 8) as u8
        } else {
            (p & 0xFF) as u8
        },
        DataEndian::Little => if k == 0 {
            (p & 0xFF) as u8
        } else {
            (p >> 8) as u8
        },
    }
}

/// Pixel `i` of an encoded pixel stream that starts at byte `d0` of `data`.
pub open spec fn spec_stream_pixel(data: Seq<u8>, d0: int, e: DataEndian, i: int) -> u16 {
    spec_pixel_from_bytes(data[d0 + 2 * i], data[d0 + 2 * i + 1], e)
}

/// Pixel `i` of an in-memory pixel buffer that starts at byte `d0` of
/// `data`, packed to RGB565.
///
/// An RGB888 or RGBA8888 pixel is packed by channel truncation (the alpha
/// byte, if present, is discarded); an RGB565 pixel is read as a
/// little-endian `u16`, the in-memory order of packed pixels.
pub open spec fn spec_buffer_pixel(data: Seq<u8>, d0: int, color_type: ColorType, i: int) -> u16 {
    match color_type {
        ColorType::Rgb888 => spec_rgb_to_pixel(
            data[d0 + 3 * i],
            data[d0 + 3 * i + 1],
            data[d0 + 3 * i + 2],
        ),
        ColorType::Rgb565 => spec_pixel_from_bytes(
            data[d0 + 2 * i],
            data[d0 + 2 * i + 1],
            DataEndian::Little,
        ),
        ColorType::Rgba8888 => spec_rgb_to_pixel(
            data[d0 + 4 * i],
            data[d0 + 4 * i + 1],
            data[d0 + 4 * i + 2],
        ),
    }
}

/// The alpha byte synthesized under an optional transparent color key:
/// always opaque without a key.
pub open spec fn spec_alpha(p: u16, key: Option<u16>) -> u8 {
    match key {
        Some(k) => spec_pixel_to_alpha(p, k),
        None => 0xFF,
    }
}

/// Pixel `i` of `out` (a buffer whose pixel region starts at byte `o0`)
/// holds the decoded form of stream pixel `i` of `data` (starting at `d0`).
pub open spec fn decoded_pixel_ok(
    data: Seq<u8>,
    d0: int,
    out: Seq<u8>,
    o0: int,
    e: DataEndian,
    color_type: ColorType,
    key: Option<u16>,
    i: int,
) -> bool {
    let p = spec_stream_pixel(data, d0, e, i);
    match color_type {
        ColorType::Rgb888 => {
            &&& out[o0 + 3 * i] == spec_pixel_to_red(p)
            &&& out[o0 + 3 * i + 1] == spec_pixel_to_green(p)
            &&& out[o0 + 3 * i + 2] == spec_pixel_to_blue(p)
        },
        ColorType::Rgb565 => {
            &&& out[o0 + 2 * i] == spec_pixel_byte(p, DataEndian::Little, 0)
            &&& out[o0 + 2 * i + 1] == spec_pixel_byte(p, DataEndian::Little, 1)
        },
        ColorType::Rgba8888 => {
            &&& out[o0 + 4 * i] == spec_pixel_to_red(p)
            &&& out[o0 + 4 * i + 1] == spec_pixel_to_green(p)
            &&& out[o0 + 4 * i + 2] == spec_pixel_to_blue(p)
            &&& out[o0 + 4 * i + 3] == spec_alpha(p, key)
        },
    }
}

/// Pixel `i` of `out` (stream region starting at `o0`) holds the encoded
/// form of buffer pixel `i` of `data` (starting at `d0`).
pub open spec fn encoded_pixel_ok(
    data: Seq<u8>,
    d0: int,
    out: Seq<u8>,
    o0: int,
    e: DataEndian,
    color_type: ColorType,
    i: int,
) -> bool {
    let p = spec_buffer_pixel(data, d0, color_type, i);
    &&& out[o0 + 2 * i] == spec_pixel_byte(p, e, 0)
    &&& out[o0 + 2 * i + 1] == spec_pixel_byte(p, e, 1)
}

/// The whole effect of decoding pixels `lo..hi`: those output pixels are
/// correct and every byte outside their region is unchanged.
pub open spec fn decode_range_ok(
    data: Seq<u8>,
    d0: int,
    old_out: Seq<u8>,
    out: Seq<u8>,
    o0: int,
    e: DataEndian,
    color_type: ColorType,
    key: Option<u16>,
    lo: int,
    hi: int,
) -> bool {
    &&& out.len() == old_out.len()
    &&& forall|i: int| lo <= i < hi ==> decoded_pixel_ok(data, d0, out, o0, e, color_type, key, i)
    &&& forall|j: int|
        0 <= j < out.len() && !(o0 + lo * color_type.bytes_per_pixel() <= j < o0 + hi
            * color_type.bytes_per_pixel()) ==> out[j] == old_out[j]
}

/// The whole effect of encoding pixels `lo..hi`: those output pixels are
/// correct and every byte outside their region is unchanged.
pub open spec fn encode_range_ok(
    data: Seq<u8>,
    d0: int,
    old_out: Seq<u8>,
    out: Seq<u8>,
    o0: int,
    e: DataEndian,
    color_type: ColorType,
    lo: int,
    hi: int,
) -> bool {
    &&& out.len() == old_out.len()
    &&& forall|i: int| lo <= i < hi ==> encoded_pixel_ok(data, d0, out, o0, e, color_type, i)
    &&& forall|j: int|
        0 <= j < out.len() && !(o0 + 2 * lo <= j < o0 + 2 * hi) ==> out[j] == old_out[j]
}

/// Decoded pixels stay decoded when the bytes they occupy are unchanged:
/// carries `decoded_pixel_ok` for pixels `lo..hi` from `out1` to `out2`.
/// `bpp` is the byte stride of the color type, passed as a literal so the
/// byte-range bound stays linear at call sites.
pub proof fn lemma_decode_preserved(
    data: Seq<u8>,
    d0: int,
    out1: Seq<u8>,
    out2: Seq<u8>,
    o0: int,
    e: DataEndian,
    color_type: ColorType,
    key: Option<u16>,
    bpp: int,
    lo: int,
    hi: int,
)
    requires
        0 <= lo <= hi,
        bpp == color_type.bytes_per_pixel(),
        forall|i: int| lo <= i < hi ==> decoded_pixel_ok(data, d0, out1, o0, e, color_type, key, i),
        forall|j: int| o0 + lo * bpp <= j < o0 + hi * bpp ==> out2[j] == out1[j],
    ensures
        forall|i: int| lo <= i < hi ==> decoded_pixel_ok(data, d0, out2, o0, e, color_type, key, i),
{
    assert forall|i: int| lo <= i < hi implies decoded_pixel_ok(
        data,
        d0,
        out2,
        o0,
        e,
        color_type,
        key,
        i,
    ) by {
        assert(decoded_pixel_ok(data, d0, out1, o0, e, color_type, key, i));
        match color_type {
            ColorType::Rgb888 => {
                assert(out2[o0 + 3 * i] == out1[o0 + 3 * i]);
                assert(out2[o0 + 3 * i + 1] == out1[o0 + 3 * i + 1]);
                assert(out2[o0 + 3 * i + 2] == out1[o0 + 3 * i + 2]);
            },
            ColorType::Rgb565 => {
                assert(out2[o0 + 2 * i] == out1[o0 + 2 * i]);
                assert(out2[o0 + 2 * i + 1] == out1[o0 + 2 * i + 1]);
            },
            ColorType::Rgba8888 => {
                assert(out2[o0 + 4 * i] == out1[o0 + 4 * i]);
                assert(out2[o0 + 4 * i + 1] == out1[o0 + 4 * i + 1]);
                assert(out2[o0 + 4 * i + 2] == out1[o0 + 4 * i + 2]);
                assert(out2[o0 + 4 * i + 3] == out1[o0 + 4 * i + 3]);
            },
        }
    }
}

/// A transparent color key plays no part in decoding to RGB888 or RGB565:
/// pixels decoded correctly under no key are decoded correctly under any.
pub proof fn lemma_key_irrelevant_rgb(
    data: Seq<u8>,
    d0: int,
    out: Seq<u8>,
    o0: int,
    e: DataEndian,
    color_type: ColorType,
    key: Option<u16>,
    n: int,
)
    requires
        color_type != ColorType::Rgba8888,
        forall|i: int| 0 <= i < n ==> decoded_pixel_ok(data, d0, out, o0, e, color_type, None, i),
    ensures
        forall|i: int| 0 <= i < n ==> decoded_pixel_ok(data, d0, out, o0, e, color_type, key, i),
{
    assert forall|i: int| 0 <= i < n implies decoded_pixel_ok(
        data,
        d0,
        out,
        o0,
        e,
        color_type,
        key,
        i,
    ) by {
        assert(decoded_pixel_ok(data, d0, out, o0, e, color_type, None, i));
    }
}

/// Encoded pixels stay encoded when the bytes they occupy are unchanged:
/// carries `encoded_pixel_ok` for pixels `lo..hi` from `out1` to `out2`.
pub proof fn lemma_encode_preserved(
    data: Seq<u8>,
    d0: int,
    out1: Seq<u8>,
    out2: Seq<u8>,
    o0: int,
    e: DataEndian,
    color_type: ColorType,
    lo: int,
    hi: int,
)
    requires
        0 <= lo <= hi,
        forall|i: int| lo <= i < hi ==> encoded_pixel_ok(data, d0, out1, o0, e, color_type, i),
        forall|j: int| o0 + 2 * lo <= j < o0 + 2 * hi ==> out2[j] == out1[j],
    ensures
        forall|i: int| lo <= i < hi ==> encoded_pixel_ok(data, d0, out2, o0, e, color_type, i),
{
    assert forall|i: int| lo <= i < hi implies encoded_pixel_ok(
        data,
        d0,
        out2,
        o0,
        e,
        color_type,
        i,
    ) by {
        assert(encoded_pixel_ok(data, d0, out1, o0, e, color_type, i));
        assert(out2[o0 + 2 * i] == out1[o0 + 2 * i]);
        assert(out2[o0 + 2 * i + 1] == out1[o0 + 2 * i + 1]);
    }
}

} // verus!
