//! The 256-bit bulk engine: sixteen pixels per block on the lanes of
//! `M256I`, proved byte-identical to the scalar reference. The RGB888
//! conversions keep a two-pixel guard at each end of the buffer, processed
//! scalar first, so the wide path runs strictly inside the guarded region;
//! with exact-width stores the in-bounds argument is discharged by proof
//! rather than by margin, but the split is kept so every engine divides the
//! work the same way. Remainders below one block go to the scalar cores.

use vstd::prelude::*;

use crate::color::ColorType;
use crate::image_spec::DataEndian;
use crate::lanes::{
    spec_endian16, spec_lane_eq, lemma_alpha_lanes, lemma_decode_channels, lemma_encode_channels,
    lemma_load_endian, lemma_store_endian, store_rgb888_lanes, store_rgba8888_lanes, M256I,
};
use crate::model::{
    decode_range_ok, decoded_pixel_ok, encode_range_ok, encoded_pixel_ok, lemma_decode_preserved,
    lemma_encode_preserved, spec_stream_pixel,
};
use crate::pixel::{PIXEL_B_MASK, PIXEL_G_MASK, PIXEL_R_MASK};
use crate::scalar;

verus! {

broadcast use vstd::group_vstd_default, crate::model::lemma_slice_len_fits;

/// Pixels per block: sixteen 16-bit lanes fill one 256-bit register.
pub const PIXEL_BLOCK_LEN: usize = 16;

/// Guard pixels processed scalar at each end of an RGB888 conversion.
pub const GUARD_PIXELS: usize = 2;

/// Establishes that `16 * (n / 16) <= n` with the leftover below one block.
proof fn lemma_block_split16(n: int)
    requires
        n >= 0,
    ensures
        16 * (n / 16) <= n,
        n - 16 * (n / 16) < 16,
{
    vstd::arithmetic::div_mod::lemma_fundamental_div_mod(n, 16);
    vstd::arithmetic::div_mod::lemma_mod_bound(n, 16);
}

/// Separates a block of packed pixels into widened R, G and B lane vectors:
/// mask out each field, shift it down, and replicate its bits.
fn get_rgb_vec(pixel: M256I) -> (rgb: (M256I, M256I, M256I))
    ensures
        forall|i: int|
            0 <= i < 16 ==> rgb.0.lanes@[i] == ((((pixel.lanes@[i] & PIXEL_R_MASK) >> 11) << 3) | (((
            pixel.lanes@[i] & PIXEL_R_MASK) >> 11) >> 2)),
        forall|i: int|
            0 <= i < 16 ==> rgb.1.lanes@[i] == ((((pixel.lanes@[i] & PIXEL_G_MASK) >> 5) << 2) | (((
            pixel.lanes@[i] & PIXEL_G_MASK) >> 5) >> 4)),
        forall|i: int|
            0 <= i < 16 ==> rgb.2.lanes@[i] == (((pixel.lanes@[i] & PIXEL_B_MASK) << 3) | ((
            pixel.lanes@[i] & PIXEL_B_MASK) >> 2)),
{
    let r_vec = pixel.and_si256(M256I::set1_epi16(PIXEL_R_MASK)).srli_epi16(11);
    let g_vec = pixel.and_si256(M256I::set1_epi16(PIXEL_G_MASK)).srli_epi16(5);
    let b_vec = pixel.and_si256(M256I::set1_epi16(PIXEL_B_MASK));
    (
        r_vec.slli_epi16(3).or_si256(r_vec.srli_epi16(2)),
        g_vec.slli_epi16(2).or_si256(g_vec.srli_epi16(4)),
        b_vec.slli_epi16(3).or_si256(b_vec.srli_epi16(2)),
    )
}

/// Decodes `num_pixels` stream pixels into RGB565 pixels, sixteen per block:
/// a lane reorder when the stream is big-endian, a straight copy when it is
/// already little-endian.
#[verifier::loop_isolation(false)]
pub fn decode_to_rgb565(data: &[u8], d0: usize, buf: &mut [u8], num_pixels: usize, e: DataEndian)
    requires
        d0 + 2 * num_pixels <= data@.len(),
        2 * num_pixels <= old(buf)@.len(),
    ensures
        decode_range_ok(
            data@,
            d0 as int,
            old(buf)@,
            final(buf)@,
            0,
            e,
            ColorType::Rgb565,
            None,
            0,
            num_pixels as int,
        ),
{
    let blocks = num_pixels / PIXEL_BLOCK_LEN;
    proof {
        lemma_block_split16(num_pixels as int);
    }
    let mut b: usize = 0;
    while b < blocks
        invariant
            b <= blocks,
            16 * blocks <= num_pixels,
            buf@.len() == old(buf)@.len(),
            forall|k: int|
                0 <= k < 16 * b ==> decoded_pixel_ok(
                    data@,
                    d0 as int,
                    buf@,
                    0,
                    e,
                    ColorType::Rgb565,
                    None,
                    k,
                ),
            forall|j: int|
                0 <= j < buf@.len() && !(0 <= j < 32 * b) ==> buf@[j] == old(buf)@[j],
        decreases blocks - b,
    {
        let ghost prev = buf@;
        let raw = M256I::loadu_si256(data, d0 + 32 * b);
        let pix = raw.endian_epi16(e);
        pix.storeu_si256(buf, 32 * b);
        proof {
            assert forall|k: int| 16 * (b as int) <= k < 16 * (b as int) + 16 implies decoded_pixel_ok(
                data@,
                d0 as int,
                buf@,
                0,
                e,
                ColorType::Rgb565,
                None,
                k,
            ) by {
                let i = k - 16 * (b as int);
                lemma_load_endian(data@[d0 + 32 * (b as int) + 2 * i], data@[d0 + 32 * (b as int) + 2 * i + 1], e);
                assert(pix.lanes@[i] == spec_endian16(raw.lanes@[i], e));
                assert(pix.lanes@[i] == spec_stream_pixel(data@, d0 as int, e, k));
                assert(buf@[32 * (b as int) + 2 * i] == (pix.lanes@[i] & 0xFF) as u8);
                assert(buf@[32 * (b as int) + 2 * i + 1] == (pix.lanes@[i] >> 8) as u8);
            }
            lemma_decode_preserved(
                data@,
                d0 as int,
                prev,
                buf@,
                0,
                e,
                ColorType::Rgb565,
                None,
                2,
                0,
                16 * (b as int),
            );
        }
        b += 1;
    }
    let done = PIXEL_BLOCK_LEN * blocks;
    let ghost mid = buf@;
    scalar::decode_rgb565_range(data, d0, buf, 0, e, Ghost(None), done, num_pixels);
    proof {
        lemma_decode_preserved(
            data@,
            d0 as int,
            mid,
            buf@,
            0,
            e,
            ColorType::Rgb565,
            None,
            2,
            0,
            done as int,
        );
        assert(forall|j: int|
            0 <= j < buf@.len() && !(0 <= j < 2 * (num_pixels as int)) ==> buf@[j] == old(buf)@[j]);
    }
}

/// Decodes `num_pixels` stream pixels into RGBA8888 pixels, sixteen per
/// block, synthesizing alpha against the optional key in the same pass.
#[verifier::loop_isolation(false)]
fn decode_rgba8888_blocks(
    data: &[u8],
    d0: usize,
    buf: &mut [u8],
    key: Option<u16>,
    num_pixels: usize,
    e: DataEndian,
)
    requires
        d0 + 2 * num_pixels <= data@.len(),
        4 * num_pixels <= old(buf)@.len(),
    ensures
        decode_range_ok(
            data@,
            d0 as int,
            old(buf)@,
            final(buf)@,
            0,
            e,
            ColorType::Rgba8888,
            key,
            0,
            num_pixels as int,
        ),
{
    let blocks = num_pixels / PIXEL_BLOCK_LEN;
    proof {
        lemma_block_split16(num_pixels as int);
    }
    let mut b: usize = 0;
    while b < blocks
        invariant
            b <= blocks,
            16 * blocks <= num_pixels,
            buf@.len() == old(buf)@.len(),
            forall|k: int|
                0 <= k < 16 * b ==> decoded_pixel_ok(
                    data@,
                    d0 as int,
                    buf@,
                    0,
                    e,
                    ColorType::Rgba8888,
                    key,
                    k,
                ),
            forall|j: int|
                0 <= j < buf@.len() && !(0 <= j < 64 * b) ==> buf@[j] == old(buf)@[j],
        decreases blocks - b,
    {
        let ghost prev = buf@;
        let raw = M256I::loadu_si256(data, d0 + 32 * b);
        let pix = raw.endian_epi16(e);
        let av = match key {
            Some(kc) => pix.cmpeq_epi16(M256I::set1_epi16(kc)).not_si256().srli_epi16(8),
            None => M256I::set1_epi16(0xFF),
        };
        let (rv, gv, bv) = get_rgb_vec(pix);
        store_rgba8888_lanes::<16>(&rv.lanes, &gv.lanes, &bv.lanes, &av.lanes, buf, 64 * b);
        proof {
            assert forall|k: int| 16 * (b as int) <= k < 16 * (b as int) + 16 implies decoded_pixel_ok(
                data@,
                d0 as int,
                buf@,
                0,
                e,
                ColorType::Rgba8888,
                key,
                k,
            ) by {
                let i = k - 16 * (b as int);
                lemma_load_endian(data@[d0 + 32 * (b as int) + 2 * i], data@[d0 + 32 * (b as int) + 2 * i + 1], e);
                assert(pix.lanes@[i] == spec_endian16(raw.lanes@[i], e));
                let p = spec_stream_pixel(data@, d0 as int, e, k);
                assert(pix.lanes@[i] == p);
                assert(rv.lanes@[i] == ((((pix.lanes@[i] & PIXEL_R_MASK) >> 11) << 3) | (((
                pix.lanes@[i] & PIXEL_R_MASK) >> 11) >> 2)));
                assert(gv.lanes@[i] == ((((pix.lanes@[i] & PIXEL_G_MASK) >> 5) << 2) | (((
                pix.lanes@[i] & PIXEL_G_MASK) >> 5) >> 4)));
                assert(bv.lanes@[i] == (((pix.lanes@[i] & PIXEL_B_MASK) << 3) | ((pix.lanes@[i]
                    & PIXEL_B_MASK) >> 2)));
                assert(buf@[64 * (b as int) + 4 * i] == (rv.lanes@[i] & 0xFF) as u8);
                assert(buf@[64 * (b as int) + 4 * i + 1] == (gv.lanes@[i] & 0xFF) as u8);
                assert(buf@[64 * (b as int) + 4 * i + 2] == (bv.lanes@[i] & 0xFF) as u8);
                assert(buf@[64 * (b as int) + 4 * i + 3] == (av.lanes@[i] & 0xFF) as u8);
                lemma_decode_channels(p);
                match key {
                    Some(kc) => {
                        assert(av.lanes@[i] == ((!spec_lane_eq(pix.lanes@[i], kc)) >> 8));
                        lemma_alpha_lanes(p, kc);
                    },
                    None => {
                        assert(av.lanes@[i] == 0xFF);
                        lemma_alpha_lanes(p, 0);
                    },
                }
            }
            lemma_decode_preserved(
                data@,
                d0 as int,
                prev,
                buf@,
                0,
                e,
                ColorType::Rgba8888,
                key,
                4,
                0,
                16 * (b as int),
            );
        }
        b += 1;
    }
    let done = PIXEL_BLOCK_LEN * blocks;
    let ghost mid = buf@;
    scalar::decode_rgba8888_range(data, d0, buf, 0, e, key, done, num_pixels);
    proof {
        lemma_decode_preserved(
            data@,
            d0 as int,
            mid,
            buf@,
            0,
            e,
            ColorType::Rgba8888,
            key,
            4,
            0,
            done as int,
        );
        assert(forall|j: int|
            0 <= j < buf@.len() && !(0 <= j < 4 * (num_pixels as int)) ==> buf@[j] == old(buf)@[j]);
    }
}

/// Decodes `num_pixels` stream pixels into fully opaque RGBA8888 pixels.
pub fn decode_to_rgba8888(data: &[u8], d0: usize, buf: &mut [u8], num_pixels: usize, e: DataEndian)
    requires
        d0 + 2 * num_pixels <= data@.len(),
        4 * num_pixels <= old(buf)@.len(),
    ensures
        decode_range_ok(
            data@,
            d0 as int,
            old(buf)@,
            final(buf)@,
            0,
            e,
            ColorType::Rgba8888,
            None,
            0,
            num_pixels as int,
        ),
{
    decode_rgba8888_blocks(data, d0, buf, None, num_pixels, e);
}

/// Decodes `num_pixels` stream pixels into RGBA8888 pixels with color-key
/// alpha.
pub fn decode_to_rgba8888_alpha(
    data: &[u8],
    d0: usize,
    buf: &mut [u8],
    transparent_color: u16,
    num_pixels: usize,
    e: DataEndian,
)
    requires
        d0 + 2 * num_pixels <= data@.len(),
        4 * num_pixels <= old(buf)@.len(),
    ensures
        decode_range_ok(
            data@,
            d0 as int,
            old(buf)@,
            final(buf)@,
            0,
            e,
            ColorType::Rgba8888,
            Some(transparent_color),
            0,
            num_pixels as int,
        ),
{
    decode_rgba8888_blocks(data, d0, buf, Some(transparent_color), num_pixels, e);
}

/// Encodes `num_pixels` RGB565 pixels into the stream, sixteen per block: a
/// lane reorder when the stream is big-endian, a straight copy otherwise.
#[verifier::loop_isolation(false)]
pub fn encode_from_rgb565(data: &[u8], buf: &mut [u8], o0: usize, num_pixels: usize, e: DataEndian)
    requires
        2 * num_pixels <= data@.len(),
        o0 + 2 * num_pixels <= old(buf)@.len(),
    ensures
        encode_range_ok(
            data@,
            0,
            old(buf)@,
            final(buf)@,
            o0 as int,
            e,
            ColorType::Rgb565,
            0,
            num_pixels as int,
        ),
{
    let blocks = num_pixels / PIXEL_BLOCK_LEN;
    proof {
        lemma_block_split16(num_pixels as int);
    }
    let mut b: usize = 0;
    while b < blocks
        invariant
            b <= blocks,
            16 * blocks <= num_pixels,
            buf@.len() == old(buf)@.len(),
            forall|k: int|
                0 <= k < 16 * b ==> encoded_pixel_ok(data@, 0, buf@, o0 as int, e, ColorType::Rgb565, k),
            forall|j: int|
                0 <= j < buf@.len() && !(o0 <= j < o0 + 32 * b) ==> buf@[j] == old(buf)@[j],
        decreases blocks - b,
    {
        let ghost prev = buf@;
        let pix = M256I::loadu_si256(data, 32 * b);
        let out = pix.endian_epi16(e);
        out.storeu_si256(buf, o0 + 32 * b);
        proof {
            assert forall|k: int| 16 * (b as int) <= k < 16 * (b as int) + 16 implies encoded_pixel_ok(
                data@,
                0,
                buf@,
                o0 as int,
                e,
                ColorType::Rgb565,
                k,
            ) by {
                let i = k - 16 * (b as int);
                assert(pix.lanes@[i] == crate::model::spec_buffer_pixel(
                    data@,
                    0,
                    ColorType::Rgb565,
                    k,
                ));
                assert(out.lanes@[i] == spec_endian16(pix.lanes@[i], e));
                assert(buf@[o0 + 32 * (b as int) + 2 * i] == (out.lanes@[i] & 0xFF) as u8);
                assert(buf@[o0 + 32 * (b as int) + 2 * i + 1] == (out.lanes@[i] >> 8) as u8);
                lemma_store_endian(
                    crate::model::spec_buffer_pixel(data@, 0, ColorType::Rgb565, k),
                    e,
                );
            }
            lemma_encode_preserved(
                data@,
                0,
                prev,
                buf@,
                o0 as int,
                e,
                ColorType::Rgb565,
                0,
                16 * (b as int),
            );
        }
        b += 1;
    }
    let done = PIXEL_BLOCK_LEN * blocks;
    let ghost mid = buf@;
    scalar::encode_rgb565_range(data, 0, buf, o0, e, done, num_pixels);
    proof {
        lemma_encode_preserved(data@, 0, mid, buf@, o0 as int, e, ColorType::Rgb565, 0, done as int);
        assert(forall|j: int|
            0 <= j < buf@.len() && !(o0 <= j < o0 + 2 * (num_pixels as int)) ==> buf@[j] == old(buf)@[j]);
    }
}

/// Encodes `num_pixels` RGBA8888 pixels into the stream, sixteen per block;
/// the alpha byte is never read.
#[verifier::loop_isolation(false)]
pub fn encode_from_rgba8888(data: &[u8], buf: &mut [u8], o0: usize, num_pixels: usize, e: DataEndian)
    requires
        4 * num_pixels <= data@.len(),
        o0 + 2 * num_pixels <= old(buf)@.len(),
    ensures
        encode_range_ok(
            data@,
            0,
            old(buf)@,
            final(buf)@,
            o0 as int,
            e,
            ColorType::Rgba8888,
            0,
            num_pixels as int,
        ),
{
    let blocks = num_pixels / PIXEL_BLOCK_LEN;
    proof {
        lemma_block_split16(num_pixels as int);
    }
    let mut b: usize = 0;
    while b < blocks
        invariant
            b <= blocks,
            16 * blocks <= num_pixels,
            buf@.len() == old(buf)@.len(),
            forall|k: int|
                0 <= k < 16 * b ==> encoded_pixel_ok(data@, 0, buf@, o0 as int, e, ColorType::Rgba8888, k),
            forall|j: int|
                0 <= j < buf@.len() && !(o0 <= j < o0 + 32 * b) ==> buf@[j] == old(buf)@[j],
        decreases blocks - b,
    {
        let ghost prev = buf@;
        let rv = M256I::gather_epi16(data, 64 * b, 4, 0);
        let gv = M256I::gather_epi16(data, 64 * b, 4, 1);
        let bv = M256I::gather_epi16(data, 64 * b, 4, 2);
        let pix = rv.srli_epi16(3).slli_epi16(11).or_si256(gv.srli_epi16(2).slli_epi16(5)).or_si256(
            bv.srli_epi16(3),
        );
        let out = pix.endian_epi16(e);
        out.storeu_si256(buf, o0 + 32 * b);
        proof {
            assert forall|k: int| 16 * (b as int) <= k < 16 * (b as int) + 16 implies encoded_pixel_ok(
                data@,
                0,
                buf@,
                o0 as int,
                e,
                ColorType::Rgba8888,
                k,
            ) by {
                let i = k - 16 * (b as int);
                assert(rv.lanes@[i] == data@[64 * (b as int) + 4 * i] as u16);
                assert(gv.lanes@[i] == data@[64 * (b as int) + 4 * i + 1] as u16);
                assert(bv.lanes@[i] == data@[64 * (b as int) + 4 * i + 2] as u16);
                assert(pix.lanes@[i] == ((((rv.lanes@[i] >> 3) << 11) | ((gv.lanes@[i] >> 2)
                    << 5)) | (bv.lanes@[i] >> 3)));
                lemma_encode_channels(
                    data@[64 * (b as int) + 4 * i],
                    data@[64 * (b as int) + 4 * i + 1],
                    data@[64 * (b as int) + 4 * i + 2],
                );
                assert(pix.lanes@[i] == crate::model::spec_buffer_pixel(
                    data@,
                    0,
                    ColorType::Rgba8888,
                    k,
                ));
                assert(out.lanes@[i] == spec_endian16(pix.lanes@[i], e));
                assert(buf@[o0 + 32 * (b as int) + 2 * i] == (out.lanes@[i] & 0xFF) as u8);
                assert(buf@[o0 + 32 * (b as int) + 2 * i + 1] == (out.lanes@[i] >> 8) as u8);
                lemma_store_endian(
                    crate::model::spec_buffer_pixel(data@, 0, ColorType::Rgba8888, k),
                    e,
                );
            }
            lemma_encode_preserved(
                data@,
                0,
                prev,
                buf@,
                o0 as int,
                e,
                ColorType::Rgba8888,
                0,
                16 * (b as int),
            );
        }
        b += 1;
    }
    let done = PIXEL_BLOCK_LEN * blocks;
    let ghost mid = buf@;
    scalar::encode_rgba8888_range(data, 0, buf, o0, e, done, num_pixels);
    proof {
        lemma_encode_preserved(data@, 0, mid, buf@, o0 as int, e, ColorType::Rgba8888, 0, done as int);
        assert(forall|j: int|
            0 <= j < buf@.len() && !(o0 <= j < o0 + 2 * (num_pixels as int)) ==> buf@[j] == old(buf)@[j]);
    }
}


/// Decodes `num_pixels` stream pixels into RGB888 pixels, sixteen per
/// block, keeping a two-pixel guard at each end of the buffer: the guards
/// and the remainder run on the scalar core, the blocks strictly between
/// them.
#[verifier::loop_isolation(false)]
pub fn decode_to_rgb888(data: &[u8], d0: usize, buf: &mut [u8], num_pixels: usize, e: DataEndian)
    requires
        d0 + 2 * num_pixels <= data@.len(),
        3 * num_pixels <= old(buf)@.len(),
    ensures
        decode_range_ok(
            data@,
            d0 as int,
            old(buf)@,
            final(buf)@,
            0,
            e,
            ColorType::Rgb888,
            None,
            0,
            num_pixels as int,
        ),
{
    if num_pixels < PIXEL_BLOCK_LEN + 2 * GUARD_PIXELS {
        scalar::decode_rgb888_range(data, d0, buf, 0, e, Ghost(None), 0, num_pixels);
        return ;
    }
    scalar::decode_rgb888_range(data, d0, buf, 0, e, Ghost(None), 0, GUARD_PIXELS);
    let blocks = (num_pixels - 2 * GUARD_PIXELS) / PIXEL_BLOCK_LEN;
    proof {
        lemma_block_split16(num_pixels - 4);
    }
    let mut b: usize = 0;
    while b < blocks
        invariant
            b <= blocks,
            16 * blocks <= num_pixels - 4,
            buf@.len() == old(buf)@.len(),
            forall|k: int|
                0 <= k < 2 + 16 * b ==> decoded_pixel_ok(
                    data@,
                    d0 as int,
                    buf@,
                    0,
                    e,
                    ColorType::Rgb888,
                    None,
                    k,
                ),
            forall|j: int|
                0 <= j < buf@.len() && !(0 <= j < 6 + 48 * b) ==> buf@[j] == old(buf)@[j],
        decreases blocks - b,
    {
        let ghost prev = buf@;
        let raw = M256I::loadu_si256(data, d0 + 4 + 32 * b);
        let pix = raw.endian_epi16(e);
        let (rv, gv, bv) = get_rgb_vec(pix);
        store_rgb888_lanes::<16>(&rv.lanes, &gv.lanes, &bv.lanes, buf, 6 + 48 * b);
        proof {
            assert forall|k: int|
                2 + 16 * (b as int) <= k < 18 + 16 * (b as int) implies decoded_pixel_ok(
                data@,
                d0 as int,
                buf@,
                0,
                e,
                ColorType::Rgb888,
                None,
                k,
            ) by {
                let i = k - (2 + 16 * (b as int));
                lemma_load_endian(
                    data@[d0 + 4 + 32 * (b as int) + 2 * i],
                    data@[d0 + 4 + 32 * (b as int) + 2 * i + 1],
                    e,
                );
                assert(pix.lanes@[i] == spec_endian16(raw.lanes@[i], e));
                assert(pix.lanes@[i] == spec_stream_pixel(data@, d0 as int, e, k));
                assert(rv.lanes@[i] == ((((pix.lanes@[i] & PIXEL_R_MASK) >> 11) << 3) | (((
                pix.lanes@[i] & PIXEL_R_MASK) >> 11) >> 2)));
                assert(gv.lanes@[i] == ((((pix.lanes@[i] & PIXEL_G_MASK) >> 5) << 2) | (((
                pix.lanes@[i] & PIXEL_G_MASK) >> 5) >> 4)));
                assert(bv.lanes@[i] == (((pix.lanes@[i] & PIXEL_B_MASK) << 3) | ((pix.lanes@[i]
                    & PIXEL_B_MASK) >> 2)));
                assert(buf@[6 + 48 * (b as int) + 3 * i] == (rv.lanes@[i] & 0xFF) as u8);
                assert(buf@[6 + 48 * (b as int) + 3 * i + 1] == (gv.lanes@[i] & 0xFF) as u8);
                assert(buf@[6 + 48 * (b as int) + 3 * i + 2] == (bv.lanes@[i] & 0xFF) as u8);
                lemma_decode_channels(spec_stream_pixel(data@, d0 as int, e, k));
            }
            lemma_decode_preserved(
                data@,
                d0 as int,
                prev,
                buf@,
                0,
                e,
                ColorType::Rgb888,
                None,
                3,
                0,
                2 + 16 * (b as int),
            );
        }
        b += 1;
    }
    let done = GUARD_PIXELS + PIXEL_BLOCK_LEN * blocks;
    let ghost mid = buf@;
    scalar::decode_rgb888_range(data, d0, buf, 0, e, Ghost(None), done, num_pixels);
    proof {
        lemma_decode_preserved(
            data@,
            d0 as int,
            mid,
            buf@,
            0,
            e,
            ColorType::Rgb888,
            None,
            3,
            0,
            done as int,
        );
        assert(forall|j: int|
            0 <= j < buf@.len() && !(0 <= j < 3 * (num_pixels as int)) ==> buf@[j] == old(buf)@[j]);
    }
}

/// Encodes `num_pixels` RGB888 pixels into the stream, sixteen per block,
/// keeping a two-pixel guard at each end of the buffer, processed scalar.
#[verifier::loop_isolation(false)]
pub fn encode_from_rgb888(data: &[u8], buf: &mut [u8], o0: usize, num_pixels: usize, e: DataEndian)
    requires
        3 * num_pixels <= data@.len(),
        o0 + 2 * num_pixels <= old(buf)@.len(),
    ensures
        encode_range_ok(
            data@,
            0,
            old(buf)@,
            final(buf)@,
            o0 as int,
            e,
            ColorType::Rgb888,
            0,
            num_pixels as int,
        ),
{
    if num_pixels < PIXEL_BLOCK_LEN + 2 * GUARD_PIXELS {
        scalar::encode_rgb888_range(data, 0, buf, o0, e, 0, num_pixels);
        return ;
    }
    scalar::encode_rgb888_range(data, 0, buf, o0, e, 0, GUARD_PIXELS);
    let blocks = (num_pixels - 2 * GUARD_PIXELS) / PIXEL_BLOCK_LEN;
    proof {
        lemma_block_split16(num_pixels - 4);
    }
    let mut b: usize = 0;
    while b < blocks
        invariant
            b <= blocks,
            16 * blocks <= num_pixels - 4,
            buf@.len() == old(buf)@.len(),
            forall|k: int|
                0 <= k < 2 + 16 * b ==> encoded_pixel_ok(data@, 0, buf@, o0 as int, e, ColorType::Rgb888, k),
            forall|j: int|
                0 <= j < buf@.len() && !(o0 <= j < o0 + 4 + 32 * b) ==> buf@[j] == old(buf)@[j],
        decreases blocks - b,
    {
        let ghost prev = buf@;
        let rv = M256I::gather_epi16(data, 6 + 48 * b, 3, 0);
        let gv = M256I::gather_epi16(data, 6 + 48 * b, 3, 1);
        let bv = M256I::gather_epi16(data, 6 + 48 * b, 3, 2);
        let pix = rv.srli_epi16(3).slli_epi16(11).or_si256(gv.srli_epi16(2).slli_epi16(5)).or_si256(
            bv.srli_epi16(3),
        );
        let out = pix.endian_epi16(e);
        out.storeu_si256(buf, o0 + 4 + 32 * b);
        proof {
            assert forall|k: int|
                2 + 16 * (b as int) <= k < 18 + 16 * (b as int) implies encoded_pixel_ok(
                data@,
                0,
                buf@,
                o0 as int,
                e,
                ColorType::Rgb888,
                k,
            ) by {
                let i = k - (2 + 16 * (b as int));
                assert(rv.lanes@[i] == data@[6 + 48 * (b as int) + 3 * i] as u16);
                assert(gv.lanes@[i] == data@[6 + 48 * (b as int) + 3 * i + 1] as u16);
                assert(bv.lanes@[i] == data@[6 + 48 * (b as int) + 3 * i + 2] as u16);
                assert(pix.lanes@[i] == ((((rv.lanes@[i] >> 3) << 11) | ((gv.lanes@[i] >> 2)
                    << 5)) | (bv.lanes@[i] >> 3)));
                lemma_encode_channels(
                    data@[6 + 48 * (b as int) + 3 * i],
                    data@[6 + 48 * (b as int) + 3 * i + 1],
                    data@[6 + 48 * (b as int) + 3 * i + 2],
                );
                assert(pix.lanes@[i] == crate::model::spec_buffer_pixel(
                    data@,
                    0,
                    ColorType::Rgb888,
                    k,
                ));
                assert(out.lanes@[i] == spec_endian16(pix.lanes@[i], e));
                assert(buf@[o0 + 4 + 32 * (b as int) + 2 * i] == (out.lanes@[i] & 0xFF) as u8);
                assert(buf@[o0 + 4 + 32 * (b as int) + 2 * i + 1] == (out.lanes@[i] >> 8) as u8);
                lemma_store_endian(
                    crate::model::spec_buffer_pixel(data@, 0, ColorType::Rgb888, k),
                    e,
                );
            }
            lemma_encode_preserved(
                data@,
                0,
                prev,
                buf@,
                o0 as int,
                e,
                ColorType::Rgb888,
                0,
                2 + 16 * (b as int),
            );
        }
        b += 1;
    }
    let done = GUARD_PIXELS + PIXEL_BLOCK_LEN * blocks;
    let ghost mid = buf@;
    scalar::encode_rgb888_range(data, 0, buf, o0, e, done, num_pixels);
    proof {
        lemma_encode_preserved(data@, 0, mid, buf@, o0 as int, e, ColorType::Rgb888, 0, done as int);
        assert(forall|j: int|
            0 <= j < buf@.len() && !(o0 <= j < o0 + 2 * (num_pixels as int)) ==> buf@[j] == old(buf)@[j]);
    }
}

} // verus!

