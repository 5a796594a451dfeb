//! Laws of the codec, each proved from the same spec functions that the
//! executable contracts state: pack/unpack bit-exactness, header round-trip,
//! losslessness of the RGB565 path, color-key alpha, and determinism of the
//! decoded bytes (the ground of engine equivalence).

use vstd::prelude::*;

use crate::color::ColorType;
use crate::header::{
    spec_header_bytes, spec_header_valid, spec_parsed_spec, CURRENT_VARSION, HEADER_SIZE,
};
use crate::image_spec::{spec_flag, DataEndian, ImageSpec};
use crate::model::{
    decoded_pixel_ok, encoded_pixel_ok, spec_buffer_pixel, spec_pixel_byte, spec_pixel_from_bytes,
    spec_stream_pixel,
};
use crate::pixel::{
    spec_pixel_to_blue, spec_pixel_to_green, spec_pixel_to_red, spec_rgb_to_pixel,
};

verus! {

/// A `u16` is recovered exactly from its two little-endian bytes.
proof fn lemma_u16_le_roundtrip(p: u16)
    by (bit_vector)
    ensures
        ((((p >> 8) as u8) as u16) << 8) | (((p & 0xFF) as u8) as u16) == p,
{
}

/// The two little-endian bytes of a `u16` built from two bytes are those
/// bytes.
proof fn lemma_u16_le_bytes(b0: u8, b1: u8)
    by (bit_vector)
    ensures
        ((((b1 as u16) << 8) | (b0 as u16)) & 0xFF) as u8 == b0,
        ((((b1 as u16) << 8) | (b0 as u16)) >> 8) as u8 == b1,
{
}

/// A `u16` is recovered exactly from its two little-endian bytes, in the
/// operand order the header spec functions use.
proof fn lemma_u16_header_roundtrip(w: u16)
    by (bit_vector)
    ensures
        ((((w & 0xFF) as u8) as u16) | ((((w >> 8) as u8) as u16) << 8)) == w,
{
}

/// The two little-endian bytes of a `u16` read from a header are the bytes
/// it was built from.
proof fn lemma_u16_header_bytes(b0: u8, b1: u8)
    by (bit_vector)
    ensures
        (((b0 as u16) | ((b1 as u16) << 8)) & 0xFF) as u8 == b0,
        (((b0 as u16) | ((b1 as u16) << 8)) >> 8) as u8 == b1,
{
}

/// Splitting a stream pixel back into bytes in the order it was read from
/// reproduces the original bytes.
pub proof fn lemma_pixel_bytes_roundtrip(b0: u8, b1: u8, e: DataEndian)
    ensures
        spec_pixel_byte(spec_pixel_from_bytes(b0, b1, e), e, 0) == b0,
        spec_pixel_byte(spec_pixel_from_bytes(b0, b1, e), e, 1) == b1,
{
    match e {
        DataEndian::Big => {
            lemma_u16_le_bytes(b1, b0);
        },
        DataEndian::Little => {
            lemma_u16_le_bytes(b0, b1);
        },
    }
}

/// Pack/unpack bit-exactness: unpacking a freshly packed pixel reproduces
/// the documented truncate-then-replicate formula on each channel — the
/// channel's top field bits, replicated into the low bits.
pub proof fn lemma_pack_unpack(r: u8, g: u8, b: u8)
    by (bit_vector)
    ensures
        spec_pixel_to_red(spec_rgb_to_pixel(r, g, b)) == ((r >> 3) << 3) | ((r >> 3) >> 2),
        spec_pixel_to_green(spec_rgb_to_pixel(r, g, b)) == ((g >> 2) << 2) | ((g >> 2) >> 4),
        spec_pixel_to_blue(spec_rgb_to_pixel(r, g, b)) == ((b >> 3) << 3) | ((b >> 3) >> 2),
{
}

/// Which flag bits are set in the or of an endian bit and a transparency
/// bit.
proof fn lemma_flag_bits(eb: u8, tb: u8)
    by (bit_vector)
    requires
        eb == 0 || eb == 1,
        tb == 0 || tb == 2,
    ensures
        ((eb | tb) & 0x01 != 0) <==> eb == 1,
        ((eb | tb) & 0x02 != 0) <==> tb == 2,
{
}

/// Header round-trip: the header bytes written for any valid spec parse
/// back to exactly that spec.
pub proof fn lemma_header_round_trip(s: ImageSpec)
    requires
        s.width != 0,
        s.height != 0,
    ensures
        spec_header_bytes(s).len() == HEADER_SIZE,
        spec_header_valid(spec_header_bytes(s)),
        spec_parsed_spec(spec_header_bytes(s)) == s,
{
    let bytes = spec_header_bytes(s);
    lemma_u16_header_roundtrip(s.width);
    lemma_u16_header_roundtrip(s.height);
    match s.transparent_color {
        Some(k) => {
            lemma_u16_header_roundtrip(k);
        },
        None => {
            lemma_u16_header_roundtrip(0);
        },
    }
    let eb: u8 = match s.data_endian {
        DataEndian::Big => 0,
        DataEndian::Little => 1,
    };
    let tb: u8 = match s.transparent_color {
        Some(_) => 2,
        None => 0,
    };
    assert(spec_flag(s) == (eb | tb));
    lemma_flag_bits(eb, tb);
    assert(spec_parsed_spec(bytes).width == s.width);
    assert(spec_parsed_spec(bytes).height == s.height);
    assert(spec_parsed_spec(bytes).data_endian == s.data_endian);
    assert(spec_parsed_spec(bytes).transparent_color == s.transparent_color);
}

/// A parsed header whose stray freedoms are canonical — current version, no
/// unused flag bits, a zero key field when no key is present — re-encodes
/// to exactly its original twelve bytes.
pub proof fn lemma_header_rebuild(data: Seq<u8>)
    requires
        data.len() >= HEADER_SIZE,
        spec_header_valid(data),
        data[4] == CURRENT_VARSION,
        data[5] < 4,
        data[5] & 2 == 0 ==> data[10] == 0 && data[11] == 0,
    ensures
        forall|j: int| 0 <= j < HEADER_SIZE ==> spec_header_bytes(spec_parsed_spec(data))[j]
            == data[j],
{
    let s = spec_parsed_spec(data);
    lemma_u16_header_bytes(data[6], data[7]);
    lemma_u16_header_bytes(data[8], data[9]);
    lemma_u16_header_bytes(data[10], data[11]);
    let f = data[5];
    assert(((if f & 1 != 0 { 1u8 } else { 0u8 }) | (if f & 2 != 0 { 2u8 } else { 0u8 }))
        == f) by (bit_vector)
        requires
            f < 4,
    ;
    assert(spec_flag(s) == data[5]);
    assert forall|j: int| 0 <= j < HEADER_SIZE implies spec_header_bytes(s)[j] == data[j] by {
        if j == 10 || j == 11 {
            if data[5] & 2 == 0 {
                assert(spec_header_bytes(s)[10] == (0u16 & 0xFF) as u8);
                assert(spec_header_bytes(s)[11] == (0u16 >> 8) as u8);
                assert((0u16 & 0xFF) as u8 == 0 && (0u16 >> 8) as u8 == 0) by (bit_vector);
            }
        }
    }
}

/// The RGB565 path is lossless pixel by pixel: decoding a stream pixel to
/// an in-memory RGB565 pixel and encoding it back with the same endianness
/// reproduces the original two stream bytes.
pub proof fn lemma_rgb565_round_trip(
    data: Seq<u8>,
    d0: int,
    mid: Seq<u8>,
    out: Seq<u8>,
    o0: int,
    e: DataEndian,
    key: Option<u16>,
    n: int,
)
    requires
        forall|i: int| 0 <= i < n ==> decoded_pixel_ok(data, d0, mid, 0, e, ColorType::Rgb565, key, i),
        forall|i: int| 0 <= i < n ==> encoded_pixel_ok(mid, 0, out, o0, e, ColorType::Rgb565, i),
    ensures
        forall|i: int|
            0 <= i < n ==> #[trigger] out[o0 + 2 * i] == data[d0 + 2 * i] && out[o0 + 2 * i + 1]
                == data[d0 + 2 * i + 1],
{
    assert forall|i: int|
        0 <= i < n implies #[trigger] out[o0 + 2 * i] == data[d0 + 2 * i] && out[o0 + 2 * i + 1]
        == data[d0 + 2 * i + 1] by {
        assert(decoded_pixel_ok(data, d0, mid, 0, e, ColorType::Rgb565, key, i));
        assert(encoded_pixel_ok(mid, 0, out, o0, e, ColorType::Rgb565, i));
        let p = spec_stream_pixel(data, d0, e, i);
        lemma_u16_le_roundtrip(p);
        assert(spec_buffer_pixel(mid, 0, ColorType::Rgb565, i) == p);
        lemma_pixel_bytes_roundtrip(data[d0 + 2 * i], data[d0 + 2 * i + 1], e);
    }
}

/// Full round-trip stability over the lossless RGB565 path: a well-formed
/// file — valid header in canonical form — decoded to in-memory RGB565
/// pixels and encoded back with its own spec reproduces every byte of the
/// original file. `mid` holds what `decode` ensures of its output, `out`
/// what `encode` ensures of its: the header bytes and the re-encoded
/// pixels.
pub proof fn lemma_file_round_trip(file: Seq<u8>, mid: Seq<u8>, out: Seq<u8>, n: int)
    requires
        file.len() >= HEADER_SIZE,
        spec_header_valid(file),
        file[4] == CURRENT_VARSION,
        file[5] < 4,
        file[5] & 2 == 0 ==> file[10] == 0 && file[11] == 0,
        forall|i: int|
            0 <= i < n ==> decoded_pixel_ok(
                file,
                HEADER_SIZE as int,
                mid,
                0,
                spec_parsed_spec(file).data_endian,
                ColorType::Rgb565,
                spec_parsed_spec(file).transparent_color,
                i,
            ),
        forall|j: int|
            0 <= j < HEADER_SIZE ==> out[j] == spec_header_bytes(spec_parsed_spec(file))[j],
        forall|i: int|
            0 <= i < n ==> encoded_pixel_ok(
                mid,
                0,
                out,
                HEADER_SIZE as int,
                spec_parsed_spec(file).data_endian,
                ColorType::Rgb565,
                i,
            ),
    ensures
        forall|j: int| 0 <= j < HEADER_SIZE ==> out[j] == file[j],
        forall|i: int|
            0 <= i < n ==> #[trigger] out[HEADER_SIZE as int + 2 * i] == file[HEADER_SIZE as int
                + 2 * i] && out[HEADER_SIZE as int + 2 * i + 1] == file[HEADER_SIZE as int + 2 * i
                + 1],
{
    lemma_header_rebuild(file);
    let s = spec_parsed_spec(file);
    lemma_rgb565_round_trip(
        file,
        HEADER_SIZE as int,
        mid,
        out,
        HEADER_SIZE as int,
        s.data_endian,
        s.transparent_color,
        n,
    );
    assert forall|i: int|
        0 <= i < n implies #[trigger] out[HEADER_SIZE as int + 2 * i] == file[HEADER_SIZE as int
        + 2 * i] && out[HEADER_SIZE as int + 2 * i + 1] == file[HEADER_SIZE as int + 2 * i
        + 1] by {
        assert(out[HEADER_SIZE as int + 2 * i] == file[HEADER_SIZE as int + 2 * i]);
        assert(out[HEADER_SIZE as int + 2 * i + 1] == file[HEADER_SIZE as int + 2 * i + 1]);
    }
}

/// Color-key alpha: with key `k`, the decoded alpha byte of pixel `i` is
/// zero exactly when the packed stream pixel equals `k`, and `0xFF`
/// everywhere else.
pub proof fn lemma_color_key_alpha(
    data: Seq<u8>,
    d0: int,
    out: Seq<u8>,
    o0: int,
    e: DataEndian,
    k: u16,
    n: int,
)
    requires
        forall|i: int|
            0 <= i < n ==> decoded_pixel_ok(data, d0, out, o0, e, ColorType::Rgba8888, Some(k), i),
    ensures
        forall|i: int|
            0 <= i < n ==> out[o0 + 4 * i + 3] == (if spec_stream_pixel(data, d0, e, i) == k {
                0u8
            } else {
                0xFFu8
            }),
{
    assert forall|i: int|
        0 <= i < n implies out[o0 + 4 * i + 3] == (if spec_stream_pixel(data, d0, e, i) == k {
        0u8
    } else {
        0xFFu8
    }) by {
        assert(decoded_pixel_ok(data, d0, out, o0, e, ColorType::Rgba8888, Some(k), i));
    }
}

/// Engine equivalence, as a statement about the shared contract: any two
/// buffers whose pixels satisfy `decoded_pixel_ok` for the same input hold
/// byte-identical pixel regions. Every engine — scalar or block — ensures
/// exactly that predicate, so their outputs agree byte for byte.
pub proof fn lemma_decode_deterministic(
    data: Seq<u8>,
    d0: int,
    out1: Seq<u8>,
    out2: Seq<u8>,
    o0: int,
    e: DataEndian,
    color_type: ColorType,
    key: Option<u16>,
    bpp: int,
    n: int,
)
    requires
        bpp == color_type.bytes_per_pixel(),
        forall|i: int| 0 <= i < n ==> decoded_pixel_ok(data, d0, out1, o0, e, color_type, key, i),
        forall|i: int| 0 <= i < n ==> decoded_pixel_ok(data, d0, out2, o0, e, color_type, key, i),
    ensures
        forall|j: int| 0 <= j < bpp * n ==> #[trigger] out1[o0 + j] == out2[o0 + j],
{
    assert forall|j: int| 0 <= j < bpp * n implies #[trigger] out1[o0 + j] == out2[o0 + j] by {
        let i = j / bpp;
        let c = j % bpp;
        vstd::arithmetic::div_mod::lemma_fundamental_div_mod(j, bpp);
        vstd::arithmetic::div_mod::lemma_mod_bound(j, bpp);
        assert(0 <= i < n) by (nonlinear_arith)
            requires
                0 <= j < bpp * n,
                j == bpp * i + c,
                0 <= c < bpp,
                1 <= bpp,
        ;
        assert(decoded_pixel_ok(data, d0, out1, o0, e, color_type, key, i));
        assert(decoded_pixel_ok(data, d0, out2, o0, e, color_type, key, i));
        match color_type {
            ColorType::Rgb888 => {
                assert(c == 0 || c == 1 || c == 2);
            },
            ColorType::Rgb565 => {
                assert(c == 0 || c == 1);
            },
            ColorType::Rgba8888 => {
                assert(c == 0 || c == 1 || c == 2 || c == 3);
            },
        }
    }
}

} // verus!
