//! Engine equivalence tests: every bulk engine must produce byte-identical
//! output to the scalar reference, across color types and endianness, and
//! the dispatching entry points must agree with the engines they select.

use limg_core::image_spec::{DataEndian, ImageSpec};
use limg_core::color::ColorType;
use limg_core::pixel::rgb_to_pixel;
use limg_core::{decode, encode, scalar, wide128, wide256};

const NUM_PIXELS: usize = 20;

fn rgb_triples() -> Vec<[u8; 3]> {
    vec![
        [0, 0, 0],
        [128, 0, 0],
        [255, 0, 0],
        [0, 128, 0],
        [0, 255, 0],
        [0, 0, 128],
        [0, 0, 255],
        [255, 255, 0],
        [0, 255, 255],
        [255, 0, 255],
        [0, 128, 255],
        [255, 128, 0],
        [10, 10, 10],
        [50, 50, 50],
        [100, 100, 100],
        [128, 128, 128],
        [150, 150, 150],
        [200, 200, 200],
        [250, 250, 250],
        [255, 255, 255],
    ]
}

fn rgb888_data() -> Vec<u8> {
    rgb_triples().iter().flat_map(|t| t.iter().copied()).collect()
}

fn rgba8888_data() -> Vec<u8> {
    let alphas: [u8; NUM_PIXELS] = [
        0, 128, 255, 128, 0, 128, 255, 0, 255, 0, 255, 0, 10, 50, 100, 128, 150, 200, 250, 255,
    ];
    rgb_triples()
        .iter()
        .zip(alphas.iter())
        .flat_map(|(t, a)| vec![t[0], t[1], t[2], *a])
        .collect()
}

/// The in-memory RGB565 form: each packed pixel as little-endian bytes.
fn rgb565_data() -> Vec<u8> {
    rgb_triples()
        .iter()
        .flat_map(|t| {
            let p = rgb_to_pixel(*t);
            vec![(p & 0xFF) as u8, (p >> 8) as u8]
        })
        .collect()
}

/// An encoded pixel stream in big-endian order.
fn rgb565_stream_be() -> Vec<u8> {
    rgb_triples()
        .iter()
        .flat_map(|t| {
            let p = rgb_to_pixel(*t);
            vec![(p >> 8) as u8, (p & 0xFF) as u8]
        })
        .collect()
}

/// An encoded pixel stream in little-endian order.
fn rgb565_stream_le() -> Vec<u8> {
    rgb565_data()
}

#[test]
fn encode_endian_scalar() {
    let mut a_buf = vec![0u8; NUM_PIXELS * 2];
    let mut b_buf = vec![0u8; NUM_PIXELS * 2];

    scalar::encode_from_rgb888(&rgb888_data(), &mut a_buf, NUM_PIXELS, DataEndian::Big);

    scalar::encode_from_rgb565(&rgb565_data(), &mut b_buf, NUM_PIXELS, DataEndian::Big);
    assert_eq!(a_buf, b_buf);
    scalar::encode_from_rgba8888(&rgba8888_data(), &mut b_buf, NUM_PIXELS, DataEndian::Big);
    assert_eq!(a_buf, b_buf);

    scalar::encode_from_rgb888(&rgb888_data(), &mut a_buf, NUM_PIXELS, DataEndian::Little);

    scalar::encode_from_rgb565(&rgb565_data(), &mut b_buf, NUM_PIXELS, DataEndian::Little);
    assert_eq!(a_buf, b_buf);
    scalar::encode_from_rgba8888(&rgba8888_data(), &mut b_buf, NUM_PIXELS, DataEndian::Little);
    assert_eq!(a_buf, b_buf);
}

#[test]
fn encode_logic_x86_64_ssse3() {
    let mut a_buf = vec![0u8; NUM_PIXELS * 2];
    let mut b_buf = vec![0u8; NUM_PIXELS * 2];

    let mut spec = ImageSpec::with_data_endian(NUM_PIXELS as u16, 1, DataEndian::Big);

    encode::encode_data_unchecked(&rgb888_data(), &mut a_buf, &spec, ColorType::Rgb888);
    wide128::encode_from_rgb888(&rgb888_data(), &mut b_buf, NUM_PIXELS, DataEndian::Big);
    assert_eq!(a_buf, b_buf);

    encode::encode_data_unchecked(&rgb565_data(), &mut a_buf, &spec, ColorType::Rgb565);
    wide128::encode_from_rgb565(&rgb565_data(), &mut b_buf, NUM_PIXELS, DataEndian::Big);
    assert_eq!(a_buf, b_buf);

    encode::encode_data_unchecked(&rgba8888_data(), &mut a_buf, &spec, ColorType::Rgba8888);
    wide128::encode_from_rgba8888(&rgba8888_data(), &mut b_buf, NUM_PIXELS, DataEndian::Big);
    assert_eq!(a_buf, b_buf);

    spec.data_endian = DataEndian::Little;

    encode::encode_data_unchecked(&rgb888_data(), &mut a_buf, &spec, ColorType::Rgb888);
    wide128::encode_from_rgb888(&rgb888_data(), &mut b_buf, NUM_PIXELS, DataEndian::Little);
    assert_eq!(a_buf, b_buf);

    encode::encode_data_unchecked(&rgb565_data(), &mut a_buf, &spec, ColorType::Rgb565);
    wide128::encode_from_rgb565(&rgb565_data(), &mut b_buf, NUM_PIXELS, DataEndian::Little);
    assert_eq!(a_buf, b_buf);

    encode::encode_data_unchecked(&rgba8888_data(), &mut a_buf, &spec, ColorType::Rgba8888);
    wide128::encode_from_rgba8888(&rgba8888_data(), &mut b_buf, NUM_PIXELS, DataEndian::Little);
    assert_eq!(a_buf, b_buf);
}

#[test]
fn encode_rgb888_x86_64_ssse3() {
    let mut scalar_buf = vec![0u8; NUM_PIXELS * 2];
    let mut simd_buf = vec![0u8; NUM_PIXELS * 2];

    scalar::encode_from_rgb888(&rgb888_data(), &mut scalar_buf, NUM_PIXELS, DataEndian::Big);
    wide128::encode_from_rgb888(&rgb888_data(), &mut simd_buf, NUM_PIXELS, DataEndian::Big);
    assert_eq!(scalar_buf, simd_buf);

    scalar::encode_from_rgb888(&rgb888_data(), &mut scalar_buf, NUM_PIXELS, DataEndian::Little);
    wide128::encode_from_rgb888(&rgb888_data(), &mut simd_buf, NUM_PIXELS, DataEndian::Little);
    assert_eq!(scalar_buf, simd_buf);
}

#[test]
fn encode_rgb565_x86_64_ssse3() {
    let mut scalar_buf = vec![0u8; NUM_PIXELS * 2];
    let mut simd_buf = vec![0u8; NUM_PIXELS * 2];

    scalar::encode_from_rgb565(&rgb565_data(), &mut scalar_buf, NUM_PIXELS, DataEndian::Big);
    wide128::encode_from_rgb565(&rgb565_data(), &mut simd_buf, NUM_PIXELS, DataEndian::Big);
    assert_eq!(scalar_buf, simd_buf);

    scalar::encode_from_rgb565(&rgb565_data(), &mut scalar_buf, NUM_PIXELS, DataEndian::Little);
    wide128::encode_from_rgb565(&rgb565_data(), &mut simd_buf, NUM_PIXELS, DataEndian::Little);
    assert_eq!(scalar_buf, simd_buf);
}

#[test]
fn encode_rgba8888_x86_64_ssse3() {
    let mut scalar_buf = vec![0u8; NUM_PIXELS * 2];
    let mut simd_buf = vec![0u8; NUM_PIXELS * 2];

    scalar::encode_from_rgba8888(&rgba8888_data(), &mut scalar_buf, NUM_PIXELS, DataEndian::Big);
    wide128::encode_from_rgba8888(&rgba8888_data(), &mut simd_buf, NUM_PIXELS, DataEndian::Big);
    assert_eq!(scalar_buf, simd_buf);

    scalar::encode_from_rgba8888(
        &rgba8888_data(),
        &mut scalar_buf,
        NUM_PIXELS,
        DataEndian::Little,
    );
    wide128::encode_from_rgba8888(&rgba8888_data(), &mut simd_buf, NUM_PIXELS, DataEndian::Little);
    assert_eq!(scalar_buf, simd_buf);
}

#[test]
fn encode_endian_x86_64_ssse3() {
    let mut a_buf = vec![0u8; NUM_PIXELS * 2];
    let mut b_buf = vec![0u8; NUM_PIXELS * 2];

    wide128::encode_from_rgb888(&rgb888_data(), &mut a_buf, NUM_PIXELS, DataEndian::Big);

    wide128::encode_from_rgb565(&rgb565_data(), &mut b_buf, NUM_PIXELS, DataEndian::Big);
    assert_eq!(a_buf, b_buf);
    wide128::encode_from_rgba8888(&rgba8888_data(), &mut b_buf, NUM_PIXELS, DataEndian::Big);
    assert_eq!(a_buf, b_buf);

    wide128::encode_from_rgb888(&rgb888_data(), &mut a_buf, NUM_PIXELS, DataEndian::Little);

    wide128::encode_from_rgb565(&rgb565_data(), &mut b_buf, NUM_PIXELS, DataEndian::Little);
    assert_eq!(a_buf, b_buf);
    wide128::encode_from_rgba8888(&rgba8888_data(), &mut b_buf, NUM_PIXELS, DataEndian::Little);
    assert_eq!(a_buf, b_buf);
}

#[test]
fn encode_rgb888_x86_64_sse41() {
    let mut scalar_buf = vec![0u8; NUM_PIXELS * 2];
    let mut simd_buf = vec![0u8; NUM_PIXELS * 2];

    scalar::encode_from_rgb888(&rgb888_data(), &mut scalar_buf, NUM_PIXELS, DataEndian::Big);
    wide128::encode_from_rgb888(&rgb888_data(), &mut simd_buf, NUM_PIXELS, DataEndian::Big);
    assert_eq!(scalar_buf, simd_buf);

    scalar::encode_from_rgb888(&rgb888_data(), &mut scalar_buf, NUM_PIXELS, DataEndian::Little);
    wide128::encode_from_rgb888(&rgb888_data(), &mut simd_buf, NUM_PIXELS, DataEndian::Little);
    assert_eq!(scalar_buf, simd_buf);
}

#[test]
fn encode_rgb565_x86_64() {
    let mut scalar_buf = vec![0u8; NUM_PIXELS * 2];
    let mut simd_buf = vec![0u8; NUM_PIXELS * 2];

    scalar::encode_from_rgb565(&rgb565_data(), &mut scalar_buf, NUM_PIXELS, DataEndian::Big);
    wide128::encode_from_rgb565(&rgb565_data(), &mut simd_buf, NUM_PIXELS, DataEndian::Big);
    assert_eq!(scalar_buf, simd_buf);

    scalar::encode_from_rgb565(&rgb565_data(), &mut scalar_buf, NUM_PIXELS, DataEndian::Little);
    wide128::encode_from_rgb565(&rgb565_data(), &mut simd_buf, NUM_PIXELS, DataEndian::Little);
    assert_eq!(scalar_buf, simd_buf);
}

#[test]
fn encode_rgba8888_x86_64() {
    let mut scalar_buf = vec![0u8; NUM_PIXELS * 2];
    let mut simd_buf = vec![0u8; NUM_PIXELS * 2];

    scalar::encode_from_rgba8888(&rgba8888_data(), &mut scalar_buf, NUM_PIXELS, DataEndian::Big);
    wide128::encode_from_rgba8888(&rgba8888_data(), &mut simd_buf, NUM_PIXELS, DataEndian::Big);
    assert_eq!(scalar_buf, simd_buf);

    scalar::encode_from_rgba8888(
        &rgba8888_data(),
        &mut scalar_buf,
        NUM_PIXELS,
        DataEndian::Little,
    );
    wide128::encode_from_rgba8888(&rgba8888_data(), &mut simd_buf, NUM_PIXELS, DataEndian::Little);
    assert_eq!(scalar_buf, simd_buf);
}

#[test]
fn encode_endian_x86_64() {
    let mut a_buf = vec![0u8; NUM_PIXELS * 2];
    let mut b_buf = vec![0u8; NUM_PIXELS * 2];

    wide128::encode_from_rgb888(&rgb888_data(), &mut a_buf, NUM_PIXELS, DataEndian::Big);

    wide128::encode_from_rgb565(&rgb565_data(), &mut b_buf, NUM_PIXELS, DataEndian::Big);
    assert_eq!(a_buf, b_buf);
    wide128::encode_from_rgba8888(&rgba8888_data(), &mut b_buf, NUM_PIXELS, DataEndian::Big);
    assert_eq!(a_buf, b_buf);

    wide128::encode_from_rgb888(&rgb888_data(), &mut a_buf, NUM_PIXELS, DataEndian::Little);

    wide128::encode_from_rgb565(&rgb565_data(), &mut b_buf, NUM_PIXELS, DataEndian::Little);
    assert_eq!(a_buf, b_buf);
    wide128::encode_from_rgba8888(&rgba8888_data(), &mut b_buf, NUM_PIXELS, DataEndian::Little);
    assert_eq!(a_buf, b_buf);
}

#[test]
fn encode_rgb888_x86_64_avx2() {
    let mut scalar_buf = vec![0u8; NUM_PIXELS * 2];
    let mut simd_buf = vec![0u8; NUM_PIXELS * 2];

    scalar::encode_from_rgb888(&rgb888_data(), &mut scalar_buf, NUM_PIXELS, DataEndian::Big);
    wide256::encode_from_rgb888(&rgb888_data(), &mut simd_buf, 0, NUM_PIXELS, DataEndian::Big);
    assert_eq!(scalar_buf, simd_buf);

    scalar::encode_from_rgb888(&rgb888_data(), &mut scalar_buf, NUM_PIXELS, DataEndian::Little);
    wide256::encode_from_rgb888(&rgb888_data(), &mut simd_buf, 0, NUM_PIXELS, DataEndian::Little);
    assert_eq!(scalar_buf, simd_buf);
}

#[test]
fn encode_rgb565_x86_64_avx2() {
    let mut scalar_buf = vec![0u8; NUM_PIXELS * 2];
    let mut simd_buf = vec![0u8; NUM_PIXELS * 2];

    scalar::encode_from_rgb565(&rgb565_data(), &mut scalar_buf, NUM_PIXELS, DataEndian::Big);
    wide256::encode_from_rgb565(&rgb565_data(), &mut simd_buf, 0, NUM_PIXELS, DataEndian::Big);
    assert_eq!(scalar_buf, simd_buf);

    scalar::encode_from_rgb565(&rgb565_data(), &mut scalar_buf, NUM_PIXELS, DataEndian::Little);
    wide256::encode_from_rgb565(&rgb565_data(), &mut simd_buf, 0, NUM_PIXELS, DataEndian::Little);
    assert_eq!(scalar_buf, simd_buf);
}

#[test]
fn encode_rgba8888_x86_64_avx2() {
    let mut scalar_buf = vec![0u8; NUM_PIXELS * 2];
    let mut simd_buf = vec![0u8; NUM_PIXELS * 2];

    scalar::encode_from_rgba8888(&rgba8888_data(), &mut scalar_buf, NUM_PIXELS, DataEndian::Big);
    wide256::encode_from_rgba8888(&rgba8888_data(), &mut simd_buf, 0, NUM_PIXELS, DataEndian::Big);
    assert_eq!(scalar_buf, simd_buf);

    scalar::encode_from_rgba8888(
        &rgba8888_data(),
        &mut scalar_buf,
        NUM_PIXELS,
        DataEndian::Little,
    );
    wide256::encode_from_rgba8888(
        &rgba8888_data(),
        &mut simd_buf,
        0,
        NUM_PIXELS,
        DataEndian::Little,
    );
    assert_eq!(scalar_buf, simd_buf);
}

#[test]
fn encode_endian_x86_64_avx2() {
    let mut a_buf = vec![0u8; NUM_PIXELS * 2];
    let mut b_buf = vec![0u8; NUM_PIXELS * 2];

    wide256::encode_from_rgb888(&rgb888_data(), &mut a_buf, 0, NUM_PIXELS, DataEndian::Big);

    wide256::encode_from_rgb565(&rgb565_data(), &mut b_buf, 0, NUM_PIXELS, DataEndian::Big);
    assert_eq!(a_buf, b_buf);
    wide256::encode_from_rgba8888(&rgba8888_data(), &mut b_buf, 0, NUM_PIXELS, DataEndian::Big);
    assert_eq!(a_buf, b_buf);

    wide256::encode_from_rgb888(&rgb888_data(), &mut a_buf, 0, NUM_PIXELS, DataEndian::Little);

    wide256::encode_from_rgb565(&rgb565_data(), &mut b_buf, 0, NUM_PIXELS, DataEndian::Little);
    assert_eq!(a_buf, b_buf);
    wide256::encode_from_rgba8888(&rgba8888_data(), &mut b_buf, 0, NUM_PIXELS, DataEndian::Little);
    assert_eq!(a_buf, b_buf);
}

#[test]
fn decode_logic_x86_64_ssse3() {
    let mut a_buf = vec![0u8; NUM_PIXELS * 4];
    let mut b_buf = vec![0u8; NUM_PIXELS * 4];

    let mut spec = ImageSpec {
        width: NUM_PIXELS as u16,
        height: 1,
        transparent_color: Some(0xFF),
        data_endian: DataEndian::Big,
    };

    decode::decode_data_unchecked(&rgb565_stream_be(), &mut a_buf, &spec, ColorType::Rgb888);
    wide128::decode_to_rgb888(&rgb565_stream_be(), &mut b_buf, NUM_PIXELS, DataEndian::Big);
    assert_eq!(a_buf[..NUM_PIXELS * 3], b_buf[..NUM_PIXELS * 3]);

    decode::decode_data_unchecked(&rgb565_stream_be(), &mut a_buf, &spec, ColorType::Rgb565);
    wide128::decode_to_rgb565(&rgb565_stream_be(), &mut b_buf, NUM_PIXELS, DataEndian::Big);
    assert_eq!(a_buf[..NUM_PIXELS * 2], b_buf[..NUM_PIXELS * 2]);

    decode::decode_data_unchecked(&rgb565_stream_be(), &mut a_buf, &spec, ColorType::Rgba8888);
    wide128::decode_to_rgba8888_alpha(
        &rgb565_stream_be(),
        &mut b_buf,
        0xFF,
        NUM_PIXELS,
        DataEndian::Big,
    );
    assert_eq!(a_buf, b_buf);

    spec.data_endian = DataEndian::Little;

    decode::decode_data_unchecked(&rgb565_stream_le(), &mut a_buf, &spec, ColorType::Rgb888);
    wide128::decode_to_rgb888(&rgb565_stream_le(), &mut b_buf, NUM_PIXELS, DataEndian::Little);
    assert_eq!(a_buf[..NUM_PIXELS * 3], b_buf[..NUM_PIXELS * 3]);

    decode::decode_data_unchecked(&rgb565_stream_le(), &mut a_buf, &spec, ColorType::Rgb565);
    wide128::decode_to_rgb565(&rgb565_stream_le(), &mut b_buf, NUM_PIXELS, DataEndian::Little);
    assert_eq!(a_buf[..NUM_PIXELS * 2], b_buf[..NUM_PIXELS * 2]);

    decode::decode_data_unchecked(&rgb565_stream_le(), &mut a_buf, &spec, ColorType::Rgba8888);
    wide128::decode_to_rgba8888_alpha(
        &rgb565_stream_le(),
        &mut b_buf,
        0xFF,
        NUM_PIXELS,
        DataEndian::Little,
    );
    assert_eq!(a_buf, b_buf);
}

#[test]
fn decode_rgb888_x86_64_ssse3() {
    let mut scalar_buf = vec![0u8; NUM_PIXELS * 3];
    let mut simd_buf = vec![0u8; NUM_PIXELS * 3];

    scalar::decode_to_rgb888(&rgb565_stream_be(), &mut scalar_buf, NUM_PIXELS, DataEndian::Big);
    wide128::decode_to_rgb888(&rgb565_stream_be(), &mut simd_buf, NUM_PIXELS, DataEndian::Big);
    assert_eq!(scalar_buf, simd_buf);

    scalar::decode_to_rgb888(
        &rgb565_stream_le(),
        &mut scalar_buf,
        NUM_PIXELS,
        DataEndian::Little,
    );
    wide128::decode_to_rgb888(&rgb565_stream_le(), &mut simd_buf, NUM_PIXELS, DataEndian::Little);
    assert_eq!(scalar_buf, simd_buf);
}

#[test]
fn decode_rgb565_x86_64_ssse3() {
    let mut scalar_buf = vec![0u8; NUM_PIXELS * 2];
    let mut simd_buf = vec![0u8; NUM_PIXELS * 2];

    scalar::decode_to_rgb565(&rgb565_stream_be(), &mut scalar_buf, NUM_PIXELS, DataEndian::Big);
    wide128::decode_to_rgb565(&rgb565_stream_be(), &mut simd_buf, NUM_PIXELS, DataEndian::Big);
    assert_eq!(scalar_buf, simd_buf);

    scalar::decode_to_rgb565(
        &rgb565_stream_le(),
        &mut scalar_buf,
        NUM_PIXELS,
        DataEndian::Little,
    );
    wide128::decode_to_rgb565(&rgb565_stream_le(), &mut simd_buf, NUM_PIXELS, DataEndian::Little);
    assert_eq!(scalar_buf, simd_buf);
}

#[test]
fn decode_rgba8888_x86_64_ssse3() {
    let mut scalar_buf = vec![0u8; NUM_PIXELS * 4];
    let mut simd_buf = vec![0u8; NUM_PIXELS * 4];

    scalar::decode_to_rgba8888(&rgb565_stream_be(), &mut scalar_buf, NUM_PIXELS, DataEndian::Big);
    wide128::decode_to_rgba8888(&rgb565_stream_be(), &mut simd_buf, NUM_PIXELS, DataEndian::Big);
    assert_eq!(scalar_buf, simd_buf);

    scalar::decode_to_rgba8888(
        &rgb565_stream_le(),
        &mut scalar_buf,
        NUM_PIXELS,
        DataEndian::Little,
    );
    wide128::decode_to_rgba8888(&rgb565_stream_le(), &mut simd_buf, NUM_PIXELS, DataEndian::Little);
    assert_eq!(scalar_buf, simd_buf);
}

#[test]
fn decode_rgba8888_alpha_x86_64_ssse3() {
    let mut scalar_buf = vec![0u8; NUM_PIXELS * 4];
    let mut simd_buf = vec![0u8; NUM_PIXELS * 4];

    let transparent_color = rgb_to_pixel([255, 255, 255]);

    scalar::decode_to_rgba8888_alpha(
        &rgb565_stream_be(),
        &mut scalar_buf,
        transparent_color,
        NUM_PIXELS,
        DataEndian::Big,
    );
    wide128::decode_to_rgba8888_alpha(
        &rgb565_stream_be(),
        &mut simd_buf,
        transparent_color,
        NUM_PIXELS,
        DataEndian::Big,
    );
    assert_eq!(scalar_buf, simd_buf);

    scalar::decode_to_rgba8888_alpha(
        &rgb565_stream_le(),
        &mut scalar_buf,
        transparent_color,
        NUM_PIXELS,
        DataEndian::Little,
    );
    wide128::decode_to_rgba8888_alpha(
        &rgb565_stream_le(),
        &mut simd_buf,
        transparent_color,
        NUM_PIXELS,
        DataEndian::Little,
    );
    assert_eq!(scalar_buf, simd_buf);
}

#[test]
fn decode_logic_x86_64_avx2() {
    let mut a_buf = vec![0u8; NUM_PIXELS * 4];
    let mut b_buf = vec![0u8; NUM_PIXELS * 4];

    let mut spec = ImageSpec {
        width: NUM_PIXELS as u16,
        height: 1,
        transparent_color: Some(0xFF),
        data_endian: DataEndian::Big,
    };

    decode::decode_data_unchecked(&rgb565_stream_be(), &mut a_buf, &spec, ColorType::Rgb888);
    wide256::decode_to_rgb888(&rgb565_stream_be(), 0, &mut b_buf, NUM_PIXELS, DataEndian::Big);
    assert_eq!(a_buf[..NUM_PIXELS * 3], b_buf[..NUM_PIXELS * 3]);

    decode::decode_data_unchecked(&rgb565_stream_be(), &mut a_buf, &spec, ColorType::Rgb565);
    wide256::decode_to_rgb565(&rgb565_stream_be(), 0, &mut b_buf, NUM_PIXELS, DataEndian::Big);
    assert_eq!(a_buf[..NUM_PIXELS * 2], b_buf[..NUM_PIXELS * 2]);

    decode::decode_data_unchecked(&rgb565_stream_be(), &mut a_buf, &spec, ColorType::Rgba8888);
    wide256::decode_to_rgba8888_alpha(
        &rgb565_stream_be(),
        0,
        &mut b_buf,
        0xFF,
        NUM_PIXELS,
        DataEndian::Big,
    );
    assert_eq!(a_buf, b_buf);

    spec.data_endian = DataEndian::Little;

    decode::decode_data_unchecked(&rgb565_stream_le(), &mut a_buf, &spec, ColorType::Rgb888);
    wide256::decode_to_rgb888(&rgb565_stream_le(), 0, &mut b_buf, NUM_PIXELS, DataEndian::Little);
    assert_eq!(a_buf[..NUM_PIXELS * 3], b_buf[..NUM_PIXELS * 3]);

    decode::decode_data_unchecked(&rgb565_stream_le(), &mut a_buf, &spec, ColorType::Rgb565);
    wide256::decode_to_rgb565(&rgb565_stream_le(), 0, &mut b_buf, NUM_PIXELS, DataEndian::Little);
    assert_eq!(a_buf[..NUM_PIXELS * 2], b_buf[..NUM_PIXELS * 2]);

    decode::decode_data_unchecked(&rgb565_stream_le(), &mut a_buf, &spec, ColorType::Rgba8888);
    wide256::decode_to_rgba8888_alpha(
        &rgb565_stream_le(),
        0,
        &mut b_buf,
        0xFF,
        NUM_PIXELS,
        DataEndian::Little,
    );
    assert_eq!(a_buf, b_buf);
}

#[test]
fn decode_rgb888_x86_64_avx2() {
    let mut scalar_buf = vec![0u8; NUM_PIXELS * 3];
    let mut simd_buf = vec![0u8; NUM_PIXELS * 3];

    scalar::decode_to_rgb888(&rgb565_stream_be(), &mut scalar_buf, NUM_PIXELS, DataEndian::Big);
    wide256::decode_to_rgb888(&rgb565_stream_be(), 0, &mut simd_buf, NUM_PIXELS, DataEndian::Big);
    assert_eq!(scalar_buf, simd_buf);

    scalar::decode_to_rgb888(
        &rgb565_stream_le(),
        &mut scalar_buf,
        NUM_PIXELS,
        DataEndian::Little,
    );
    wide256::decode_to_rgb888(
        &rgb565_stream_le(),
        0,
        &mut simd_buf,
        NUM_PIXELS,
        DataEndian::Little,
    );
    assert_eq!(scalar_buf, simd_buf);
}

#[test]
fn decode_rgb565_x86_64_avx2() {
    let mut scalar_buf = vec![0u8; NUM_PIXELS * 2];
    let mut simd_buf = vec![0u8; NUM_PIXELS * 2];

    scalar::decode_to_rgb565(&rgb565_stream_be(), &mut scalar_buf, NUM_PIXELS, DataEndian::Big);
    wide256::decode_to_rgb565(&rgb565_stream_be(), 0, &mut simd_buf, NUM_PIXELS, DataEndian::Big);
    assert_eq!(scalar_buf, simd_buf);

    scalar::decode_to_rgb565(
        &rgb565_stream_le(),
        &mut scalar_buf,
        NUM_PIXELS,
        DataEndian::Little,
    );
    wide256::decode_to_rgb565(
        &rgb565_stream_le(),
        0,
        &mut simd_buf,
        NUM_PIXELS,
        DataEndian::Little,
    );
    assert_eq!(scalar_buf, simd_buf);
}

#[test]
fn decode_rgba8888_x86_64_avx2() {
    let mut scalar_buf = vec![0u8; NUM_PIXELS * 4];
    let mut simd_buf = vec![0u8; NUM_PIXELS * 4];

    scalar::decode_to_rgba8888(&rgb565_stream_be(), &mut scalar_buf, NUM_PIXELS, DataEndian::Big);
    wide256::decode_to_rgba8888(
        &rgb565_stream_be(),
        0,
        &mut simd_buf,
        NUM_PIXELS,
        DataEndian::Big,
    );
    assert_eq!(scalar_buf, simd_buf);

    scalar::decode_to_rgba8888(
        &rgb565_stream_le(),
        &mut scalar_buf,
        NUM_PIXELS,
        DataEndian::Little,
    );
    wide256::decode_to_rgba8888(
        &rgb565_stream_le(),
        0,
        &mut simd_buf,
        NUM_PIXELS,
        DataEndian::Little,
    );
    assert_eq!(scalar_buf, simd_buf);
}

#[test]
fn decode_rgba8888_alpha_x86_64_avx2() {
    let mut scalar_buf = vec![0u8; NUM_PIXELS * 4];
    let mut simd_buf = vec![0u8; NUM_PIXELS * 4];

    let transparent_color = rgb_to_pixel([255, 255, 255]);

    scalar::decode_to_rgba8888_alpha(
        &rgb565_stream_be(),
        &mut scalar_buf,
        transparent_color,
        NUM_PIXELS,
        DataEndian::Big,
    );
    wide256::decode_to_rgba8888_alpha(
        &rgb565_stream_be(),
        0,
        &mut simd_buf,
        transparent_color,
        NUM_PIXELS,
        DataEndian::Big,
    );
    assert_eq!(scalar_buf, simd_buf);

    scalar::decode_to_rgba8888_alpha(
        &rgb565_stream_le(),
        &mut scalar_buf,
        transparent_color,
        NUM_PIXELS,
        DataEndian::Little,
    );
    wide256::decode_to_rgba8888_alpha(
        &rgb565_stream_le(),
        0,
        &mut simd_buf,
        transparent_color,
        NUM_PIXELS,
        DataEndian::Little,
    );
    assert_eq!(scalar_buf, simd_buf);
}

/// Engine equivalence across boundary sizes around the block lengths: zero
/// pixels, one, one below and above each block length, and a block plus the
/// guard margins.
#[test]
fn engine_equivalence_boundary_sizes() {
    let sizes: [usize; 12] = [0, 1, 7, 8, 9, 15, 16, 17, 19, 20, 36, 37];
    let mut stream: Vec<u8> = Vec::new();
    for i in 0..40usize {
        stream.push((i * 37 % 256) as u8);
        stream.push((i * 101 % 256) as u8);
    }
    for &n in sizes.iter() {
        for &e in [DataEndian::Big, DataEndian::Little].iter() {
            let mut a = vec![0u8; 40 * 3];
            let mut b = vec![0u8; 40 * 3];
            let mut c = vec![0u8; 40 * 3];
            scalar::decode_to_rgb888(&stream, &mut a, n, e);
            wide128::decode_to_rgb888(&stream, &mut b, n, e);
            wide256::decode_to_rgb888(&stream, 0, &mut c, n, e);
            assert_eq!(a, b);
            assert_eq!(a, c);

            let mut a = vec![0u8; 40 * 4];
            let mut b = vec![0u8; 40 * 4];
            let mut c = vec![0u8; 40 * 4];
            scalar::decode_to_rgba8888_alpha(&stream, &mut a, 0x25A3, n, e);
            wide128::decode_to_rgba8888_alpha(&stream, &mut b, 0x25A3, n, e);
            wide256::decode_to_rgba8888_alpha(&stream, 0, &mut c, 0x25A3, n, e);
            assert_eq!(a, b);
            assert_eq!(a, c);

            let rgb: Vec<u8> = (0..120u32).map(|x| (x * 7 % 256) as u8).collect();
            let mut a = vec![0u8; 80];
            let mut b = vec![0u8; 80];
            let mut c = vec![0u8; 80];
            scalar::encode_from_rgb888(&rgb, &mut a, n, e);
            wide128::encode_from_rgb888(&rgb, &mut b, n, e);
            wide256::encode_from_rgb888(&rgb, &mut c, 0, n, e);
            assert_eq!(a, b);
            assert_eq!(a, c);
        }
    }
}
