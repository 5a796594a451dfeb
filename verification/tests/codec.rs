//! Tests of the checked entry points: exact pack/unpack values, header
//! round-trips, full-file round-trips over the lossless RGB565 path, bounds
//! rejection, and color-key alpha synthesis.

use limg_core::color::ColorType;
use limg_core::decode::{decode, decode_data, decode_header, decode_header_unchecked, decoded_size};
use limg_core::encode::{encode, encode_bounds, encode_data, encode_header, encoded_size};
use limg_core::error::Error;
use limg_core::header::{ImageHeader, CURRENT_VARSION, HEADER_SIZE};
use limg_core::image_spec::{DataEndian, ImageSpec};
use limg_core::pixel::{
    blue_to_pixel, green_to_pixel, pixel_to_alpha, pixel_to_blue, pixel_to_green, pixel_to_red,
    pixel_to_rgb, red_to_pixel, rgb_to_pixel,
};

/// Builds a valid encoded image: 12-byte header plus packed pixels.
fn sample_file(width: u16, height: u16, key: Option<u16>, e: DataEndian, pixels: &[u16]) -> Vec<u8> {
    assert_eq!(pixels.len(), width as usize * height as usize);
    let flag: u8 = (match e {
        DataEndian::Big => 0,
        DataEndian::Little => 1,
    }) | (if key.is_some() { 2 } else { 0 });
    let tc = key.unwrap_or(0);
    let mut out = vec![
        0x4C,
        0x49,
        0x4D,
        0x47,
        CURRENT_VARSION,
        flag,
        (width & 0xFF) as u8,
        (width >> 8) as u8,
        (height & 0xFF) as u8,
        (height >> 8) as u8,
        (tc & 0xFF) as u8,
        (tc >> 8) as u8,
    ];
    for &p in pixels {
        match e {
            DataEndian::Big => {
                out.push((p >> 8) as u8);
                out.push((p & 0xFF) as u8);
            },
            DataEndian::Little => {
                out.push((p & 0xFF) as u8);
                out.push((p >> 8) as u8);
            },
        }
    }
    out
}

#[test]
fn pack_unpack_documented_values() {
    assert_eq!(rgb_to_pixel([0, 128, 255]), 0x041F);
    assert_eq!(pixel_to_rgb(0x041F), [0, 130, 255]);
    assert_eq!(rgb_to_pixel([255, 255, 255]), 0xFFFF);
    assert_eq!(pixel_to_rgb(0xFFFF), [255, 255, 255]);
    assert_eq!(rgb_to_pixel([0, 0, 0]), 0x0000);
    assert_eq!(pixel_to_rgb(0x0000), [0, 0, 0]);
}

#[test]
fn pixel_channel_helpers() {
    assert_eq!(red_to_pixel(255), 0xF800);
    assert_eq!(green_to_pixel(255), 0x07E0);
    assert_eq!(blue_to_pixel(255), 0x001F);
    assert_eq!(pixel_to_red(0xF800), 255);
    assert_eq!(pixel_to_green(0x07E0), 255);
    assert_eq!(pixel_to_blue(0x001F), 255);
    assert_eq!(pixel_to_alpha(0x1234, 0x1234), 0);
    assert_eq!(pixel_to_alpha(0x1234, 0x1235), 0xFF);
}

#[test]
fn pack_truncates_unpack_replicates() {
    for c in [0u8, 1, 7, 8, 127, 128, 200, 254, 255] {
        let p = rgb_to_pixel([c, c, c]);
        let rgb = pixel_to_rgb(p);
        let r5 = c >> 3;
        let g6 = c >> 2;
        let b5 = c >> 3;
        assert_eq!(rgb[0], (r5 << 3) | (r5 >> 2));
        assert_eq!(rgb[1], (g6 << 2) | (g6 >> 4));
        assert_eq!(rgb[2], (b5 << 3) | (b5 >> 2));
    }
}

#[test]
fn header_round_trip_all_shapes() {
    let specs = [
        ImageSpec::new(1, 1),
        ImageSpec::new(100, 100),
        ImageSpec::with_transparent_color(65535, 1, 0xABCD),
        ImageSpec::with_data_endian(3, 7, DataEndian::Big),
        ImageSpec {
            width: 320,
            height: 240,
            transparent_color: Some(0xF81F),
            data_endian: DataEndian::Big,
        },
    ];
    for spec in specs {
        let mut buf = vec![0u8; HEADER_SIZE];
        assert_eq!(encode_header(&mut buf, &spec), Ok(HEADER_SIZE));
        assert_eq!(decode_header(&buf), Ok((spec, HEADER_SIZE)));
    }
}

#[test]
fn header_field_layout() {
    let spec = ImageSpec {
        width: 0x0201,
        height: 0x0403,
        transparent_color: Some(0x0605),
        data_endian: DataEndian::Little,
    };
    let mut buf = vec![0u8; HEADER_SIZE];
    encode_header(&mut buf, &spec).unwrap();
    assert_eq!(buf, vec![0x4C, 0x49, 0x4D, 0x47, 1, 3, 0x01, 0x02, 0x03, 0x04, 0x05, 0x06]);

    let h = ImageHeader::from_bytes(&buf);
    assert_eq!(h.signature, [0x4C, 0x49, 0x4D, 0x47]);
    assert_eq!(h.version, 1);
    assert_eq!(h.flag, 3);
    assert_eq!(h.width, 0x0201);
    assert_eq!(h.height, 0x0403);
    assert_eq!(h.transparent_color, 0x0605);

    let s = decode_header_unchecked(&buf);
    assert_eq!(s, spec);
}

#[test]
fn sizes() {
    let spec = ImageSpec::new(100, 100);
    assert_eq!(spec.num_pixels(), 10000);
    assert_eq!(encoded_size(&spec), 20012);
    assert_eq!(encode_bounds(&spec), 20012);
    assert_eq!(decoded_size(&spec, ColorType::Rgb888), 30000);
    assert_eq!(decoded_size(&spec, ColorType::Rgb565), 20000);
    assert_eq!(decoded_size(&spec, ColorType::Rgba8888), 40000);
    assert_eq!(ColorType::Rgb888.bytes_per_pixel(), 3);
    assert_eq!(ColorType::Rgb565.bytes_per_pixel(), 2);
    assert_eq!(ColorType::Rgba8888.bytes_per_pixel(), 4);
    assert!(!spec.is_zero_dimensions());
    assert!(ImageSpec::new(0, 5).is_zero_dimensions());
    assert!(ImageSpec::new(5, 0).is_zero_dimensions());
}

#[test]
fn spec_flags() {
    assert_eq!(ImageSpec::with_data_endian(1, 1, DataEndian::Big).flag(), 0);
    assert_eq!(ImageSpec::new(1, 1).flag(), 1);
    assert_eq!(
        ImageSpec {
            width: 1,
            height: 1,
            transparent_color: Some(7),
            data_endian: DataEndian::Big,
        }.flag(),
        2,
    );
    assert_eq!(ImageSpec::with_transparent_color(1, 1, 7).flag(), 3);
}

#[test]
fn full_round_trip_rgb565() {
    for &e in [DataEndian::Big, DataEndian::Little].iter() {
        let pixels: Vec<u16> = (0..37u16).map(|i| i.wrapping_mul(0x1357).wrapping_add(3)).collect();
        let file = sample_file(37, 1, Some(0x1357), e, &pixels);

        let mut mid = vec![0u8; 37 * 2];
        let (spec, written) = decode(&file, &mut mid, ColorType::Rgb565).unwrap();
        assert_eq!(written, 74);
        assert_eq!(spec.width, 37);
        assert_eq!(spec.height, 1);
        assert_eq!(spec.transparent_color, Some(0x1357));
        assert_eq!(spec.data_endian, e);

        let mut out = vec![0u8; encoded_size(&spec)];
        let total = encode(&mid, &mut out, &spec, ColorType::Rgb565).unwrap();
        assert_eq!(total, file.len());
        assert_eq!(out, file);
    }
}

#[test]
fn full_round_trip_header_and_data() {
    let pixels: Vec<u16> = (0..24u16).map(|i| 0x8000u16 | (i * 321)).collect();
    let file = sample_file(6, 4, None, DataEndian::Big, &pixels);

    let (spec, consumed) = decode_header(&file).unwrap();
    assert_eq!(consumed, HEADER_SIZE);
    let mut mid = vec![0u8; decoded_size(&spec, ColorType::Rgb565)];
    let written = decode_data(&file[HEADER_SIZE..], &mut mid, &spec, ColorType::Rgb565).unwrap();
    assert_eq!(written, 48);

    let mut out = vec![0u8; encoded_size(&spec)];
    let header_written = encode_header(&mut out, &spec).unwrap();
    let data_written =
        encode_data(&mid, &mut out[header_written..], &spec, ColorType::Rgb565).unwrap();
    assert_eq!(header_written + data_written, file.len());
    assert_eq!(out, file);
}

#[test]
fn decode_rejects_short_input() {
    let pixels: Vec<u16> = vec![0x1234; 4];
    let file = sample_file(2, 2, None, DataEndian::Little, &pixels);
    let mut buf = vec![0u8; 64];
    for len in 0..HEADER_SIZE {
        assert_eq!(
            decode(&file[..len], &mut buf, ColorType::Rgb888),
            Err(Error::InputBufferTooSmall),
        );
    }
    // Header present but the pixel region one byte short.
    assert_eq!(
        decode(&file[..file.len() - 1], &mut buf, ColorType::Rgb888),
        Err(Error::InputBufferTooSmall),
    );
}

#[test]
fn decode_rejects_bad_magic() {
    let pixels: Vec<u16> = vec![0x1234; 4];
    let mut file = sample_file(2, 2, None, DataEndian::Little, &pixels);
    file[0] = 0x4B;
    let mut buf = vec![0u8; 64];
    assert_eq!(decode(&file[..12], &mut buf, ColorType::Rgb888), Err(Error::UnsupportedFormat));
    assert_eq!(decode(&file, &mut buf, ColorType::Rgb888), Err(Error::UnsupportedFormat));
}

#[test]
fn decode_rejects_zero_dimensions() {
    let file = sample_file(1, 1, None, DataEndian::Little, &[0x1234]);
    let mut zero_w = file.clone();
    zero_w[6] = 0;
    zero_w[7] = 0;
    let mut buf = vec![0u8; 16];
    assert_eq!(decode(&zero_w, &mut buf, ColorType::Rgb565), Err(Error::UnsupportedFormat));
    let mut zero_h = file.clone();
    zero_h[8] = 0;
    zero_h[9] = 0;
    assert_eq!(decode(&zero_h, &mut buf, ColorType::Rgb565), Err(Error::UnsupportedFormat));
}

#[test]
fn encode_rejects_zero_dimensions() {
    let spec = ImageSpec::new(0, 4);
    let data = vec![0u8; 16];
    let mut buf = vec![0u8; 64];
    assert_eq!(encode(&data, &mut buf, &spec, ColorType::Rgb888), Err(Error::ZeroImageDimensions));
    assert_eq!(encode_header(&mut buf, &spec), Err(Error::ZeroImageDimensions));
}

#[test]
fn encode_rejects_short_buffers() {
    // A size below one block and one well above it.
    for n in [3u16, 40u16] {
        let spec = ImageSpec::new(n, 1);
        let np = n as usize;
        let data = vec![0u8; 3 * np];
        let mut exact = vec![0u8; HEADER_SIZE + 2 * np];
        assert_eq!(
            encode(&data, &mut exact, &spec, ColorType::Rgb888),
            Ok(HEADER_SIZE + 2 * np),
        );
        let mut short = vec![0u8; HEADER_SIZE + 2 * np - 1];
        assert_eq!(
            encode(&data, &mut short, &spec, ColorType::Rgb888),
            Err(Error::OutputBufferTooSmall),
        );
        let short_data = vec![0u8; 3 * np - 1];
        assert_eq!(
            encode(&short_data, &mut exact, &spec, ColorType::Rgb888),
            Err(Error::InputBufferTooSmall),
        );
        assert_eq!(
            encode_data(&short_data, &mut exact, &spec, ColorType::Rgb888),
            Err(Error::InputBufferTooSmall),
        );
        let mut short_out = vec![0u8; 2 * np - 1];
        assert_eq!(
            encode_data(&data, &mut short_out, &spec, ColorType::Rgb888),
            Err(Error::OutputBufferTooSmall),
        );
    }
}

#[test]
fn decode_rejects_short_output() {
    for n in [3u16, 40u16] {
        let np = n as usize;
        let pixels: Vec<u16> = (0..np as u32).map(|i| (i * 77) as u16).collect();
        let file = sample_file(n, 1, None, DataEndian::Little, &pixels);
        let mut exact = vec![0u8; 3 * np];
        assert!(decode(&file, &mut exact, ColorType::Rgb888).is_ok());
        let mut short = vec![0u8; 3 * np - 1];
        assert_eq!(
            decode(&file, &mut short, ColorType::Rgb888),
            Err(Error::OutputBufferTooSmall),
        );
        assert_eq!(
            decode_data(
                &file[HEADER_SIZE..HEADER_SIZE + 2 * np - 1],
                &mut exact,
                &ImageSpec::new(n, 1),
                ColorType::Rgb888,
            ),
            Err(Error::InputBufferTooSmall),
        );
    }
}

#[test]
fn color_key_alpha_with_key_present() {
    // 20 pixels; pixels 3, 7 and 19 carry the key value.
    let key: u16 = rgb_to_pixel([255, 0, 255]);
    let mut pixels: Vec<u16> = (0..20u16).map(|i| i * 123).collect();
    pixels[3] = key;
    pixels[7] = key;
    pixels[19] = key;
    for &e in [DataEndian::Big, DataEndian::Little].iter() {
        let file = sample_file(5, 4, Some(key), e, &pixels);
        let mut buf = vec![0u8; 20 * 4];
        let (_, written) = decode(&file, &mut buf, ColorType::Rgba8888).unwrap();
        assert_eq!(written, 80);
        for i in 0..20usize {
            let expected = if pixels[i] == key { 0 } else { 0xFF };
            assert_eq!(buf[4 * i + 3], expected, "pixel {}", i);
            let rgb = pixel_to_rgb(pixels[i]);
            assert_eq!(&buf[4 * i..4 * i + 3], &rgb[..]);
        }
    }
}

#[test]
fn color_key_alpha_without_key() {
    let pixels: Vec<u16> = (0..20u16).map(|i| i * 123).collect();
    let file = sample_file(4, 5, None, DataEndian::Little, &pixels);
    let mut buf = vec![0u8; 20 * 4];
    decode(&file, &mut buf, ColorType::Rgba8888).unwrap();
    for i in 0..20usize {
        assert_eq!(buf[4 * i + 3], 0xFF);
    }
}

#[test]
fn decode_rgb888_values() {
    // One pixel: full red in big-endian stream order.
    let file = sample_file(1, 1, None, DataEndian::Big, &[0xF800]);
    let mut buf = vec![0u8; 3];
    let (spec, written) = decode(&file, &mut buf, ColorType::Rgb888).unwrap();
    assert_eq!(written, 3);
    assert_eq!(spec.data_endian, DataEndian::Big);
    assert_eq!(buf, vec![255, 0, 0]);
}

#[test]
fn encode_writes_header_and_pixels() {
    let spec = ImageSpec::with_data_endian(2, 1, DataEndian::Big);
    let data: Vec<u8> = vec![255, 255, 255, 0, 128, 255];
    let mut out = vec![0u8; encoded_size(&spec)];
    let written = encode(&data, &mut out, &spec, ColorType::Rgb888).unwrap();
    assert_eq!(written, 16);
    assert_eq!(&out[..12], &[0x4C, 0x49, 0x4D, 0x47, 1, 0, 2, 0, 1, 0, 0, 0]);
    assert_eq!(&out[12..], &[0xFF, 0xFF, 0x04, 0x1F]);
}
