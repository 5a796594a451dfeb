//! Codec for the Limg image format: a 12-byte header followed by a dense
//! stream of 16-bit packed RGB565 pixels, convertible to and from three
//! in-memory pixel layouts (RGB888, RGB565, RGBA8888).
//!
//! Every conversion routine carries a contract that pins each output byte to
//! the bit-level pixel formulas, and the bulk (block-at-a-time) engines are
//! proved to produce byte-identical output to the scalar reference engine.

use vstd::prelude::*;

pub mod color;
pub mod decode;
pub mod encode;
pub mod error;
pub mod header;
pub mod image_spec;
pub mod lanes;
pub mod laws;
pub mod model;
pub mod pixel;
pub mod scalar;
pub mod wide128;
pub mod wide256;

pub use color::ColorType;
pub use decode::{decode, decode_data, decode_header, decoded_size};
pub use encode::{encode, encode_data, encode_header, encoded_size};
pub use error::Error;
pub use header::{ImageHeader, CURRENT_VARSION, HEADER_SIZE};
pub use image_spec::{DataEndian, ImageSpec};
pub use pixel::{pixel_to_rgb, rgb_to_pixel, PIXEL_BYTES};

