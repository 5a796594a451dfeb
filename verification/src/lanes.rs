//! A verified model of the wide integer registers the bulk engines run on:
//! a vector of 16-bit lanes with the shift, mask, compare, byte-swap and
//! load/store operations the conversions need. `M128I` holds eight lanes
//! (128 bits), `M256I` sixteen (256 bits). Every operation carries an exact
//! per-lane contract, so a pipeline of them can be proved byte-identical to
//! the scalar reference.

use vstd::prelude::*;

use crate::image_spec::DataEndian;
use crate::model::{spec_alpha, spec_pixel_byte, spec_pixel_from_bytes};
use crate::pixel::{
    spec_pixel_to_blue, spec_pixel_to_green, spec_pixel_to_red, spec_rgb_to_pixel, PIXEL_B_MASK,
    PIXEL_G_MASK, PIXEL_R_MASK,
};

verus! {

broadcast use vstd::group_vstd_default, crate::model::lemma_slice_len_fits;

/// A 16-bit lane with its bytes swapped.
pub open spec fn spec_swap16(x: u16) -> u16 {
    (x << 8) | (x >> 8)
}

/// A lane reordered for a stream byte order: swapped for big-endian, kept
/// for little-endian. On a little-endian store this realizes the requested
/// order.
pub open spec fn spec_endian16(x: u16, e: DataEndian) -> u16 {
    match e {
        DataEndian::Big => spec_swap16(x),
        DataEndian::Little => x,
    }
}

/// The all-ones-or-all-zeros lane a 16-bit compare produces.
pub open spec fn spec_lane_eq(a: u16, b: u16) -> u16 {
    if a == b {
        0xFFFF
    } else {
        0
    }
}

/// Loads `N` lanes from consecutive little-endian byte pairs.
fn load_lanes<const N: usize>(data: &[u8], off: usize) -> (r: [u16; N])
    requires
        off + 2 * N <= data@.len(),
    ensures
        forall|i: int|
            0 <= i < N ==> r@[i] == spec_pixel_from_bytes(
                data@[off + 2 * i],
                data@[off + 2 * i + 1],
                DataEndian::Little,
            ),
{
    let mut r = [0u16; N];
    let mut i: usize = 0;
    while i < N
        invariant
            i <= N,
            off + 2 * N <= data@.len(),
            forall|k: int|
                0 <= k < i ==> r@[k] == spec_pixel_from_bytes(
                    data@[off + 2 * k],
                    data@[off + 2 * k + 1],
                    DataEndian::Little,
                ),
        decreases N - i,
    {
        r[i] = ((data[off + 2 * i + 1] as u16) << 8) | (data[off + 2 * i] as u16);
        i += 1;
    }
    r
}

/// Stores `N` lanes as consecutive little-endian byte pairs; every byte
/// outside the stored range is unchanged.
fn store_lanes<const N: usize>(a: &[u16; N], buf: &mut [u8], off: usize)
    requires
        off + 2 * N <= old(buf)@.len(),
    ensures
        final(buf)@.len() == old(buf)@.len(),
        forall|i: int|
            0 <= i < N ==> final(buf)@[off + 2 * i] == (a@[i] & 0xFF) as u8 && final(buf)@[off + 2
                * i + 1] == (a@[i] >> 8) as u8,
        forall|j: int|
            0 <= j < old(buf)@.len() && !(off <= j < off + 2 * N) ==> final(buf)@[j] == old(
                buf,
            )@[j],
{
    let mut i: usize = 0;
    while i < N
        invariant
            i <= N,
            off + 2 * N <= old(buf)@.len(),
            buf@.len() == old(buf)@.len(),
            forall|k: int|
                0 <= k < i ==> buf@[off + 2 * k] == (a@[k] & 0xFF) as u8 && buf@[off + 2 * k + 1]
                    == (a@[k] >> 8) as u8,
            forall|j: int|
                0 <= j < old(buf)@.len() && !(off <= j < off + 2 * i) ==> buf@[j] == old(buf)@[j],
        decreases N - i,
    {
        buf[off + 2 * i] = (a[i] & 0xFF) as u8;
        buf[off + 2 * i + 1] = (a[i] >> 8) as u8;
        i += 1;
    }
}

/// Shifts every lane left by `k` bits.
fn shl_lanes<const N: usize>(a: &[u16; N], k: u16) -> (r: [u16; N])
    requires
        k < 16,
    ensures
        forall|i: int| 0 <= i < N ==> r@[i] == a@[i] << k,
{
    let mut r = [0u16; N];
    let mut i: usize = 0;
    while i < N
        invariant
            i <= N,
            k < 16,
            forall|j: int| 0 <= j < i ==> r@[j] == a@[j] << k,
        decreases N - i,
    {
        r[i] = a[i] << k;
        i += 1;
    }
    r
}

/// Shifts every lane right by `k` bits.
fn shr_lanes<const N: usize>(a: &[u16; N], k: u16) -> (r: [u16; N])
    requires
        k < 16,
    ensures
        forall|i: int| 0 <= i < N ==> r@[i] == a@[i] >> k,
{
    let mut r = [0u16; N];
    let mut i: usize = 0;
    while i < N
        invariant
            i <= N,
            k < 16,
            forall|j: int| 0 <= j < i ==> r@[j] == a@[j] >> k,
        decreases N - i,
    {
        r[i] = a[i] >> k;
        i += 1;
    }
    r
}

/// Bitwise and of two lane vectors.
fn and_lanes<const N: usize>(a: &[u16; N], b: &[u16; N]) -> (r: [u16; N])
    ensures
        forall|i: int| 0 <= i < N ==> r@[i] == (a@[i] & b@[i]),
{
    let mut r = [0u16; N];
    let mut i: usize = 0;
    while i < N
        invariant
            i <= N,
            forall|j: int| 0 <= j < i ==> r@[j] == (a@[j] & b@[j]),
        decreases N - i,
    {
        r[i] = a[i] & b[i];
        i += 1;
    }
    r
}

/// Bitwise or of two lane vectors.
fn or_lanes<const N: usize>(a: &[u16; N], b: &[u16; N]) -> (r: [u16; N])
    ensures
        forall|i: int| 0 <= i < N ==> r@[i] == (a@[i] | b@[i]),
{
    let mut r = [0u16; N];
    let mut i: usize = 0;
    while i < N
        invariant
            i <= N,
            forall|j: int| 0 <= j < i ==> r@[j] == (a@[j] | b@[j]),
        decreases N - i,
    {
        r[i] = a[i] | b[i];
        i += 1;
    }
    r
}

/// Bitwise not of every lane.
fn not_lanes<const N: usize>(a: &[u16; N]) -> (r: [u16; N])
    ensures
        forall|i: int| 0 <= i < N ==> r@[i] == !a@[i],
{
    let mut r = [0u16; N];
    let mut i: usize = 0;
    while i < N
        invariant
            i <= N,
            forall|j: int| 0 <= j < i ==> r@[j] == !a@[j],
        decreases N - i,
    {
        r[i] = !a[i];
        i += 1;
    }
    r
}

/// Byte swap inside every lane.
fn swap_lanes<const N: usize>(a: &[u16; N]) -> (r: [u16; N])
    ensures
        forall|i: int| 0 <= i < N ==> r@[i] == spec_swap16(a@[i]),
{
    let mut r = [0u16; N];
    let mut i: usize = 0;
    while i < N
        invariant
            i <= N,
            forall|j: int| 0 <= j < i ==> r@[j] == spec_swap16(a@[j]),
        decreases N - i,
    {
        r[i] = (a[i] << 8) | (a[i] >> 8);
        i += 1;
    }
    r
}

/// Lane-by-lane 16-bit equality compare: all ones where equal, zero where
/// not.
fn cmpeq_lanes<const N: usize>(a: &[u16; N], b: &[u16; N]) -> (r: [u16; N])
    ensures
        forall|i: int| 0 <= i < N ==> r@[i] == spec_lane_eq(a@[i], b@[i]),
{
    let mut r = [0u16; N];
    let mut i: usize = 0;
    while i < N
        invariant
            i <= N,
            forall|j: int| 0 <= j < i ==> r@[j] == spec_lane_eq(a@[j], b@[j]),
        decreases N - i,
    {
        r[i] = if a[i] == b[i] {
            0xFFFF
        } else {
            0
        };
        i += 1;
    }
    r
}

/// Gathers one byte per pixel into lanes: lane `i` holds
/// `data[off + stride * i + channel]`. This stands for the byte-shuffle and
/// or sequence that separates interleaved channel bytes into parallel lanes.
fn gather_lanes<const N: usize>(data: &[u8], off: usize, stride: usize, channel: usize) -> (r:
    [u16; N])
    requires
        N >= 1,
        off + stride * (N - 1) + channel < data@.len(),
    ensures
        forall|i: int| 0 <= i < N ==> r@[i] == data@[off + stride * i + channel] as u16,
        forall|i: int| 0 <= i < N ==> r@[i] < 256,
{
    let mut r = [0u16; N];
    let mut i: usize = 0;
    while i < N
        invariant
            i <= N,
            N >= 1,
            off + stride * (N - 1) + channel < data@.len(),
            forall|k: int|
                0 <= k < i ==> r@[k] == data@[off + stride * k + channel] as u16 && r@[k] < 256,
        decreases N - i,
    {
        proof {
            assert(stride * i <= stride * (N - 1)) by (nonlinear_arith)
                requires
                    0 <= stride,
                    i <= N - 1,
            ;
        }
        r[i] = data[off + stride * i + channel] as u16;
        i += 1;
    }
    r
}

/// Interleaves three channel lane vectors into RGB888 pixel bytes: pixel
/// `i` gets the low byte of lane `i` of each vector. This stands for the
/// byte-shuffle and or sequence that re-interleaves parallel lanes.
pub(crate) fn store_rgb888_lanes<const N: usize>(
    r: &[u16; N],
    g: &[u16; N],
    b: &[u16; N],
    buf: &mut [u8],
    off: usize,
)
    requires
        off + 3 * N <= old(buf)@.len(),
    ensures
        final(buf)@.len() == old(buf)@.len(),
        forall|i: int|
            0 <= i < N ==> final(buf)@[off + 3 * i] == (r@[i] & 0xFF) as u8 && final(buf)@[off + 3
                * i + 1] == (g@[i] & 0xFF) as u8 && final(buf)@[off + 3 * i + 2] == (b@[i]
                & 0xFF) as u8,
        forall|j: int|
            0 <= j < old(buf)@.len() && !(off <= j < off + 3 * N) ==> final(buf)@[j] == old(
                buf,
            )@[j],
{
    let mut i: usize = 0;
    while i < N
        invariant
            i <= N,
            off + 3 * N <= old(buf)@.len(),
            buf@.len() == old(buf)@.len(),
            forall|k: int|
                0 <= k < i ==> buf@[off + 3 * k] == (r@[k] & 0xFF) as u8 && buf@[off + 3 * k + 1]
                    == (g@[k] & 0xFF) as u8 && buf@[off + 3 * k + 2] == (b@[k] & 0xFF) as u8,
            forall|j: int|
                0 <= j < old(buf)@.len() && !(off <= j < off + 3 * i) ==> buf@[j] == old(buf)@[j],
        decreases N - i,
    {
        buf[off + 3 * i] = (r[i] & 0xFF) as u8;
        buf[off + 3 * i + 1] = (g[i] & 0xFF) as u8;
        buf[off + 3 * i + 2] = (b[i] & 0xFF) as u8;
        i += 1;
    }
}

/// Interleaves four channel lane vectors into RGBA8888 pixel bytes: pixel
/// `i` gets the low byte of lane `i` of each vector.
pub(crate) fn store_rgba8888_lanes<const N: usize>(
    r: &[u16; N],
    g: &[u16; N],
    b: &[u16; N],
    a: &[u16; N],
    buf: &mut [u8],
    off: usize,
)
    requires
        off + 4 * N <= old(buf)@.len(),
    ensures
        final(buf)@.len() == old(buf)@.len(),
        forall|i: int|
            0 <= i < N ==> final(buf)@[off + 4 * i] == (r@[i] & 0xFF) as u8 && final(buf)@[off + 4
                * i + 1] == (g@[i] & 0xFF) as u8 && final(buf)@[off + 4 * i + 2] == (b@[i]
                & 0xFF) as u8 && final(buf)@[off + 4 * i + 3] == (a@[i] & 0xFF) as u8,
        forall|j: int|
            0 <= j < old(buf)@.len() && !(off <= j < off + 4 * N) ==> final(buf)@[j] == old(
                buf,
            )@[j],
{
    let mut i: usize = 0;
    while i < N
        invariant
            i <= N,
            off + 4 * N <= old(buf)@.len(),
            buf@.len() == old(buf)@.len(),
            forall|k: int|
                0 <= k < i ==> buf@[off + 4 * k] == (r@[k] & 0xFF) as u8 && buf@[off + 4 * k + 1]
                    == (g@[k] & 0xFF) as u8 && buf@[off + 4 * k + 2] == (b@[k] & 0xFF) as u8
                    && buf@[off + 4 * k + 3] == (a@[k] & 0xFF) as u8,
            forall|j: int|
                0 <= j < old(buf)@.len() && !(off <= j < off + 4 * i) ==> buf@[j] == old(buf)@[j],
        decreases N - i,
    {
        buf[off + 4 * i] = (r[i] & 0xFF) as u8;
        buf[off + 4 * i + 1] = (g[i] & 0xFF) as u8;
        buf[off + 4 * i + 2] = (b[i] & 0xFF) as u8;
        buf[off + 4 * i + 3] = (a[i] & 0xFF) as u8;
        i += 1;
    }
}

/// Loading little-endian lanes and reordering them for stream order `e`
/// yields exactly the stream pixel read in order `e`.
pub proof fn lemma_load_endian(b0: u8, b1: u8, e: DataEndian)
    ensures
        spec_endian16(spec_pixel_from_bytes(b0, b1, DataEndian::Little), e) == spec_pixel_from_bytes(
            b0,
            b1,
            e,
        ),
{
    match e {
        DataEndian::Big => {
            assert((((((b1 as u16) << 8) | (b0 as u16)) << 8) | ((((b1 as u16) << 8) | (
            b0 as u16)) >> 8)) == (((b0 as u16) << 8) | (b1 as u16))) by (bit_vector);
        },
        DataEndian::Little => {
        },
    }
}

/// Reordering a pixel for stream order `e` and storing it as little-endian
/// bytes produces the stream bytes of order `e`.
pub proof fn lemma_store_endian(p: u16, e: DataEndian)
    ensures
        (spec_endian16(p, e) & 0xFF) as u8 == spec_pixel_byte(p, e, 0),
        (spec_endian16(p, e) >> 8) as u8 == spec_pixel_byte(p, e, 1),
{
    match e {
        DataEndian::Big => {
            assert((((p << 8) | (p >> 8)) & 0xFF) as u8 == (p >> 8) as u8) by (bit_vector);
            assert((((p << 8) | (p >> 8)) >> 8) as u8 == (p & 0xFF) as u8) by (bit_vector);
        },
        DataEndian::Little => {
        },
    }
}

/// The lane pipeline that widens each field of a packed pixel — mask,
/// shift down, then replicate — computes the scalar unpack formulas in its
/// low byte.
pub proof fn lemma_decode_channels(p: u16)
    ensures
        ((((((p & PIXEL_R_MASK) >> 11) << 3) | (((p & PIXEL_R_MASK) >> 11) >> 2)) & 0xFF) as u8)
            == spec_pixel_to_red(p),
        ((((((p & PIXEL_G_MASK) >> 5) << 2) | (((p & PIXEL_G_MASK) >> 5) >> 4)) & 0xFF) as u8)
            == spec_pixel_to_green(p),
        (((((p & PIXEL_B_MASK) << 3) | ((p & PIXEL_B_MASK) >> 2)) & 0xFF) as u8)
            == spec_pixel_to_blue(p),
{
    assert(((((((p & 0xF800) >> 11) << 3) | (((p & 0xF800) >> 11) >> 2)) & 0xFF) as u8) == ((((p
        & 0xF800) >> 11) as u8) << 3) | ((((p & 0xF800) >> 11) as u8) >> 2)) by (bit_vector);
    assert(((((((p & 0x07E0) >> 5) << 2) | (((p & 0x07E0) >> 5) >> 4)) & 0xFF) as u8) == ((((p
        & 0x07E0) >> 5) as u8) << 2) | ((((p & 0x07E0) >> 5) as u8) >> 4)) by (bit_vector);
    assert((((((p & 0x001F) << 3) | ((p & 0x001F) >> 2)) & 0xFF) as u8) == (((p & 0x001F) as u8)
        << 3) | (((p & 0x001F) as u8) >> 2)) by (bit_vector);
}

/// The lane pipeline that compares a pixel against the broadcast key,
/// inverts the mask and shifts it down computes the alpha byte in its low
/// byte.
pub proof fn lemma_alpha_lanes(p: u16, k: u16)
    ensures
        ((((!spec_lane_eq(p, k)) >> 8) & 0xFF) as u8) == spec_alpha(p, Some(k)),
        ((0xFFu16 & 0xFF) as u8) == spec_alpha(p, None::<u16>),
{
    assert((((!0xFFFFu16) >> 8) & 0xFF) as u8 == 0) by (bit_vector);
    assert((((!0u16) >> 8) & 0xFF) as u8 == 0xFF) by (bit_vector);
    assert((0xFFu16 & 0xFF) as u8 == 0xFF) by (bit_vector);
}

/// The lane pipeline that narrows three channel bytes — shift down, shift
/// into place, or together — packs them exactly as the scalar formula does.
pub proof fn lemma_encode_channels(r: u8, g: u8, b: u8)
    ensures
        ((((((r as u16) >> 3) << 11) | (((g as u16) >> 2) << 5)) | ((b as u16) >> 3)))
            == spec_rgb_to_pixel(r, g, b),
{
    assert((((((r as u16) >> 3) << 11) | (((g as u16) >> 2) << 5)) | ((b as u16) >> 3)) == (((((
    r as u16) << 8) & 0xF800) | (((g as u16) << 3) & 0x07E0)) | (((b as u16) >> 3)
        & 0x001F))) by (bit_vector);
}

/// A 128-bit register model: eight 16-bit lanes.
#[derive(Clone, Copy, Debug)]
pub struct M128I {
    /// The lanes, lowest-addressed first.
    pub lanes: [u16; 8],
}

impl M128I {
    /// Loads eight lanes from sixteen bytes, little-endian pairs.
    pub fn loadu_si128(data: &[u8], off: usize) -> (r: M128I)
        requires
            off + 16 <= data@.len(),
        ensures
            forall|i: int|
                0 <= i < 8 ==> r.lanes@[i] == spec_pixel_from_bytes(
                    data@[off + 2 * i],
                    data@[off + 2 * i + 1],
                    DataEndian::Little,
                ),
    {
        M128I { lanes: load_lanes::<8>(data, off) }
    }

    /// Stores eight lanes as sixteen bytes, little-endian pairs.
    pub fn storeu_si128(self, buf: &mut [u8], off: usize)
        requires
            off + 16 <= old(buf)@.len(),
        ensures
            final(buf)@.len() == old(buf)@.len(),
            forall|i: int|
                0 <= i < 8 ==> final(buf)@[off + 2 * i] == (self.lanes@[i] & 0xFF) as u8 && final(buf)@[off + 2 * i + 1] == (self.lanes@[i] >> 8) as u8,
            forall|j: int|
                0 <= j < old(buf)@.len() && !(off <= j < off + 16) ==> final(buf)@[j] == old(buf)@[j],
    {
        store_lanes::<8>(&self.lanes, buf, off);
    }

    /// Gathers one byte per pixel into lanes, the shuffle that separates an
    /// interleaved channel.
    pub fn gather_epi16(data: &[u8], off: usize, stride: usize, channel: usize) -> (r: M128I)
        requires
            off + stride * 7 + channel < data@.len(),
        ensures
            forall|i: int| 0 <= i < 8 ==> r.lanes@[i] == data@[off + stride * i + channel] as u16,
            forall|i: int| 0 <= i < 8 ==> r.lanes@[i] < 256,
    {
        M128I { lanes: gather_lanes::<8>(data, off, stride, channel) }
    }

    /// Shifts every lane left.
    pub fn slli_epi16(self, k: u16) -> (r: M128I)
        requires
            k < 16,
        ensures
            forall|i: int| 0 <= i < 8 ==> r.lanes@[i] == self.lanes@[i] << k,
    {
        M128I { lanes: shl_lanes::<8>(&self.lanes, k) }
    }

    /// Shifts every lane right.
    pub fn srli_epi16(self, k: u16) -> (r: M128I)
        requires
            k < 16,
        ensures
            forall|i: int| 0 <= i < 8 ==> r.lanes@[i] == self.lanes@[i] >> k,
    {
        M128I { lanes: shr_lanes::<8>(&self.lanes, k) }
    }

    /// Bitwise and, lane by lane.
    pub fn and_si128(self, other: M128I) -> (r: M128I)
        ensures
            forall|i: int| 0 <= i < 8 ==> r.lanes@[i] == (self.lanes@[i] & other.lanes@[i]),
    {
        M128I { lanes: and_lanes::<8>(&self.lanes, &other.lanes) }
    }

    /// Bitwise or, lane by lane.
    pub fn or_si128(self, other: M128I) -> (r: M128I)
        ensures
            forall|i: int| 0 <= i < 8 ==> r.lanes@[i] == (self.lanes@[i] | other.lanes@[i]),
    {
        M128I { lanes: or_lanes::<8>(&self.lanes, &other.lanes) }
    }

    /// Bitwise not of every lane.
    pub fn not_si128(self) -> (r: M128I)
        ensures
            forall|i: int| 0 <= i < 8 ==> r.lanes@[i] == !self.lanes@[i],
    {
        M128I { lanes: not_lanes::<8>(&self.lanes) }
    }

    /// Byte swap inside every lane.
    pub fn swap_epi16(self) -> (r: M128I)
        ensures
            forall|i: int| 0 <= i < 8 ==> r.lanes@[i] == spec_swap16(self.lanes@[i]),
    {
        M128I { lanes: swap_lanes::<8>(&self.lanes) }
    }

    /// Reorders every lane for the requested stream byte order: a byte swap
    /// for big-endian, the identity for little-endian.
    pub fn endian_epi16(self, e: DataEndian) -> (r: M128I)
        ensures
            forall|i: int| 0 <= i < 8 ==> r.lanes@[i] == spec_endian16(self.lanes@[i], e),
    {
        match e {
            DataEndian::Big => self.swap_epi16(),
            DataEndian::Little => self,
        }
    }

    /// Broadcasts one value into every lane.
    pub fn set1_epi16(v: u16) -> (r: M128I)
        ensures
            forall|i: int| 0 <= i < 8 ==> r.lanes@[i] == v,
    {
        M128I { lanes: [v;8] }
    }

    /// Lane-by-lane equality compare: all ones where equal, zero where not.
    pub fn cmpeq_epi16(self, other: M128I) -> (r: M128I)
        ensures
            forall|i: int|
                0 <= i < 8 ==> r.lanes@[i] == spec_lane_eq(self.lanes@[i], other.lanes@[i]),
    {
        M128I { lanes: cmpeq_lanes::<8>(&self.lanes, &other.lanes) }
    }
}

/// A 256-bit register model: sixteen 16-bit lanes.
#[derive(Clone, Copy, Debug)]
pub struct M256I {
    /// The lanes, lowest-addressed first.
    pub lanes: [u16; 16],
}

impl M256I {
    /// Loads sixteen lanes from thirty-two bytes, little-endian pairs.
    pub fn loadu_si256(data: &[u8], off: usize) -> (r: M256I)
        requires
            off + 32 <= data@.len(),
        ensures
            forall|i: int|
                0 <= i < 16 ==> r.lanes@[i] == spec_pixel_from_bytes(
                    data@[off + 2 * i],
                    data@[off + 2 * i + 1],
                    DataEndian::Little,
                ),
    {
        M256I { lanes: load_lanes::<16>(data, off) }
    }

    /// Stores sixteen lanes as thirty-two bytes, little-endian pairs.
    pub fn storeu_si256(self, buf: &mut [u8], off: usize)
        requires
            off + 32 <= old(buf)@.len(),
        ensures
            final(buf)@.len() == old(buf)@.len(),
            forall|i: int|
                0 <= i < 16 ==> final(buf)@[off + 2 * i] == (self.lanes@[i] & 0xFF) as u8 && final(buf)@[off + 2 * i + 1] == (self.lanes@[i] >> 8) as u8,
            forall|j: int|
                0 <= j < old(buf)@.len() && !(off <= j < off + 32) ==> final(buf)@[j] == old(buf)@[j],
    {
        store_lanes::<16>(&self.lanes, buf, off);
    }

    /// Gathers one byte per pixel into lanes, the shuffle that separates an
    /// interleaved channel.
    pub fn gather_epi16(data: &[u8], off: usize, stride: usize, channel: usize) -> (r: M256I)
        requires
            off + stride * 15 + channel < data@.len(),
        ensures
            forall|i: int| 0 <= i < 16 ==> r.lanes@[i] == data@[off + stride * i + channel] as u16,
            forall|i: int| 0 <= i < 16 ==> r.lanes@[i] < 256,
    {
        M256I { lanes: gather_lanes::<16>(data, off, stride, channel) }
    }

    /// Shifts every lane left.
    pub fn slli_epi16(self, k: u16) -> (r: M256I)
        requires
            k < 16,
        ensures
            forall|i: int| 0 <= i < 16 ==> r.lanes@[i] == self.lanes@[i] << k,
    {
        M256I { lanes: shl_lanes::<16>(&self.lanes, k) }
    }

    /// Shifts every lane right.
    pub fn srli_epi16(self, k: u16) -> (r: M256I)
        requires
            k < 16,
        ensures
            forall|i: int| 0 <= i < 16 ==> r.lanes@[i] == self.lanes@[i] >> k,
    {
        M256I { lanes: shr_lanes::<16>(&self.lanes, k) }
    }

    /// Bitwise and, lane by lane.
    pub fn and_si256(self, other: M256I) -> (r: M256I)
        ensures
            forall|i: int| 0 <= i < 16 ==> r.lanes@[i] == (self.lanes@[i] & other.lanes@[i]),
    {
        M256I { lanes: and_lanes::<16>(&self.lanes, &other.lanes) }
    }

    /// Bitwise or, lane by lane.
    pub fn or_si256(self, other: M256I) -> (r: M256I)
        ensures
            forall|i: int| 0 <= i < 16 ==> r.lanes@[i] == (self.lanes@[i] | other.lanes@[i]),
    {
        M256I { lanes: or_lanes::<16>(&self.lanes, &other.lanes) }
    }

    /// Bitwise not of every lane.
    pub fn not_si256(self) -> (r: M256I)
        ensures
            forall|i: int| 0 <= i < 16 ==> r.lanes@[i] == !self.lanes@[i],
    {
        M256I { lanes: not_lanes::<16>(&self.lanes) }
    }

    /// Byte swap inside every lane.
    pub fn swap_epi16(self) -> (r: M256I)
        ensures
            forall|i: int| 0 <= i < 16 ==> r.lanes@[i] == spec_swap16(self.lanes@[i]),
    {
        M256I { lanes: swap_lanes::<16>(&self.lanes) }
    }

    /// Reorders every lane for the requested stream byte order: a byte swap
    /// for big-endian, the identity for little-endian.
    pub fn endian_epi16(self, e: DataEndian) -> (r: M256I)
        ensures
            forall|i: int| 0 <= i < 16 ==> r.lanes@[i] == spec_endian16(self.lanes@[i], e),
    {
        match e {
            DataEndian::Big => self.swap_epi16(),
            DataEndian::Little => self,
        }
    }

    /// Broadcasts one value into every lane.
    pub fn set1_epi16(v: u16) -> (r: M256I)
        ensures
            forall|i: int| 0 <= i < 16 ==> r.lanes@[i] == v,
    {
        M256I { lanes: [v;16] }
    }

    /// Lane-by-lane equality compare: all ones where equal, zero where not.
    pub fn cmpeq_epi16(self, other: M256I) -> (r: M256I)
        ensures
            forall|i: int|
                0 <= i < 16 ==> r.lanes@[i] == spec_lane_eq(self.lanes@[i], other.lanes@[i]),
    {
        M256I { lanes: cmpeq_lanes::<16>(&self.lanes, &other.lanes) }
    }
}

} // verus!
