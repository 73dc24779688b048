//! NV12 to RGB24 color conversion.
//!
//! A transform standard is a pair of luma-derivation coefficients
//! `(kr, kb)` of a YCbCr family.  The coefficients of the two supported
//! standards are exact multiples of 1/10000, so they are carried as
//! integer numerators over [`MATRIX_DENOM`] and every per-pixel channel
//! value is computed exactly, as a rational number scaled to `[0, 255]`,
//! rounded to nearest (ties away from zero) and clamped.
use vstd::prelude::*;

verus! {

use vstd::arithmetic::div_mod::{lemma_fundamental_div_mod_converse, lemma_mod_bound};

/// Common denominator of the stored coefficient numerators.
pub const MATRIX_DENOM: u32 = 10000;

/// A YCbCr transform standard: its display name and the `kr`, `kb`
/// coefficients as numerators over [`MATRIX_DENOM`].
pub struct YuvMatrix {
    /// Display name of the standard.
    pub name: &'static str,
    /// Red luma coefficient, in ten-thousandths.
    pub kr_num: u32,
    /// Blue luma coefficient, in ten-thousandths.
    pub kb_num: u32,
}

/// Both coefficients lie strictly between 0 and 1 and sum to less than 1,
/// so the derived green coefficient `kg = 1 - kr - kb` is positive.
pub open spec fn matrix_valid(m: YuvMatrix) -> bool {
    0 < m.kr_num && 0 < m.kb_num && m.kr_num + m.kb_num < MATRIX_DENOM
}

/// Numerator of `kg = 1 - kr - kb` over [`MATRIX_DENOM`].
pub open spec fn kg_num(m: YuvMatrix) -> int {
    MATRIX_DENOM - m.kr_num - m.kb_num
}

/// The legacy standard-definition family as a value.
pub open spec fn spec_bt601() -> YuvMatrix {
    YuvMatrix { name: "BT.601", kr_num: 2990, kb_num: 1140 }
}

/// The high-definition family as a value.
pub open spec fn spec_bt709() -> YuvMatrix {
    YuvMatrix { name: "BT.709", kr_num: 2126, kb_num: 722 }
}

/// The legacy standard-definition family (`kr = 0.299`, `kb = 0.114`).
pub fn bt601() -> (m: YuvMatrix)
    ensures
        m == spec_bt601(),
        m.kr_num == 2990,
        m.kb_num == 1140,
        m.name@ == "BT.601"@,
        matrix_valid(m),
{
    YuvMatrix { name: "BT.601", kr_num: 2990, kb_num: 1140 }
}

/// The high-definition family (`kr = 0.2126`, `kb = 0.0722`).
pub fn bt709() -> (m: YuvMatrix)
    ensures
        m == spec_bt709(),
        m.kr_num == 2126,
        m.kb_num == 722,
        m.name@ == "BT.709"@,
        matrix_valid(m),
{
    YuvMatrix { name: "BT.709", kr_num: 2126, kb_num: 722 }
}

/// Luma level that maps to black: 0 in full range, 16 in limited range.
pub open spec fn luma_zero(full_range: bool) -> int {
    if full_range {
        0
    } else {
        16
    }
}

/// Span of the luma scale: 255 in full range, 219 in limited range.
pub open spec fn luma_scale(full_range: bool) -> int {
    if full_range {
        255
    } else {
        219
    }
}

/// Span of the chroma scale: 255 in full range, 224 in limited range.
pub open spec fn chroma_scale(full_range: bool) -> int {
    if full_range {
        255
    } else {
        224
    }
}

/// Numerator of the red channel scaled to `[0, 255]`:
/// `255 * (Y' + 2(1-kr)·Cr')` over [`rb_den`].
pub open spec fn red_num(m: YuvMatrix, full_range: bool, y: int, cr: int) -> int {
    255 * (y - luma_zero(full_range)) * (MATRIX_DENOM as int) * chroma_scale(full_range) + 510 * (
    MATRIX_DENOM - m.kr_num) * (cr - 128) * luma_scale(full_range)
}

/// Numerator of the blue channel scaled to `[0, 255]`:
/// `255 * (Y' + 2(1-kb)·Cb')` over [`rb_den`].
pub open spec fn blue_num(m: YuvMatrix, full_range: bool, y: int, cb: int) -> int {
    255 * (y - luma_zero(full_range)) * (MATRIX_DENOM as int) * chroma_scale(full_range) + 510 * (
    MATRIX_DENOM - m.kb_num) * (cb - 128) * luma_scale(full_range)
}

/// Denominator shared by the red and blue channels.
pub open spec fn rb_den(full_range: bool) -> int {
    luma_scale(full_range) * (MATRIX_DENOM as int) * chroma_scale(full_range)
}

/// Numerator of the green channel scaled to `[0, 255]`:
/// `255 * (Y' - 2(1-kb)(kb/kg)·Cb' - 2(1-kr)(kr/kg)·Cr')` over [`green_den`].
pub open spec fn green_num(m: YuvMatrix, full_range: bool, y: int, cb: int, cr: int) -> int {
    255 * (y - luma_zero(full_range)) * (MATRIX_DENOM as int) * kg_num(m) * chroma_scale(full_range)
        - 510 * (MATRIX_DENOM - m.kb_num) * m.kb_num * (cb - 128) * luma_scale(full_range) - 510 * (
    MATRIX_DENOM - m.kr_num) * m.kr_num * (cr - 128) * luma_scale(full_range)
}

/// Denominator of the green channel.
pub open spec fn green_den(m: YuvMatrix, full_range: bool) -> int {
    luma_scale(full_range) * (MATRIX_DENOM as int) * kg_num(m) * chroma_scale(full_range)
}

/// Rounds `num / den` to the nearest integer (ties away from zero) and
/// clamps the result to `[0, 255]`.  Every negative quotient clamps to 0,
/// so only non-negative numerators need the rounding formula.
pub open spec fn round_clamp(num: int, den: int) -> int
    recommends
        den > 0,
{
    if num < 0 {
        0
    } else {
        let q = (2 * num + den) / (2 * den);
        if q > 255 {
            255
        } else {
            q
        }
    }
}

/// Value of output channel `chan` (0 red, 1 green, 2 blue) for one pixel,
/// from its luma byte and the two chroma bytes of its 2x2 block.
pub open spec fn pixel_channel(
    m: YuvMatrix,
    full_range: bool,
    chan: int,
    y: int,
    cb: int,
    cr: int,
) -> int {
    if chan == 0 {
        round_clamp(red_num(m, full_range, y, cr), rb_den(full_range))
    } else if chan == 1 {
        round_clamp(green_num(m, full_range, y, cb, cr), green_den(m, full_range))
    } else {
        round_clamp(blue_num(m, full_range, y, cb), rb_den(full_range))
    }
}

/// Product of two values bounded in magnitude is bounded by the product
/// of the bounds.
proof fn lemma_abs_mul(a: int, b: int, aa: int, bb: int)
    by (nonlinear_arith)
    requires
        0 <= aa,
        0 <= bb,
        -aa <= a <= aa,
        -bb <= b <= bb,
    ensures
        -(aa * bb) <= a * b <= aa * bb,
{
}

/// Product of two positive values is positive.
proof fn lemma_mul_pos(a: int, b: int)
    by (nonlinear_arith)
    requires
        a > 0,
        b > 0,
    ensures
        a * b > 0,
{
}

/// Exact rounding of a non-negative rational by integer division.
fn round_clamp_exec(num: i64, den: i64) -> (r: u8)
    requires
        0 < den <= 10_000_000_000_000,
        -10_000_000_000_000_000 <= num <= 10_000_000_000_000_000,
    ensures
        r as int == round_clamp(num as int, den as int),
{
    if num < 0 {
        0
    } else {
        let n2: u64 = 2 * (num as u64) + (den as u64);
        let d2: u64 = 2 * (den as u64);
        let q: u64 = n2 / d2;
        if q > 255 {
            255
        } else {
            q as u8
        }
    }
}

/// Converts one pixel, returning its (red, green, blue) bytes.
pub fn convert_pixel(m: &YuvMatrix, full_range: bool, y: u8, cb: u8, cr: u8) -> (rgb: (u8, u8, u8))
    requires
        matrix_valid(*m),
    ensures
        rgb.0 as int == pixel_channel(*m, full_range, 0, y as int, cb as int, cr as int),
        rgb.1 as int == pixel_channel(*m, full_range, 1, y as int, cb as int, cr as int),
        rgb.2 as int == pixel_channel(*m, full_range, 2, y as int, cb as int, cr as int),
{
    let d: i64 = MATRIX_DENOM as i64;
    let krn: i64 = m.kr_num as i64;
    let kbn: i64 = m.kb_num as i64;
    let kgn: i64 = d - krn - kbn;
    if full_range {
        let yd: i64 = y as i64 - 0;
        let cbd: i64 = cb as i64 - 128;
        let crd: i64 = cr as i64 - 128;
        let luma_rb: i64 = 255 * yd * d * 255;
        let cr_scaled: i64 = 510 * (d - krn);
        let cb_scaled: i64 = 510 * (d - kbn);
        proof {
            lemma_abs_mul(cr_scaled as int, crd as int, 5_100_000, 128);
            lemma_abs_mul(cb_scaled as int, cbd as int, 5_100_000, 128);
        }
        let r_num: i64 = luma_rb + cr_scaled * crd * 255;
        let b_num: i64 = luma_rb + cb_scaled * cbd * 255;
        let rb_d: i64 = 255 * d * 255;
        proof {
            lemma_abs_mul(255 * (yd as int) * (d as int), kgn as int, 650_250_000, 10_000);
            lemma_abs_mul(cb_scaled as int, kbn as int, 5_100_000, 10_000);
            lemma_abs_mul(cb_scaled as int * kbn as int, cbd as int, 51_000_000_000, 128);
            lemma_abs_mul(cr_scaled as int, krn as int, 5_100_000, 10_000);
            lemma_abs_mul(cr_scaled as int * krn as int, crd as int, 51_000_000_000, 128);
            lemma_abs_mul(255 * (d as int), kgn as int, 2_550_000, 10_000);
            lemma_mul_pos(255 * (d as int), kgn as int);
        }
        let g_num: i64 = 255 * yd * d * kgn * 255 - cb_scaled * kbn * cbd * 255 - cr_scaled * krn
            * crd * 255;
        let g_den: i64 = 255 * d * kgn * 255;
        let red = round_clamp_exec(r_num, rb_d);
        let green = round_clamp_exec(g_num, g_den);
        let blue = round_clamp_exec(b_num, rb_d);
        (red, green, blue)
    } else {
        let yd: i64 = y as i64 - 16;
        let cbd: i64 = cb as i64 - 128;
        let crd: i64 = cr as i64 - 128;
        let luma_rb: i64 = 255 * yd * d * 224;
        let cr_scaled: i64 = 510 * (d - krn);
        let cb_scaled: i64 = 510 * (d - kbn);
        proof {
            lemma_abs_mul(cr_scaled as int, crd as int, 5_100_000, 128);
            lemma_abs_mul(cb_scaled as int, cbd as int, 5_100_000, 128);
        }
        let r_num: i64 = luma_rb + cr_scaled * crd * 219;
        let b_num: i64 = luma_rb + cb_scaled * cbd * 219;
        let rb_d: i64 = 219 * d * 224;
        proof {
            lemma_abs_mul(255 * (yd as int) * (d as int), kgn as int, 650_250_000, 10_000);
            lemma_abs_mul(cb_scaled as int, kbn as int, 5_100_000, 10_000);
            lemma_abs_mul(cb_scaled as int * kbn as int, cbd as int, 51_000_000_000, 128);
            lemma_abs_mul(cr_scaled as int, krn as int, 5_100_000, 10_000);
            lemma_abs_mul(cr_scaled as int * krn as int, crd as int, 51_000_000_000, 128);
            lemma_abs_mul(219 * (d as int), kgn as int, 2_190_000, 10_000);
            lemma_mul_pos(219 * (d as int), kgn as int);
        }
        let g_num: i64 = 255 * yd * d * kgn * 224 - cb_scaled * kbn * cbd * 219 - cr_scaled * krn
            * crd * 219;
        let g_den: i64 = 219 * d * kgn * 224;
        let red = round_clamp_exec(r_num, rb_d);
        let green = round_clamp_exec(g_num, g_den);
        let blue = round_clamp_exec(b_num, rb_d);
        (red, green, blue)
    }
}

/// A channel value never leaves `[0, 255]`: negative quotients clamp to
/// 0, large ones to 255, whatever the samples and the standard.
pub proof fn lemma_pixel_channel_bounds(
    m: YuvMatrix,
    full_range: bool,
    chan: int,
    y: int,
    cb: int,
    cr: int,
)
    requires
        matrix_valid(m),
    ensures
        0 <= pixel_channel(m, full_range, chan, y, cb, cr) <= 255,
{
    assert(kg_num(m) >= 1);
    assert(luma_scale(full_range) * (MATRIX_DENOM as int) * kg_num(m) * chroma_scale(full_range)
        > 0) by (nonlinear_arith)
        requires
            kg_num(m) >= 1,
            luma_scale(full_range) > 0,
            chroma_scale(full_range) > 0,
            MATRIX_DENOM == 10000,
    ;
    let num = if chan == 0 {
        red_num(m, full_range, y, cr)
    } else if chan == 1 {
        green_num(m, full_range, y, cb, cr)
    } else {
        blue_num(m, full_range, y, cb)
    };
    let den = if chan == 1 {
        green_den(m, full_range)
    } else {
        rb_den(full_range)
    };
    assert(den > 0);
    if num >= 0 {
        vstd::arithmetic::div_mod::lemma_div_pos_is_pos(2 * num + den, 2 * den);
    }
}

/// Reported when the frame buffer is shorter than the NV12 layout
/// requires for the declared dimensions.
#[derive(Debug, PartialEq, Eq, Structural)]
pub enum ConvertError {
    InsufficientBuffer { actual: usize, expected: usize },
}

/// Number of bytes the NV12 layout actually makes the conversion read:
/// the luma plane, one chroma row per two luma rows, and one extra byte
/// for the trailing `Cr` sample that an odd width pushes past the last
/// chroma row.  For even dimensions this is exactly `width * height * 3 / 2`.
pub open spec fn required_len(width: int, height: int) -> int {
    if width <= 0 || height <= 0 {
        0
    } else {
        width * height + width * ((height + 1) / 2) + if width % 2 == 1 {
            1int
        } else {
            0int
        }
    }
}

/// Luma byte of the pixel at `(row, col)`.
pub open spec fn luma_at(data: Seq<u8>, width: int, row: int, col: int) -> u8 {
    data[row * width + col]
}

/// `Cb` byte of the chroma pair covering the pixel at `(row, col)`.
pub open spec fn cb_at(data: Seq<u8>, width: int, height: int, row: int, col: int) -> u8 {
    data[width * height + (row / 2) * width + 2 * (col / 2)]
}

/// `Cr` byte of the chroma pair covering the pixel at `(row, col)`.
pub open spec fn cr_at(data: Seq<u8>, width: int, height: int, row: int, col: int) -> u8 {
    data[width * height + (row / 2) * width + 2 * (col / 2) + 1]
}

/// Value of output channel `chan` of the pixel at `(row, col)`.
pub open spec fn rgb_at(
    data: Seq<u8>,
    width: int,
    height: int,
    m: YuvMatrix,
    full_range: bool,
    row: int,
    col: int,
    chan: int,
) -> int {
    pixel_channel(
        m,
        full_range,
        chan,
        luma_at(data, width, row, col) as int,
        cb_at(data, width, height, row, col) as int,
        cr_at(data, width, height, row, col) as int,
    )
}

/// The whole converted buffer: `3 * width * height` bytes, red-green-blue
/// per pixel, row-major, top row first.
pub open spec fn convert_spec(
    data: Seq<u8>,
    width: int,
    height: int,
    m: YuvMatrix,
    full_range: bool,
) -> Seq<u8> {
    Seq::new(
        (3 * width * height) as nat,
        |idx: int|
            rgb_at(
                data,
                width,
                height,
                m,
                full_range,
                (idx / 3) / width,
                (idx / 3) % width,
                idx % 3,
            ) as u8,
    )
}

/// The three sample indexes of a pixel lie inside the required buffer
/// length.
proof fn lemma_sample_bounds(width: int, height: int, row: int, col: int)
    requires
        width > 0,
        height > 0,
        0 <= row < height,
        0 <= col < width,
    ensures
        0 <= row * width + col < width * height,
        0 <= (row / 2) * width + 2 * (col / 2),
        width * height + (row / 2) * width + 2 * (col / 2) + 1 < required_len(width, height),
{
    assert(0 <= row * width + col < width * height && width * height >= 0) by (nonlinear_arith)
        requires
            0 <= row < height,
            0 <= col < width,
    ;
    let hc = (height + 1) / 2;
    let rc = row / 2;
    let cc = 2 * (col / 2);
    assert(0 <= rc <= (height - 1) / 2);
    assert((height - 1) / 2 <= hc - 1);
    assert(0 <= cc <= col);
    assert(rc * width <= (hc - 1) * width && 0 <= rc * width) by (nonlinear_arith)
        requires
            0 <= rc <= hc - 1,
            width > 0,
    ;
    assert((hc - 1) * width == hc * width - width) by (nonlinear_arith);
    assert(hc * width == width * hc) by (nonlinear_arith);
    if width % 2 == 0 {
        assert(cc + 1 <= width - 1);
        assert(rc * width + cc + 1 <= hc * width - 1);
    } else {
        assert(cc + 1 <= width);
        assert(rc * width + cc + 1 <= hc * width);
    }
}

/// For even dimensions the layout requires exactly `width * height * 3 / 2`
/// bytes, so a buffer of precisely that size is accepted.
pub proof fn lemma_required_len_even(width: int, height: int)
    requires
        width > 0,
        height > 0,
        width % 2 == 0,
        height % 2 == 0,
    ensures
        required_len(width, height) == width * height * 3 / 2,
{
    let k = height / 2;
    assert(height == 2 * k);
    assert(width * height == 2 * (width * k) && width * height * 3 == 6 * (width * k))
        by (nonlinear_arith)
        requires
            height == 2 * k,
    ;
    assert((6 * (width * k)) / 2 == 3 * (width * k));
    assert(required_len(width, height) == width * height + width * k);
    assert(width * height + width * k == 3 * (width * k)) by (nonlinear_arith)
        requires
            height == 2 * k,
    ;
}

/// Gray stays gray whatever the standard: a neutral sample (luma 128,
/// both chroma values 128, full range) yields exactly 128 on every
/// channel, for any valid transform standard.
pub proof fn lemma_neutral_gray(m: YuvMatrix, chan: int)
    requires
        matrix_valid(m),
        0 <= chan < 3,
    ensures
        pixel_channel(m, true, chan, 128, 128, 128) == 128,
{
    let kgn = kg_num(m);
    assert(kgn >= 1);
    if chan == 0 {
        assert(510 * (MATRIX_DENOM - m.kr_num) * 0 * 255 == 0) by (nonlinear_arith);
        assert(red_num(m, true, 128, 128) == 83_232_000_000);
        assert(rb_den(true) == 650_250_000);
        lemma_fundamental_div_mod_converse(167_114_250_000, 1_300_500_000, 128, 650_250_000);
        assert(round_clamp(83_232_000_000, 650_250_000) == 128);
        assert(pixel_channel(m, true, 0, 128, 128, 128) == 128);
    } else if chan == 2 {
        assert(510 * (MATRIX_DENOM - m.kb_num) * 0 * 255 == 0) by (nonlinear_arith);
        assert(blue_num(m, true, 128, 128) == 83_232_000_000);
        assert(rb_den(true) == 650_250_000);
        lemma_fundamental_div_mod_converse(167_114_250_000, 1_300_500_000, 128, 650_250_000);
        assert(round_clamp(83_232_000_000, 650_250_000) == 128);
        assert(pixel_channel(m, true, 2, 128, 128, 128) == 128);
    } else {
        let den = green_den(m, true);
        let num = green_num(m, true, 128, 128, 128);
        assert(den == 255 * 10000 * kgn * 255);
        assert(den > 0 && num == 128 * den && 510 * (MATRIX_DENOM - m.kb_num) * m.kb_num * 0 * 255
            == 0 && 510 * (MATRIX_DENOM - m.kr_num) * m.kr_num * 0 * 255 == 0 && 2 * (128 * den)
            + den == 128 * (2 * den) + den) by (nonlinear_arith)
            requires
                kgn >= 1,
                den == 255 * 10000 * kgn * 255,
                num == green_num(m, true, 128, 128, 128),
                num == 255 * (128 - 0) * (MATRIX_DENOM as int) * kgn * 255 - 510 * (MATRIX_DENOM
                    - m.kb_num) * m.kb_num * 0 * 255 - 510 * (MATRIX_DENOM - m.kr_num) * m.kr_num
                    * 0 * 255,
                MATRIX_DENOM == 10000,
        ;
        lemma_fundamental_div_mod_converse(2 * num + den, 2 * den, 128, den);
        assert(round_clamp(num, den) == 128);
    }
}

/// A neutral full-range frame (every byte 128) decodes to mid-gray:
/// every output byte is exactly 128, for any valid transform standard.
pub proof fn lemma_neutral_frame_gray(data: Seq<u8>, width: int, height: int, m: YuvMatrix)
    requires
        matrix_valid(m),
        width > 0,
        height > 0,
        data.len() >= required_len(width, height),
        forall|i: int| 0 <= i < data.len() ==> data[i] == 128,
    ensures
        forall|idx: int|
            0 <= idx < 3 * width * height ==> convert_spec(data, width, height, m, true)[idx]
                == 128,
{
    assert(3 * (width * height) == 3 * width * height) by (nonlinear_arith);
    assert forall|idx: int| 0 <= idx < 3 * width * height implies convert_spec(
        data,
        width,
        height,
        m,
        true,
    )[idx] == 128 by {
        let p = idx / 3;
        let chan = idx % 3;
        vstd::arithmetic::div_mod::lemma_fundamental_div_mod(idx, 3);
        lemma_mod_bound(idx, 3);
        assert(0 <= p < width * height);
        let row = p / width;
        let col = p % width;
        vstd::arithmetic::div_mod::lemma_fundamental_div_mod(p, width);
        lemma_mod_bound(p, width);
        assert(0 <= row) by (nonlinear_arith)
            requires
                width * row + col == p,
                p >= 0,
                0 <= col < width,
                width > 0,
                row == p / width,
        ;
        assert(row < height) by (nonlinear_arith)
            requires
                width * row + col < width * height,
                0 <= col < width,
                width > 0,
        ;
        lemma_sample_bounds(width, height, row, col);
        assert(luma_at(data, width, row, col) == 128);
        assert(cb_at(data, width, height, row, col) == 128);
        assert(cr_at(data, width, height, row, col) == 128);
        lemma_neutral_gray(m, chan);
        assert(convert_spec(data, width, height, m, true)[idx] == pixel_channel(
            m,
            true,
            chan,
            128,
            128,
            128,
        ) as u8);
    }
}

/// Transforms a raw NV12 frame buffer into a dense interleaved RGB24
/// buffer, or reports an insufficient buffer: the conversion succeeds
/// exactly when `data` holds every byte the layout makes it read.
pub fn nv12_to_rgb24(
    data: &Vec<u8>,
    width: u32,
    height: u32,
    matrix: &YuvMatrix,
    full_range: bool,
) -> (r: Result<Vec<u8>, ConvertError>)
    requires
        matrix_valid(*matrix),
        required_len(width as int, height as int) <= usize::MAX,
    ensures
        r.is_ok() <==> data@.len() >= required_len(width as int, height as int),
        r matches Ok(out) ==> out@ == convert_spec(
            data@,
            width as int,
            height as int,
            *matrix,
            full_range,
        ),
        r matches Ok(out) ==> out@.len() == 3 * width * height && forall|
            row: int,
            col: int,
            chan: int,
        |
            0 <= row < height && 0 <= col < width && 0 <= chan < 3 ==> out@[3 * (row * width + col)
                + chan] as int == rgb_at(
                data@,
                width as int,
                height as int,
                *matrix,
                full_range,
                row,
                col,
                chan,
            ),
        r matches Err(e) ==> e == (ConvertError::InsufficientBuffer {
            actual: data@.len() as usize,
            expected: required_len(width as int, height as int) as usize,
        }),
{
    let w = width as usize;
    let h = height as usize;
    let dlen = data.len();
    let needed: usize = if w == 0 || h == 0 {
        proof {
            assert(3 * width * height == 0) by (nonlinear_arith)
                requires
                    width == 0 || height == 0,
            ;
        }
        0
    } else {
        proof {
            let wi = width as int;
            let hi = height as int;
            let hc = (hi + 1) / 2;
            assert(wi * hi >= 0 && wi * hc >= 0 && wi * hc >= wi * (hi / 2) && wi * ((hi + 1) / 2)
                == wi * (hi / 2) + (if hi % 2 == 1 {
                wi
            } else {
                0int
            })) by (nonlinear_arith)
                requires
                    wi > 0,
                    hi > 0,
                    hc == (hi + 1) / 2,
                    0 <= hi / 2 <= hc <= hi,
                    hc == hi / 2 + hi % 2,
            ;
        }
        let base: usize = w * h + w * (h / 2);
        let base2: usize = if h % 2 == 1 {
            base + w
        } else {
            base
        };
        if w % 2 == 1 {
            base2 + 1
        } else {
            base2
        }
    };
    if dlen < needed {
        return Err(ConvertError::InsufficientBuffer { actual: dlen, expected: needed });
    }
    let mut out: Vec<u8> = Vec::new();
    let ghost cs = convert_spec(data@, width as int, height as int, *matrix, full_range);
    proof {
        assert(3 * (width * height) == 3 * width * height) by (nonlinear_arith);
    }
    let mut row: usize = 0;
    while row < h
        invariant
            0 <= row <= h,
            w == width,
            h == height,
            matrix_valid(*matrix),
            data@.len() >= required_len(width as int, height as int),
            data@.len() <= usize::MAX,
            cs == convert_spec(data@, width as int, height as int, *matrix, full_range),
            cs.len() == 3 * width * height,
            3 * (width * height) == 3 * width * height,
            out@.len() == 3 * (row * width),
            forall|i: int| 0 <= i < out@.len() ==> out@[i] == cs[i],
        decreases h - row,
    {
        let mut col: usize = 0;
        while col < w
            invariant
                0 <= col <= w,
                0 <= row < h,
                w == width,
                h == height,
                matrix_valid(*matrix),
                data@.len() >= required_len(width as int, height as int),
                data@.len() <= usize::MAX,
                cs == convert_spec(data@, width as int, height as int, *matrix, full_range),
                cs.len() == 3 * width * height,
                3 * (width * height) == 3 * width * height,
                out@.len() == 3 * (row * width + col),
                forall|i: int| 0 <= i < out@.len() ==> out@[i] == cs[i],
            decreases w - col,
        {
            proof {
                lemma_sample_bounds(width as int, height as int, row as int, col as int);
                assert((row as int) * (w as int) == (row as int) * (width as int));
                assert(3 * ((row as int) * width + col) < 3 * (width * height));
            }
            let y_idx: usize = row * w + col;
            let uv_idx: usize = w * h + (row / 2) * w + 2 * (col / 2);
            let y = data[y_idx];
            let cb = data[uv_idx];
            let cr = data[uv_idx + 1];
            let (red, green, blue) = convert_pixel(matrix, full_range, y, cb, cr);
            out.push(red);
            out.push(green);
            out.push(blue);
            proof {
                let p = (row as int) * width + col;
                lemma_fundamental_div_mod_converse(3 * p, 3, p, 0);
                lemma_fundamental_div_mod_converse(3 * p + 1, 3, p, 1);
                lemma_fundamental_div_mod_converse(3 * p + 2, 3, p, 2);
                lemma_fundamental_div_mod_converse(p, width as int, row as int, col as int);
                assert(cs[3 * p] == rgb_at(
                    data@,
                    width as int,
                    height as int,
                    *matrix,
                    full_range,
                    row as int,
                    col as int,
                    0,
                ) as u8);
                assert(cs[3 * p + 1] == rgb_at(
                    data@,
                    width as int,
                    height as int,
                    *matrix,
                    full_range,
                    row as int,
                    col as int,
                    1,
                ) as u8);
                assert(cs[3 * p + 2] == rgb_at(
                    data@,
                    width as int,
                    height as int,
                    *matrix,
                    full_range,
                    row as int,
                    col as int,
                    2,
                ) as u8);
            }
            col = col + 1;
        }
        proof {
            assert((row + 1) * width == row * width + width) by (nonlinear_arith);
        }
        row = row + 1;
    }
    proof {
        assert((height as int) * width == width * height) by (nonlinear_arith);
        assert(out@ =~= cs);
        assert forall|row: int, col: int, chan: int|
            0 <= row < height && 0 <= col < width && 0 <= chan < 3 implies out@[3 * (row * width
            + col) + chan] as int == rgb_at(
            data@,
            width as int,
            height as int,
            *matrix,
            full_range,
            row,
            col,
            chan,
        ) by {
            let p = row * width + col;
            assert(0 <= p < width * height && width * height >= 0) by (nonlinear_arith)
                requires
                    0 <= row < height,
                    0 <= col < width,
                    p == row * width + col,
            ;
            assert(3 * p + chan < 3 * (width * height));
            lemma_fundamental_div_mod_converse(3 * p + chan, 3, p, chan);
            lemma_fundamental_div_mod_converse(p, width as int, row, col);
            lemma_pixel_channel_bounds(
                *matrix,
                full_range,
                chan,
                luma_at(data@, width as int, row, col) as int,
                cb_at(data@, width as int, height as int, row, col) as int,
                cr_at(data@, width as int, height as int, row, col) as int,
            );
        }
    }
    Ok(out)
}

} // verus!
