//! Serialization of an RGB24 buffer as an uncompressed BMP file.
//!
//! The output is byte-exact: a 14-byte file header, a 40-byte info header
//! (with negative height selecting top-down row order), and pixel rows in
//! blue-green-red channel order, each padded with zeros to a multiple of
//! four bytes.
use vstd::prelude::*;

verus! {

/// Little-endian byte sequence of a 32-bit value.
pub open spec fn u32_le(v: u32) -> Seq<u8> {
    seq![
        (v & 0xff) as u8,
        ((v >> 8) & 0xff) as u8,
        ((v >> 16) & 0xff) as u8,
        ((v >> 24) & 0xff) as u8,
    ]
}

/// Little-endian byte sequence of a 16-bit value.
pub open spec fn u16_le(v: u16) -> Seq<u8> {
    seq![(v & 0xff) as u8, ((v >> 8) & 0xff) as u8]
}

/// Bytes per stored pixel row: the packed row length rounded up to a
/// multiple of four.
pub open spec fn spec_row_stride(width: u32) -> int {
    (width * 3 + 3) / 4 * 4
}

/// Total file length: the two headers plus the padded pixel rows.
pub open spec fn spec_file_size(width: u32, height: u32) -> int {
    54 + spec_row_stride(width) * height
}

/// Bit pattern of the 32-bit two's-complement encoding of `-(height)`,
/// which the info header stores to select top-down row order.
pub open spec fn spec_neg_height(height: u32) -> u32
    recommends
        height <= 0x7fff_ffff,
{
    if height == 0 {
        0u32
    } else {
        (0x1_0000_0000 - height) as u32
    }
}

/// The 54 header bytes: file header (signature, file size, two reserved
/// words, pixel-data offset) followed by the info header.
pub open spec fn bmp_header(width: u32, height: u32) -> Seq<u8> {
    seq![0x42u8, 0x4du8] + u32_le(spec_file_size(width, height) as u32) + u16_le(0) + u16_le(0)
        + u32_le(54) + u32_le(40) + u32_le(width) + u32_le(spec_neg_height(height)) + u16_le(1)
        + u16_le(24) + u32_le(0) + u32_le((spec_row_stride(width) * height) as u32) + u32_le(2835)
        + u32_le(2835) + u32_le(0) + u32_le(0)
}

/// Byte at offset `j` within a stored pixel row: the row's pixels with the
/// red and blue channels exchanged, then zero padding.
pub open spec fn bmp_pixel_byte(width: u32, rgb: Seq<u8>, row: int, j: int) -> u8 {
    if j < 3 * width {
        rgb[3 * (row * width + j / 3) + (2 - j % 3)]
    } else {
        0u8
    }
}

/// The padded pixel section, rows in the same top-to-bottom order as the
/// input buffer.
pub open spec fn bmp_pixel_section(width: u32, height: u32, rgb: Seq<u8>) -> Seq<u8> {
    Seq::new(
        (spec_row_stride(width) * height) as nat,
        |i: int| bmp_pixel_byte(width, rgb, i / spec_row_stride(width), i % spec_row_stride(width)),
    )
}

/// The whole file.
pub open spec fn bmp_file(width: u32, height: u32, rgb: Seq<u8>) -> Seq<u8> {
    bmp_header(width, height) + bmp_pixel_section(width, height, rgb)
}

/// Reported when the pixel buffer's length does not match the declared
/// dimensions.
#[derive(Debug, PartialEq, Eq, Structural)]
pub enum EncodeError {
    DimensionMismatch { expected: usize, actual: usize },
}

/// Appends the four little-endian bytes of `v`.
fn push_u32_le(out: &mut Vec<u8>, v: u32)
    ensures
        final(out)@ == old(out)@ + u32_le(v),
{
    out.push((v & 0xff) as u8);
    out.push(((v >> 8) & 0xff) as u8);
    out.push(((v >> 16) & 0xff) as u8);
    out.push(((v >> 24) & 0xff) as u8);
    assert(out@ =~= old(out)@ + u32_le(v));
}

/// Appends the two little-endian bytes of `v`.
fn push_u16_le(out: &mut Vec<u8>, v: u16)
    ensures
        final(out)@ == old(out)@ + u16_le(v),
{
    out.push((v & 0xff) as u8);
    out.push(((v >> 8) & 0xff) as u8);
    assert(out@ =~= old(out)@ + u16_le(v));
}

/// Serializes `rgb` (dense red-green-blue bytes, row-major, top row first)
/// with its dimensions into a complete BMP file, or reports a dimension
/// mismatch when the buffer's length is not `width * height * 3`.
pub fn encode_bmp(width: u32, height: u32, rgb: &Vec<u8>) -> (r: Result<Vec<u8>, EncodeError>)
    requires
        width * 3 + 3 <= u32::MAX,
        spec_file_size(width, height) <= u32::MAX,
        height <= 0x7fff_ffff,
    ensures
        r.is_ok() <==> rgb@.len() == 3 * width * height,
        r matches Ok(bytes) ==> bytes@ == bmp_file(width, height, rgb@),
        r matches Err(e) ==> e == (EncodeError::DimensionMismatch {
            expected: (3 * width * height) as usize,
            actual: rgb@.len() as usize,
        }),
{
    let w = width as usize;
    let h = height as usize;
    let stride_u32: u32 = (width * 3 + 3) / 4 * 4;
    let stride = stride_u32 as usize;
    assert(3 * width <= stride_u32 <= 3 * width + 3);
    assert(3 * width * height <= spec_row_stride(width) * height) by (nonlinear_arith)
        requires
            3 * width <= spec_row_stride(width),
            height >= 0,
    ;

    let expected: u32 = {
        assert(width * height * 3 == 3 * width * height) by (nonlinear_arith);
        assert(width as u64 * height as u64 * 3 <= u32::MAX) by (nonlinear_arith)
            requires
                3 * (width as int) * (height as int) <= spec_row_stride(width) * height,
                spec_file_size(width, height) <= u32::MAX,
        ;
        (width as u64 * height as u64 * 3) as u32
    };
    if rgb.len() != expected as usize {
        return Err(
            EncodeError::DimensionMismatch { expected: expected as usize, actual: rgb.len() },
        );
    }

    let pixel_data_size: u32 = stride_u32 * height;
    let file_size: u32 = 54 + pixel_data_size;
    let neg_height: u32 = if height == 0 {
        0u32
    } else {
        (0xffff_ffffu32 - height) + 1
    };

    let mut buf: Vec<u8> = Vec::new();
    buf.push(0x42);
    buf.push(0x4d);
    push_u32_le(&mut buf, file_size);
    push_u16_le(&mut buf, 0);
    push_u16_le(&mut buf, 0);
    push_u32_le(&mut buf, 54);
    push_u32_le(&mut buf, 40);
    push_u32_le(&mut buf, width);
    push_u32_le(&mut buf, neg_height);
    push_u16_le(&mut buf, 1);
    push_u16_le(&mut buf, 24);
    push_u32_le(&mut buf, 0);
    push_u32_le(&mut buf, pixel_data_size);
    push_u32_le(&mut buf, 2835);
    push_u32_le(&mut buf, 2835);
    push_u32_le(&mut buf, 0);
    push_u32_le(&mut buf, 0);
    assert(buf@ =~= bmp_header(width, height));

    let pad: usize = stride - 3 * w;
    let mut row: usize = 0;
    while row < h
        invariant
            0 <= row <= h,
            w == width,
            h == height,
            stride == spec_row_stride(width),
            3 * w <= stride <= 3 * w + 3,
            pad == stride - 3 * w,
            rgb@.len() == 3 * width * height,
            rgb@.len() <= usize::MAX,
            spec_file_size(width, height) <= u32::MAX,
            buf@.len() == 54 + row * stride,
            forall|i: int| 0 <= i < 54 ==> buf@[i] == bmp_header(width, height)[i],
            forall|idx: int|
                54 <= idx < 54 + row * stride ==> buf@[idx] == bmp_pixel_byte(
                    width,
                    rgb@,
                    (idx - 54) / stride as int,
                    (idx - 54) % stride as int,
                ),
        decreases h - row,
    {
        proof {
            assert((row + 1) * stride == row * stride + stride) by (nonlinear_arith);
            assert(row * stride + stride <= spec_row_stride(width) * height) by (nonlinear_arith)
                requires
                    row < h,
                    h == height,
                    stride == spec_row_stride(width),
                    stride >= 0,
            ;
            assert(3 * (width * height) == 3 * width * height) by (nonlinear_arith);
        }
        let row_base: Ghost<int> = Ghost(54 + row * stride);
        let mut col: usize = 0;
        while col < w
            invariant
                0 <= col <= w,
                0 <= row < h,
                w == width,
                h == height,
                stride == spec_row_stride(width),
                3 * w <= stride <= 3 * w + 3,
                rgb@.len() == 3 * width * height,
                rgb@.len() <= usize::MAX,
                3 * (width * height) == 3 * width * height,
                row * stride + stride <= spec_row_stride(width) * height,
                spec_file_size(width, height) <= u32::MAX,
                row_base@ == 54 + row * stride,
                buf@.len() == row_base@ + 3 * col,
                forall|i: int| 0 <= i < 54 ==> buf@[i] == bmp_header(width, height)[i],
                forall|idx: int|
                    54 <= idx < row_base@ ==> buf@[idx] == bmp_pixel_byte(
                        width,
                        rgb@,
                        (idx - 54) / stride as int,
                        (idx - 54) % stride as int,
                    ),
                forall|j: int|
                    0 <= j < 3 * col ==> buf@[row_base@ + j] == bmp_pixel_byte(
                        width,
                        rgb@,
                        row as int,
                        j,
                    ),
            decreases w - col,
        {
            proof {
                assert(row * width + col < width * height && width * height >= 0)
                    by (nonlinear_arith)
                    requires
                        0 <= row < height,
                        0 <= col < width,
                ;
                assert((row as int) * (w as int) == (row as int) * (width as int));
                assert(3 * ((row as int) * width + col) < 3 * (width * height));
            }
            let src: usize = (row * w + col) * 3;
            let red = rgb[src];
            let green = rgb[src + 1];
            let blue = rgb[src + 2];
            buf.push(blue);
            buf.push(green);
            buf.push(red);
            proof {
                assert((3 * (col as int)) / 3 == col && (3 * (col as int)) % 3 == 0);
                assert((3 * (col as int) + 1) / 3 == col && (3 * (col as int) + 1) % 3 == 1);
                assert((3 * (col as int) + 2) / 3 == col && (3 * (col as int) + 2) % 3 == 2);
            }
            col = col + 1;
        }
        let mut k: usize = 0;
        while k < pad
            invariant
                0 <= k <= pad,
                0 <= row < h,
                w == width,
                h == height,
                stride == spec_row_stride(width),
                3 * w <= stride <= 3 * w + 3,
                pad == stride - 3 * w,
                rgb@.len() == 3 * width * height,
                row * stride + stride <= spec_row_stride(width) * height,
                spec_file_size(width, height) <= u32::MAX,
                row_base@ == 54 + row * stride,
                buf@.len() == row_base@ + 3 * w + k,
                forall|i: int| 0 <= i < 54 ==> buf@[i] == bmp_header(width, height)[i],
                forall|idx: int|
                    54 <= idx < row_base@ ==> buf@[idx] == bmp_pixel_byte(
                        width,
                        rgb@,
                        (idx - 54) / stride as int,
                        (idx - 54) % stride as int,
                    ),
                forall|j: int|
                    0 <= j < 3 * w + k ==> buf@[row_base@ + j] == bmp_pixel_byte(
                        width,
                        rgb@,
                        row as int,
                        j,
                    ),
            decreases pad - k,
        {
            buf.push(0);
            k = k + 1;
        }
        proof {
            assert((row + 1) * stride == row * stride + stride) by (nonlinear_arith);
            assert forall|idx: int| row_base@ <= idx < row_base@ + stride implies buf@[idx]
                == bmp_pixel_byte(
                width,
                rgb@,
                (idx - 54) / stride as int,
                (idx - 54) % stride as int,
            ) by {
                let j = idx - row_base@;
                vstd::arithmetic::div_mod::lemma_fundamental_div_mod_converse(
                    idx - 54,
                    stride as int,
                    row as int,
                    j,
                );
                assert(buf@[idx] == bmp_pixel_byte(width, rgb@, row as int, j));
            }
        }
        row = row + 1;
    }
    proof {
        assert(buf@.len() == 54 + spec_row_stride(width) * height) by (nonlinear_arith)
            requires
                buf@.len() == 54 + (height as int) * spec_row_stride(width),
        ;
        assert(buf@ =~= bmp_file(width, height, rgb@));
    }
    Ok(buf)
}

} // verus!
