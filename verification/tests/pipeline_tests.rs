use webcam_colorspace::bmp::{encode_bmp, EncodeError};
use webcam_colorspace::mirror::mirror_rgb;
use webcam_colorspace::pipeline::{capture_test_outputs, decode_frame, PipelineError};
use webcam_colorspace::platform::CapturedFrame;
use webcam_colorspace::yuv::{bt601, bt709, nv12_to_rgb24, ConvertError};

fn nv12_frame(width: u32, height: u32, data: Vec<u8>, full_range: bool) -> CapturedFrame {
    CapturedFrame {
        width,
        height,
        pixel_format: "NV12".to_string(),
        full_range,
        data,
    }
}

#[test]
fn convert_exact_size_output_length() {
    // A synthetic 4x2 frame of exactly width*height*3/2 bytes converts to
    // exactly width*height*3 bytes.
    let data = vec![7u8; 4 * 2 * 3 / 2];
    let out = nv12_to_rgb24(&data, 4, 2, &bt601(), true).unwrap();
    assert_eq!(out.len(), 4 * 2 * 3);
}

#[test]
fn convert_extreme_chroma_stays_in_range() {
    // Maximal and minimal chroma: output bytes exist for every pixel and
    // the clamp keeps every channel a byte.
    for &(cb, cr) in &[(0u8, 0u8), (255, 255), (0, 255), (255, 0)] {
        for &full in &[true, false] {
            let data = vec![255, 0, 255, 0, cb, cr];
            let out = nv12_to_rgb24(&data, 2, 2, &bt709(), full).unwrap();
            assert_eq!(out.len(), 12);
        }
    }
}

#[test]
fn convert_neutral_gray_both_standards() {
    // Luma 128 everywhere, chroma 128, full range: R=G=B=128 whatever the
    // matrix.
    let data = vec![128u8; 6];
    for m in [bt601(), bt709()] {
        let out = nv12_to_rgb24(&data, 2, 2, &m, true).unwrap();
        assert_eq!(out, vec![128u8; 12]);
    }
}

#[test]
fn convert_limited_range_red() {
    // Limited-range sample of a saturated red: Y=81, Cb=90, Cr=240 under
    // the legacy SD matrix decodes to (254, 0, 0) exactly.
    let data = vec![81, 81, 81, 81, 90, 240];
    let out = nv12_to_rgb24(&data, 2, 2, &bt601(), false).unwrap();
    for px in out.chunks(3) {
        assert_eq!(px, &[254, 0, 0]);
    }
}

#[test]
fn convert_undersized_buffer_fails() {
    // One byte short of width*height*3/2 must fail with the
    // insufficient-buffer error, not read out of bounds.
    let data = vec![128u8; 5];
    let r = nv12_to_rgb24(&data, 2, 2, &bt601(), true);
    assert_eq!(
        r.unwrap_err(),
        ConvertError::InsufficientBuffer {
            actual: 5,
            expected: 6
        }
    );
}

#[test]
fn convert_chroma_sampling_collapses_columns() {
    // Columns 2c and 2c+1 share one chroma pair: a 2x2 frame with a single
    // chroma pair gives the same color on all four pixels.
    let data = vec![100, 100, 100, 100, 30, 220];
    let out = nv12_to_rgb24(&data, 2, 2, &bt709(), true).unwrap();
    let first: Vec<u8> = out[0..3].to_vec();
    for px in out.chunks(3) {
        assert_eq!(px, &first[..]);
    }
}

#[test]
fn convert_odd_dimensions_need_the_full_chroma_rows() {
    // A single-row frame still reads a whole chroma row: 2x1 needs 4
    // bytes, not 3.
    let r = nv12_to_rgb24(&vec![128u8; 3], 2, 1, &bt601(), true);
    assert_eq!(
        r.unwrap_err(),
        ConvertError::InsufficientBuffer {
            actual: 3,
            expected: 4
        }
    );
    let out = nv12_to_rgb24(&vec![128u8; 4], 2, 1, &bt601(), true).unwrap();
    assert_eq!(out, vec![128u8; 6]);
    // An odd width's last column starts a fresh chroma pair, whose second
    // byte lies one past the packed plane: 3x2 needs 10 bytes, not 9.
    let r = nv12_to_rgb24(&vec![128u8; 9], 3, 2, &bt601(), true);
    assert_eq!(
        r.unwrap_err(),
        ConvertError::InsufficientBuffer {
            actual: 9,
            expected: 10
        }
    );
    let out = nv12_to_rgb24(&vec![128u8; 10], 3, 2, &bt601(), true).unwrap();
    assert_eq!(out, vec![128u8; 18]);
}

#[test]
fn mirror_is_involution_odd_width() {
    let width = 3u32;
    let height = 2u32;
    let original: Vec<u8> = (0..18u8).collect();
    let mut buf = original.clone();
    mirror_rgb(&mut buf, width, height);
    // Middle column of an odd width stays put.
    assert_eq!(&buf[3..6], &original[3..6]);
    // Outer columns swapped in each row.
    assert_eq!(&buf[0..3], &original[6..9]);
    assert_eq!(&buf[6..9], &original[0..3]);
    mirror_rgb(&mut buf, width, height);
    assert_eq!(buf, original);
}

#[test]
fn mirror_is_involution_even_width() {
    let width = 4u32;
    let height = 3u32;
    let original: Vec<u8> = (0..36u8).map(|b| b.wrapping_mul(7)).collect();
    let mut buf = original.clone();
    mirror_rgb(&mut buf, width, height);
    mirror_rgb(&mut buf, width, height);
    assert_eq!(buf, original);
}

#[test]
fn encode_round_trip_all_white() {
    // 2x2 all-white: 54 header bytes plus two 8-byte rows.
    let rgb = vec![255u8; 12];
    let bytes = encode_bmp(2, 2, &rgb).unwrap();
    let row_stride = (2 * 3 + 3) & !3u32;
    assert_eq!(bytes.len(), 54 + (row_stride * 2) as usize);
    let file_size = 54 + row_stride * 2;
    assert_eq!(&bytes[0..2], b"BM");
    assert_eq!(&bytes[2..6], &file_size.to_le_bytes());
    assert_eq!(&bytes[6..8], &0u16.to_le_bytes());
    assert_eq!(&bytes[8..10], &0u16.to_le_bytes());
    assert_eq!(&bytes[10..14], &54u32.to_le_bytes());
    // Info header: size, width, negative height, planes, bit count.
    assert_eq!(&bytes[14..18], &40u32.to_le_bytes());
    assert_eq!(&bytes[18..22], &2u32.to_le_bytes());
    assert_eq!(&bytes[22..26], &(-2i32).to_le_bytes());
    assert_eq!(&bytes[26..28], &1u16.to_le_bytes());
    assert_eq!(&bytes[28..30], &24u16.to_le_bytes());
    assert_eq!(&bytes[30..34], &0u32.to_le_bytes());
    assert_eq!(&bytes[34..38], &(row_stride * 2).to_le_bytes());
    assert_eq!(&bytes[38..42], &2835u32.to_le_bytes());
    assert_eq!(&bytes[42..46], &2835u32.to_le_bytes());
    assert_eq!(&bytes[46..50], &0u32.to_le_bytes());
    assert_eq!(&bytes[50..54], &0u32.to_le_bytes());
    // Pixel rows: six 255 bytes then two padding zeros, twice.
    for row in 0..2 {
        let base = 54 + row * row_stride as usize;
        assert_eq!(&bytes[base..base + 6], &[255u8; 6]);
        assert_eq!(&bytes[base + 6..base + 8], &[0u8, 0u8]);
    }
}

#[test]
fn encode_swaps_red_and_blue() {
    // One pixel (10, 20, 30) is stored blue-green-red.
    let rgb = vec![10u8, 20, 30];
    let bytes = encode_bmp(1, 1, &rgb).unwrap();
    assert_eq!(&bytes[54..57], &[30, 20, 10]);
}

#[test]
fn encode_dimension_mismatch_fails() {
    // A buffer whose length is not width*height*3 must fail, both short
    // and long.
    let short = vec![255u8; 11];
    assert_eq!(
        encode_bmp(2, 2, &short).unwrap_err(),
        EncodeError::DimensionMismatch {
            expected: 12,
            actual: 11
        }
    );
    let long = vec![255u8; 13];
    assert_eq!(
        encode_bmp(2, 2, &long).unwrap_err(),
        EncodeError::DimensionMismatch {
            expected: 12,
            actual: 13
        }
    );
}

#[test]
fn decode_frame_rejects_other_formats() {
    let frame = CapturedFrame {
        width: 2,
        height: 2,
        pixel_format: "YUY2".to_string(),
        full_range: true,
        data: vec![128u8; 6],
    };
    match decode_frame(&frame, &bt601()) {
        Err(PipelineError::UnsupportedFormat { format }) => assert_eq!(format, "YUY2"),
        other => panic!("expected unsupported-format error, got {:?}", other.err()),
    }
}

#[test]
fn decode_frame_rejects_short_buffer() {
    let frame = nv12_frame(2, 2, vec![128u8; 5], true);
    match decode_frame(&frame, &bt601()) {
        Err(PipelineError::InsufficientBuffer { actual, expected }) => {
            assert_eq!(actual, 5);
            assert_eq!(expected, 6);
        }
        other => panic!("expected insufficient-buffer error, got {:?}", other.err()),
    }
}

#[test]
fn capture_test_outputs_neutral_frame() {
    // The full pipeline: a neutral 2x2 frame gives two 70-byte BMPs whose
    // pixel bytes are all 128, identical for both standards.
    let frame = nv12_frame(2, 2, vec![128u8; 6], true);
    let (a, b) = capture_test_outputs(&frame, false).unwrap();
    assert_eq!(a.len(), 70);
    assert_eq!(a, b);
    for row in 0..2 {
        let base = 54 + row * 8;
        assert_eq!(&a[base..base + 6], &[128u8; 6]);
    }
}

#[test]
fn capture_test_outputs_mirrors_when_asked() {
    // Left column bright, right column dark; mirrored output swaps them.
    // Luma 200 and 50 under full range with neutral chroma decode to
    // gray levels 200 and 50.
    let data = vec![200, 50, 200, 50, 128, 128];
    let frame = nv12_frame(2, 2, data, true);
    let (plain, _) = capture_test_outputs(&frame, false).unwrap();
    let frame2 = nv12_frame(2, 2, vec![200, 50, 200, 50, 128, 128], true);
    let (flipped, _) = capture_test_outputs(&frame2, true).unwrap();
    for row in 0..2 {
        let base = 54 + row * 8;
        assert_eq!(&plain[base..base + 3], &[200u8; 3]);
        assert_eq!(&plain[base + 3..base + 6], &[50u8; 3]);
        assert_eq!(&flipped[base..base + 3], &[50u8; 3]);
        assert_eq!(&flipped[base + 3..base + 6], &[200u8; 3]);
    }
}

#[test]
fn capture_test_outputs_propagates_errors() {
    let bad_format = CapturedFrame {
        width: 2,
        height: 2,
        pixel_format: "MJPG".to_string(),
        full_range: false,
        data: vec![0u8; 6],
    };
    assert!(matches!(
        capture_test_outputs(&bad_format, false),
        Err(PipelineError::UnsupportedFormat { .. })
    ));
    let short = nv12_frame(2, 2, vec![0u8; 5], false);
    assert!(matches!(
        capture_test_outputs(&short, false),
        Err(PipelineError::InsufficientBuffer {
            actual: 5,
            expected: 6
        })
    ));
}

#[test]
fn standard_coefficients() {
    let sd = bt601();
    assert_eq!((sd.kr_num, sd.kb_num), (2990, 1140));
    assert_eq!(sd.name, "BT.601");
    let hd = bt709();
    assert_eq!((hd.kr_num, hd.kb_num), (2126, 722));
    assert_eq!(hd.name, "BT.709");
}
