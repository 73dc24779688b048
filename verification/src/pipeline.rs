//! The diagnostic pipeline: check a captured frame, decode it with a
//! transform standard, optionally mirror it, and serialize the result as
//! a BMP file — all over the same input frame, once per standard, so an
//! operator can compare which standard the upstream hardware used.
use vstd::prelude::*;

verus! {

use crate::bmp::{bmp_file, encode_bmp, spec_file_size};
use crate::mirror::{mirror_rgb, mirrored};
use crate::platform::CapturedFrame;
use crate::yuv::{
    bt601,
    bt709,
    convert_spec,
    matrix_valid,
    nv12_to_rgb24,
    required_len,
    YuvMatrix,
};

/// Why a frame could not be turned into images.
#[derive(Debug)]
pub enum PipelineError {
    /// The frame's pixel layout is not the supported planar NV12 layout;
    /// carries the offending layout's name.
    UnsupportedFormat { format: String },
    /// The frame's data is shorter than the NV12 layout requires for the
    /// declared dimensions.
    InsufficientBuffer { actual: usize, expected: usize },
}

/// The frame declares the supported NV12 layout.
pub open spec fn frame_is_nv12(frame: CapturedFrame) -> bool {
    frame.pixel_format@ == "NV12"@
}

/// The frame's buffer holds every byte its layout makes the decoder read.
pub open spec fn frame_buffer_sufficient(frame: CapturedFrame) -> bool {
    frame.data@.len() >= required_len(frame.width as int, frame.height as int)
}

/// Decodes a captured frame into a dense RGB24 buffer under the given
/// standard, honouring the frame's own quantization range.  Fails on any
/// layout other than NV12, naming it, and on a short buffer, reporting
/// actual against required size.
pub fn decode_frame(frame: &CapturedFrame, matrix: &YuvMatrix) -> (r: Result<
    Vec<u8>,
    PipelineError,
>)
    requires
        matrix_valid(*matrix),
        required_len(frame.width as int, frame.height as int) <= usize::MAX,
    ensures
        r.is_ok() <==> frame_is_nv12(*frame) && frame_buffer_sufficient(*frame),
        r matches Ok(out) ==> out@ == convert_spec(
            frame.data@,
            frame.width as int,
            frame.height as int,
            *matrix,
            frame.full_range,
        ),
        !frame_is_nv12(*frame) ==> (r matches Err(e) && e matches
            PipelineError::UnsupportedFormat { format } && format@ == frame.pixel_format@),
        frame_is_nv12(*frame) && !frame_buffer_sufficient(*frame) ==> (r matches Err(e) && e
            matches PipelineError::InsufficientBuffer { actual, expected } && actual
            == frame.data@.len() && expected == required_len(
            frame.width as int,
            frame.height as int,
        )),
{
    let nv12 = String::from_str("NV12");
    if !(frame.pixel_format == nv12) {
        return Err(PipelineError::UnsupportedFormat { format: frame.pixel_format.clone() });
    }
    match nv12_to_rgb24(&frame.data, frame.width, frame.height, matrix, frame.full_range) {
        Ok(out) => Ok(out),
        Err(crate::yuv::ConvertError::InsufficientBuffer { actual, expected }) => Err(
            PipelineError::InsufficientBuffer { actual, expected },
        ),
    }
}

/// The RGB24 buffer a decoded frame yields under `matrix`, flipped when
/// `mirror` is set.
pub open spec fn decoded_image(frame: CapturedFrame, m: YuvMatrix, mirror: bool) -> Seq<u8> {
    let rgb = convert_spec(
        frame.data@,
        frame.width as int,
        frame.height as int,
        m,
        frame.full_range,
    );
    if mirror {
        mirrored(rgb, frame.width as int)
    } else {
        rgb
    }
}

/// Decodes the same frame once with each of the two standards, applies
/// the optional horizontal mirror, and serializes both results as BMP
/// files: the pair is (legacy SD image, HD image), byte-exact.
pub fn capture_test_outputs(frame: &CapturedFrame, mirror: bool) -> (r: Result<
    (Vec<u8>, Vec<u8>),
    PipelineError,
>)
    requires
        required_len(frame.width as int, frame.height as int) <= usize::MAX,
        frame.width * 3 + 3 <= u32::MAX,
        spec_file_size(frame.width, frame.height) <= u32::MAX,
        frame.height <= 0x7fff_ffff,
    ensures
        r.is_ok() <==> frame_is_nv12(*frame) && frame_buffer_sufficient(*frame),
        r matches Ok(pair) ==> pair.0@ == bmp_file(
            frame.width,
            frame.height,
            decoded_image(*frame, crate::yuv::spec_bt601(), mirror),
        ) && pair.1@ == bmp_file(
            frame.width,
            frame.height,
            decoded_image(*frame, crate::yuv::spec_bt709(), mirror),
        ),
        !frame_is_nv12(*frame) ==> (r matches Err(e) && e matches
            PipelineError::UnsupportedFormat { format } && format@ == frame.pixel_format@),
        frame_is_nv12(*frame) && !frame_buffer_sufficient(*frame) ==> (r matches Err(e) && e
            matches PipelineError::InsufficientBuffer { actual, expected } && actual
            == frame.data@.len() && expected == required_len(
            frame.width as int,
            frame.height as int,
        )),
{
    let m601 = bt601();
    let m709 = bt709();
    let mut rgb601 = match decode_frame(frame, &m601) {
        Ok(v) => v,
        Err(e) => { return Err(e); },
    };
    let mut rgb709 = match decode_frame(frame, &m709) {
        Ok(v) => v,
        Err(e) => {
            proof {
                assert(false);
            }
            return Err(e);
        },
    };
    proof {
        assert(3 * ((frame.width as int) * (frame.height as int)) == 3 * frame.width * frame.height)
            by (nonlinear_arith);
    }
    if mirror {
        mirror_rgb(&mut rgb601, frame.width, frame.height);
        mirror_rgb(&mut rgb709, frame.width, frame.height);
    }
    let bytes601 = match encode_bmp(frame.width, frame.height, &rgb601) {
        Ok(b) => b,
        Err(_) => {
            proof {
                assert(false);
            }
            Vec::new()
        },
    };
    let bytes709 = match encode_bmp(frame.width, frame.height, &rgb709) {
        Ok(b) => b,
        Err(_) => {
            proof {
                assert(false);
            }
            Vec::new()
        },
    };
    Ok((bytes601, bytes709))
}

} // verus!
