//! Data shapes exchanged with the platform capture backends, and the
//! portable entry points of the capability interface.
//!
//! Enumerating devices, pulling frames off a device and overriding a
//! media type live behind platform media frameworks (foreign session
//! state) that this library does not bind; the portable entry points
//! here report those requests as unsupported, exactly as the
//! non-backed platforms do.  A caller with a real backend hands the
//! captured frame to the decoding pipeline as a plain [`CapturedFrame`].
use vstd::prelude::*;

verus! {

use vstd::string::StringExecFns;
use crate::text::{dec_digits, decimal_string};

/// One enumerated capture device.
pub struct DeviceInfo {
    /// Friendly device name.
    pub name: String,
    /// Platform path or symbolic link of the device node.
    pub path: String,
    /// Formats the device advertises.
    pub formats: Vec<FormatInfo>,
}

/// One advertised format of a device.
pub struct FormatInfo {
    /// Pixel layout name, e.g. `NV12`.
    pub pixel_format: String,
    /// Resolution, rendered as `WxH`.
    pub resolution: String,
    /// Frame rate description.
    pub frame_rate: String,
    /// Colorspace signalling of the format.
    pub colorspace: ColorspaceInfo,
}

/// Colorspace signalling of a format, already rendered as text.
pub struct ColorspaceInfo {
    /// Color primaries name.
    pub primaries: String,
    /// YCbCr transform matrix name, the key diagnostic field.
    pub matrix: String,
    /// Transfer function name.
    pub transfer: String,
    /// Quantization range name.
    pub range: String,
}

/// A frame pulled off a capture device, as the backends hand it over.
#[derive(Debug)]
pub struct CapturedFrame {
    /// Width in pixels.
    pub width: u32,
    /// Height in pixels.
    pub height: u32,
    /// Pixel layout name; the decoder supports `NV12`.
    pub pixel_format: String,
    /// Whether the samples use the full 0-255 range.
    pub full_range: bool,
    /// The raw frame bytes.
    pub data: Vec<u8>,
}

/// Reported when a platform operation has no backend here.
#[derive(Debug, PartialEq, Eq, Structural)]
pub enum PlatformError {
    CaptureUnsupported,
    ForceMatrixUnsupported,
}

/// Captures a frame from the device at `device_index`, optionally at the
/// given resolution.  No media-framework backend is linked into this
/// build, so the request is always reported unsupported.
pub fn capture_frame(device_index: usize, resolution: Option<(u32, u32)>) -> (r: Result<
    CapturedFrame,
    PlatformError,
>)
    ensures
        r matches Err(e) && e == PlatformError::CaptureUnsupported,
{
    let _ = device_index;
    let _ = resolution;
    Err(PlatformError::CaptureUnsupported)
}

/// Overrides the YCbCr matrix attribute on the device's media type.  No
/// media-framework backend is linked into this build, so the request is
/// always reported unsupported.
pub fn force_matrix(device_index: usize, matrix: crate::cli::MatrixChoice) -> (r: Result<
    (),
    PlatformError,
>)
    ensures
        r matches Err(e) && e == PlatformError::ForceMatrixUnsupported,
{
    let _ = device_index;
    let _ = matrix;
    Err(PlatformError::ForceMatrixUnsupported)
}

/// `Unknown (v)` for an unlisted enumeration code.
pub open spec fn spec_unknown_code(v: u32) -> Seq<char> {
    "Unknown ("@ + dec_digits(v as int) + ")"@
}

/// Renders an unlisted enumeration code.
fn unknown_code(v: u32) -> (s: String)
    ensures
        s@ == spec_unknown_code(v),
{
    let d = decimal_string(v);
    String::from_str("Unknown (").concat(d.as_str()).concat(")")
}

/// Name of a video-primaries code of the media-framework enumeration.
pub open spec fn spec_primaries_name(v: u32) -> Seq<char> {
    if v == 2 {
        "BT.709"@
    } else if v == 3 {
        "BT.470-2 System M"@
    } else if v == 4 {
        "BT.470-2 System B/G"@
    } else if v == 5 {
        "SMPTE 170M"@
    } else if v == 6 {
        "SMPTE 240M"@
    } else if v == 7 {
        "EBU 3213"@
    } else if v == 8 {
        "SMPTE C"@
    } else if v == 9 {
        "BT.2020"@
    } else if v == 10 {
        "XYZ"@
    } else if v == 11 {
        "DCI-P3"@
    } else if v == 0 || v == 1 {
        "Unknown"@
    } else {
        spec_unknown_code(v)
    }
}

/// Maps a video-primaries code to its name.
pub fn primaries_name(v: u32) -> (s: String)
    ensures
        s@ == spec_primaries_name(v),
{
    if v == 2 {
        String::from_str("BT.709")
    } else if v == 3 {
        String::from_str("BT.470-2 System M")
    } else if v == 4 {
        String::from_str("BT.470-2 System B/G")
    } else if v == 5 {
        String::from_str("SMPTE 170M")
    } else if v == 6 {
        String::from_str("SMPTE 240M")
    } else if v == 7 {
        String::from_str("EBU 3213")
    } else if v == 8 {
        String::from_str("SMPTE C")
    } else if v == 9 {
        String::from_str("BT.2020")
    } else if v == 10 {
        String::from_str("XYZ")
    } else if v == 11 {
        String::from_str("DCI-P3")
    } else if v == 0 || v == 1 {
        String::from_str("Unknown")
    } else {
        unknown_code(v)
    }
}

/// Name of a YCbCr-matrix code of the media-framework enumeration.
pub open spec fn spec_matrix_name(v: u32) -> Seq<char> {
    if v == 1 {
        "BT.709"@
    } else if v == 2 {
        "BT.601"@
    } else if v == 3 {
        "SMPTE 240M"@
    } else if v == 4 {
        "BT.2020 (10-bit)"@
    } else if v == 5 {
        "BT.2020 (12-bit)"@
    } else if v == 0 {
        "Unknown"@
    } else {
        spec_unknown_code(v)
    }
}

/// Maps a YCbCr-matrix code to its name.
pub fn matrix_name(v: u32) -> (s: String)
    ensures
        s@ == spec_matrix_name(v),
{
    if v == 1 {
        String::from_str("BT.709")
    } else if v == 2 {
        String::from_str("BT.601")
    } else if v == 3 {
        String::from_str("SMPTE 240M")
    } else if v == 4 {
        String::from_str("BT.2020 (10-bit)")
    } else if v == 5 {
        String::from_str("BT.2020 (12-bit)")
    } else if v == 0 {
        String::from_str("Unknown")
    } else {
        unknown_code(v)
    }
}

/// Name of a transfer-function code of the media-framework enumeration.
pub open spec fn spec_transfer_name(v: u32) -> Seq<char> {
    if v == 5 {
        "BT.709"@
    } else if v == 7 {
        "sRGB"@
    } else if v == 1 {
        "Linear (gamma 1.0)"@
    } else if v == 2 {
        "Gamma 1.8"@
    } else if v == 3 {
        "Gamma 2.0"@
    } else if v == 4 {
        "Gamma 2.2"@
    } else if v == 6 {
        "SMPTE 240M"@
    } else if v == 8 {
        "Gamma 2.8"@
    } else if v == 9 {
        "Log 100"@
    } else if v == 10 {
        "Log 316"@
    } else if v == 12 {
        "BT.2020 (constant)"@
    } else if v == 13 {
        "BT.2020"@
    } else if v == 14 {
        "Gamma 2.6"@
    } else if v == 15 {
        "SMPTE 2084 (PQ)"@
    } else if v == 16 {
        "HLG"@
    } else if v == 0 {
        "Unknown"@
    } else {
        spec_unknown_code(v)
    }
}

/// Maps a transfer-function code to its name.
pub fn transfer_name(v: u32) -> (s: String)
    ensures
        s@ == spec_transfer_name(v),
{
    if v == 5 {
        String::from_str("BT.709")
    } else if v == 7 {
        String::from_str("sRGB")
    } else if v == 1 {
        String::from_str("Linear (gamma 1.0)")
    } else if v == 2 {
        String::from_str("Gamma 1.8")
    } else if v == 3 {
        String::from_str("Gamma 2.0")
    } else if v == 4 {
        String::from_str("Gamma 2.2")
    } else if v == 6 {
        String::from_str("SMPTE 240M")
    } else if v == 8 {
        String::from_str("Gamma 2.8")
    } else if v == 9 {
        String::from_str("Log 100")
    } else if v == 10 {
        String::from_str("Log 316")
    } else if v == 12 {
        String::from_str("BT.2020 (constant)")
    } else if v == 13 {
        String::from_str("BT.2020")
    } else if v == 14 {
        String::from_str("Gamma 2.6")
    } else if v == 15 {
        String::from_str("SMPTE 2084 (PQ)")
    } else if v == 16 {
        String::from_str("HLG")
    } else if v == 0 {
        String::from_str("Unknown")
    } else {
        unknown_code(v)
    }
}

/// Name of a nominal-range code of the media-framework enumeration.
pub open spec fn spec_range_name(v: u32) -> Seq<char> {
    if v == 1 {
        "Full (0-255)"@
    } else if v == 2 {
        "Limited (16-235)"@
    } else if v == 3 {
        "48-208"@
    } else if v == 4 {
        "64-127"@
    } else if v == 0 {
        "Unknown"@
    } else {
        spec_unknown_code(v)
    }
}

/// Maps a nominal-range code to its name.
pub fn range_name(v: u32) -> (s: String)
    ensures
        s@ == spec_range_name(v),
{
    if v == 1 {
        String::from_str("Full (0-255)")
    } else if v == 2 {
        String::from_str("Limited (16-235)")
    } else if v == 3 {
        String::from_str("48-208")
    } else if v == 4 {
        String::from_str("64-127")
    } else if v == 0 {
        String::from_str("Unknown")
    } else {
        unknown_code(v)
    }
}

/// Primaries name for a V4L2 colorspace code.
pub open spec fn spec_v4l_primaries(cs: u32) -> Seq<char> {
    if cs == 3 {
        "BT.709"@
    } else if cs == 1 {
        "SMPTE 170M"@
    } else if cs == 2 {
        "SMPTE 240M"@
    } else if cs == 10 {
        "BT.2020"@
    } else if cs == 8 {
        "sRGB"@
    } else if cs == 9 {
        "opRGB"@
    } else if cs == 7 {
        "BT.601"@
    } else if cs == 5 {
        "NTSC"@
    } else if cs == 6 {
        "EBU Tech 3213"@
    } else if cs == 11 {
        "Raw"@
    } else if cs == 12 {
        "DCI-P3"@
    } else {
        "Default"@
    }
}

/// Matrix name for a V4L2 colorspace code.
pub open spec fn spec_v4l_matrix(cs: u32) -> Seq<char> {
    if cs == 3 {
        "BT.709"@
    } else if cs == 1 || cs == 5 || cs == 6 {
        "BT.601"@
    } else if cs == 2 {
        "SMPTE 240M"@
    } else if cs == 10 {
        "BT.2020"@
    } else if cs == 8 {
        "sRGB"@
    } else if cs == 9 {
        "opRGB"@
    } else if cs == 7 {
        "BT.601 (JPEG)"@
    } else if cs == 11 {
        "None"@
    } else if cs == 12 {
        "DCI-P3"@
    } else {
        "Default"@
    }
}

/// Transfer-function name for a V4L2 transfer code.
pub open spec fn spec_v4l_transfer(tf: u32) -> Seq<char> {
    if tf == 1 {
        "BT.709"@
    } else if tf == 2 {
        "sRGB"@
    } else if tf == 3 {
        "opRGB"@
    } else if tf == 4 {
        "SMPTE 240M"@
    } else if tf == 5 {
        "None (linear)"@
    } else if tf == 6 {
        "DCI-P3"@
    } else if tf == 7 {
        "SMPTE 2084 (PQ)"@
    } else {
        "Default"@
    }
}

/// Range name for a V4L2 quantization code.
pub open spec fn spec_v4l_range(q: u32) -> Seq<char> {
    if q == 1 {
        "Full (0-255)"@
    } else if q == 2 {
        "Limited (16-235)"@
    } else {
        "Default"@
    }
}

/// Renders the colorspace signalling a V4L2 device reports, given the
/// raw colorspace, transfer-function and quantization codes of its
/// current format.  Codes outside the enumerations render as the driver
/// default.
pub fn colorspace_info(colorspace: u32, transfer: u32, quantization: u32) -> (r: ColorspaceInfo)
    ensures
        r.primaries@ == spec_v4l_primaries(colorspace),
        r.matrix@ == spec_v4l_matrix(colorspace),
        r.transfer@ == spec_v4l_transfer(transfer),
        r.range@ == spec_v4l_range(quantization),
{
    let primaries = if colorspace == 3 {
        String::from_str("BT.709")
    } else if colorspace == 1 {
        String::from_str("SMPTE 170M")
    } else if colorspace == 2 {
        String::from_str("SMPTE 240M")
    } else if colorspace == 10 {
        String::from_str("BT.2020")
    } else if colorspace == 8 {
        String::from_str("sRGB")
    } else if colorspace == 9 {
        String::from_str("opRGB")
    } else if colorspace == 7 {
        String::from_str("BT.601")
    } else if colorspace == 5 {
        String::from_str("NTSC")
    } else if colorspace == 6 {
        String::from_str("EBU Tech 3213")
    } else if colorspace == 11 {
        String::from_str("Raw")
    } else if colorspace == 12 {
        String::from_str("DCI-P3")
    } else {
        String::from_str("Default")
    };
    let matrix = if colorspace == 3 {
        String::from_str("BT.709")
    } else if colorspace == 1 || colorspace == 5 || colorspace == 6 {
        String::from_str("BT.601")
    } else if colorspace == 2 {
        String::from_str("SMPTE 240M")
    } else if colorspace == 10 {
        String::from_str("BT.2020")
    } else if colorspace == 8 {
        String::from_str("sRGB")
    } else if colorspace == 9 {
        String::from_str("opRGB")
    } else if colorspace == 7 {
        String::from_str("BT.601 (JPEG)")
    } else if colorspace == 11 {
        String::from_str("None")
    } else if colorspace == 12 {
        String::from_str("DCI-P3")
    } else {
        String::from_str("Default")
    };
    let transfer_text = if transfer == 1 {
        String::from_str("BT.709")
    } else if transfer == 2 {
        String::from_str("sRGB")
    } else if transfer == 3 {
        String::from_str("opRGB")
    } else if transfer == 4 {
        String::from_str("SMPTE 240M")
    } else if transfer == 5 {
        String::from_str("None (linear)")
    } else if transfer == 6 {
        String::from_str("DCI-P3")
    } else if transfer == 7 {
        String::from_str("SMPTE 2084 (PQ)")
    } else {
        String::from_str("Default")
    };
    let range = if quantization == 1 {
        String::from_str("Full (0-255)")
    } else if quantization == 2 {
        String::from_str("Limited (16-235)")
    } else {
        String::from_str("Default")
    };
    ColorspaceInfo { primaries, matrix, transfer: transfer_text, range }
}

/// Reported when no capture mode can be selected.
#[derive(Debug, PartialEq, Eq, Structural)]
pub enum SelectError {
    /// A resolution was requested but no mode matches it.
    NoMatch,
    /// The device advertises no modes at all.
    NoFormats,
}

/// Pixel count of a mode.
pub open spec fn mode_pixels(m: (u32, u32)) -> int {
    m.0 * m.1
}

/// Picks which advertised mode to capture: the first exact match of the
/// requested resolution, or, with no request, the first mode with the
/// greatest pixel count.
pub fn select_nv12_resolution(available: &Vec<(u32, u32)>, requested: Option<(u32, u32)>) -> (r:
    Result<usize, SelectError>)
    ensures
        requested matches Some(want) ==> {
            &&& (r matches Ok(i) ==> 0 <= i < available@.len() && available@[i as int] == want
                && forall|j: int| 0 <= j < i ==> available@[j] != want)
            &&& (r matches Err(e) ==> e == SelectError::NoMatch && forall|j: int|
                0 <= j < available@.len() ==> available@[j] != want)
        },
        requested is None ==> {
            &&& (r.is_ok() <==> available@.len() > 0)
            &&& (r matches Err(e) ==> e == SelectError::NoFormats)
            &&& (r matches Ok(i) ==> 0 <= i < available@.len() && (forall|j: int|
                0 <= j < available@.len() ==> mode_pixels(available@[j]) <= mode_pixels(
                    available@[i as int],
                )) && (forall|j: int|
                0 <= j < i ==> mode_pixels(available@[j]) < mode_pixels(available@[i as int])))
        },
{
    let n = available.len();
    match requested {
        Some((rw, rh)) => {
            let mut i: usize = 0;
            while i < n
                invariant
                    0 <= i <= n,
                    n == available@.len(),
                    requested == Some((rw, rh)),
                    forall|j: int| 0 <= j < i ==> available@[j] != (rw, rh),
                decreases n - i,
            {
                let (w, h) = available[i];
                if w == rw && h == rh {
                    return Ok(i);
                }
                i = i + 1;
            }
            Err(SelectError::NoMatch)
        },
        None => {
            if n == 0 {
                return Err(SelectError::NoFormats);
            }
            let mut best: usize = 0;
            let mut best_pixels: u64 = 0;
            let mut i: usize = 0;
            while i < n
                invariant
                    0 <= i <= n,
                    n == available@.len(),
                    n > 0,
                    requested is None,
                    i == 0 ==> best == 0 && best_pixels == 0,
                    i > 0 ==> (0 <= best < i && best_pixels == mode_pixels(
                        available@[best as int],
                    ) && (forall|j: int|
                        0 <= j < i ==> mode_pixels(available@[j]) <= best_pixels) && (forall|
                        j: int,
                    |
                        0 <= j < best ==> mode_pixels(available@[j]) < best_pixels)),
                decreases n - i,
            {
                let (w, h) = available[i];
                proof {
                    assert((w as int) * (h as int) <= 0xffff_ffff * 0xffff_ffff)
                        by (nonlinear_arith)
                        requires
                            w <= 0xffff_ffff,
                            h <= 0xffff_ffff,
                    ;
                    assert((w as int) * (h as int) >= 0) by (nonlinear_arith);
                }
                let pixels: u64 = (w as u64) * (h as u64);
                if i == 0 || pixels > best_pixels {
                    best = i;
                    best_pixels = pixels;
                }
                i = i + 1;
            }
            Ok(best)
        },
    }
}

/// The media-framework code a matrix choice is written as when forcing
/// it onto a media type.
pub open spec fn spec_matrix_choice_code(m: crate::cli::MatrixChoice) -> u32 {
    match m {
        crate::cli::MatrixChoice::Bt601 => 2,
        crate::cli::MatrixChoice::Bt709 => 1,
    }
}

/// Code to write for a matrix choice.
pub fn matrix_choice_code(m: crate::cli::MatrixChoice) -> (v: u32)
    ensures
        v == spec_matrix_choice_code(m),
{
    match m {
        crate::cli::MatrixChoice::Bt601 => 2,
        crate::cli::MatrixChoice::Bt709 => 1,
    }
}

/// Display name of a matrix choice.
pub fn matrix_choice_name(m: crate::cli::MatrixChoice) -> (s: &'static str)
    ensures
        m is Bt601 ==> s@ == "BT.601"@,
        m is Bt709 ==> s@ == "BT.709"@,
{
    match m {
        crate::cli::MatrixChoice::Bt601 => "BT.601",
        crate::cli::MatrixChoice::Bt709 => "BT.709",
    }
}

/// Two formats describe the same mode: same pixel layout, resolution
/// and frame rate.
pub open spec fn same_format_key(a: FormatInfo, b: FormatInfo) -> bool {
    a.pixel_format@ == b.pixel_format@ && a.resolution@ == b.resolution@ && a.frame_rate@
        == b.frame_rate@
}

/// Position `p` holds the first occurrence of its mode.
pub open spec fn first_occurrence(formats: Seq<FormatInfo>, p: int) -> bool {
    0 <= p < formats.len() && forall|j: int| 0 <= j < p ==> !same_format_key(
        formats[j],
        formats[p],
    )
}

/// Positions of the first occurrence of each distinct mode, in order:
/// the enumeration listing shows each mode once.
pub fn unique_format_indexes(formats: &Vec<FormatInfo>) -> (r: Vec<usize>)
    ensures
        forall|k: int| 0 <= k < r@.len() ==> first_occurrence(formats@, #[trigger] r@[k] as int),
        forall|k1: int, k2: int| 0 <= k1 < k2 < r@.len() ==> r@[k1] < r@[k2],
        forall|p: int|
            first_occurrence(formats@, p) ==> exists|k: int|
                0 <= k < r@.len() && #[trigger] r@[k] == p,
{
    let n = formats.len();
    let mut r: Vec<usize> = Vec::new();
    let mut p: usize = 0;
    while p < n
        invariant
            0 <= p <= n,
            n == formats@.len(),
            forall|k: int|
                0 <= k < r@.len() ==> first_occurrence(formats@, #[trigger] r@[k] as int) && r@[k]
                    < p,
            forall|k1: int, k2: int| 0 <= k1 < k2 < r@.len() ==> r@[k1] < r@[k2],
            forall|q: int|
                0 <= q < p && first_occurrence(formats@, q) ==> exists|k: int|
                    0 <= k < r@.len() && #[trigger] r@[k] == q,
        decreases n - p,
    {
        let mut dup = false;
        let mut j: usize = 0;
        while j < p
            invariant
                0 <= j <= p,
                p < n,
                n == formats@.len(),
                dup == exists|j2: int|
                    0 <= j2 < j && same_format_key(
                        #[trigger] formats@[j2],
                        formats@[p as int],
                    ),
            decreases p - j,
        {
            let eq = formats[j].pixel_format == formats[p].pixel_format && formats[j].resolution
                == formats[p].resolution && formats[j].frame_rate == formats[p].frame_rate;
            if eq {
                dup = true;
            }
            j = j + 1;
        }
        let ghost r_old = r@;
        if !dup {
            r.push(p);
        }
        proof {
            assert forall|q: int| 0 <= q < p + 1 && first_occurrence(formats@, q) implies exists|
                k: int,
            | 0 <= k < r@.len() && #[trigger] r@[k] == q by {
                if q == p {
                    assert(!dup);
                    assert(r@[r@.len() - 1] == q);
                } else {
                    let k0 = choose|k0: int| 0 <= k0 < r_old.len() && #[trigger] r_old[k0] == q;
                    assert(r@[k0] == q);
                }
            }
        }
        p = p + 1;
    }
    r
}

/// Renders `WxH`.
pub fn format_resolution(width: u32, height: u32) -> (s: String)
    ensures
        s@ == dec_digits(width as int) + "x"@ + dec_digits(height as int),
{
    let h = decimal_string(height);
    decimal_string(width).concat("x").concat(h.as_str())
}

/// How a matrix name is annotated in the enumeration listing.
pub open spec fn spec_format_matrix_highlight(m: Seq<char>) -> Seq<char> {
    if m == "BT.709"@ {
        m + " <-- expected for modern OS (Win 24H2+, Linux 720p+)"@
    } else if m == "BT.601"@ {
        m + " <-- legacy; may cause color shift on modern OS"@
    } else if m == "Not specified"@ {
        m + " <-- OS will assume a default (check OS docs)"@
    } else {
        m
    }
}

/// Annotates the key diagnostic field for the enumeration listing.
pub fn format_matrix_highlight(matrix: &str) -> (s: String)
    ensures
        s@ == spec_format_matrix_highlight(matrix@),
{
    let m = String::from_str(matrix);
    if m == String::from_str("BT.709") {
        m.concat(" <-- expected for modern OS (Win 24H2+, Linux 720p+)")
    } else if m == String::from_str("BT.601") {
        m.concat(" <-- legacy; may cause color shift on modern OS")
    } else if m == String::from_str("Not specified") {
        m.concat(" <-- OS will assume a default (check OS docs)")
    } else {
        m
    }
}

} // verus!
