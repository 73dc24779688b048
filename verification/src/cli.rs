//! Command-line surface: the parsed command shape and the argument
//! parsing rules.
//!
//! Parsing works on the argument strings alone (no process environment
//! here): the caller collects its arguments, hands them over, and prints
//! usage itself when help is requested.
use vstd::prelude::*;

verus! {

use vstd::slice::slice_subrange;
use vstd::string::{StringExecFns, StringSliceAdditionalSpecFns};
use vstd::utf8::encode_utf8;
use crate::text::{parse_u32_bytes, parse_usize_bytes, spec_parse_u32, spec_parse_usize};

/// A parsed invocation.
pub enum Command {
    /// Enumerate devices and show their colorspace signalling.
    Enumerate,
    /// Capture one frame and decode it with both transform standards.
    CaptureTest {
        /// Zero-based device index.
        device_index: usize,
        /// Requested resolution, or the highest available.
        resolution: Option<(u32, u32)>,
        /// Flip the decoded images horizontally.
        mirror: bool,
        /// Also keep the raw frame bytes.
        save_raw: bool,
    },
    /// Override the YCbCr matrix on a device's media type.
    ForceMatrix {
        /// The matrix to force.
        matrix: MatrixChoice,
        /// Zero-based device index.
        device_index: usize,
    },
}

/// The two supported transform standards.
#[derive(Clone, Copy, Debug, PartialEq, Eq, Structural)]
pub enum MatrixChoice {
    Bt601,
    Bt709,
}

/// Why the arguments could not be parsed.  Offending arguments are
/// reported by their position in the argument list.
#[derive(Debug, PartialEq, Eq, Structural)]
pub enum CliError {
    /// `-h` or `--help` was given; the caller should print usage.
    HelpRequested,
    /// A device number of 0 was given; they are 1-based.
    DeviceNumberZero,
    /// An argument of `--capture-test` was not a flag, a resolution or a
    /// device number.
    UnknownCaptureArg { index: usize },
    /// `--force-matrix` came without a value.
    MissingMatrixValue,
    /// The `--force-matrix` value names no supported standard.
    UnknownMatrix { index: usize },
    /// The device number did not parse as a positive integer.
    InvalidDeviceNumber { index: usize },
    /// The first argument names no command.
    UnknownCommand { index: usize },
}

/// ASCII lowercase of one byte.
pub open spec fn ascii_lower(b: u8) -> u8 {
    if 0x41 <= b <= 0x5a {
        (b + 0x20) as u8
    } else {
        b
    }
}

/// ASCII lowercase of a byte string.
pub open spec fn lower_seq(s: Seq<u8>) -> Seq<u8> {
    s.map_values(|b: u8| ascii_lower(b))
}

/// The resolution separator: `x` or `X`.
pub open spec fn is_sep(b: u8) -> bool {
    ascii_lower(b) == 0x78
}

/// Number of separators in the string.
pub open spec fn count_sep(s: Seq<u8>) -> int
    decreases s.len(),
{
    if s.len() == 0 {
        0
    } else {
        count_sep(s.drop_last()) + if is_sep(s.last()) {
            1int
        } else {
            0int
        }
    }
}

/// Position of the first separator.
pub open spec fn first_sep(s: Seq<u8>) -> int
    decreases s.len(),
{
    if s.len() == 0 {
        0
    } else if is_sep(s[0]) {
        0
    } else {
        1 + first_sep(s.drop_first())
    }
}

/// `first_sep` names the position of the first separator.
proof fn lemma_first_sep(s: Seq<u8>, k: int)
    requires
        0 <= k < s.len(),
        is_sep(s[k]),
        forall|j: int| 0 <= j < k ==> !is_sep(s[j]),
    ensures
        first_sep(s) == k,
    decreases k,
{
    if k > 0 {
        assert(!is_sep(s[0]));
        let d = s.drop_first();
        assert(d[k - 1] == s[k]);
        assert forall|j: int| 0 <= j < k - 1 implies !is_sep(d[j]) by {
            assert(d[j] == s[j + 1]);
        }
        lemma_first_sep(d, k - 1);
    }
}

/// What a `WxH` resolution argument parses to: exactly one separator,
/// case-insensitive, with a `u32` on each side.
pub open spec fn spec_parse_resolution(s: Seq<u8>) -> Option<(u32, u32)> {
    if count_sep(s) == 1 {
        let k = first_sep(s);
        match (spec_parse_u32(s.take(k)), spec_parse_u32(s.skip(k + 1))) {
            (Some(w), Some(h)) => Some((w, h)),
            _ => None,
        }
    } else {
        None
    }
}

/// Parses `WxH` or `WXH` into `(width, height)`.
pub fn parse_resolution(s: &str) -> (r: Option<(u32, u32)>)
    ensures
        r == spec_parse_resolution(s.spec_bytes()),
{
    let bytes = s.as_bytes();
    let n = bytes.len();
    let mut count: usize = 0;
    let mut first: usize = 0;
    let mut i: usize = 0;
    while i < n
        invariant
            0 <= i <= n,
            n == bytes@.len(),
            count <= i,
            count as int == count_sep(bytes@.take(i as int)),
            count > 0 ==> (first < i && is_sep(bytes@[first as int]) && forall|j: int|
                0 <= j < first ==> !is_sep(bytes@[j])),
            count == 0 ==> forall|j: int| 0 <= j < i ==> !is_sep(bytes@[j]),
        decreases n - i,
    {
        proof {
            assert(bytes@.take(i + 1).drop_last() =~= bytes@.take(i as int));
            assert(bytes@.take(i + 1).last() == bytes@[i as int]);
        }
        let b = bytes[i];
        if b == 0x78 || b == 0x58 {
            if count == 0 {
                first = i;
            }
            count = count + 1;
        }
        i = i + 1;
    }
    proof {
        assert(bytes@.take(n as int) =~= bytes@);
    }
    if count != 1 {
        return None;
    }
    proof {
        lemma_first_sep(bytes@, first as int);
    }
    let left = parse_u32_bytes(slice_subrange(bytes, 0, first));
    let right = parse_u32_bytes(slice_subrange(bytes, first + 1, n));
    proof {
        assert(bytes@.subrange(0, first as int) =~= bytes@.take(first as int));
        assert(bytes@.subrange(first as int + 1, n as int) =~= bytes@.skip(first as int + 1));
    }
    match (left, right) {
        (Some(w), Some(h)) => Some((w, h)),
        _ => None,
    }
}

/// What the optional 1-based device number at `pos` parses to: absent
/// means the first device, 0 is rejected, anything unparsable is invalid.
pub open spec fn spec_parse_optional_device_index(args: Seq<Seq<char>>, pos: int) -> Result<
    usize,
    CliError,
> {
    if pos >= args.len() {
        Ok(0)
    } else {
        match spec_parse_usize(encode_utf8(args[pos])) {
            Some(n) => if n == 0 {
                Err(CliError::DeviceNumberZero)
            } else {
                Ok((n - 1) as usize)
            },
            None => Err(CliError::InvalidDeviceNumber { index: pos as usize }),
        }
    }
}

/// Parses the optional 1-based device number at position `pos` into a
/// zero-based index, defaulting to the first device.
pub fn parse_optional_device_index(args: &Vec<String>, pos: usize) -> (r: Result<usize, CliError>)
    ensures
        r == spec_parse_optional_device_index(args@.map_values(|s: String| s@), pos as int),
{
    let ghost argsv = args@.map_values(|s: String| s@);
    if pos < args.len() {
        proof {
            assert(argsv[pos as int] == args@[pos as int]@);
        }
        match parse_usize_bytes(args[pos].as_str().as_bytes()) {
            Some(n) => if n == 0 {
                Err(CliError::DeviceNumberZero)
            } else {
                Ok(n - 1)
            },
            None => Err(CliError::InvalidDeviceNumber { index: pos }),
        }
    } else {
        Ok(0)
    }
}

/// ASCII-case-insensitive comparison against an already-lowercase
/// keyword.
fn lower_matches(s: &str, keyword: &str) -> (r: bool)
    ensures
        r == (lower_seq(s.spec_bytes()) == keyword.spec_bytes()),
{
    let a = s.as_bytes();
    let b = keyword.as_bytes();
    if a.len() != b.len() {
        proof {
            assert(lower_seq(a@).len() == a@.len());
        }
        return false;
    }
    let n = a.len();
    let mut i: usize = 0;
    while i < n
        invariant
            0 <= i <= n,
            n == a@.len(),
            n == b@.len(),
            a@ == s.spec_bytes(),
            b@ == keyword.spec_bytes(),
            forall|j: int| 0 <= j < i ==> ascii_lower(a@[j]) == b@[j],
        decreases n - i,
    {
        let c = a[i];
        let lc: u8 = if 0x41 <= c && c <= 0x5a {
            c + 0x20
        } else {
            c
        };
        if lc != b[i] {
            proof {
                assert(lower_seq(a@).len() == a@.len());
                assert(lower_seq(a@)[i as int] == ascii_lower(a@[i as int]));
                assert(ascii_lower(a@[i as int]) == lc);
                assert(lower_seq(a@) != b@);
            }
            return false;
        }
        i = i + 1;
    }
    proof {
        assert(lower_seq(a@) =~= b@);
    }
    true
}

/// The fold over the arguments of `--capture-test`, from position `i`:
/// flags set their switch, a resolution or device number replaces the
/// current one, a zero device number or an unrecognized argument aborts.
pub open spec fn spec_parse_capture(
    args: Seq<Seq<char>>,
    i: int,
    dev: usize,
    res: Option<(u32, u32)>,
    mir: bool,
    raw: bool,
) -> Result<Command, CliError>
    decreases args.len() - i,
{
    if i < 0 || i >= args.len() {
        Ok(Command::CaptureTest { device_index: dev, resolution: res, mirror: mir, save_raw: raw })
    } else {
        let a = args[i];
        if a == "--mirror"@ {
            spec_parse_capture(args, i + 1, dev, res, true, raw)
        } else if a == "--save-raw"@ {
            spec_parse_capture(args, i + 1, dev, res, mir, true)
        } else if spec_parse_resolution(encode_utf8(a)) is Some {
            spec_parse_capture(args, i + 1, dev, spec_parse_resolution(encode_utf8(a)), mir, raw)
        } else {
            match spec_parse_usize(encode_utf8(a)) {
                Some(n) => if n == 0 {
                    Err(CliError::DeviceNumberZero)
                } else {
                    spec_parse_capture(args, i + 1, (n - 1) as usize, res, mir, raw)
                },
                None => Err(CliError::UnknownCaptureArg { index: i as usize }),
            }
        }
    }
}

/// What an argument list parses to.
pub open spec fn spec_parse_command(args: Seq<Seq<char>>) -> Result<Command, CliError> {
    if args.len() == 0 {
        Ok(Command::Enumerate)
    } else if args[0] == "-h"@ || args[0] == "--help"@ {
        Err(CliError::HelpRequested)
    } else if args[0] == "--capture-test"@ {
        spec_parse_capture(args, 1, 0, None, false, false)
    } else if args[0] == "--force-matrix"@ {
        if args.len() < 2 {
            Err(CliError::MissingMatrixValue)
        } else if lower_seq(encode_utf8(args[1])) == encode_utf8("bt601"@) {
            match spec_parse_optional_device_index(args, 2) {
                Ok(d) => Ok(Command::ForceMatrix { matrix: MatrixChoice::Bt601, device_index: d }),
                Err(e) => Err(e),
            }
        } else if lower_seq(encode_utf8(args[1])) == encode_utf8("bt709"@) {
            match spec_parse_optional_device_index(args, 2) {
                Ok(d) => Ok(Command::ForceMatrix { matrix: MatrixChoice::Bt709, device_index: d }),
                Err(e) => Err(e),
            }
        } else {
            Err(CliError::UnknownMatrix { index: 1 })
        }
    } else {
        Err(CliError::UnknownCommand { index: 0 })
    }
}

/// Parses the argument list (without the program name) into a command.
pub fn parse_command(args: &Vec<String>) -> (r: Result<Command, CliError>)
    ensures
        r == spec_parse_command(args@.map_values(|s: String| s@)),
{
    let ghost argsv = args@.map_values(|s: String| s@);
    if args.len() == 0 {
        return Ok(Command::Enumerate);
    }
    proof {
        assert(argsv[0] == args@[0]@);
    }
    let help_short = String::from_str("-h");
    let help_long = String::from_str("--help");
    if args[0] == help_short || args[0] == help_long {
        return Err(CliError::HelpRequested);
    }
    let capture_kw = String::from_str("--capture-test");
    let force_kw = String::from_str("--force-matrix");
    if args[0] == capture_kw {
        let mirror_kw = String::from_str("--mirror");
        let save_raw_kw = String::from_str("--save-raw");
        let mut device_index: usize = 0;
        let mut resolution: Option<(u32, u32)> = None;
        let mut mirror = false;
        let mut save_raw = false;
        let mut i: usize = 1;
        while i < args.len()
            invariant
                1 <= i <= args@.len(),
                argsv == args@.map_values(|s: String| s@),
                argsv.len() == args@.len(),
                argsv.len() > 0,
                argsv[0] == "--capture-test"@,
                !(argsv[0] == "-h"@),
                !(argsv[0] == "--help"@),
                mirror_kw@ == "--mirror"@,
                save_raw_kw@ == "--save-raw"@,
                spec_parse_capture(
                    argsv,
                    i as int,
                    device_index,
                    resolution,
                    mirror,
                    save_raw,
                ) == spec_parse_capture(argsv, 1, 0, None, false, false),
            decreases args@.len() - i,
        {
            proof {
                assert(argsv[i as int] == args@[i as int]@);
            }
            if args[i] == mirror_kw {
                mirror = true;
            } else if args[i] == save_raw_kw {
                save_raw = true;
            } else {
                let r2 = parse_resolution(args[i].as_str());
                if r2.is_some() {
                    resolution = r2;
                } else {
                    match parse_usize_bytes(args[i].as_str().as_bytes()) {
                        Some(n) => {
                            if n == 0 {
                                return Err(CliError::DeviceNumberZero);
                            }
                            device_index = n - 1;
                        },
                        None => {
                            return Err(CliError::UnknownCaptureArg { index: i });
                        },
                    }
                }
            }
            i = i + 1;
        }
        return Ok(
            Command::CaptureTest { device_index, resolution, mirror, save_raw },
        );
    }
    if args[0] == force_kw {
        if args.len() < 2 {
            return Err(CliError::MissingMatrixValue);
        }
        proof {
            assert(argsv[1] == args@[1]@);
        }
        let choice: Option<MatrixChoice> = if lower_matches(args[1].as_str(), "bt601") {
            Some(MatrixChoice::Bt601)
        } else if lower_matches(args[1].as_str(), "bt709") {
            Some(MatrixChoice::Bt709)
        } else {
            None
        };
        match choice {
            None => Err(CliError::UnknownMatrix { index: 1 }),
            Some(m) => match parse_optional_device_index(args, 2) {
                Ok(d) => Ok(Command::ForceMatrix { matrix: m, device_index: d }),
                Err(e) => Err(e),
            },
        }
    } else {
        Err(CliError::UnknownCommand { index: 0 })
    }
}

} // verus!
