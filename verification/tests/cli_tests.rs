use webcam_colorspace::cli::{
    parse_command, parse_optional_device_index, parse_resolution, CliError, Command, MatrixChoice,
};
use webcam_colorspace::platform::{
    capture_frame, colorspace_info, force_matrix, format_matrix_highlight, format_resolution,
    matrix_choice_code, matrix_choice_name, matrix_name, primaries_name, range_name,
    select_nv12_resolution, transfer_name, unique_format_indexes, ColorspaceInfo, FormatInfo,
    PlatformError, SelectError,
};
use webcam_colorspace::text::{decimal_string, parse_u64_bytes};

fn args(list: &[&str]) -> Vec<String> {
    list.iter().map(|s| s.to_string()).collect()
}

#[test]
fn empty_args_enumerate() {
    assert!(matches!(parse_command(&args(&[])), Ok(Command::Enumerate)));
}

#[test]
fn help_flags() {
    assert!(matches!(
        parse_command(&args(&["-h"])),
        Err(CliError::HelpRequested)
    ));
    assert!(matches!(
        parse_command(&args(&["--help"])),
        Err(CliError::HelpRequested)
    ));
}

#[test]
fn capture_test_defaults() {
    match parse_command(&args(&["--capture-test"])) {
        Ok(Command::CaptureTest {
            device_index,
            resolution,
            mirror,
            save_raw,
        }) => {
            assert_eq!(device_index, 0);
            assert_eq!(resolution, None);
            assert!(!mirror);
            assert!(!save_raw);
        }
        _ => panic!("expected a capture-test command"),
    }
}

#[test]
fn capture_test_full() {
    match parse_command(&args(&[
        "--capture-test",
        "2",
        "1280x720",
        "--mirror",
        "--save-raw",
    ])) {
        Ok(Command::CaptureTest {
            device_index,
            resolution,
            mirror,
            save_raw,
        }) => {
            assert_eq!(device_index, 1);
            assert_eq!(resolution, Some((1280, 720)));
            assert!(mirror);
            assert!(save_raw);
        }
        _ => panic!("expected a capture-test command"),
    }
}

#[test]
fn capture_test_device_zero() {
    assert!(matches!(
        parse_command(&args(&["--capture-test", "0"])),
        Err(CliError::DeviceNumberZero)
    ));
}

#[test]
fn capture_test_unknown_arg() {
    assert!(matches!(
        parse_command(&args(&["--capture-test", "bogus"])),
        Err(CliError::UnknownCaptureArg { index: 1 })
    ));
}

#[test]
fn force_matrix_variants() {
    assert!(matches!(
        parse_command(&args(&["--force-matrix"])),
        Err(CliError::MissingMatrixValue)
    ));
    assert!(matches!(
        parse_command(&args(&["--force-matrix", "BT709"])),
        Ok(Command::ForceMatrix {
            matrix: MatrixChoice::Bt709,
            device_index: 0
        })
    ));
    assert!(matches!(
        parse_command(&args(&["--force-matrix", "bt601", "2"])),
        Ok(Command::ForceMatrix {
            matrix: MatrixChoice::Bt601,
            device_index: 1
        })
    ));
    assert!(matches!(
        parse_command(&args(&["--force-matrix", "xyz"])),
        Err(CliError::UnknownMatrix { index: 1 })
    ));
    assert!(matches!(
        parse_command(&args(&["--force-matrix", "bt601", "abc"])),
        Err(CliError::InvalidDeviceNumber { index: 2 })
    ));
}

#[test]
fn unknown_command() {
    assert!(matches!(
        parse_command(&args(&["--frobnicate"])),
        Err(CliError::UnknownCommand { index: 0 })
    ));
}

#[test]
fn resolution_parsing() {
    assert_eq!(parse_resolution("1280x720"), Some((1280, 720)));
    assert_eq!(parse_resolution("1280X720"), Some((1280, 720)));
    assert_eq!(parse_resolution("+5x6"), Some((5, 6)));
    assert_eq!(parse_resolution("axb"), None);
    assert_eq!(parse_resolution("12x34x56"), None);
    assert_eq!(parse_resolution("1280"), None);
    assert_eq!(parse_resolution("x720"), None);
    assert_eq!(parse_resolution("4294967296x1"), None);
}

#[test]
fn optional_device_index() {
    assert_eq!(parse_optional_device_index(&args(&["a", "b"]), 5), Ok(0));
    assert_eq!(
        parse_optional_device_index(&args(&["--force-matrix", "bt601", "3"]), 2),
        Ok(2)
    );
    assert_eq!(
        parse_optional_device_index(&args(&["--force-matrix", "bt601", "0"]), 2),
        Err(CliError::DeviceNumberZero)
    );
    assert_eq!(
        parse_optional_device_index(&args(&["--force-matrix", "bt601", "x"]), 2),
        Err(CliError::InvalidDeviceNumber { index: 2 })
    );
}

#[test]
fn decimal_rendering() {
    assert_eq!(decimal_string(0), "0");
    assert_eq!(decimal_string(7), "7");
    assert_eq!(decimal_string(12345), "12345");
    assert_eq!(decimal_string(u32::MAX), "4294967295");
}

#[test]
fn u64_parsing() {
    assert_eq!(parse_u64_bytes(b"0"), Some(0));
    assert_eq!(parse_u64_bytes(b"+123"), Some(123));
    assert_eq!(parse_u64_bytes(b"18446744073709551615"), Some(u64::MAX));
    assert_eq!(parse_u64_bytes(b"18446744073709551616"), None);
    assert_eq!(parse_u64_bytes(b""), None);
    assert_eq!(parse_u64_bytes(b"+"), None);
    assert_eq!(parse_u64_bytes(b"12a"), None);
    assert_eq!(parse_u64_bytes(b"-5"), None);
}

#[test]
fn platform_operations_unsupported() {
    assert_eq!(
        capture_frame(0, None).unwrap_err(),
        PlatformError::CaptureUnsupported
    );
    assert_eq!(
        force_matrix(0, MatrixChoice::Bt709).unwrap_err(),
        PlatformError::ForceMatrixUnsupported
    );
}

#[test]
fn v4l_colorspace_mapping() {
    let info = colorspace_info(3, 1, 2);
    assert_eq!(info.primaries, "BT.709");
    assert_eq!(info.matrix, "BT.709");
    assert_eq!(info.transfer, "BT.709");
    assert_eq!(info.range, "Limited (16-235)");
    let jpeg = colorspace_info(7, 2, 1);
    assert_eq!(jpeg.primaries, "BT.601");
    assert_eq!(jpeg.matrix, "BT.601 (JPEG)");
    assert_eq!(jpeg.transfer, "sRGB");
    assert_eq!(jpeg.range, "Full (0-255)");
    let unknown = colorspace_info(99, 99, 99);
    assert_eq!(unknown.primaries, "Default");
    assert_eq!(unknown.matrix, "Default");
    assert_eq!(unknown.transfer, "Default");
    assert_eq!(unknown.range, "Default");
}

#[test]
fn media_framework_names() {
    assert_eq!(matrix_name(1), "BT.709");
    assert_eq!(matrix_name(2), "BT.601");
    assert_eq!(matrix_name(0), "Unknown");
    assert_eq!(matrix_name(7), "Unknown (7)");
    assert_eq!(primaries_name(2), "BT.709");
    assert_eq!(primaries_name(0), "Unknown");
    assert_eq!(primaries_name(1), "Unknown");
    assert_eq!(primaries_name(77), "Unknown (77)");
    assert_eq!(transfer_name(5), "BT.709");
    assert_eq!(transfer_name(16), "HLG");
    assert_eq!(transfer_name(11), "Unknown (11)");
    assert_eq!(range_name(1), "Full (0-255)");
    assert_eq!(range_name(2), "Limited (16-235)");
    assert_eq!(range_name(9), "Unknown (9)");
}

#[test]
fn matrix_highlight() {
    assert_eq!(
        format_matrix_highlight("BT.709"),
        "BT.709 <-- expected for modern OS (Win 24H2+, Linux 720p+)"
    );
    assert_eq!(
        format_matrix_highlight("BT.601"),
        "BT.601 <-- legacy; may cause color shift on modern OS"
    );
    assert_eq!(
        format_matrix_highlight("Not specified"),
        "Not specified <-- OS will assume a default (check OS docs)"
    );
    assert_eq!(format_matrix_highlight("sRGB"), "sRGB");
}

#[test]
fn resolution_selection() {
    let modes = vec![(640u32, 480u32), (1920, 1080), (1280, 720)];
    assert_eq!(select_nv12_resolution(&modes, None), Ok(1));
    assert_eq!(select_nv12_resolution(&modes, Some((1280, 720))), Ok(2));
    assert_eq!(
        select_nv12_resolution(&modes, Some((123, 456))),
        Err(SelectError::NoMatch)
    );
    assert_eq!(
        select_nv12_resolution(&vec![], None),
        Err(SelectError::NoFormats)
    );
    let equal = vec![(100u32, 100u32), (100, 100)];
    assert_eq!(select_nv12_resolution(&equal, None), Ok(0));
}

#[test]
fn format_dedup() {
    let fmt = |pf: &str, res: &str, rate: &str| FormatInfo {
        pixel_format: pf.to_string(),
        resolution: res.to_string(),
        frame_rate: rate.to_string(),
        colorspace: ColorspaceInfo {
            primaries: "Default".to_string(),
            matrix: "Default".to_string(),
            transfer: "Default".to_string(),
            range: "Default".to_string(),
        },
    };
    let formats = vec![
        fmt("NV12", "640x480", "30.00 fps"),
        fmt("NV12", "1280x720", "30.00 fps"),
        fmt("NV12", "640x480", "30.00 fps"),
        fmt("YUY2", "640x480", "30.00 fps"),
    ];
    assert_eq!(unique_format_indexes(&formats), vec![0, 1, 3]);
}

#[test]
fn resolution_formatting() {
    assert_eq!(format_resolution(1280, 720), "1280x720");
    assert_eq!(format_resolution(0, 0), "0x0");
}

#[test]
fn matrix_choice_values() {
    assert_eq!(matrix_choice_code(MatrixChoice::Bt601), 2);
    assert_eq!(matrix_choice_code(MatrixChoice::Bt709), 1);
    assert_eq!(matrix_choice_name(MatrixChoice::Bt601), "BT.601");
    assert_eq!(matrix_choice_name(MatrixChoice::Bt709), "BT.709");
}
