use osnip::framing::IoErrorKind;
use osnip::ipc::IpcError;
use osnip::process::{LaunchError, ProcessOutput};
use osnip::region_select::{parse_slurp_output, region_from_run, slurp_args, Region, RegionError};

fn run(success: bool, stdout: &[u8]) -> Result<ProcessOutput, LaunchError> {
    Ok(ProcessOutput {
        success,
        code: Some(if success { 0 } else { 1 }),
        stdout: stdout.to_vec(),
        stderr: Vec::new(),
    })
}

#[test]
fn parses_canonical_output() {
    let r = parse_slurp_output("100,200 800x600").expect("parse");
    assert_eq!(
        r,
        Region {
            x: 100,
            y: 200,
            width: 800,
            height: 600,
        }
    );
}

#[test]
fn parses_negative_origin() {
    let r = parse_slurp_output("-1920,0 1920x1080").expect("parse");
    assert_eq!(r.x, -1920);
    assert_eq!(r.y, 0);
}

#[test]
fn parses_with_trailing_whitespace_after_trim() {
    let r = parse_slurp_output("0,0 1x1").expect("parse");
    assert_eq!(r.width, 1);
}

#[test]
fn parses_the_extremes() {
    let r = parse_slurp_output("-2147483648,2147483647 4294967295x+1").expect("parse");
    assert_eq!((r.x, r.y, r.width, r.height), (i32::MIN, i32::MAX, u32::MAX, 1));
    assert!(parse_slurp_output("2147483648,0 1x1").is_err());
    assert!(parse_slurp_output("0,0 4294967296x1").is_err());
    assert!(parse_slurp_output("0,0 -1x1").is_err());
}

#[test]
fn rejects_zero_dimensions() {
    assert!(matches!(
        parse_slurp_output("0,0 0x100"),
        Err(RegionError::MalformedOutput { .. })
    ));
    assert!(matches!(
        parse_slurp_output("0,0 100x0"),
        Err(RegionError::MalformedOutput { .. })
    ));
}

#[test]
fn rejects_garbage() {
    for bad in [
        "",
        "garbage",
        "1,2",
        "1,2 3",
        "1,2 3x",
        "ax0 1x1",
        "1.0,2 3x4",
    ] {
        assert!(
            matches!(
                parse_slurp_output(bad),
                Err(RegionError::MalformedOutput { .. })
            ),
            "expected malformed for {bad:?}",
        );
    }
}

#[test]
fn maps_canceled_to_capture_canceled() {
    let err = IpcError::from(RegionError::Canceled);
    assert!(matches!(err, IpcError::CaptureCanceled));
}

#[test]
fn maps_other_errors_to_capture_failed() {
    let err = IpcError::from(RegionError::MalformedOutput { raw: "x".into() });
    assert!(matches!(err, IpcError::CaptureFailed { .. }));
}

#[test]
fn a_run_is_trimmed_and_read() {
    let r = region_from_run(run(true, b"1,2 3x4\n")).expect("region");
    assert_eq!((r.x, r.y, r.width, r.height), (1, 2, 3, 4));
}

#[test]
fn region_select_missing_program_is_launch_error() {
    let missing = LaunchError {
        kind: IoErrorKind::NotFound,
        message: "No such file or directory (os error 2)".into(),
    };
    let err = region_from_run(Err(missing)).expect_err("should fail");
    assert_eq!(
        err.message(),
        "failed to launch slurp: No such file or directory (os error 2)"
    );
    assert!(matches!(err, RegionError::Launch(_)));
}

#[test]
fn nonzero_exit_is_canceled() {
    let err = region_from_run(run(false, b"1,2 3x4\n")).expect_err("should fail");
    assert!(matches!(err, RegionError::Canceled));
}

#[test]
fn output_that_is_no_text_is_malformed() {
    let err = region_from_run(run(true, &[0x31, 0xff])).expect_err("should fail");
    assert_eq!(
        err,
        RegionError::MalformedOutput {
            raw: "non-utf8 (invalid utf-8 sequence of 1 bytes from index 1)".into()
        }
    );
}

#[test]
fn malformed_output_is_quoted() {
    let err = region_from_run(run(true, b"a\"b\n")).expect_err("should fail");
    assert_eq!(err.message(), "malformed slurp output: \"a\\\"b\"");
    assert_eq!(RegionError::Canceled.message(), "user canceled region selection");
    assert_eq!(RegionError::Io("x".into()).message(), "i/o while reading slurp: x");
}

#[test]
fn arguments_can_be_overridden() {
    assert_eq!(slurp_args(None), vec!["-b", "00000000", "-c", "ffffffff", "-w", "2"]);
    assert_eq!(slurp_args(Some("  -d\t-w 5 ")), vec!["-d", "-w", "5"]);
    assert!(slurp_args(Some("")).is_empty());
}
