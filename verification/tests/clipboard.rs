use osnip::capture::CaptureError;
use osnip::clipboard::{
    copy_args, copy_failed, copy_outcome, copy_started, image_from_decoding, image_from_run, list_args, listed_types,
    mime_from_run, mime_in_listing, paste_args, pick_image_mime, png_for_copy, png_from_encoding,
    ClipboardError, CopyStep,
};
use osnip::framing::IoErrorKind;
use osnip::ipc::IpcError;
use osnip::notify::{copy_notice, notify_args, save_notice, Urgency};
use osnip::pixels::RgbaImage;
use osnip::process::{failure_message, failure_reason, LaunchError, ProcessOutput};

fn output(success: bool, code: Option<i32>, stdout: &[u8], stderr: &[u8]) -> ProcessOutput {
    ProcessOutput {
        success,
        code,
        stdout: stdout.to_vec(),
        stderr: stderr.to_vec(),
    }
}

fn launch(kind: IoErrorKind, message: &str) -> LaunchError {
    LaunchError { kind, message: message.into() }
}

fn pixel() -> RgbaImage {
    RgbaImage::from_raw(1, 1, vec![1, 2, 3, 255]).expect("fixture")
}

#[test]
fn prefers_png_when_available() {
    let types: Vec<String> = ["image/jpeg", "image/bmp", "image/png", "text/plain"]
        .iter()
        .map(|s| s.to_string())
        .collect();
    assert_eq!(pick_image_mime(&types), Some("image/png"));
}

#[test]
fn falls_back_to_jpeg_when_no_png() {
    let types: Vec<String> = ["image/bmp", "image/jpeg", "text/plain"]
        .iter()
        .map(|s| s.to_string())
        .collect();
    assert_eq!(pick_image_mime(&types), Some("image/jpeg"));
}

#[test]
fn accepts_unknown_image_mime_as_last_resort() {
    let types: Vec<String> = vec!["image/x-novel".into(), "text/plain".into()];
    assert_eq!(pick_image_mime(&types), Some("image/x-novel"));
}

#[test]
fn returns_none_when_no_image_type_present() {
    let types: Vec<String> = vec!["text/plain".into(), "text/html".into()];
    assert_eq!(pick_image_mime(&types), None);
}

#[test]
fn returns_none_for_empty_listing() {
    assert_eq!(pick_image_mime(&[]), None);
}

#[test]
fn empty_maps_to_clipboard_no_image() {
    assert!(matches!(
        IpcError::from(ClipboardError::Empty),
        IpcError::ClipboardNoImage
    ));
}

#[test]
fn no_image_maps_to_clipboard_no_image() {
    assert!(matches!(
        IpcError::from(ClipboardError::NoImage),
        IpcError::ClipboardNoImage
    ));
}

#[test]
fn paste_failed_maps_to_capture_failed() {
    let err = IpcError::from(ClipboardError::PasteFailed {
        mime: "image/png".into(),
        message: "boom".into(),
    });
    assert!(matches!(err, IpcError::CaptureFailed { .. }));
}

#[test]
fn clipboard_errors_have_messages() {
    let messages = [
        (ClipboardError::Launch(launch(IoErrorKind::NotFound, "x")), "failed to launch wl-paste: x"),
        (ClipboardError::Empty, "clipboard is empty or unreadable"),
        (ClipboardError::NoImage, "clipboard does not contain an image"),
        (
            ClipboardError::PasteFailed { mime: "image/png".into(), message: "boom".into() },
            "wl-paste failed to read image/png: boom",
        ),
        (
            ClipboardError::Decode { mime: "image/png".into(), source: "bad".into() },
            "could not decode clipboard image (mime=image/png): bad",
        ),
        (ClipboardError::Encode("e".into()), "could not encode image to PNG: e"),
        (ClipboardError::CopyFailed("c".into()), "wl-copy failed: c"),
    ];
    for (error, expected) in messages {
        assert_eq!(error.message(), expected);
    }
}

#[test]
fn clipboard_missing_program_is_launch_error() {
    let missing = launch(IoErrorKind::NotFound, "no such file");
    let err = mime_from_run(Err(missing.clone())).expect_err("should fail");
    assert!(matches!(err, ClipboardError::Launch(_)));
    let err = image_from_run("image/png".into(), Err(missing)).expect_err("should fail");
    assert!(matches!(err, ClipboardError::Launch(_)));
}

#[test]
fn a_missing_provider_maps_to_clipboard_no_image() {
    let missing = ClipboardError::Launch(launch(IoErrorKind::NotFound, "no such file"));
    assert_eq!(IpcError::from(missing), IpcError::ClipboardNoImage);
    let other = ClipboardError::Launch(launch(IoErrorKind::Other, "permission denied"));
    assert_eq!(
        IpcError::from(other),
        IpcError::CaptureFailed { message: "failed to launch wl-paste: permission denied".into() }
    );
}

#[test]
fn write_path_missing_program_is_launch_error() {
    let missing = launch(IoErrorKind::NotFound, "no such file");
    assert_eq!(copy_started::<u8>(Err(missing.clone())), Err(ClipboardError::Launch(missing)));
    assert_eq!(copy_started(Ok(7)), Ok(7));
}

#[test]
fn nonzero_exit_is_empty_clipboard() {
    let err = mime_from_run(Ok(output(false, Some(1), b"", b""))).expect_err("should fail");
    assert!(matches!(err, ClipboardError::Empty));
}

#[test]
fn a_listing_is_read_line_by_line() {
    assert_eq!(
        listed_types("text/plain\r\n  image/webp \n\n\nimage/png"),
        vec!["text/plain", "image/webp", "image/png"]
    );
    assert!(listed_types("").is_empty());
    assert_eq!(mime_in_listing("image/webp\nimage/tiff").expect("mime"), "image/webp");
    assert_eq!(mime_in_listing("text/plain"), Err(ClipboardError::NoImage));
    let mime = mime_from_run(Ok(output(true, Some(0), b"text/plain\nimage/png\n", b"")));
    assert_eq!(mime.expect("mime"), "image/png");
    let lossy = mime_from_run(Ok(output(true, Some(0), b"image/\xff\n", b"")));
    assert_eq!(lossy.expect("mime"), "image/\u{fffd}");
}

#[test]
fn a_failed_paste_says_why() {
    let said = image_from_run(
        "image/png".into(),
        Ok(output(false, Some(3), b"", b" no such type\n")),
    );
    assert_eq!(
        said.expect_err("should fail"),
        ClipboardError::PasteFailed { mime: "image/png".into(), message: "no such type".into() }
    );
    let silent = image_from_run("image/png".into(), Ok(output(false, Some(3), b"", b" \n")));
    assert_eq!(
        silent.expect_err("should fail"),
        ClipboardError::PasteFailed { mime: "image/png".into(), message: "exit code Some(3)".into() }
    );
}

#[test]
fn an_image_is_pasted_and_copied() {
    let image = pixel();
    let png = png_for_copy(&image).expect("encode");
    let pasted = image_from_run("image/png".into(), Ok(output(true, Some(0), &png, b"")))
        .expect("decode");
    assert_eq!(pasted.as_raw(), image.as_raw());
}

#[test]
fn an_image_without_pixels_cannot_be_copied() {
    let empty = RgbaImage::from_raw(0, 0, vec![]).expect("fixture");
    assert!(matches!(png_for_copy(&empty), Err(ClipboardError::Encode(_))));
    assert_eq!(png_from_encoding(Err("no".into())), Err(ClipboardError::Encode("no".into())));
    assert_eq!(png_from_encoding(Ok(vec![1])), Ok(vec![1]));
}

#[test]
fn garbage_on_the_clipboard_is_a_decode_error() {
    let err = image_from_run("image/png".into(), Ok(output(true, Some(0), b"garbage", b"")))
        .expect_err("should fail");
    assert!(matches!(err, ClipboardError::Decode { ref mime, .. } if mime == "image/png"));
    let err = image_from_decoding("image/bmp".into(), Err("why".into())).expect_err("should fail");
    assert_eq!(
        err,
        ClipboardError::Decode { mime: "image/bmp".into(), source: "why".into() }
    );
    let ok = image_from_decoding("image/bmp".into(), Ok(pixel())).expect("image");
    assert_eq!(ok.width(), 1);
}

#[test]
fn write_path_nonzero_exit_is_copy_failed() {
    let err = copy_outcome(&output(false, Some(1), b"", b"")).expect_err("should fail");
    assert_eq!(err, ClipboardError::CopyFailed("exit code Some(1)".into()));
    assert!(copy_outcome(&output(true, Some(0), b"", b"noise")).is_ok());
}

#[test]
fn failures_are_explained() {
    assert_eq!(failure_reason(None, "  "), "exit code None");
    assert_eq!(failure_reason(Some(-7), ""), "exit code Some(-7)");
    assert_eq!(failure_reason(Some(1), " why \n"), "why");
    assert_eq!(failure_message(&output(false, Some(1), b"", b"b\xffd\n")), "b\u{fffd}d");
}

#[test]
fn arguments_for_the_clipboard_programs() {
    assert_eq!(list_args(), vec!["--list-types"]);
    assert_eq!(paste_args("image/png"), vec!["--type", "image/png", "--no-newline"]);
    assert_eq!(copy_args(), vec!["--type", "image/png"]);
}

#[test]
fn capture_error_maps_to_ipc_error() {
    let err = IpcError::from(CaptureError::Connect("no socket".into()));
    match err {
        IpcError::CaptureFailed { message } => {
            assert!(message.contains("no socket"), "got: {message}");
        }
        other => panic!("unexpected: {other:?}"),
    }
}

#[test]
fn capture_errors_have_messages() {
    assert_eq!(CaptureError::Connect("x".into()).message(), "connect to wayland: x");
    assert_eq!(CaptureError::Screenshot("x".into()).message(), "screenshot failed: x");
    assert_eq!(CaptureError::Join("x".into()).message(), "blocking task join: x");
}

#[test]
fn arguments_for_notifications() {
    assert_eq!(
        notify_args("Saved", Some("Saved to x"), Urgency::Normal),
        vec!["--app-name", "osnip", "--urgency", "normal", "Saved", "Saved to x"]
    );
    assert_eq!(
        notify_args("Copy failed", None, Urgency::Critical),
        vec!["--app-name", "osnip", "--urgency", "critical", "Copy failed"]
    );
}

#[test]
fn users_hear_of_copies_and_saves() {
    let copied = copy_notice(&Ok(()));
    assert_eq!(copied.summary, "Copied to clipboard");
    assert_eq!(copied.body, "Image is now on the Wayland selection.");
    assert_eq!(copied.urgency, Urgency::Normal);
    let failed = copy_notice(&Err(ClipboardError::CopyFailed("c".into())));
    assert_eq!(failed.summary, "Copy failed");
    assert_eq!(failed.body, "wl-copy failed: c");
    assert_eq!(failed.urgency, Urgency::Critical);
    let saved = save_notice(Ok("/tmp/x.png".into()));
    assert_eq!(saved.summary, "Saved");
    assert_eq!(saved.body, "Saved to /tmp/x.png");
    let failed = save_notice(Err("disk full".into()));
    assert_eq!((failed.summary.as_str(), failed.body.as_str()), ("Save failed", "disk full"));
    assert_eq!(failed.urgency, Urgency::Critical);
}

#[test]
fn every_step_of_a_copy_can_fail() {
    let cases = [
        (CopyStep::Encode, "encode join: x"),
        (CopyStep::OpenInput, "wl-copy stdin unavailable"),
        (CopyStep::WriteInput, "write stdin: x"),
        (CopyStep::CloseInput, "close stdin: x"),
        (CopyStep::Wait, "wait: x"),
    ];
    for (step, expected) in cases {
        assert_eq!(copy_failed(step, "x"), ClipboardError::CopyFailed(expected.into()));
    }
}
