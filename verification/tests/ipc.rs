use osnip::framing::{frame_length, read_frame, write_frame, FrameError, IoErrorKind, MAX_FRAME_BYTES};
use osnip::ipc::{
    IpcError, IpcResponse, PinSummary, ShellEventKind, ShellMessage, PROTOCOL_VERSION,
};
use osnip::paths::{daemon_socket, default_socket_path, thumbnail_dir_for};
use osnip::pin_id::PinId;

#[test]
fn pin_summary_unused_in_cli_smoke() {
    let s = PinSummary {
        id: PinId::new(1),
        width: 1,
        height: 1,
        created_at_unix_ms: 1,
        thumbnail: None,
        revision: 0,
    };
    assert_eq!(s.id.get(), 1);
}

#[test]
fn hello_and_response_kinds_do_not_collide() {
    let shell = [
        ShellMessage::Hello {
            protocol: PROTOCOL_VERSION,
            version: "0.2.0".into(),
            capabilities: vec![],
        },
        ShellMessage::Event { event: ShellEventKind::PinsChanged, pins: vec![] },
    ];
    let responses = [
        IpcResponse::Done,
        IpcResponse::Pins { pins: vec![] },
        IpcResponse::Pinned { id: PinId::new(1) },
        IpcResponse::Error(IpcError::CaptureCanceled),
    ];
    let shell: Vec<&str> = shell.iter().map(|m| m.kind()).collect();
    let responses: Vec<&str> = responses.iter().map(|r| r.kind()).collect();
    assert_eq!(shell, ["hello", "event"]);
    assert_eq!(responses, ["ok", "pins", "pinned", "error"]);
    for s in shell {
        assert!(!responses.contains(&s), "kind `{s}` is claimed twice");
    }
}

#[test]
fn pin_ids_are_numbers() {
    assert_eq!(PinId::from(99).get(), 99);
    assert_eq!(PinId::new(99).to_decimal(), "99");
    assert!(PinId::new(2) < PinId::new(10));
}

#[test]
fn pin_ids_are_in_the_order_of_their_numbers() {
    for (a, b) in [(0, 0), (0, 1), (1, 0), (7, 7), (255, 256), (u64::MAX, 1), (1, u64::MAX)] {
        let (x, y) = (PinId::new(a), PinId::new(b));
        assert_eq!(x < y, a < b);
        assert_eq!(x <= y, a <= b);
        assert_eq!(x == y, a == b);
        assert_eq!(x.partial_cmp(&y), Some(x.cmp(&y)));
        assert_eq!(x.cmp(&y), a.cmp(&b));
    }
}

#[test]
fn errors_have_messages() {
    let cases = [
        (IpcError::NotImplemented { feature: "x".into() }, "not implemented: x"),
        (IpcError::CaptureCanceled, "capture canceled"),
        (IpcError::CaptureFailed { message: "x".into() }, "capture failed: x"),
        (IpcError::ClipboardNoImage, "clipboard does not contain an image"),
        (IpcError::BadRequest { message: "x".into() }, "bad request: x"),
        (
            IpcError::ProtocolMismatch { client: 1, daemon: 2 },
            "protocol mismatch: client=1, daemon=2",
        ),
        (IpcError::Internal { message: "x".into() }, "internal daemon error: x"),
    ];
    for (error, expected) in cases {
        assert_eq!(error.message(), expected);
    }
}

#[test]
fn a_frame_reads_back() {
    let frame = write_frame(b"{\"kind\":\"list\"}").expect("write");
    assert_eq!(&frame[..4], &[0, 0, 0, 15]);
    let mut stream = frame.clone();
    stream.extend_from_slice(b"rest");
    let (payload, used) = read_frame(&stream).expect("read");
    assert_eq!(payload, b"{\"kind\":\"list\"}".to_vec());
    assert_eq!(used, 19);
    let empty = write_frame(b"").expect("write");
    assert_eq!(read_frame(&empty).expect("read"), (vec![], 4));
}

#[test]
fn oversized_frame_is_rejected() {
    let prefix = (MAX_FRAME_BYTES + 1).to_be_bytes();
    let err = frame_length(prefix).expect_err("should reject");
    assert_eq!(err.message(), "frame too large: 1048577 bytes (max 1048576)");
    let err = read_frame(&prefix).expect_err("should reject");
    assert!(matches!(err, FrameError::TooLarge { .. }));
    assert_eq!(frame_length(MAX_FRAME_BYTES.to_be_bytes()).expect("length"), MAX_FRAME_BYTES);
    let payload = vec![0u8; MAX_FRAME_BYTES as usize + 1];
    assert!(matches!(
        write_frame(&payload),
        Err(FrameError::TooLarge { len, max }) if len == MAX_FRAME_BYTES + 1 && max == MAX_FRAME_BYTES
    ));
    assert!(write_frame(&payload[1..]).is_ok());
}

#[test]
fn truncated_frame_returns_io_eof() {
    for stream in [&[][..], &[0, 0][..], &[0, 0, 0, 10][..], &[0, 0, 0, 10, 1][..]] {
        let err = read_frame(stream).expect_err("should fail");
        assert!(matches!(err, FrameError::Io { kind: IoErrorKind::UnexpectedEof, .. }));
    }
    assert_eq!(FrameError::Decode("x".into()).message(), "frame decode: x");
}

#[test]
fn the_default_socket_is_in_the_runtime_directory() {
    let dir = b"/run/user/1000".to_vec();
    assert_eq!(default_socket_path(Some(&dir)), Some(b"/run/user/1000/osnip.sock".to_vec()));
    assert_eq!(default_socket_path(Some(&Vec::new())), None);
    assert_eq!(default_socket_path(None), None);
}

#[test]
fn thumbnails_are_kept_apart_by_socket() {
    let dir = b"/run/user/1000".to_vec();
    assert_eq!(
        thumbnail_dir_for(Some(&dir), b"/run/user/1000/osnip.sock"),
        Some(b"/run/user/1000/osnip/osnip-thumbs".to_vec())
    );
    assert_eq!(
        thumbnail_dir_for(Some(&dir), b"/tmp/second.sock"),
        Some(b"/run/user/1000/osnip/second-thumbs".to_vec())
    );
    assert_eq!(
        thumbnail_dir_for(Some(&dir), b"/"),
        Some(b"/run/user/1000/osnip/osnip-thumbs".to_vec())
    );
    assert_eq!(
        thumbnail_dir_for(Some(&dir), b"/tmp/\xff.sock"),
        Some(b"/run/user/1000/osnip/osnip-thumbs".to_vec())
    );
    assert_eq!(
        thumbnail_dir_for(Some(&dir), b"/tmp/.hidden"),
        Some(b"/run/user/1000/osnip/.hidden-thumbs".to_vec())
    );
    assert_eq!(thumbnail_dir_for(None, b"/tmp/a.sock"), None);
}

#[test]
fn the_daemon_listens_where_it_is_told_to() {
    let dir = b"/run".to_vec();
    assert_eq!(
        daemon_socket(Some(b"/tmp/x.sock".to_vec()), Some(&dir)),
        Ok(b"/tmp/x.sock".to_vec())
    );
    assert_eq!(daemon_socket(None, Some(&dir)), Ok(b"/run/osnip.sock".to_vec()));
    assert_eq!(
        daemon_socket(None, None),
        Err("XDG_RUNTIME_DIR is unset; set OSNIP_SOCKET to override".to_string())
    );
}
