use osnip::framing::{write_frame, IoErrorKind, MAX_FRAME_BYTES};
use osnip::ipc::{IpcError, IpcRequest, IpcResponse, ShellEventKind, ShellMessage, PROTOCOL_VERSION};
use osnip::pixels::RgbaImage;
use osnip::registry::{PinRegistry, RegistryEffect};
use osnip::server::{
    after_read, bind_step, capabilities, forward, hello, is_socket_dead, open_connection, opening_message,
    read_line_capped, request_in_line, request_text, BindStep, BusEvent, LineAction, LineProgress, Opening,
    Session, SessionStep, Transport,
};
use std::sync::Arc;

fn fixture_image() -> Arc<RgbaImage> {
    Arc::new(RgbaImage::from_raw(4, 4, [1, 2, 3, 255].repeat(16)).expect("fixture"))
}

fn read_all(chunks: &[&[u8]], cap: usize) -> (Vec<u8>, LineProgress) {
    let mut buf = Vec::new();
    for chunk in chunks {
        match read_line_capped(chunk, &mut buf, cap) {
            (_, LineProgress::More) => {}
            (_, progress) => return (buf, progress),
        }
    }
    let (_, progress) = read_line_capped(&[], &mut buf, cap);
    (buf, progress)
}

#[test]
fn the_first_byte_selects_the_transport() {
    let frame = write_frame(b"{}").expect("frame");
    assert_eq!(open_connection(Ok(frame[0])), Opening::Serve(Transport::LengthPrefixed));
    assert_eq!(open_connection(Ok(b'{')), Opening::Serve(Transport::Ndjson));
    assert_eq!(open_connection(Ok(b'G')), Opening::Close);
    assert_eq!(open_connection(Err(IoErrorKind::UnexpectedEof)), Opening::Close);
    assert_eq!(open_connection(Err(IoErrorKind::Other)), Opening::Fail);
}

#[test]
fn the_largest_frame_still_selects_its_transport() {
    let frame = write_frame(&vec![b'x'; MAX_FRAME_BYTES as usize]).expect("frame");
    assert_eq!(open_connection(Ok(frame[0])), Opening::Serve(Transport::LengthPrefixed));
}

#[test]
fn stale_sockets_are_replaced_and_live_ones_are_not() {
    assert_eq!(bind_step("/s", None), BindStep::Bind);
    assert_eq!(bind_step("/s", Some(Err(IoErrorKind::ConnectionRefused))), BindStep::RemoveStale);
    assert_eq!(bind_step("/s", Some(Err(IoErrorKind::NotFound))), BindStep::RemoveStale);
    assert_eq!(bind_step("/s", Some(Err(IoErrorKind::Other))), BindStep::Fail);
    assert_eq!(
        bind_step("/s", Some(Ok(()))),
        BindStep::Refuse { message: "another osnip-daemon is already listening on /s".into() }
    );
    assert!(is_socket_dead(IoErrorKind::NotFound));
    assert!(!is_socket_dead(IoErrorKind::InvalidData));
}

#[test]
fn a_line_is_read_however_it_arrives() {
    let whole = read_all(&[b"{\"a\":1}\nrest"], 100);
    assert_eq!(whole, (b"{\"a\":1}".to_vec(), LineProgress::Line));
    let pieces = read_all(&[b"{\"", b"a\":", b"1}", b"\n", b"rest"], 100);
    assert_eq!(pieces, whole);
    assert_eq!(read_all(&[b"{\"a\":1}"], 100), whole);
}

#[test]
fn reading_tells_how_much_was_used() {
    let mut buf = Vec::new();
    assert_eq!(read_line_capped(b"ab", &mut buf, 9), (2, LineProgress::More));
    assert_eq!(read_line_capped(b"c\nd", &mut buf, 9), (2, LineProgress::Line));
    assert_eq!(buf, b"abc".to_vec());
}

#[test]
fn a_clean_end_is_no_line() {
    assert_eq!(read_all(&[], 10), (vec![], LineProgress::End));
    assert_eq!(read_all(&[b"\n"], 10), (vec![], LineProgress::Line));
}

#[test]
fn oversized_line_without_a_newline_is_cut_off() {
    let cap = MAX_FRAME_BYTES as usize;
    let junk = vec![b'x'; 64 * 1024];
    let mut buf = b"{".to_vec();
    let mut rounds = 0;
    loop {
        match read_line_capped(&junk, &mut buf, cap) {
            (used, LineProgress::More) => assert_eq!(used, junk.len()),
            (_, LineProgress::TooLong { message }) => {
                assert_eq!(message, "line exceeded 1048576 bytes without a newline");
                break;
            }
            other => panic!("unexpected: {other:?}"),
        }
        rounds += 1;
    }
    assert_eq!(rounds, 15);
    assert!(buf.len() <= cap);
}

#[test]
fn a_line_of_exactly_the_cap_is_read() {
    assert_eq!(read_all(&[b"abcd", b"\n"], 4), (b"abcd".to_vec(), LineProgress::Line));
    assert_eq!(read_all(&[b"abcd\n"], 4), (b"abcd".to_vec(), LineProgress::Line));
    assert_eq!(read_all(&[b"abcd"], 4), (b"abcd".to_vec(), LineProgress::Line));
}

#[test]
fn a_longer_line_is_refused_however_it_arrives() {
    let ways: [&[&[u8]]; 5] = [
        &[b"abcde\n"],
        &[b"abcde", b"\n"],
        &[b"abcd", b"e\n"],
        &[b"a", b"b", b"c", b"d", b"e", b"\n"],
        &[b"abcde"],
    ];
    for chunks in ways {
        let (buf, progress) = read_all(chunks, 4);
        assert!(matches!(progress, LineProgress::TooLong { .. }));
        assert!(buf.len() <= 4);
    }
    let mut buf = Vec::new();
    let (_, progress) = read_line_capped(b"abcdef\n", &mut buf, 3);
    let message = "line exceeded 3 bytes without a newline".into();
    assert_eq!(progress, LineProgress::TooLong { message });
    assert!(buf.len() <= 3);
}

#[test]
fn ndjson_connection_opens_with_hello() {
    let registry = PinRegistry::new();
    match hello(&registry, "1.2.3") {
        ShellMessage::Hello { protocol, version, capabilities } => {
            assert_eq!(protocol, PROTOCOL_VERSION);
            assert_eq!(version, "1.2.3");
            assert_eq!(capabilities, vec!["subscribe", "pin_action"]);
        }
        other => panic!("unexpected: {other:?}"),
    }
    let with = PinRegistry::with_thumbnail_dir(b"/t".to_vec());
    assert_eq!(capabilities(&with), vec!["subscribe", "pin_action", "thumbnails"]);
}

#[test]
fn blank_lines_hold_no_request() {
    assert_eq!(request_text(b" \r"), None);
    assert_eq!(request_text(b""), None);
    assert_eq!(request_text(b" {\"kind\":\"list\"}\r"), Some("{\"kind\":\"list\"}".to_string()));
    assert_eq!(request_text(b"\xff"), Some("\u{fffd}".to_string()));
    assert_eq!(request_text("\t\u{1f4cc} Größe\r".as_bytes()), Some("\u{1f4cc} Größe".to_string()));
    assert_eq!(request_in_line("\u{3000}x\t"), Some("x".to_string()));
}

#[test]
fn malformed_line_is_reported_without_dropping_the_connection() {
    let mut session = Session::new();
    match session.on_request(Err("expected value".into())) {
        SessionStep::Reply { response, start_events } => {
            let message = "expected value".into();
            assert_eq!(response, IpcResponse::Error(IpcError::BadRequest { message }));
            assert!(!start_events);
        }
        other => panic!("unexpected: {other:?}"),
    }
    assert!(matches!(
        session.on_request(Ok(IpcRequest::List)),
        SessionStep::Dispatch { request: IpcRequest::List }
    ));
}

#[test]
fn changes_are_forwarded_once() {
    let mut session = Session::default();
    let mut started = 0;
    for _ in 0..3 {
        match session.on_request(Ok(IpcRequest::Subscribe)) {
            SessionStep::Reply { response, start_events } => {
                assert_eq!(response, IpcResponse::Done);
                started += u32::from(start_events);
            }
            other => panic!("unexpected: {other:?}"),
        }
    }
    assert_eq!(started, 1);
}

#[test]
fn subscribe_pushes_a_snapshot_then_every_change() {
    let mut registry = PinRegistry::new();
    match opening_message(&registry) {
        ShellMessage::Event { event: ShellEventKind::PinsChanged, pins } => assert!(pins.is_empty()),
        other => panic!("unexpected: {other:?}"),
    }
    let id = registry.insert(fixture_image(), None, 7, false);
    for effect in registry.take_effects() {
        if let RegistryEffect::Publish { pins } = effect {
            match forward(BusEvent::Snapshot { pins }, &registry) {
                Some(ShellMessage::Event { pins, .. }) => {
                    assert_eq!(pins.len(), 1);
                    assert_eq!(pins[0].id, id);
                    assert_eq!(pins[0].width, 4);
                }
                other => panic!("unexpected: {other:?}"),
            }
        }
    }
    match forward(BusEvent::Lagged, &registry) {
        Some(ShellMessage::Event { pins, .. }) => assert_eq!(pins.len(), 1),
        other => panic!("unexpected: {other:?}"),
    }
    assert_eq!(forward(BusEvent::Closed, &registry), None);
}

#[test]
fn reading_goes_on_line_by_line() {
    let stream = b"{\"a\":1}\n \n\n{\"b\":2}\r\n{\"c\":3}";
    for size in 1..stream.len() + 1 {
        let mut texts = Vec::new();
        let mut line = Vec::new();
        let mut at = 0;
        loop {
            let end = (at + size).min(stream.len());
            let (used, progress) = read_line_capped(&stream[at..end], &mut line, 20);
            at += used;
            match after_read(progress, &line) {
                LineAction::ReadMore => {}
                LineAction::Skip => line.clear(),
                LineAction::Request { text } => {
                    texts.push(text);
                    line.clear();
                }
                LineAction::Close => break,
                LineAction::Fail { message } => panic!("unexpected: {message}"),
            }
        }
        assert_eq!(texts, vec!["{\"a\":1}", "{\"b\":2}", "{\"c\":3}"]);
    }
}

#[test]
fn a_line_that_is_too_long_ends_the_connection() {
    let mut line = Vec::new();
    let (_, progress) = read_line_capped(b"abcde", &mut line, 4);
    assert_eq!(
        after_read(progress, &line),
        LineAction::Fail { message: "line exceeded 4 bytes without a newline".into() }
    );
}
