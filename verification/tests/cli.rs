use osnip::cli::{
    build_request, daemon_beside, exit_code, failure_messages, is_socket_missing, print_response,
    resolve_daemon_path, resolve_socket, Command, ConnectFailure, ConnectStep, Connector,
};
use osnip::framing::IoErrorKind;
use osnip::ipc::{IpcError, IpcRequest, IpcResponse, PinSummary};
use osnip::pin_id::PinId;

fn pin(id: u64, width: u32, height: u32, created_at_unix_ms: u64) -> PinSummary {
    PinSummary { id: PinId::new(id), width, height, created_at_unix_ms, thumbnail: None, revision: 0 }
}

#[test]
fn commands_are_requests() {
    assert_eq!(build_request(&Command::Capture), Ok(IpcRequest::Capture));
    assert_eq!(build_request(&Command::Clipboard), Ok(IpcRequest::Clipboard));
    assert_eq!(build_request(&Command::List), Ok(IpcRequest::List));
    assert_eq!(
        build_request(&Command::Close { id: 42 }),
        Ok(IpcRequest::Close { id: PinId::new(42) })
    );
    assert_eq!(build_request(&Command::CloseAll), Ok(IpcRequest::CloseAll));
    assert_eq!(
        build_request(&Command::Daemon),
        Err("internal: `daemon` subcommand should not reach build_request".to_string())
    );
}

#[test]
fn socket_resolution_prefers_flag_then_env_then_default() {
    let runtime = b"/run/user/1000".to_vec();
    let named = Some(b"/tmp/from-env.sock".to_vec());
    assert_eq!(
        resolve_socket(Some(b"/tmp/from-flag.sock".to_vec()), named.clone(), Some(&runtime)),
        Ok(b"/tmp/from-flag.sock".to_vec()),
        "an explicit --socket must beat the environment",
    );
    assert_eq!(
        resolve_socket(None, named, Some(&runtime)),
        Ok(b"/tmp/from-env.sock".to_vec()),
        "OSNIP_SOCKET must be honored",
    );
    assert_eq!(
        resolve_socket(None, Some(Vec::new()), Some(&runtime)),
        Ok(b"/run/user/1000/osnip.sock".to_vec()),
    );
    assert_eq!(
        resolve_socket(None, None, None),
        Err("XDG_RUNTIME_DIR is unset; pass --socket or set OSNIP_SOCKET".to_string()),
    );
}

#[test]
fn missing_socket_without_spawn_returns_error() {
    let mut c = Connector::new(false);
    let step = c.next(Err(IoErrorKind::NotFound), false);
    assert_eq!(step, ConnectStep::Fail(ConnectFailure::Connect));
    let messages = failure_messages(ConnectFailure::Connect, "/x/does-not-exist.sock");
    assert!(messages[0].contains("connect to"), "got: {messages:?}");
}

#[test]
fn a_live_daemon_is_talked_to_at_once() {
    assert_eq!(Connector::new(true).next(Ok(()), false), ConnectStep::Talk);
}

#[test]
fn a_missing_daemon_is_started_once() {
    let mut c = Connector::new(true);
    assert_eq!(c.next(Err(IoErrorKind::ConnectionRefused), false), ConnectStep::Spawn);
    assert_eq!(c.next(Ok(()), false), ConnectStep::Probe);
    assert_eq!(c.next(Err(IoErrorKind::NotFound), false), ConnectStep::PollAgain);
    assert_eq!(c.next(Err(IoErrorKind::ConnectionRefused), false), ConnectStep::PollAgain);
    assert_eq!(c.next(Ok(()), false), ConnectStep::Reconnect);
    assert_eq!(c.next(Ok(()), false), ConnectStep::Talk);
    let again = c.next(Err(IoErrorKind::NotFound), false);
    assert_eq!(again, ConnectStep::Fail(ConnectFailure::AfterSpawn));
}

#[test]
fn waiting_for_the_daemon_ends() {
    let mut c = Connector::new(true);
    c.next(Err(IoErrorKind::NotFound), false);
    c.next(Ok(()), false);
    let step = c.next(Err(IoErrorKind::NotFound), true);
    assert_eq!(step, ConnectStep::Fail(ConnectFailure::TimedOut));
    let step = c.next(Err(IoErrorKind::Other), false);
    assert_eq!(step, ConnectStep::Fail(ConnectFailure::Probe));
}

#[test]
fn other_failures_do_not_start_the_daemon() {
    let mut c = Connector::new(true);
    let step = c.next(Err(IoErrorKind::Other), false);
    assert_eq!(step, ConnectStep::Fail(ConnectFailure::Connect));
    let mut c = Connector::new(true);
    c.next(Err(IoErrorKind::NotFound), false);
    let step = c.next(Err(IoErrorKind::NotFound), false);
    assert_eq!(step, ConnectStep::Fail(ConnectFailure::Spawn));
    assert!(is_socket_missing(IoErrorKind::NotFound));
    assert!(is_socket_missing(IoErrorKind::ConnectionRefused));
    assert!(!is_socket_missing(IoErrorKind::Other));
}

#[test]
fn failures_to_connect_are_explained() {
    assert_eq!(failure_messages(ConnectFailure::Spawn, "/s"), vec!["spawn daemon for socket /s"]);
    assert_eq!(
        failure_messages(ConnectFailure::TimedOut, "/s"),
        vec!["daemon did not publish socket /s within 2s", "timed out waiting for /s"]
    );
    assert_eq!(
        failure_messages(ConnectFailure::Probe, "/s"),
        vec!["daemon did not publish socket /s within 2s", "probe socket while waiting"]
    );
    assert_eq!(
        failure_messages(ConnectFailure::AfterSpawn, "/s"),
        vec!["connect to /s after spawn"]
    );
}

#[test]
fn responses_are_printed() {
    let close = IpcRequest::Close { id: PinId::new(1) };
    let silent = print_response(&close, &IpcResponse::Done);
    assert_eq!((silent.stdout.as_str(), silent.stderr.as_str()), ("", ""));
    let silent = print_response(&IpcRequest::CloseAll, &IpcResponse::Done);
    assert_eq!(silent.stdout, "");
    assert_eq!(print_response(&IpcRequest::Capture, &IpcResponse::Done).stdout, "ok\n");
    let pinned = IpcResponse::Pinned { id: PinId::new(17) };
    assert_eq!(print_response(&IpcRequest::Capture, &pinned).stdout, "17\n");
    let none = IpcResponse::Pins { pins: vec![] };
    assert_eq!(print_response(&IpcRequest::List, &none).stdout, "no pins\n");
    let failed = IpcResponse::Error(IpcError::CaptureCanceled);
    let printed = print_response(&IpcRequest::Capture, &failed);
    assert_eq!(printed.stdout, "");
    assert_eq!(printed.stderr, "error: capture canceled\n");
    assert_eq!(exit_code(&failed), 1);
    assert_eq!(exit_code(&none), 0);
}

#[test]
fn pins_are_printed_as_a_table() {
    let pins = vec![pin(1, 800, 600, 1_700_000_000_000), pin(1234567, 100_000, 99_999, 7)];
    let printed = print_response(&IpcRequest::List, &IpcResponse::Pins { pins });
    let expected = format!(
        "{:>6}  {:>10}  {:>20}\n{}  {:>10}  {:>20}\n{}  {:>10}  {:>20}\n",
        "ID", "SIZE", "CREATED (unix ms)", 1, "800x600", 1_700_000_000_000u64, 1234567,
        "100000x99999", 7
    );
    assert_eq!(printed.stdout, expected);
}

#[test]
fn the_daemon_is_looked_for_beside_the_client() {
    let beside = daemon_beside(b"/usr/bin");
    assert_eq!(beside, b"/usr/bin/osnip-daemon".to_vec());
    assert_eq!(resolve_daemon_path(Some(beside.clone()), true), beside);
    assert_eq!(resolve_daemon_path(Some(beside), false), b"osnip-daemon".to_vec());
    assert_eq!(resolve_daemon_path(None, true), b"osnip-daemon".to_vec());
}
