use osnip::app::AppEvent;
use osnip::capture::CaptureError;
use osnip::clipboard::ClipboardError;
use osnip::handlers::{
    after_capture, after_clipboard, after_selection, dispatch, register_pin, Acquired,
    AfterSelection, Answer, Dispatch, Source,
};
use osnip::ipc::{IpcError, IpcRequest, IpcResponse, PinActionKind};
use osnip::pin_id::PinId;
use osnip::pixels::RgbaImage;
use osnip::region_select::{Region, RegionError};
use osnip::registry::PinRegistry;
use std::sync::Arc;

fn plain() -> RgbaImage {
    RgbaImage::from_raw(2, 2, [10, 20, 30, 255].repeat(4)).expect("fixture")
}

fn fixture_image() -> Arc<RgbaImage> {
    Arc::new(plain())
}

fn reply(dispatch: Dispatch) -> (IpcResponse, Option<AppEvent>) {
    match dispatch {
        Dispatch::Reply { response, event } => (response, event),
        other => panic!("unexpected: {other:?}"),
    }
}

#[test]
fn list_reflects_registry() {
    let mut r = PinRegistry::new();
    r.insert(fixture_image(), None, 42, false);
    match reply(dispatch(&mut r, IpcRequest::List)) {
        (IpcResponse::Pins { pins }, None) => {
            assert_eq!(pins.len(), 1);
            assert_eq!(pins[0].width, 2);
            assert_eq!(pins[0].height, 2);
        }
        other => panic!("unexpected: {other:?}"),
    }
}

#[test]
fn close_unknown_id_is_ok() {
    let mut r = PinRegistry::new();
    let (resp, event) = reply(dispatch(&mut r, IpcRequest::Close { id: PinId::new(99) }));
    assert!(matches!(resp, IpcResponse::Done));
    assert_eq!(event, None);
}

#[test]
fn closing_a_pin_tells_the_windows() {
    let mut r = PinRegistry::new();
    let id = r.insert(fixture_image(), None, 0, false);
    let (resp, event) = reply(dispatch(&mut r, IpcRequest::Close { id }));
    assert_eq!(resp, IpcResponse::Done);
    assert_eq!(event, Some(AppEvent::ClosePin(id)));
    assert!(r.list().is_empty());
}

#[test]
fn close_all_clears_and_returns_ok() {
    let mut r = PinRegistry::new();
    r.insert(fixture_image(), None, 0, false);
    r.insert(fixture_image(), None, 0, false);
    let (resp, event) = reply(dispatch(&mut r, IpcRequest::CloseAll));
    assert!(matches!(resp, IpcResponse::Done));
    assert_eq!(event, Some(AppEvent::CloseAllPins));
    assert!(r.list().is_empty());
    let (resp, event) = reply(dispatch(&mut r, IpcRequest::CloseAll));
    assert_eq!((resp, event), (IpcResponse::Done, None));
}

#[test]
fn pin_action_on_unknown_pin_is_ok() {
    let mut r = PinRegistry::new();
    let request = IpcRequest::PinAction { id: PinId::new(999), action: PinActionKind::Copy };
    let (resp, event) = reply(dispatch(&mut r, request));
    assert_eq!((resp, event), (IpcResponse::Done, None));
}

#[test]
fn pin_action_reaches_the_windows() {
    let mut r = PinRegistry::new();
    let id = r.insert(fixture_image(), None, 0, false);
    let action = PinActionKind::FlipV;
    let (resp, event) = reply(dispatch(&mut r, IpcRequest::PinAction { id, action }));
    assert_eq!(resp, IpcResponse::Done);
    assert_eq!(event, Some(AppEvent::PinAction { pin_id: id, action }));
    assert_eq!(r.list()[0].revision, 0);
}

#[test]
fn subscribe_over_length_prefixed_framing_is_refused() {
    let mut r = PinRegistry::new();
    let (resp, event) = reply(dispatch(&mut r, IpcRequest::Subscribe));
    assert_eq!(
        resp,
        IpcResponse::Error(IpcError::BadRequest {
            message: "subscribe requires the newline-delimited JSON transport".into()
        })
    );
    assert_eq!(event, None);
}

#[test]
fn captures_go_step_by_step() {
    let mut r = PinRegistry::new();
    assert!(matches!(dispatch(&mut r, IpcRequest::Capture), Dispatch::SelectRegion));
    let region = Region { x: 1, y: 2, width: 30, height: 40 };
    match after_selection(Ok(region)) {
        AfterSelection::Capture { region: next } => assert_eq!(next, region),
        other => panic!("unexpected: {other:?}"),
    }
    match after_capture(region, Ok(plain())) {
        Acquired::Register { image, logical_size, source } => {
            assert_eq!(source, Source::Captured);
            assert_eq!(image.as_raw(), plain().as_raw());
            assert_eq!(logical_size, Some((30, 40)));
        }
        other => panic!("unexpected: {other:?}"),
    }
}

#[test]
fn a_canceled_selection_is_reported_as_such() {
    match after_selection(Err(RegionError::Canceled)) {
        AfterSelection::Reply { response } => {
            assert_eq!(response, IpcResponse::Error(IpcError::CaptureCanceled));
        }
        other => panic!("unexpected: {other:?}"),
    }
}

#[test]
fn a_failed_capture_is_reported() {
    let region = Region { x: 0, y: 0, width: 1, height: 1 };
    match after_capture(region, Err(CaptureError::Screenshot("no".into()))) {
        Acquired::Reply { response } => {
            let message = "screenshot failed: no".into();
            assert_eq!(response, IpcResponse::Error(IpcError::CaptureFailed { message }));
        }
        other => panic!("unexpected: {other:?}"),
    }
}

#[test]
fn clipboard_pins_open_at_their_own_size() {
    let mut r = PinRegistry::new();
    assert!(matches!(dispatch(&mut r, IpcRequest::Clipboard), Dispatch::ReadClipboard));
    match after_clipboard(Ok(plain())) {
        Acquired::Register { logical_size, source, .. } => {
            assert_eq!(logical_size, None);
            assert_eq!(source, Source::Clipboard);
        }
        other => panic!("unexpected: {other:?}"),
    }
    match after_clipboard(Err(ClipboardError::Empty)) {
        Acquired::Reply { response } => {
            assert_eq!(response, IpcResponse::Error(IpcError::ClipboardNoImage));
        }
        other => panic!("unexpected: {other:?}"),
    }
}

#[test]
fn a_new_pin_is_registered() {
    let mut r = PinRegistry::new();
    let id = r.reserve();
    let dir = b"/tmp/debug".to_vec();
    let made = register_pin(
        &mut r,
        id,
        fixture_image(),
        Some((5, 6)),
        Source::Captured,
        Some(1_700_000_000_123),
        false,
        Some(&dir),
    );
    assert_eq!(made.response, IpcResponse::Pinned { id });
    assert_eq!(made.event, AppEvent::OpenPin(id));
    assert_eq!(made.answer, Answer::OnceSettled);
    assert_eq!(made.debug_png, Some(b"/tmp/debug/pin-1.png".to_vec()));
    assert_eq!(r.list()[0].created_at_unix_ms, 1_700_000_000_123);
    assert_eq!(r.logical_size(id), Some((5, 6)));
}

#[test]
fn a_clock_before_the_epoch_counts_as_zero() {
    let mut r = PinRegistry::new();
    let id = r.reserve();
    let clipboard = Source::Clipboard;
    let made = register_pin(&mut r, id, fixture_image(), None, clipboard, None, false, None);
    assert_eq!(made.answer, Answer::Now);
    assert_eq!(made.debug_png, None);
    assert_eq!(r.list()[0].created_at_unix_ms, 0);
    let id = r.reserve();
    let late = Some((1 << 64) + 5);
    register_pin(&mut r, id, fixture_image(), None, clipboard, late, false, None);
    assert_eq!(r.list()[1].created_at_unix_ms, 5);
}
