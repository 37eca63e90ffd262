//! From requests to responses.
//!
//! Every request gets a response, also when something failed: errors travel
//! inside the response. A request that needs the outside world is handled in
//! steps; each step says what has to be done next.

use crate::app::{AppEvent, CommandView, MessageView, Windows};
use crate::capture::CaptureError;
use crate::clipboard::ClipboardError;
use crate::ipc::{
    IpcError, IpcErrorView, IpcRequest, IpcResponse, IpcResponseView, PinActionKind,
};
use crate::paths;
use crate::pin_id::PinId;
use crate::pixels::{Picture, RgbaImage};
use crate::region_select::{Region, RegionError};
use crate::registry::{PinRegistry, Registry};
use crate::text;
use std::sync::Arc;
use vstd::prelude::*;
use vstd::string::StringExecFns;
use vstd::utf8;

verus! {

/// What a request comes to.
#[derive(Debug)]
pub enum Dispatch {
    /// It is done: send the response, after telling the windows.
    Reply {
        /// The response.
        response: IpcResponse,
        /// What the windows are told.
        event: Option<AppEvent>,
    },
    /// Let the user select a region, then go on with [`after_selection`].
    SelectRegion,
    /// Read the clipboard, then go on with [`after_clipboard`].
    ReadClipboard,
}

/// The response to a request that needs nothing from outside, and what the
/// windows are told.
pub open spec fn reply_to(registry: Registry, request: IpcRequest) -> Option<
    (IpcResponseView, Option<AppEvent>),
> {
    match request {
        IpcRequest::Capture => None,
        IpcRequest::Clipboard => None,
        IpcRequest::List => Some((IpcResponseView::Pins { pins: registry.snapshot() }, None)),
        IpcRequest::Close { id } => Some(
            (
                IpcResponseView::Done,
                if registry.pins.contains_key(id@) {
                    Some(AppEvent::ClosePin(id))
                } else {
                    None
                },
            ),
        ),
        IpcRequest::CloseAll => Some(
            (
                IpcResponseView::Done,
                if registry.pins.dom().len() > 0 {
                    Some(AppEvent::CloseAllPins)
                } else {
                    None
                },
            ),
        ),
        IpcRequest::PinAction { id, action } => Some(
            (
                IpcResponseView::Done,
                if registry.pins.contains_key(id@) {
                    Some(AppEvent::PinAction { pin_id: id, action })
                } else {
                    None
                },
            ),
        ),
        IpcRequest::Subscribe => Some(
            (
                IpcResponseView::Error(
                    IpcErrorView::BadRequest {
                        message: "subscribe requires the newline-delimited JSON transport"@,
                    },
                ),
                None,
            ),
        ),
    }
}

/// The registry after a request was dispatched.
pub open spec fn dispatched(registry: Registry, request: IpcRequest) -> Registry {
    match request {
        IpcRequest::Close { id } => registry.after_close(id@),
        IpcRequest::CloseAll => registry.after_close_all(),
        _ => registry,
    }
}

/// Serves a single request, as far as it goes without the outside world.
///
/// Closing or acting on an unknown pin succeeds: a client that acts on a pin
/// which the user just closed need not treat that as an error. Subscriptions
/// are up to the connection; one that arrives here came over a transport that
/// has nowhere to push to.
pub fn dispatch(registry: &mut PinRegistry, request: IpcRequest) -> (r: Dispatch)
    ensures
        final(registry)@ == dispatched(old(registry)@, request),
        match r {
            Dispatch::Reply { response, event } => reply_to(old(registry)@, request) == Some(
                (response@, event),
            ),
            Dispatch::SelectRegion => request is Capture,
            Dispatch::ReadClipboard => request is Clipboard,
        },
{
    match request {
        IpcRequest::Capture => Dispatch::SelectRegion,
        IpcRequest::Clipboard => Dispatch::ReadClipboard,
        IpcRequest::List => {
            let pins = registry.list();
            Dispatch::Reply { response: IpcResponse::Pins { pins }, event: None }
        },
        IpcRequest::Close { id } => {
            let existed = registry.close(id);
            let event = if existed {
                Some(AppEvent::ClosePin(id))
            } else {
                None
            };
            Dispatch::Reply { response: IpcResponse::Done, event }
        },
        IpcRequest::CloseAll => {
            let removed: usize = registry.close_all();
            let event = if removed > 0 {
                Some(AppEvent::CloseAllPins)
            } else {
                None
            };
            Dispatch::Reply { response: IpcResponse::Done, event }
        },
        IpcRequest::PinAction { id, action } => {
            let event = if registry.image(id).is_some() {
                Some(AppEvent::PinAction { pin_id: id, action })
            } else {
                None
            };
            Dispatch::Reply { response: IpcResponse::Done, event }
        },
        IpcRequest::Subscribe => {
            let message = "subscribe requires the newline-delimited JSON transport".to_owned();
            Dispatch::Reply {
                response: IpcResponse::Error(IpcError::BadRequest { message }),
                event: None,
            }
        },
    }
}

/// What follows the selection of a region.
#[derive(Debug)]
pub enum AfterSelection {
    /// Capture this region, then go on with [`after_capture`].
    Capture {
        /// What to capture.
        region: Region,
    },
    /// Send the response.
    Reply {
        /// The response.
        response: IpcResponse,
    },
}

/// Goes on with a capture once a region was selected, or was not.
pub fn after_selection(selected: Result<Region, RegionError>) -> (r: AfterSelection)
    ensures
        match selected {
            Ok(region) => r == (AfterSelection::Capture { region }),
            Err(e) => r matches AfterSelection::Reply { response } && response@
                == IpcResponseView::Error(e@.reported()),
        },
{
    match selected {
        Ok(region) => AfterSelection::Capture { region },
        Err(e) => AfterSelection::Reply { response: IpcResponse::Error(IpcError::from(e)) },
    }
}

/// Where the pixels of a new pin come from.
#[derive(Debug, Clone, Copy, PartialEq, Eq, Structural)]
pub enum Source {
    /// They were captured from the screen.
    Captured,
    /// They were on the clipboard.
    Clipboard,
}

/// What follows once the pixels are there.
#[derive(Debug)]
pub enum Acquired {
    /// Make a pin of this image with [`register_pin`].
    Register {
        /// The pixels.
        image: RgbaImage,
        /// The size at which its window opens, if that is not its own.
        logical_size: Option<(u32, u32)>,
        /// Where they come from.
        source: Source,
    },
    /// Send the response.
    Reply {
        /// The response.
        response: IpcResponse,
    },
}

/// Goes on once a region was captured, or was not.
///
/// The region is in the units of the compositor and the image in pixels. The
/// window opens at the size of the region, so that on a dense output the pin
/// looks as large as what was selected.
pub fn after_capture(region: Region, captured: Result<RgbaImage, CaptureError>) -> (r: Acquired)
    ensures
        match captured {
            Ok(image) => r == (Acquired::Register {
                image,
                logical_size: Some((region.width, region.height)),
                source: Source::Captured,
            }),
            Err(e) => r matches Acquired::Reply { response } && response@
                == IpcResponseView::Error(e@.reported()),
        },
{
    match captured {
        Ok(image) => Acquired::Register {
            image,
            logical_size: Some((region.width, region.height)),
            source: Source::Captured,
        },
        Err(e) => Acquired::Reply { response: IpcResponse::Error(IpcError::from(e)) },
    }
}

/// Goes on once the clipboard was read, or was not.
pub fn after_clipboard(read: Result<RgbaImage, ClipboardError>) -> (r: Acquired)
    ensures
        match read {
            Ok(image) => r == (Acquired::Register {
                image,
                logical_size: None,
                source: Source::Clipboard,
            }),
            Err(e) => r matches Acquired::Reply { response } && response@
                == IpcResponseView::Error(e@.reported()),
        },
{
    match read {
        Ok(image) => Acquired::Register {
            image,
            logical_size: None,
            source: Source::Clipboard,
        },
        Err(e) => Acquired::Reply { response: IpcResponse::Error(IpcError::from(e)) },
    }
}

/// The time of creation, given how many milliseconds have passed since the
/// Unix epoch: the low 64 bits, or zero before the epoch.
pub open spec fn creation_time(since_epoch: Option<u128>) -> u64 {
    match since_epoch {
        Some(ms) => #[verifier::truncate] (ms as u64),
        None => 0,
    }
}

/// The file that a copy of a new pin is written to.
pub open spec fn debug_png_in(dir: Seq<u8>, id: u64) -> Seq<u8> {
    paths::joined(
        dir,
        utf8::encode_utf8("pin-"@ + text::decimal(id as nat) + ".png"@),
    )
}

/// The file that a copy of a new pin is written to.
fn debug_png(dir: &[u8], id: PinId) -> (r: Vec<u8>)
    ensures
        r@ == debug_png_in(dir@, id@),
{
    let mut name = "pin-".to_owned();
    name.append(&id.to_decimal());
    name.append(".png");
    paths::join(dir, name.as_str().as_bytes())
}

/// When a response is sent.
#[derive(Debug, Clone, Copy, PartialEq, Eq, Structural)]
pub enum Answer {
    /// At once.
    Now,
    /// Once the window of the pin is up, or none will come.
    OnceSettled,
}

/// When the response to a new pin is sent: that to a capture waits for the window.
pub open spec fn answer_for(source: Source) -> Answer {
    match source {
        Source::Captured => Answer::OnceSettled,
        Source::Clipboard => Answer::Now,
    }
}

/// A pin that was just made.
#[derive(Debug)]
pub struct Registered {
    /// Where a copy of the image is to be written, if copies are wanted.
    pub debug_png: Option<Vec<u8>>,
    /// What the windows are told.
    pub event: AppEvent,
    /// The response.
    pub response: IpcResponse,
    /// When the response is sent.
    pub answer: Answer,
}

/// Makes a pin of an image, under a number that the registry handed out.
pub fn register_pin(
    registry: &mut PinRegistry,
    id: PinId,
    image: Arc<RgbaImage>,
    logical_size: Option<(u32, u32)>,
    source: Source,
    since_epoch: Option<u128>,
    thumbnail_written: bool,
    save_dir: Option<&Vec<u8>>,
) -> (r: Registered)
    ensures
        final(registry)@ == old(registry)@.after_insert_reserved(
            id@,
            image@,
            logical_size,
            creation_time(since_epoch),
            thumbnail_written,
        ),
        match save_dir {
            Some(dir) => r.debug_png matches Some(path) && path@ == debug_png_in(dir@, id@),
            None => r.debug_png is None,
        },
        r.event == AppEvent::OpenPin(id),
        r.response@ == (IpcResponseView::Pinned { id: id@ }),
        r.answer == answer_for(source),
{
    let created_at_unix_ms: u64 = match since_epoch {
        Some(ms) => #[verifier::truncate] (ms as u64),
        None => 0,
    };
    registry.insert_reserved(id, image, logical_size, created_at_unix_ms, thumbnail_written);
    let debug_png = match save_dir {
        Some(dir) => Some(debug_png(dir, id)),
        None => None,
    };
    let answer = match source {
        Source::Captured => Answer::OnceSettled,
        Source::Clipboard => Answer::Now,
    };
    Registered {
        debug_png,
        event: AppEvent::OpenPin(id),
        response: IpcResponse::Pinned { id },
        answer,
    }
}

/// Closing a pin or acting on one always succeeds, whether the pin is there or
/// not, and the windows hear of it only when it is.
pub proof fn acting_on_an_unknown_pin_succeeds(registry: Registry, request: IpcRequest, id: PinId)
    requires
        ({
            ||| request == (IpcRequest::Close { id })
            ||| request matches IpcRequest::PinAction { id: other, .. } && other == id
        }),
    ensures
        reply_to(registry, request) matches Some((response, event)) && {
            &&& response is Done
            &&& event is Some <==> registry.pins.contains_key(id@)
        },
        !registry.pins.contains_key(id@) ==> dispatched(registry, request) == registry,
{
}

/// Only closing changes what is pinned. Every other request leaves the registry
/// as it was, and closing twice is the same as closing once.
pub proof fn only_closing_changes_the_registry(registry: Registry, request: IpcRequest)
    ensures
        !(request is Close) && !(request is CloseAll) ==> dispatched(registry, request) == registry,
        dispatched(dispatched(registry, request), request) == dispatched(registry, request),
{
    match request {
        IpcRequest::Close { id } => {
            crate::registry::closing_is_idempotent(registry, id@);
        },
        IpcRequest::CloseAll => {
            crate::registry::closing_is_idempotent(registry, 0);
        },
        _ => {},
    }
}

/// After everything was closed, the list is empty.
pub proof fn nothing_is_listed_after_closing_all(registry: Registry)
    ensures
        reply_to(dispatched(registry, IpcRequest::CloseAll), IpcRequest::List) == Some(
            (
                IpcResponseView::Pins { pins: Seq::empty() },
                None::<AppEvent>,
            ),
        ),
{
    let after = registry.after_close_all();
    crate::registry::closing_is_idempotent(registry, 0);
    assert(after.pins.dom() =~= Set::empty());
    crate::order::order_exists(after.pins.dom());
    crate::registry::the_list_is_sorted_and_complete(after);
    assert(after.snapshot() =~= Seq::empty());
}

/// A pin that was captured opens with exactly the size of the region that was
/// selected, whatever the size of the image in pixels, and shows the image that was
/// captured.
pub proof fn a_captured_pin_opens_at_the_size_of_its_region(
    w: Windows,
    registry: Registry,
    id: PinId,
    region: Region,
    picture: Picture,
    created_at_unix_ms: u64,
    written: bool,
)
    requires
        !w.pin_to_window.contains_key(id@),
    ensures
        ({
            let made = registry.after_insert_reserved(
                id@,
                picture,
                Some((region.width, region.height)),
                created_at_unix_ms,
                written,
            );
            &&& w.on(made, MessageView::Event(AppEvent::OpenPin(id))).commands == seq![
                CommandView::OpenWindow {
                    pin: id@,
                    width: region.width,
                    height: region.height,
                },
            ]
            &&& made.pins[id@].picture == picture
        }),
{
    crate::app::windows_open_at_the_logical_size(
        w,
        registry.after_insert_reserved(
            id@,
            picture,
            Some((region.width, region.height)),
            created_at_unix_ms,
            written,
        ),
        id,
    );
}

/// A pin from the clipboard opens with the size of its image.
pub proof fn a_pasted_pin_opens_at_its_own_size(
    w: Windows,
    registry: Registry,
    id: PinId,
    picture: Picture,
    created_at_unix_ms: u64,
    written: bool,
)
    requires
        !w.pin_to_window.contains_key(id@),
    ensures
        w.on(
            registry.after_insert_reserved(id@, picture, None, created_at_unix_ms, written),
            MessageView::Event(AppEvent::OpenPin(id)),
        ).commands == seq![
            CommandView::OpenWindow { pin: id@, width: picture.width, height: picture.height },
        ],
{
    crate::app::windows_open_at_the_logical_size(
        w,
        registry.after_insert_reserved(id@, picture, None, created_at_unix_ms, written),
        id,
    );
}

/// What each request is answered, and what the windows are told. Only a capture and
/// a paste need something from outside.
pub proof fn each_request_has_its_answer(registry: Registry, id: PinId, action: PinActionKind)
    ensures
        reply_to(registry, IpcRequest::Capture) is None,
        reply_to(registry, IpcRequest::Clipboard) is None,
        reply_to(registry, IpcRequest::List) == Some(
            (IpcResponseView::Pins { pins: registry.snapshot() }, None::<AppEvent>),
        ),
        registry.pins.contains_key(id@) ==> {
            &&& reply_to(registry, IpcRequest::Close { id }) == Some(
                (IpcResponseView::Done, Some(AppEvent::ClosePin(id))),
            )
            &&& reply_to(registry, IpcRequest::PinAction { id, action }) == Some(
                (IpcResponseView::Done, Some(AppEvent::PinAction { pin_id: id, action })),
            )
            &&& registry.pins.dom().finite() ==> reply_to(registry, IpcRequest::CloseAll) == Some(
                (IpcResponseView::Done, Some(AppEvent::CloseAllPins)),
            )
        },
        !registry.pins.contains_key(id@) ==> {
            &&& reply_to(registry, IpcRequest::Close { id }) == Some(
                (IpcResponseView::Done, None::<AppEvent>),
            )
            &&& reply_to(registry, IpcRequest::PinAction { id, action }) == Some(
                (IpcResponseView::Done, None::<AppEvent>),
            )
        },
        registry.pins.dom().is_empty() ==> reply_to(registry, IpcRequest::CloseAll) == Some(
            (IpcResponseView::Done, None::<AppEvent>),
        ),
        reply_to(registry, IpcRequest::Subscribe) == Some(
            (
                IpcResponseView::Error(
                    IpcErrorView::BadRequest {
                        message: "subscribe requires the newline-delimited JSON transport"@,
                    },
                ),
                None::<AppEvent>,
            ),
        ),
{
    if registry.pins.contains_key(id@) && registry.pins.dom().finite() {
        assert(registry.pins.dom().len() > 0) by {
            if registry.pins.dom().len() == 0 {
                assert(registry.pins.dom() =~= Set::empty());
            }
        }
    }
    if registry.pins.dom().is_empty() {
        assert(registry.pins.dom() =~= Set::empty());
    }
}

/// Closing a pin takes away that pin and no other; closing all takes away every pin.
pub proof fn closing_requests_take_pins_away(registry: Registry, id: PinId)
    ensures
        dispatched(registry, IpcRequest::Close { id }).pins == registry.pins.remove(id@),
        dispatched(registry, IpcRequest::CloseAll).pins.dom().is_empty(),
        dispatched(registry, IpcRequest::Close { id }) == registry.after(
            crate::registry::Step::Close { id: id@ },
        ),
        dispatched(registry, IpcRequest::CloseAll) == registry.after(
            crate::registry::Step::CloseAll,
        ),
{
    crate::registry::closing_is_idempotent(registry, id@);
    assert(dispatched(registry, IpcRequest::CloseAll).pins.dom() =~= Set::empty());
}

/// The time of creation is the number of milliseconds since the epoch, for as long as
/// 64 bits hold it.
pub proof fn creation_times_are_milliseconds(ms: u128)
    ensures
        ms <= u64::MAX ==> creation_time(Some(ms)) == ms,
        creation_time(None) == 0,
        creation_time(Some(ms)) == ms % 0x1_0000_0000_0000_0000,
{
    assert((ms as u64) == ms % 0x1_0000_0000_0000_0000) by (bit_vector);
}

/// The copy of a new pin is the file `pin-`, its number and `.png` in the directory.
pub proof fn copies_are_named_after_their_pins(dir: Seq<u8>, id: u64)
    ensures
        debug_png_in(dir, id) == paths::joined(
            dir,
            utf8::encode_utf8("pin-"@ + text::decimal(id as nat) + ".png"@),
        ),
{
}

/// Only the answer to a capture waits for the window.
pub proof fn captures_wait_for_their_window(source: Source)
    ensures
        answer_for(source) is OnceSettled <==> source is Captured,
        answer_for(source) is Now <==> source is Clipboard,
{
}

} // verus!
