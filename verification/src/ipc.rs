//! The messages that clients and the daemon exchange.

use crate::pin_id::PinId;
use crate::text;
use vstd::prelude::*;
use vstd::string::StringExecFns;

verus! {

/// Version of the wire protocol, announced in [`ShellMessage::Hello`].
pub const PROTOCOL_VERSION: u16 = 2;

/// A single request from a client to the daemon.
#[derive(Debug, Clone, Copy, PartialEq, Eq, Structural)]
pub enum IpcRequest {
    /// Select a region interactively, capture it and pin the result. The answer
    /// comes once the window of the pin is up, or the capture was canceled or
    /// failed.
    Capture,
    /// Pin the image on the clipboard.
    Clipboard,
    /// Enumerate all live pins.
    List,
    /// Close one pin. Closing an unknown pin is not an error.
    Close {
        /// The pin to close.
        id: PinId,
    },
    /// Close every pin.
    CloseAll,
    /// Push a message on this connection whenever the pins change.
    Subscribe,
    /// Run an action against a pin. An unknown pin is not an error.
    PinAction {
        /// The pin to act on.
        id: PinId,
        /// What to do to it.
        action: PinActionKind,
    },
}

/// An action that can be applied to a pin.
#[derive(Debug, Clone, Copy, PartialEq, Eq, Structural)]
pub enum PinActionKind {
    /// Hand the pixels to the clipboard.
    Copy,
    /// Write the pixels to the save directory.
    Save,
    /// Rotate a quarter turn clockwise.
    RotateRight,
    /// Rotate a quarter turn counter-clockwise.
    RotateLeft,
    /// Mirror left to right.
    FlipH,
    /// Mirror top to bottom.
    FlipV,
}

/// The answer to a request.
#[derive(Debug, Clone, PartialEq, Eq)]
pub enum IpcResponse {
    /// Success, with nothing to report.
    Done,
    /// Reply to [`IpcRequest::List`].
    Pins {
        /// The live pins.
        pins: Vec<PinSummary>,
    },
    /// Reply to a request that created a pin.
    Pinned {
        /// The new pin.
        id: PinId,
    },
    /// The request failed.
    Error(IpcError),
}

/// Description of a pin.
#[derive(Debug, Clone, PartialEq, Eq)]
pub struct PinSummary {
    /// The pin.
    pub id: PinId,
    /// Image width in pixels.
    pub width: u32,
    /// Image height in pixels.
    pub height: u32,
    /// Creation time, in milliseconds since the Unix epoch.
    pub created_at_unix_ms: u64,
    /// Path of a cached PNG thumbnail, when there is one.
    pub thumbnail: Option<Vec<u8>>,
    /// How often the pixels have been replaced.
    pub revision: u64,
}

/// A message that the daemon pushes unprompted.
#[derive(Debug, Clone, PartialEq, Eq)]
pub enum ShellMessage {
    /// First line on every persistent connection.
    Hello {
        /// [`PROTOCOL_VERSION`] of the daemon.
        protocol: u16,
        /// Version of the daemon.
        version: String,
        /// Optional features that this daemon has.
        capabilities: Vec<String>,
    },
    /// Something changed.
    Event {
        /// What happened.
        event: ShellEventKind,
        /// Every live pin, after the change.
        pins: Vec<PinSummary>,
    },
}

/// What a [`ShellMessage::Event`] reports.
#[derive(Debug, Clone, Copy, PartialEq, Eq, Structural)]
pub enum ShellEventKind {
    /// A pin was added, removed, or had its pixels replaced.
    PinsChanged,
}

/// Failures of the daemon that a client is told about.
#[derive(Debug, Clone, PartialEq, Eq)]
pub enum IpcError {
    /// The feature is known but not implemented.
    NotImplemented {
        /// Short label of the feature.
        feature: String,
    },
    /// The user canceled the region selection.
    CaptureCanceled,
    /// Capturing failed.
    CaptureFailed {
        /// Detail for the operator.
        message: String,
    },
    /// The clipboard holds no image, or no clipboard provider was found.
    ClipboardNoImage,
    /// The request was malformed or cannot be served on this transport.
    BadRequest {
        /// Detail for the operator.
        message: String,
    },
    /// Client and daemon speak different versions.
    ProtocolMismatch {
        /// Version of the client.
        client: u16,
        /// Version of the daemon.
        daemon: u16,
    },
    /// Any other failure.
    Internal {
        /// Detail for the operator.
        message: String,
    },
}

/// What an [`IpcError`] says.
pub enum IpcErrorView {
    NotImplemented { feature: Seq<char> },
    CaptureCanceled,
    CaptureFailed { message: Seq<char> },
    ClipboardNoImage,
    BadRequest { message: Seq<char> },
    ProtocolMismatch { client: u16, daemon: u16 },
    Internal { message: Seq<char> },
}

impl View for IpcError {
    type V = IpcErrorView;

    open spec fn view(&self) -> IpcErrorView {
        match self {
            IpcError::NotImplemented { feature } => IpcErrorView::NotImplemented {
                feature: feature@,
            },
            IpcError::CaptureCanceled => IpcErrorView::CaptureCanceled,
            IpcError::CaptureFailed { message } => IpcErrorView::CaptureFailed {
                message: message@,
            },
            IpcError::ClipboardNoImage => IpcErrorView::ClipboardNoImage,
            IpcError::BadRequest { message } => IpcErrorView::BadRequest { message: message@ },
            IpcError::ProtocolMismatch { client, daemon } => IpcErrorView::ProtocolMismatch {
                client: *client,
                daemon: *daemon,
            },
            IpcError::Internal { message } => IpcErrorView::Internal { message: message@ },
        }
    }
}

impl IpcErrorView {
    /// The message that a user is shown for this error.
    pub open spec fn text(self) -> Seq<char> {
        match self {
            IpcErrorView::NotImplemented { feature } => "not implemented: "@ + feature,
            IpcErrorView::CaptureCanceled => "capture canceled"@,
            IpcErrorView::CaptureFailed { message } => "capture failed: "@ + message,
            IpcErrorView::ClipboardNoImage => "clipboard does not contain an image"@,
            IpcErrorView::BadRequest { message } => "bad request: "@ + message,
            IpcErrorView::ProtocolMismatch { client, daemon } => "protocol mismatch: client="@
                + text::decimal(client as nat) + ", daemon="@ + text::decimal(daemon as nat),
            IpcErrorView::Internal { message } => "internal daemon error: "@ + message,
        }
    }
}

impl IpcError {
    /// The message that a user is shown for this error.
    pub fn message(&self) -> (r: String)
        ensures
            r@ == self@.text(),
    {
        match self {
            IpcError::NotImplemented { feature } => "not implemented: ".to_owned().concat(feature),
            IpcError::CaptureCanceled => "capture canceled".to_owned(),
            IpcError::CaptureFailed { message } => "capture failed: ".to_owned().concat(message),
            IpcError::ClipboardNoImage => "clipboard does not contain an image".to_owned(),
            IpcError::BadRequest { message } => "bad request: ".to_owned().concat(message),
            IpcError::ProtocolMismatch { client, daemon } => {
                let mut r = "protocol mismatch: client=".to_owned();
                text::push_decimal(&mut r, *client as u64);
                r.append(", daemon=");
                text::push_decimal(&mut r, *daemon as u64);
                r
            },
            IpcError::Internal { message } => "internal daemon error: ".to_owned().concat(message),
        }
    }
}

/// What a [`PinSummary`] says.
#[verifier::ext_equal]
pub struct PinSummaryView {
    pub id: u64,
    pub width: u32,
    pub height: u32,
    pub created_at_unix_ms: u64,
    pub thumbnail: Option<Seq<u8>>,
    pub revision: u64,
}

/// The bytes of an optional path.
pub open spec fn path_view(path: Option<Vec<u8>>) -> Option<Seq<u8>> {
    match path {
        Some(p) => Some(p@),
        None => None,
    }
}

impl View for PinSummary {
    type V = PinSummaryView;

    open spec fn view(&self) -> PinSummaryView {
        PinSummaryView {
            id: self.id@,
            width: self.width,
            height: self.height,
            created_at_unix_ms: self.created_at_unix_ms,
            thumbnail: path_view(self.thumbnail),
            revision: self.revision,
        }
    }
}

/// What a list of summaries says.
pub open spec fn summaries_view(pins: Seq<PinSummary>) -> Seq<PinSummaryView> {
    pins.map_values(|p: PinSummary| p@)
}

/// What an [`IpcResponse`] says.
pub enum IpcResponseView {
    Done,
    Pins { pins: Seq<PinSummaryView> },
    Pinned { id: u64 },
    Error(IpcErrorView),
}

impl View for IpcResponse {
    type V = IpcResponseView;

    open spec fn view(&self) -> IpcResponseView {
        match self {
            IpcResponse::Done => IpcResponseView::Done,
            IpcResponse::Pins { pins } => IpcResponseView::Pins { pins: summaries_view(pins@) },
            IpcResponse::Pinned { id } => IpcResponseView::Pinned { id: id@ },
            IpcResponse::Error(e) => IpcResponseView::Error(e@),
        }
    }
}

impl IpcResponseView {
    /// The discriminator of this response on the wire.
    pub open spec fn kind(self) -> Seq<char> {
        match self {
            IpcResponseView::Done => "ok"@,
            IpcResponseView::Pins { .. } => "pins"@,
            IpcResponseView::Pinned { .. } => "pinned"@,
            IpcResponseView::Error(_) => "error"@,
        }
    }
}

impl IpcResponse {
    /// The discriminator of this response on the wire.
    pub fn kind(&self) -> (r: &'static str)
        ensures
            r@ == self@.kind(),
    {
        match self {
            IpcResponse::Done => "ok",
            IpcResponse::Pins { .. } => "pins",
            IpcResponse::Pinned { .. } => "pinned",
            IpcResponse::Error(_) => "error",
        }
    }
}

/// What a [`ShellMessage`] says.
pub enum ShellMessageView {
    Hello { protocol: u16, version: Seq<char>, capabilities: Seq<Seq<char>> },
    Event { event: ShellEventKind, pins: Seq<PinSummaryView> },
}

impl View for ShellMessage {
    type V = ShellMessageView;

    open spec fn view(&self) -> ShellMessageView {
        match self {
            ShellMessage::Hello { protocol, version, capabilities } => ShellMessageView::Hello {
                protocol: *protocol,
                version: version@,
                capabilities: text::views(capabilities@),
            },
            ShellMessage::Event { event, pins } => ShellMessageView::Event {
                event: *event,
                pins: summaries_view(pins@),
            },
        }
    }
}

impl ShellMessageView {
    /// The discriminator of this message on the wire.
    pub open spec fn kind(self) -> Seq<char> {
        match self {
            ShellMessageView::Hello { .. } => "hello"@,
            ShellMessageView::Event { .. } => "event"@,
        }
    }
}

impl ShellMessage {
    /// The discriminator of this message on the wire.
    pub fn kind(&self) -> (r: &'static str)
        ensures
            r@ == self@.kind(),
    {
        match self {
            ShellMessage::Hello { .. } => "hello",
            ShellMessage::Event { .. } => "event",
        }
    }
}

/// A client can tell a pushed message from a response by the discriminator
/// alone: no kind is claimed twice.
pub proof fn message_and_response_kinds_are_disjoint(
    message: ShellMessageView,
    response: IpcResponseView,
)
    ensures
        message.kind() != response.kind(),
{
    reveal_strlit("hello");
    reveal_strlit("event");
    reveal_strlit("ok");
    reveal_strlit("pins");
    reveal_strlit("pinned");
    reveal_strlit("error");
    assert(message.kind()[0] == 'h' || message.kind()[1] == 'v');
    assert(response.kind()[0] != 'h' && response.kind()[1] != 'v');
}

/// A summary says what it holds, and a list of summaries is kept in order.
pub proof fn summaries_say_what_they_hold(pins: Seq<PinSummary>, i: int)
    requires
        0 <= i < pins.len(),
    ensures
        summaries_view(pins).len() == pins.len(),
        ({
            let (said, held) = (summaries_view(pins)[i], pins[i]);
            &&& said.id == held.id@
            &&& said.width == held.width
            &&& said.height == held.height
            &&& said.created_at_unix_ms == held.created_at_unix_ms
            &&& held.thumbnail is None ==> said.thumbnail is None
            &&& held.thumbnail matches Some(path) ==> said.thumbnail == Some(path@)
            &&& said.revision == held.revision
        }),
{
}

/// A path says its bytes.
pub proof fn paths_say_their_bytes(path: Option<Vec<u8>>)
    ensures
        path is None <==> path_view(path) is None,
        path matches Some(p) ==> path_view(path) == Some(p@),
{
}

/// A response says what it holds.
pub proof fn responses_say_what_they_hold(response: IpcResponse)
    ensures
        match response {
            IpcResponse::Done => response@ is Done,
            IpcResponse::Pins { pins } => response@ == (IpcResponseView::Pins {
                pins: summaries_view(pins@),
            }),
            IpcResponse::Pinned { id } => response@ == (IpcResponseView::Pinned { id: id@ }),
            IpcResponse::Error(e) => response@ == IpcResponseView::Error(e@),
        },
{
}

/// An error says what it holds.
pub proof fn errors_say_what_they_hold(e: IpcError)
    ensures
        match e {
            IpcError::NotImplemented { feature } => e@ == (IpcErrorView::NotImplemented {
                feature: feature@,
            }),
            IpcError::CaptureCanceled => e@ is CaptureCanceled,
            IpcError::CaptureFailed { message } => e@ == (IpcErrorView::CaptureFailed {
                message: message@,
            }),
            IpcError::ClipboardNoImage => e@ is ClipboardNoImage,
            IpcError::BadRequest { message } => e@ == (IpcErrorView::BadRequest {
                message: message@,
            }),
            IpcError::ProtocolMismatch { client, daemon } => e@ == (
            IpcErrorView::ProtocolMismatch { client, daemon }),
            IpcError::Internal { message } => e@ == (IpcErrorView::Internal { message: message@ }),
        },
{
}

/// A pushed message says what it holds.
pub proof fn pushed_messages_say_what_they_hold(message: ShellMessage)
    ensures
        match message {
            ShellMessage::Hello { protocol, version, capabilities } => message@ == (
            ShellMessageView::Hello {
                protocol,
                version: version@,
                capabilities: text::views(capabilities@),
            }),
            ShellMessage::Event { event, pins } => message@ == (ShellMessageView::Event {
                event,
                pins: summaries_view(pins@),
            }),
        },
{
}

/// What a user is shown for each error, with the detail as it was given.
pub proof fn errors_are_shown_with_their_detail(detail: Seq<char>, client: u16, daemon: u16)
    ensures
        (IpcErrorView::NotImplemented { feature: detail }).text() == "not implemented: "@ + detail,
        IpcErrorView::CaptureCanceled.text() == "capture canceled"@,
        (IpcErrorView::CaptureFailed { message: detail }).text() == "capture failed: "@ + detail,
        IpcErrorView::ClipboardNoImage.text() == "clipboard does not contain an image"@,
        (IpcErrorView::BadRequest { message: detail }).text() == "bad request: "@ + detail,
        (IpcErrorView::ProtocolMismatch { client, daemon }).text() == "protocol mismatch: client="@
            + text::decimal(client as nat) + ", daemon="@ + text::decimal(daemon as nat),
        (IpcErrorView::Internal { message: detail }).text() == "internal daemon error: "@ + detail,
{
}

/// What stands on the wire for each kind of response and of message.
pub proof fn kinds_have_their_names(response: IpcResponseView, message: ShellMessageView)
    ensures
        response is Done ==> response.kind() == "ok"@,
        response is Pins ==> response.kind() == "pins"@,
        response is Pinned ==> response.kind() == "pinned"@,
        response is Error ==> response.kind() == "error"@,
        message is Hello ==> message.kind() == "hello"@,
        message is Event ==> message.kind() == "event"@,
{
}

} // verus!
