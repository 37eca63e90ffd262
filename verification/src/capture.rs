//! Failures of the screen capture.

use crate::ipc::{IpcError, IpcErrorView};
use vstd::prelude::*;
use vstd::string::StringExecFns;

verus! {

/// Why nothing was captured.
#[derive(Debug, Clone, PartialEq, Eq)]
pub enum CaptureError {
    /// There was no connection to the compositor.
    Connect(String),
    /// The compositor gave no pixels.
    Screenshot(String),
    /// The task that waited for the pixels did not end properly.
    Join(String),
}

/// What a [`CaptureError`] says.
pub enum CaptureErrorView {
    Connect(Seq<char>),
    Screenshot(Seq<char>),
    Join(Seq<char>),
}

impl View for CaptureError {
    type V = CaptureErrorView;

    open spec fn view(&self) -> CaptureErrorView {
        match self {
            CaptureError::Connect(e) => CaptureErrorView::Connect(e@),
            CaptureError::Screenshot(e) => CaptureErrorView::Screenshot(e@),
            CaptureError::Join(e) => CaptureErrorView::Join(e@),
        }
    }
}

impl CaptureErrorView {
    /// The message for the operator.
    pub open spec fn text(self) -> Seq<char> {
        match self {
            CaptureErrorView::Connect(e) => "connect to wayland: "@ + e,
            CaptureErrorView::Screenshot(e) => "screenshot failed: "@ + e,
            CaptureErrorView::Join(e) => "blocking task join: "@ + e,
        }
    }

    /// What a client is told.
    pub open spec fn reported(self) -> IpcErrorView {
        IpcErrorView::CaptureFailed { message: self.text() }
    }
}

impl CaptureError {
    /// The message for the operator.
    pub fn message(&self) -> (r: String)
        ensures
            r@ == self@.text(),
    {
        match self {
            CaptureError::Connect(e) => "connect to wayland: ".to_owned().concat(e),
            CaptureError::Screenshot(e) => "screenshot failed: ".to_owned().concat(e),
            CaptureError::Join(e) => "blocking task join: ".to_owned().concat(e),
        }
    }
}

// Two errors with the same words need not be the same value, so what the
// conversion gives is stated by `from` itself.
impl vstd::std_specs::convert::FromSpecImpl<CaptureError> for IpcError {
    open spec fn obeys_from_spec() -> bool {
        false
    }

    open spec fn from_spec(e: CaptureError) -> IpcError {
        IpcError::CaptureCanceled
    }
}

impl From<CaptureError> for IpcError {
    fn from(e: CaptureError) -> (r: IpcError)
        ensures
            r@ == e@.reported(),
    {
        IpcError::CaptureFailed { message: e.message() }
    }
}

/// What the operator is told of a failed capture, with the detail as it was given, and
/// what a client is told: that the capture failed, and the same words.
pub proof fn failed_captures_are_explained(detail: Seq<char>)
    ensures
        CaptureErrorView::Connect(detail).text() == "connect to wayland: "@ + detail,
        CaptureErrorView::Screenshot(detail).text() == "screenshot failed: "@ + detail,
        CaptureErrorView::Join(detail).text() == "blocking task join: "@ + detail,
        CaptureErrorView::Connect(detail).reported() == (IpcErrorView::CaptureFailed {
            message: "connect to wayland: "@ + detail,
        }),
        CaptureErrorView::Screenshot(detail).reported() == (IpcErrorView::CaptureFailed {
            message: "screenshot failed: "@ + detail,
        }),
        CaptureErrorView::Join(detail).reported() == (IpcErrorView::CaptureFailed {
            message: "blocking task join: "@ + detail,
        }),
{
}

/// An error says what it holds.
pub proof fn capture_errors_say_what_they_hold(e: CaptureError)
    ensures
        match e {
            CaptureError::Connect(detail) => e@ == CaptureErrorView::Connect(detail@),
            CaptureError::Screenshot(detail) => e@ == CaptureErrorView::Screenshot(detail@),
            CaptureError::Join(detail) => e@ == CaptureErrorView::Join(detail@),
        },
{
}

} // verus!
