//! Length-prefixed frames.
//!
//! A frame on the wire is a payload length, as four bytes with the most
//! significant first, followed by exactly that many bytes of payload:
//!
//! ```text
//! [ len: u32 big-endian ][ payload: len bytes ]
//! ```
//!
//! Frames over [`MAX_FRAME_BYTES`] are refused on the strength of the prefix
//! alone, before anything is allocated for them.

use crate::text;
use vstd::prelude::*;
use vstd::string::StringExecFns;

verus! {

/// Largest payload of a frame, in bytes.
pub const MAX_FRAME_BYTES: u32 = 1024 * 1024;

/// What went wrong in an I/O operation, as far as this crate tells it apart.
#[derive(Debug, Clone, Copy, PartialEq, Eq, Structural)]
pub enum IoErrorKind {
    /// The file or socket does not exist.
    NotFound,
    /// Nothing is listening on the socket.
    ConnectionRefused,
    /// The peer closed in the middle of a message.
    UnexpectedEof,
    /// The peer sent something that cannot be read.
    InvalidData,
    /// Anything else.
    Other,
}

/// Why a frame could not be read or written.
#[derive(Debug, Clone, PartialEq, Eq)]
pub enum FrameError {
    /// The transport failed.
    Io {
        /// The kind of failure.
        kind: IoErrorKind,
        /// Description of the failure.
        message: String,
    },
    /// The payload is larger than [`MAX_FRAME_BYTES`].
    TooLarge {
        /// The announced size.
        len: u32,
        /// The size that it exceeds.
        max: u32,
    },
    /// The payload could not be decoded.
    Decode(String),
}

/// What a [`FrameError`] says.
pub enum FrameErrorView {
    Io { kind: IoErrorKind, message: Seq<char> },
    TooLarge { len: u32, max: u32 },
    Decode(Seq<char>),
}

impl View for FrameError {
    type V = FrameErrorView;

    open spec fn view(&self) -> FrameErrorView {
        match self {
            FrameError::Io { kind, message } => FrameErrorView::Io {
                kind: *kind,
                message: message@,
            },
            FrameError::TooLarge { len, max } => FrameErrorView::TooLarge { len: *len, max: *max },
            FrameError::Decode(message) => FrameErrorView::Decode(message@),
        }
    }
}

impl FrameErrorView {
    /// The message that a user is shown for this error.
    pub open spec fn text(self) -> Seq<char> {
        match self {
            FrameErrorView::Io { message, .. } => "framing i/o: "@ + message,
            FrameErrorView::TooLarge { len, max } => "frame too large: "@ + text::decimal(
                len as nat,
            ) + " bytes (max "@ + text::decimal(max as nat) + ")"@,
            FrameErrorView::Decode(message) => "frame decode: "@ + message,
        }
    }
}

impl FrameError {
    /// The message that a user is shown for this error.
    pub fn message(&self) -> (r: String)
        ensures
            r@ == self@.text(),
    {
        match self {
            FrameError::Io { kind: _, message } => "framing i/o: ".to_owned().concat(message),
            FrameError::TooLarge { len, max } => {
                let mut r = "frame too large: ".to_owned();
                text::push_decimal(&mut r, *len as u64);
                r.append(" bytes (max ");
                text::push_decimal(&mut r, *max as u64);
                r.append(")");
                r
            },
            FrameError::Decode(message) => "frame decode: ".to_owned().concat(message),
        }
    }
}

/// The four bytes of `n`, most significant first.
pub open spec fn be_bytes(n: u32) -> Seq<u8> {
    seq![
        (n / 0x100_0000) as u8,
        (n / 0x1_0000 % 0x100) as u8,
        (n / 0x100 % 0x100) as u8,
        (n % 0x100) as u8,
    ]
}

/// The number whose bytes, most significant first, are the first four of `b`.
pub open spec fn be_value(b: Seq<u8>) -> nat {
    (b[0] * 0x100_0000 + b[1] * 0x1_0000 + b[2] * 0x100 + b[3]) as nat
}

/// The frame that carries `payload`.
pub open spec fn frame_of(payload: Seq<u8>) -> Seq<u8> {
    be_bytes(payload.len() as u32) + payload
}

/// The error for a peer that closes before a frame is complete.
pub open spec fn early_eof() -> FrameErrorView {
    FrameErrorView::Io { kind: IoErrorKind::UnexpectedEof, message: "early eof"@ }
}

/// The payload length that a prefix announces, or why it is refused.
pub open spec fn announced(prefix: Seq<u8>) -> Result<nat, FrameErrorView> {
    if be_value(prefix) > MAX_FRAME_BYTES {
        Err(FrameErrorView::TooLarge { len: be_value(prefix) as u32, max: MAX_FRAME_BYTES })
    } else {
        Ok(be_value(prefix))
    }
}

/// The first frame of `stream`, which is all that the peer sends before it
/// closes: its payload and the number of bytes that the frame takes.
pub open spec fn first_frame(stream: Seq<u8>) -> Result<(Seq<u8>, nat), FrameErrorView> {
    if stream.len() < 4 {
        Err(early_eof())
    } else {
        match announced(stream) {
            Err(e) => Err(e),
            Ok(len) => if stream.len() < 4 + len {
                Err(early_eof())
            } else {
                Ok((stream.subrange(4, 4 + len as int), 4 + len))
            },
        }
    }
}

/// The payload length that the four bytes in front of a frame announce.
pub fn frame_length(prefix: [u8; 4]) -> (r: Result<u32, FrameError>)
    ensures
        match r {
            Ok(len) => announced(prefix@) == Ok::<nat, FrameErrorView>(len as nat),
            Err(e) => announced(prefix@) == Err::<nat, FrameErrorView>(e@),
        },
{
    let len: u32 = prefix[0] as u32 * 0x100_0000 + prefix[1] as u32 * 0x1_0000 + prefix[2] as u32
        * 0x100 + prefix[3] as u32;
    if len > MAX_FRAME_BYTES {
        Err(FrameError::TooLarge { len, max: MAX_FRAME_BYTES })
    } else {
        Ok(len)
    }
}

/// The bytes to send for one frame that carries `payload`.
pub fn write_frame(payload: &[u8]) -> (r: Result<Vec<u8>, FrameError>)
    ensures
        match r {
            Ok(frame) => payload@.len() <= MAX_FRAME_BYTES && frame@ == frame_of(payload@),
            Err(e) => payload@.len() > MAX_FRAME_BYTES && e@ == (FrameErrorView::TooLarge {
                len: if payload@.len() <= u32::MAX {
                    payload@.len() as u32
                } else {
                    u32::MAX
                },
                max: MAX_FRAME_BYTES,
            }),
        },
{
    if payload.len() > u32::MAX as usize {
        return Err(FrameError::TooLarge { len: u32::MAX, max: MAX_FRAME_BYTES });
    }
    let len: u32 = payload.len() as u32;
    if len > MAX_FRAME_BYTES {
        return Err(FrameError::TooLarge { len, max: MAX_FRAME_BYTES });
    }
    let mut frame: Vec<u8> = Vec::new();
    frame.push((len / 0x100_0000) as u8);
    frame.push((len / 0x1_0000 % 0x100) as u8);
    frame.push((len / 0x100 % 0x100) as u8);
    frame.push((len % 0x100) as u8);
    frame.extend_from_slice(payload);
    assert(frame@ == frame_of(payload@));
    Ok(frame)
}

/// The payload of the first frame of `stream`, and the number of bytes that
/// the frame takes.
pub fn read_frame(stream: &[u8]) -> (r: Result<(Vec<u8>, usize), FrameError>)
    ensures
        match r {
            Ok(frame) => first_frame(stream@) == Ok::<(Seq<u8>, nat), FrameErrorView>(
                (frame.0@, frame.1 as nat),
            ),
            Err(e) => first_frame(stream@) == Err::<(Seq<u8>, nat), FrameErrorView>(e@),
        },
{
    if stream.len() < 4 {
        return Err(FrameError::Io {
            kind: IoErrorKind::UnexpectedEof,
            message: "early eof".to_owned(),
        });
    }
    let len: u32 = match frame_length([stream[0], stream[1], stream[2], stream[3]]) {
        Ok(len) => len,
        Err(e) => return Err(e),
    };
    if stream.len() - 4 < len as usize {
        return Err(FrameError::Io {
            kind: IoErrorKind::UnexpectedEof,
            message: "early eof".to_owned(),
        });
    }
    let end: usize = 4 + len as usize;
    let mut payload: Vec<u8> = Vec::new();
    payload.extend_from_slice(&stream[4..end]);
    assert(payload@ == stream@.subrange(4, end as int));
    Ok((payload, end))
}

/// The prefix of a length reads back as that length.
pub proof fn length_prefix_reads_back(n: u32, rest: Seq<u8>)
    ensures
        be_value(be_bytes(n) + rest) == n,
{
    let b = be_bytes(n) + rest;
    assert(b[0] == (n / 0x100_0000) as u8);
    assert(b[1] == (n / 0x1_0000 % 0x100) as u8);
    assert(b[2] == (n / 0x100 % 0x100) as u8);
    assert(b[3] == (n % 0x100) as u8);
    assert(n / 0x100_0000 < 0x100);
}

/// Reading gives back what was written, whatever follows on the stream, and
/// consumes exactly the frame.
pub proof fn read_gives_back_what_was_written(payload: Seq<u8>, rest: Seq<u8>)
    requires
        payload.len() <= MAX_FRAME_BYTES,
    ensures
        first_frame(frame_of(payload) + rest) == Ok::<(Seq<u8>, nat), FrameErrorView>(
            (payload, frame_of(payload).len()),
        ),
{
    let stream = frame_of(payload) + rest;
    length_prefix_reads_back(payload.len() as u32, payload + rest);
    assert(stream == be_bytes(payload.len() as u32) + (payload + rest));
    assert(stream.subrange(4, 4 + payload.len() as int) == payload);
}

/// A frame that is cut short is an unexpected end of the stream, wherever it
/// is cut.
pub proof fn truncated_frame_is_an_early_eof(payload: Seq<u8>, kept: int)
    requires
        payload.len() <= MAX_FRAME_BYTES,
        0 <= kept < frame_of(payload).len(),
    ensures
        first_frame(frame_of(payload).take(kept)) == Err::<(Seq<u8>, nat), FrameErrorView>(
            early_eof(),
        ),
{
    let frame = frame_of(payload);
    if kept >= 4 {
        let cut = frame.take(kept);
        length_prefix_reads_back(payload.len() as u32, payload);
        assert(cut[0] == frame[0] && cut[1] == frame[1] && cut[2] == frame[2] && cut[3]
            == frame[3]);
        assert(be_value(cut) == payload.len());
    }
}

/// An oversized announcement is refused by its prefix alone.
pub proof fn oversized_prefix_is_refused(prefix: Seq<u8>, rest: Seq<u8>)
    requires
        prefix.len() == 4,
        be_value(prefix) > MAX_FRAME_BYTES,
    ensures
        first_frame(prefix + rest) == Err::<(Seq<u8>, nat), FrameErrorView>(
            FrameErrorView::TooLarge { len: be_value(prefix) as u32, max: MAX_FRAME_BYTES },
        ),
{
    let stream = prefix + rest;
    assert(stream[0] == prefix[0] && stream[1] == prefix[1] && stream[2] == prefix[2] && stream[3]
        == prefix[3]);
}

/// A frame is the length of its payload in four bytes, the most significant first, and
/// the payload.
pub proof fn a_frame_is_its_length_and_its_payload(payload: Seq<u8>)
    requires
        payload.len() <= MAX_FRAME_BYTES,
    ensures
        ({
            let frame = frame_of(payload);
            &&& frame.len() == payload.len() + 4
            &&& frame[0] * 0x100_0000 + frame[1] * 0x1_0000 + frame[2] * 0x100 + frame[3]
                == payload.len()
            &&& frame.skip(4) == payload
        }),
{
    length_prefix_reads_back(payload.len() as u32, payload);
    assert(frame_of(payload).skip(4) =~= payload);
}

/// What is read of a stream: as many bytes behind the first four as those announce, the
/// most significant first. No more than a mebibyte is accepted, and a stream that ends
/// before is an unexpected end.
pub proof fn a_frame_is_read_as_announced(stream: Seq<u8>)
    ensures
        stream.len() < 4 ==> first_frame(stream) == Err::<(Seq<u8>, nat), FrameErrorView>(
            FrameErrorView::Io { kind: IoErrorKind::UnexpectedEof, message: "early eof"@ },
        ),
        stream.len() >= 4 ==> {
            let len = stream[0] * 0x100_0000 + stream[1] * 0x1_0000 + stream[2] * 0x100 + stream[3];
            &&& len > 0x10_0000 ==> first_frame(stream) == Err::<(Seq<u8>, nat), FrameErrorView>(
                FrameErrorView::TooLarge { len: len as u32, max: 0x10_0000 },
            )
            &&& len <= 0x10_0000 && stream.len() < 4 + len ==> first_frame(stream) == Err::<
                (Seq<u8>, nat),
                FrameErrorView,
            >(FrameErrorView::Io { kind: IoErrorKind::UnexpectedEof, message: "early eof"@ })
            &&& len <= 0x10_0000 && stream.len() >= 4 + len ==> first_frame(stream) == Ok::<
                (Seq<u8>, nat),
                FrameErrorView,
            >((stream.subrange(4, 4 + len), (4 + len) as nat))
        },
{
}

/// What four bytes announce, the most significant first.
pub proof fn a_prefix_announces_a_length(prefix: Seq<u8>)
    ensures
        ({
            let len = prefix[0] * 0x100_0000 + prefix[1] * 0x1_0000 + prefix[2] * 0x100 + prefix[3];
            &&& len <= 0x10_0000 ==> announced(prefix) == Ok::<nat, FrameErrorView>(len as nat)
            &&& len > 0x10_0000 ==> announced(prefix) == Err::<nat, FrameErrorView>(
                FrameErrorView::TooLarge { len: len as u32, max: 0x10_0000 },
            )
        }),
{
}

/// What a user is shown for each error, with the details as they were given.
pub proof fn frame_errors_are_explained(kind: IoErrorKind, detail: Seq<char>, len: u32, max: u32)
    ensures
        (FrameErrorView::Io { kind, message: detail }).text() == "framing i/o: "@ + detail,
        (FrameErrorView::TooLarge { len, max }).text() == "frame too large: "@ + text::decimal(
            len as nat,
        ) + " bytes (max "@ + text::decimal(max as nat) + ")"@,
        FrameErrorView::Decode(detail).text() == "frame decode: "@ + detail,
{
}

/// An error says what it holds.
pub proof fn frame_errors_say_what_they_hold(e: FrameError)
    ensures
        match e {
            FrameError::Io { kind, message } => e@ == (FrameErrorView::Io {
                kind,
                message: message@,
            }),
            FrameError::TooLarge { len, max } => e@ == (FrameErrorView::TooLarge { len, max }),
            FrameError::Decode(message) => e@ == FrameErrorView::Decode(message@),
        },
{
}

} // verus!
