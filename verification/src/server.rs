//! What a connection to the daemon goes through.
//!
//! Two transports share one socket. The first byte of a connection selects the
//! transport for as long as the connection lives: zero opens a length-prefixed
//! frame, since the length of an acceptable frame never needs the highest byte
//! of its prefix, and a brace opens a JSON object, one of which stands on each
//! line.

use crate::framing;
use crate::framing::IoErrorKind;
use crate::ipc;
use crate::ipc::{
    IpcError, IpcErrorView, IpcRequest, IpcResponse, IpcResponseView, PinSummary, ShellEventKind,
    ShellMessage, ShellMessageView, PROTOCOL_VERSION,
};
use crate::registry::PinRegistry;
use crate::text;
use vstd::prelude::*;
use vstd::string::StringExecFns;

verus! {

/// The byte that opens a JSON object.
pub const NDJSON_LEAD: u8 = 0x7b;

/// The first byte of every acceptable length-prefixed frame.
pub const LENGTH_PREFIXED_LEAD: u8 = 0x00;

/// The byte that ends a line.
pub const NEWLINE: u8 = 0x0a;

/// What to do with the socket's path before listening on it.
#[derive(Debug, Clone, PartialEq, Eq)]
pub enum BindStep {
    /// Nothing is in the way.
    Bind,
    /// Remove what an earlier daemon left.
    RemoveStale,
    /// Do not start.
    Refuse {
        /// Why.
        message: String,
    },
    /// Report the error of the probe.
    Fail,
}

/// Whether a failed connection means that nobody listens on a socket.
pub open spec fn dead(kind: IoErrorKind) -> bool {
    kind is ConnectionRefused || kind is NotFound
}

/// Whether a failed connection means that nobody listens on a socket.
pub fn is_socket_dead(kind: IoErrorKind) -> (r: bool)
    ensures
        r == dead(kind),
{
    match kind {
        IoErrorKind::ConnectionRefused => true,
        IoErrorKind::NotFound => true,
        _ => false,
    }
}

/// Decides what to do with the socket at `path`, given what came of connecting
/// to it. There is no probe where there is no file.
pub fn bind_step(path: &str, probe: Option<Result<(), IoErrorKind>>) -> (r: BindStep)
    ensures
        match probe {
            None => r is Bind,
            Some(Ok(_)) => r matches BindStep::Refuse { message } && message@
                == "another osnip-daemon is already listening on "@ + path@,
            Some(Err(kind)) => if dead(kind) {
                r is RemoveStale
            } else {
                r is Fail
            },
        },
{
    match probe {
        None => BindStep::Bind,
        Some(Ok(_)) => BindStep::Refuse {
            message: "another osnip-daemon is already listening on ".to_owned().concat(path),
        },
        Some(Err(kind)) => if is_socket_dead(kind) {
            BindStep::RemoveStale
        } else {
            BindStep::Fail
        },
    }
}

/// How the messages of a connection are told apart.
#[derive(Debug, Clone, Copy, PartialEq, Eq, Structural)]
pub enum Transport {
    /// One request with its length in front, then the end.
    LengthPrefixed,
    /// One JSON object on each line, for as long as the peer likes.
    Ndjson,
}

/// The transport that a first byte selects.
pub open spec fn transport_of(lead: u8) -> Option<Transport> {
    if lead == LENGTH_PREFIXED_LEAD {
        Some(Transport::LengthPrefixed)
    } else if lead == NDJSON_LEAD {
        Some(Transport::Ndjson)
    } else {
        None
    }
}

/// How a connection goes on after its first byte.
#[derive(Debug, Clone, Copy, PartialEq, Eq, Structural)]
pub enum Opening {
    /// Serve it.
    Serve(Transport),
    /// Close it. That is no fault.
    Close,
    /// Close it and report the error.
    Fail,
}

/// Decides how a connection goes on, given its first byte. A connection without
/// any is a probe for a live daemon; one with an unknown byte is closed.
pub fn open_connection(lead: Result<u8, IoErrorKind>) -> (r: Opening)
    ensures
        r == match lead {
            Ok(byte) => match transport_of(byte) {
                Some(transport) => Opening::Serve(transport),
                None => Opening::Close,
            },
            Err(kind) => if kind is UnexpectedEof {
                Opening::Close
            } else {
                Opening::Fail
            },
        },
{
    match lead {
        Ok(byte) => {
            if byte == LENGTH_PREFIXED_LEAD {
                Opening::Serve(Transport::LengthPrefixed)
            } else if byte == NDJSON_LEAD {
                Opening::Serve(Transport::Ndjson)
            } else {
                Opening::Close
            }
        },
        Err(IoErrorKind::UnexpectedEof) => Opening::Close,
        Err(_) => Opening::Fail,
    }
}

/// The two transports never collide: whatever is written as a frame selects the
/// length-prefixed transport, and so does every prefix that is accepted.
pub proof fn frames_select_the_length_prefixed_transport(payload: Seq<u8>, stream: Seq<u8>)
    ensures
        payload.len() <= framing::MAX_FRAME_BYTES ==> transport_of(framing::frame_of(payload)[0])
            == Some(Transport::LengthPrefixed),
        stream.len() >= 4 && framing::announced(stream) is Ok ==> transport_of(stream[0]) == Some(
            Transport::LengthPrefixed,
        ),
{
    if payload.len() <= framing::MAX_FRAME_BYTES {
        framing::length_prefix_reads_back(payload.len() as u32, payload);
    }
}

/// How far reading a line has come.
#[derive(Debug, Clone, PartialEq, Eq)]
pub enum LineProgress {
    /// The line is complete.
    Line,
    /// There is no line and there will be none.
    End,
    /// More has to be read.
    More,
    /// The line is too long.
    TooLong {
        /// The message of the error, which is one of invalid data.
        message: String,
    },
}

/// How far reading a line has come, without the words.
pub enum LineProgressView {
    Line,
    End,
    More,
    TooLong { message: Seq<char> },
}

impl View for LineProgress {
    type V = LineProgressView;

    open spec fn view(&self) -> LineProgressView {
        match self {
            LineProgress::Line => LineProgressView::Line,
            LineProgress::End => LineProgressView::End,
            LineProgress::More => LineProgressView::More,
            LineProgress::TooLong { message } => LineProgressView::TooLong { message: message@ },
        }
    }
}

/// What reading goes on with: the line so far, how much of what was available
/// has been used, and how far the line has come.
pub struct LineStep {
    pub buf: Seq<u8>,
    pub used: nat,
    pub progress: LineProgressView,
}

/// One step of reading a line of at most `cap` bytes. Nothing available means that
/// the peer hung up; a last line need not end in a newline. Of a line that is too
/// long, no more than `cap` bytes are kept.
pub open spec fn line_step(buf: Seq<u8>, available: Seq<u8>, cap: nat) -> LineStep {
    let n = text::run_before(available, NEWLINE);
    let line = buf + available.take(n as int);
    let ended = n < available.len();
    let used = if ended {
        n + 1
    } else {
        available.len()
    };
    if line.len() > cap {
        LineStep {
            buf: line.take(cap as int),
            used,
            progress: LineProgressView::TooLong {
                message: "line exceeded "@ + text::decimal(cap) + " bytes without a newline"@,
            },
        }
    } else if ended || (available.len() == 0 && buf.len() > 0) {
        LineStep { buf: line, used, progress: LineProgressView::Line }
    } else if available.len() == 0 {
        LineStep { buf: line, used, progress: LineProgressView::End }
    } else {
        LineStep { buf: line, used, progress: LineProgressView::More }
    }
}

/// Reads on with a line, given what is available. Gives how much of it was used
/// and how far the line has come.
///
/// Never more than `cap` bytes are buffered: a line that is longer is refused,
/// whether or not its newline has arrived.
pub fn read_line_capped(available: &[u8], buf: &mut Vec<u8>, cap: usize) -> (r: (
    usize,
    LineProgress,
))
    ensures
        ({
            let step = line_step(old(buf)@, available@, cap as nat);
            &&& final(buf)@ == step.buf
            &&& r.0 == step.used
            &&& r.1@ == step.progress
        }),
        final(buf)@.len() <= cap,
{
    let n: usize = available.len();
    let mut i: usize = 0;
    while i < n && available[i] != NEWLINE
        invariant
            n == available@.len(),
            i <= n,
            forall|j: int| 0 <= j < i ==> available@[j] != NEWLINE,
        decreases n - i,
    {
        i = i + 1;
    }
    proof {
        text::run_before_is(available@, NEWLINE, i as nat);
    }
    let ghost line = buf@ + available@.take(i as int);
    let used: usize = if i < n {
        i + 1
    } else {
        n
    };
    let had: usize = buf.len();
    if had > cap || i > cap - had {
        if had > cap {
            buf.truncate(cap);
        } else {
            buf.extend_from_slice(&available[0..cap - had]);
        }
        assert(buf@ =~= line.take(cap as int));
        let mut message = "line exceeded ".to_owned();
        text::push_decimal(&mut message, cap as u64);
        message.append(" bytes without a newline");
        return (used, LineProgress::TooLong { message });
    }
    buf.extend_from_slice(&available[0..i]);
    assert(buf@ =~= line);
    let progress = if i < n {
        LineProgress::Line
    } else if n > 0 {
        LineProgress::More
    } else if had > 0 {
        LineProgress::Line
    } else {
        LineProgress::End
    };
    (used, progress)
}

/// What comes of reading one line.
pub enum LineOutcome {
    Line { line: Seq<u8> },
    End,
    TooLong,
}

/// What comes of reading one line when the stream arrives in `chunks` and then
/// ends.
pub open spec fn line_from(buf: Seq<u8>, chunks: Seq<Seq<u8>>, cap: nat) -> LineOutcome
    decreases chunks.len(),
{
    let available = if chunks.len() == 0 {
        Seq::empty()
    } else {
        chunks[0]
    };
    let step = line_step(buf, available, cap);
    match step.progress {
        LineProgressView::Line => LineOutcome::Line { line: step.buf },
        LineProgressView::End => LineOutcome::End,
        LineProgressView::TooLong { .. } => LineOutcome::TooLong,
        LineProgressView::More => if chunks.len() == 0 {
            LineOutcome::End
        } else {
            line_from(step.buf, chunks.drop_first(), cap)
        },
    }
}

/// Where the first newline stands in two pieces.
proof fn newline_in_two_pieces(a: Seq<u8>, b: Seq<u8>)
    ensures
        text::run_before(a + b, NEWLINE) == if text::run_before(a, NEWLINE) < a.len() {
            text::run_before(a, NEWLINE)
        } else {
            a.len() + text::run_before(b, NEWLINE)
        },
{
    text::run_before_stops(a, NEWLINE);
    text::run_before_stops(b, NEWLINE);
    let n = text::run_before(a, NEWLINE);
    let m = text::run_before(b, NEWLINE);
    let s = a + b;
    if n < a.len() {
        assert forall|i: int| 0 <= i < n implies s[i] != NEWLINE by {
            assert(s[i] == a[i]);
        }
        text::run_before_is(s, NEWLINE, n);
    } else {
        assert forall|i: int| 0 <= i < a.len() + m implies s[i] != NEWLINE by {
            if i < a.len() {
                assert(s[i] == a[i]);
            } else {
                assert(s[i] == b[i - a.len()]);
            }
        }
        assert(m < b.len() ==> s[(a.len() + m) as int] == b[m as int]);
        text::run_before_is(s, NEWLINE, a.len() + m);
    }
}

/// A line is cut off if and only if it is longer than `cap`, however the stream
/// arrives in pieces. Otherwise it is read as it stands before its newline, or
/// before the end of the stream.
pub proof fn a_line_is_cut_off_exactly_above_the_cap(
    buf: Seq<u8>,
    chunks: Seq<Seq<u8>>,
    cap: nat,
)
    requires
        forall|i: int| 0 <= i < chunks.len() ==> (#[trigger] chunks[i]).len() > 0,
    ensures
        ({
            let all = chunks.flatten();
            let line = buf + all.take(text::run_before(all, NEWLINE) as int);
            line_from(buf, chunks, cap) == if line.len() > cap {
                LineOutcome::TooLong
            } else if buf.len() + all.len() == 0 {
                LineOutcome::End
            } else {
                LineOutcome::Line { line }
            }
        }),
    decreases chunks.len(),
{
    let all = chunks.flatten();
    text::run_before_stops(all, NEWLINE);
    if chunks.len() == 0 {
        assert(all =~= Seq::empty());
        assert(buf + all.take(0) =~= buf);
    } else {
        let c = chunks[0];
        let rest = chunks.drop_first();
        let tail = rest.flatten();
        assert(all =~= c + tail);
        newline_in_two_pieces(c, tail);
        text::run_before_stops(c, NEWLINE);
        text::run_before_stops(tail, NEWLINE);
        let n = text::run_before(c, NEWLINE);
        if n < c.len() {
            assert(buf + all.take(n as int) =~= buf + c.take(n as int));
        } else {
            let m = text::run_before(tail, NEWLINE);
            assert(c.take(n as int) =~= c);
            assert forall|i: int| 0 <= i < rest.len() implies (#[trigger] rest[i]).len() > 0 by {
                assert(rest[i] == chunks[i + 1]);
            }
            a_line_is_cut_off_exactly_above_the_cap(buf + c, rest, cap);
            assert((buf + c) + tail.take(m as int) =~= buf + all.take((c.len() + m) as int));
        }
    }
}

/// The lines of a stream: what stands between its newlines, and at last what
/// stands after them, if there is anything.
pub open spec fn lines_of(stream: Seq<u8>) -> Seq<Seq<u8>> {
    let pieces = text::pieces(stream, NEWLINE);
    if pieces.last().len() == 0 {
        pieces.drop_last()
    } else {
        pieces
    }
}

/// What is read line by line when the stream arrives in `chunks` and then ends,
/// and `buf` has been read of the first line. What one line leaves of a chunk is
/// there for the next. Gives the lines, and whether the peer was cut off.
pub open spec fn lines_from(buf: Seq<u8>, chunks: Seq<Seq<u8>>, cap: nat) -> (Seq<Seq<u8>>, bool)
    decreases chunks.flatten().len(), chunks.len(),
{
    if chunks.len() == 0 {
        match line_step(buf, Seq::empty(), cap).progress {
            LineProgressView::Line => (seq![buf], false),
            LineProgressView::TooLong { .. } => (Seq::empty(), true),
            _ => (Seq::empty(), false),
        }
    } else {
        let step = line_step(buf, chunks[0], cap);
        let rest = chunks.drop_first();
        let left = chunks[0].skip(step.used as int);
        proof {
            flatten_first(chunks);
            text::run_before_stops(chunks[0], NEWLINE);
            flatten_first(seq![left] + rest);
            assert((seq![left] + rest).drop_first() =~= rest);
        }
        match step.progress {
            LineProgressView::Line => if step.used == 0 {
                (seq![step.buf], false)
            } else {
                let next = if left.len() == 0 {
                    rest
                } else {
                    seq![left] + rest
                };
                let (lines, cut) = lines_from(Seq::empty(), next, cap);
                (seq![step.buf] + lines, cut)
            },
            LineProgressView::End => (Seq::empty(), false),
            LineProgressView::TooLong { .. } => (Seq::empty(), true),
            LineProgressView::More => lines_from(step.buf, rest, cap),
        }
    }
}

/// The first chunk stands in front.
pub proof fn flatten_first(chunks: Seq<Seq<u8>>)
    requires
        chunks.len() > 0,
    ensures
        chunks.flatten() == chunks[0] + chunks.drop_first().flatten(),
{
    assert(chunks.flatten() =~= chunks[0] + chunks.drop_first().flatten());
}

/// The pieces of a line, a newline and the rest.
proof fn first_line_then_rest(line: Seq<u8>, rest: Seq<u8>)
    requires
        !line.contains(NEWLINE),
    ensures
        text::pieces(line.push(NEWLINE) + rest, NEWLINE) == seq![line] + text::pieces(
            rest,
            NEWLINE,
        ),
        lines_of(line.push(NEWLINE) + rest) == seq![line] + lines_of(rest),
{
    let s = line.push(NEWLINE) + rest;
    let n = line.len();
    assert forall|i: int| 0 <= i < n implies s[i] != NEWLINE by {
        assert(line.contains(line[i]));
    }
    text::run_before_is(s, NEWLINE, n);
    assert(s.take(n as int) =~= line);
    assert(s.skip(n as int + 1) =~= rest);
    let pieces = text::pieces(rest, NEWLINE);
    text::there_is_a_piece(rest, NEWLINE);
    assert((seq![line] + pieces).last() == pieces.last());
    assert((seq![line] + pieces).drop_last() =~= seq![line] + pieces.drop_last());
}

/// The lines that are read before one is longer than `cap`, and whether there is
/// such a line.
pub open spec fn lines_up_to_the_cap(lines: Seq<Seq<u8>>, cap: nat) -> (Seq<Seq<u8>>, bool)
    decreases lines.len(),
{
    if lines.len() == 0 {
        (Seq::empty(), false)
    } else if lines[0].len() > cap {
        (Seq::empty(), true)
    } else {
        let (more, cut) = lines_up_to_the_cap(lines.drop_first(), cap);
        (seq![lines[0]] + more, cut)
    }
}

/// However the stream arrives in pieces, its lines are read one by one as they
/// stand, and the peer is cut off at the first one that is longer than `cap`.
pub proof fn lines_do_not_depend_on_chunks(buf: Seq<u8>, chunks: Seq<Seq<u8>>, cap: nat)
    requires
        !buf.contains(NEWLINE),
        forall|i: int| 0 <= i < chunks.len() ==> (#[trigger] chunks[i]).len() > 0,
    ensures
        lines_from(buf, chunks, cap) == lines_up_to_the_cap(lines_of(buf + chunks.flatten()), cap),
    decreases chunks.flatten().len(), chunks.len(),
{
    let all = buf + chunks.flatten();
    let parts = text::pieces(all, NEWLINE);
    let lines = lines_of(all);
    if chunks.len() == 0 {
        assert(chunks.flatten() =~= Seq::empty());
        assert(all =~= buf);
        assert forall|i: int| 0 <= i < buf.len() implies buf[i] != NEWLINE by {
            assert(buf.contains(buf[i]));
        }
        text::run_before_is(buf, NEWLINE, buf.len());
        assert(buf + Seq::<u8>::empty().take(0) =~= buf);
        assert(parts =~= seq![buf]);
        assert(parts.drop_last() =~= Seq::empty());
        if buf.len() > 0 {
            assert(lines == seq![buf]);
            assert(lines.drop_first() =~= Seq::empty());
            assert(seq![buf] + Seq::<Seq<u8>>::empty() =~= seq![buf]);
            reveal_with_fuel(lines_up_to_the_cap, 2);
        }
    } else {
        let c = chunks[0];
        let rest = chunks.drop_first();
        let tail = rest.flatten();
        flatten_first(chunks);
        text::run_before_stops(c, NEWLINE);
        let n = text::run_before(c, NEWLINE);
        let line = buf + c.take(n as int);
        assert forall|i: int| 0 <= i < rest.len() implies (#[trigger] rest[i]).len() > 0 by {
            assert(rest[i] == chunks[i + 1]);
        }
        assert(!line.contains(NEWLINE)) by {
            if line.contains(NEWLINE) {
                let i = choose|i: int| 0 <= i < line.len() && line[i] == NEWLINE;
                if i < buf.len() {
                    assert(buf.contains(buf[i]));
                }
            }
        }
        if n < c.len() {
            let left = c.skip(n as int + 1);
            let next = if left.len() == 0 {
                rest
            } else {
                seq![left] + rest
            };
            flatten_first(seq![left] + rest);
            assert((seq![left] + rest).drop_first() =~= rest);
            assert(left + tail =~= next.flatten());
            assert(all =~= line.push(NEWLINE) + next.flatten());
            first_line_then_rest(line, next.flatten());
            assert(lines.drop_first() =~= lines_of(next.flatten()));
            assert(Seq::<u8>::empty() + next.flatten() =~= next.flatten());
            assert forall|i: int| 0 <= i < next.len() implies (#[trigger] next[i]).len() > 0 by {
                if left.len() > 0 && i > 0 {
                    assert(next[i] == rest[i - 1]);
                }
            }
            lines_do_not_depend_on_chunks(Seq::empty(), next, cap);
        } else {
            assert(c.take(n as int) =~= c);
            assert(line + tail =~= all);
            if line.len() > cap {
                text::run_before_stops(all, NEWLINE);
                let m = text::run_before(all, NEWLINE);
                if m < line.len() {
                    assert(line.contains(line[m as int]));
                }
                assert(parts[0].len() == m);
                assert(lines[0] == parts[0]);
            } else {
                lines_do_not_depend_on_chunks(line, rest, cap);
            }
        }
    }
}

/// The optional features of the daemon.
pub open spec fn capabilities_of(thumbnails: bool) -> Seq<Seq<char>> {
    if thumbnails {
        seq!["subscribe"@, "pin_action"@, "thumbnails"@]
    } else {
        seq!["subscribe"@, "pin_action"@]
    }
}

/// The optional features of the daemon, by name, so that a new one never breaks
/// an old client.
pub fn capabilities(registry: &PinRegistry) -> (r: Vec<String>)
    ensures
        text::views(r@) == capabilities_of(registry@.thumb_dir is Some),
{
    let mut r = vec!["subscribe".to_owned(), "pin_action".to_owned()];
    if registry.thumbnails_enabled() {
        r.push("thumbnails".to_owned());
    }
    assert(text::views(r@) =~= capabilities_of(registry@.thumb_dir is Some));
    r
}

/// The first line on every persistent connection.
pub fn hello(registry: &PinRegistry, version: &str) -> (r: ShellMessage)
    ensures
        r@ == (ShellMessageView::Hello {
            protocol: PROTOCOL_VERSION,
            version: version@,
            capabilities: capabilities_of(registry@.thumb_dir is Some),
        }),
{
    ShellMessage::Hello {
        protocol: PROTOCOL_VERSION,
        version: version.to_owned(),
        capabilities: capabilities(registry),
    }
}

/// The request that a line holds. A blank line holds none.
pub open spec fn request_in(line: Seq<char>) -> Option<Seq<char>> {
    let trimmed = text::trimmed(line);
    if trimmed.len() == 0 {
        None
    } else {
        Some(trimmed)
    }
}

/// The text of the request in a line, unless the line is blank.
pub fn request_in_line(line: &str) -> (r: Option<String>)
    ensures
        match r {
            Some(request) => request_in(line@) == Some(request@),
            None => request_in(line@) is None,
        },
{
    let trimmed = text::trim(line);
    if text::is_empty(&trimmed) {
        None
    } else {
        Some(trimmed)
    }
}

/// The text of the request in the bytes of a line, unless the line is blank.
pub fn request_text(line: &[u8]) -> (r: Option<String>)
    ensures
        match r {
            Some(request) => request_in(text::text_in(line@)) == Some(request@),
            None => request_in(text::text_in(line@)) is None,
        },
{
    let line = text::from_utf8_lossy(line);
    request_in_line(&line)
}

/// How a persistent connection goes on once something was read.
#[derive(Debug, Clone, PartialEq, Eq)]
pub enum LineAction {
    /// Read more of the line.
    ReadMore,
    /// Read the next line.
    Skip,
    /// Read this request.
    Request {
        /// Its text.
        text: String,
    },
    /// The peer hung up.
    Close,
    /// Hang up on the peer.
    Fail {
        /// Why.
        message: String,
    },
}

/// Decides how a persistent connection goes on, given how far reading has come
/// and the line. A blank line is skipped; a line that is too long ends the
/// connection.
pub fn after_read(progress: LineProgress, line: &[u8]) -> (r: LineAction)
    ensures
        match progress@ {
            LineProgressView::More => r is ReadMore,
            LineProgressView::End => r is Close,
            LineProgressView::TooLong { message } => r matches LineAction::Fail { message: m }
                && m@ == message,
            LineProgressView::Line => match request_in(text::text_in(line@)) {
                Some(request) => r matches LineAction::Request { text } && text@ == request,
                None => r is Skip,
            },
        },
{
    match progress {
        LineProgress::More => LineAction::ReadMore,
        LineProgress::End => LineAction::Close,
        LineProgress::TooLong { message } => LineAction::Fail { message },
        LineProgress::Line => match request_text(line) {
            Some(text) => LineAction::Request { text },
            None => LineAction::Skip,
        },
    }
}

/// What to do with a request on a persistent connection.
#[derive(Debug)]
pub enum SessionStep {
    /// Send the response.
    Reply {
        /// The response.
        response: IpcResponse,
        /// Whether to forward changes from now on.
        start_events: bool,
    },
    /// Serve the request.
    Dispatch {
        /// The request.
        request: IpcRequest,
    },
}

/// What a [`SessionStep`] asks for.
pub enum SessionStepView {
    Reply { response: IpcResponseView, start_events: bool },
    Dispatch { request: IpcRequest },
}

impl View for SessionStep {
    type V = SessionStepView;

    open spec fn view(&self) -> SessionStepView {
        match self {
            SessionStep::Reply { response, start_events } => SessionStepView::Reply {
                response: response@,
                start_events: *start_events,
            },
            SessionStep::Dispatch { request } => SessionStepView::Dispatch { request: *request },
        }
    }
}

/// What to do with a request, or with a line that is none. The first request to
/// subscribe starts the forwarding; a malformed line is reported, and the
/// connection goes on.
pub open spec fn session_step(
    subscribed: bool,
    request: Result<IpcRequest, Seq<char>>,
) -> SessionStepView {
    match request {
        Err(message) => SessionStepView::Reply {
            response: IpcResponseView::Error(IpcErrorView::BadRequest { message }),
            start_events: false,
        },
        Ok(IpcRequest::Subscribe) => SessionStepView::Reply {
            response: IpcResponseView::Done,
            start_events: !subscribed,
        },
        Ok(request) => SessionStepView::Dispatch { request },
    }
}

/// Whether a connection is subscribed after a request.
pub open spec fn subscribed_after(
    subscribed: bool,
    request: Result<IpcRequest, Seq<char>>,
) -> bool {
    subscribed || request == Ok::<IpcRequest, Seq<char>>(IpcRequest::Subscribe)
}

/// A persistent connection.
#[derive(Debug)]
pub struct Session {
    subscribed: bool,
}

impl View for Session {
    type V = bool;

    /// Whether changes are forwarded.
    closed spec fn view(&self) -> bool {
        self.subscribed
    }
}

impl Session {
    /// A connection that has not subscribed.
    pub fn new() -> (r: Session)
        ensures
            !r@,
    {
        Session { subscribed: false }
    }

    /// Takes in a request, or the reason why a line is none.
    pub fn on_request(&mut self, request: Result<IpcRequest, String>) -> (r: SessionStep)
        ensures
            ({
                let request = match request {
                    Ok(request) => Ok(request),
                    Err(message) => Err(message@),
                };
                &&& final(self)@ == subscribed_after(old(self)@, request)
                &&& r@ == session_step(old(self)@, request)
            }),
    {
        match request {
            Err(message) => SessionStep::Reply {
                response: IpcResponse::Error(IpcError::BadRequest { message }),
                start_events: false,
            },
            Ok(IpcRequest::Subscribe) => {
                let start_events = !self.subscribed;
                self.subscribed = true;
                SessionStep::Reply { response: IpcResponse::Done, start_events }
            },
            Ok(request) => SessionStep::Dispatch { request },
        }
    }
}

impl Default for Session {
    fn default() -> (r: Session)
        ensures
            !r@,
    {
        Session::new()
    }
}

/// Whether a connection is subscribed after several requests.
pub open spec fn subscribed_after_all(requests: Seq<Result<IpcRequest, Seq<char>>>) -> bool
    decreases requests.len(),
{
    if requests.len() == 0 {
        false
    } else {
        subscribed_after(subscribed_after_all(requests.drop_last()), requests.last())
    }
}

/// Once subscribed, a connection stays so.
proof fn subscriptions_last(requests: Seq<Result<IpcRequest, Seq<char>>>, i: int)
    requires
        0 <= i < requests.len(),
        requests[i] == Ok::<IpcRequest, Seq<char>>(IpcRequest::Subscribe),
    ensures
        subscribed_after_all(requests),
    decreases requests.len(),
{
    if i < requests.len() - 1 {
        subscriptions_last(requests.drop_last(), i);
    }
}

/// However often a client subscribes, changes are forwarded to it only once.
pub proof fn a_connection_subscribes_once(
    requests: Seq<Result<IpcRequest, Seq<char>>>,
    i: int,
    j: int,
)
    requires
        0 <= i < j < requests.len(),
        session_step(subscribed_after_all(requests.take(i)), requests[i]) matches
        SessionStepView::Reply { start_events, .. } && start_events,
    ensures
        session_step(subscribed_after_all(requests.take(j)), requests[j]) matches
        SessionStepView::Reply { start_events, .. } ==> !start_events,
{
    assert(requests.take(j)[i] == requests[i]);
    subscriptions_last(requests.take(j), i);
}

/// A malformed line is answered, and the connection goes on as it was.
pub proof fn malformed_lines_are_survived(subscribed: bool, message: Seq<char>)
    ensures
        session_step(subscribed, Err(message)) == (SessionStepView::Reply {
            response: IpcResponseView::Error(IpcErrorView::BadRequest { message }),
            start_events: false,
        }),
        subscribed_after(subscribed, Err(message)) == subscribed,
{
}

/// What a subscriber hears from the registry.
#[derive(Debug)]
pub enum BusEvent {
    /// The pins changed.
    Snapshot {
        /// Every live pin, after the change.
        pins: Vec<PinSummary>,
    },
    /// The subscriber was too slow and missed some changes.
    Lagged,
    /// There will be no more.
    Closed,
}

/// The message that tells a client about the pins.
pub open spec fn pins_message(pins: Seq<ipc::PinSummaryView>) -> ShellMessageView {
    ShellMessageView::Event { event: ShellEventKind::PinsChanged, pins }
}

/// The message with which forwarding starts: what is there now.
pub fn opening_message(registry: &PinRegistry) -> (r: ShellMessage)
    ensures
        r@ == pins_message(registry@.snapshot()),
{
    ShellMessage::Event { event: ShellEventKind::PinsChanged, pins: registry.list() }
}

/// The message to push for an event, unless forwarding is over. Every message
/// holds all pins, so that a client that missed some catches up with one.
pub fn forward(event: BusEvent, registry: &PinRegistry) -> (r: Option<ShellMessage>)
    ensures
        match event {
            BusEvent::Snapshot { pins } => r matches Some(message) && message@ == pins_message(
                ipc::summaries_view(pins@),
            ),
            BusEvent::Lagged => r matches Some(message) && message@ == pins_message(
                registry@.snapshot(),
            ),
            BusEvent::Closed => r is None,
        },
{
    match event {
        BusEvent::Snapshot { pins } => Some(
            ShellMessage::Event { event: ShellEventKind::PinsChanged, pins },
        ),
        BusEvent::Lagged => Some(opening_message(registry)),
        BusEvent::Closed => None,
    }
}

/// The first byte of a connection: zero opens a frame, a brace opens a line, and
/// nothing else is served.
pub proof fn the_first_byte_selects_the_transport(lead: u8)
    ensures
        transport_of(lead) == Some(Transport::LengthPrefixed) <==> lead == 0,
        transport_of(lead) == Some(Transport::Ndjson) <==> lead == 0x7b,
        transport_of(lead) is None <==> lead != 0 && lead != 0x7b,
{
}

/// Nobody listens on a socket that is not there or that refuses the connection.
pub proof fn a_socket_is_dead_when_nobody_listens(kind: IoErrorKind)
    ensures
        dead(kind) <==> kind is NotFound || kind is ConnectionRefused,
{
}

/// What one step of reading takes of what is available: everything up to the first
/// newline, and the newline, or else everything there is. The line grows by what stands
/// before the newline. It is complete at a newline, or when the peer hangs up after some
/// of it. A line of more than `cap` bytes is too long, and only `cap` of them are kept.
pub proof fn reading_takes_up_to_the_newline(
    buf: Seq<u8>,
    before: Seq<u8>,
    after: Seq<u8>,
    cap: nat,
)
    requires
        !before.contains(0x0a),
    ensures
        ({
            let ended = line_step(buf, before.push(0x0a) + after, cap);
            let open = line_step(buf, before, cap);
            let line = buf + before;
            &&& ended.used == before.len() + 1
            &&& open.used == before.len()
            &&& line.len() <= cap ==> {
                &&& ended.buf == line && ended.progress is Line
                &&& open.buf == line
                &&& open.progress is More <==> before.len() > 0
                &&& open.progress is Line <==> before.len() == 0 && buf.len() > 0
                &&& open.progress is End <==> before.len() == 0 && buf.len() == 0
            }
            &&& line.len() > cap ==> {
                let message = "line exceeded "@ + text::decimal(cap) + " bytes without a newline"@;
                &&& ended.buf == line.take(cap as int)
                &&& open.buf == line.take(cap as int)
                &&& ended.progress == (LineProgressView::TooLong { message })
                &&& open.progress == (LineProgressView::TooLong { message })
            }
        }),
{
    let n = before.len();
    assert forall|i: int| 0 <= i < n implies before[i] != NEWLINE by {
        assert(before.contains(before[i]));
    }
    text::run_before_is(before, NEWLINE, n);
    assert(before.take(n as int) =~= before);
    let s = before.push(0x0a) + after;
    assert forall|i: int| 0 <= i < n implies s[i] != NEWLINE by {
        assert(s[i] == before[i]);
    }
    text::run_before_is(s, NEWLINE, n);
    assert(s.take(n as int) =~= before);
}

/// The features of every daemon, and the one more of a daemon with thumbnails.
pub proof fn features_go_by_name()
    ensures
        capabilities_of(false) == seq!["subscribe"@, "pin_action"@],
        capabilities_of(true) == seq!["subscribe"@, "pin_action"@, "thumbnails"@],
{
}

/// A line holds a request unless it is blank: what is left without the white space
/// around it.
pub proof fn lines_hold_requests(line: Seq<char>)
    ensures
        text::trimmed(line).len() == 0 ==> request_in(line) is None,
        text::trimmed(line).len() > 0 ==> request_in(line) == Some(text::trimmed(line)),
{
}

/// What a connection does with each request: the first one to subscribe starts the
/// forwarding, later ones are granted too and start nothing, and everything else is
/// served as it came.
pub proof fn requests_are_served_as_they_came(subscribed: bool, request: IpcRequest)
    ensures
        request is Subscribe ==> session_step(subscribed, Ok(request)) == (
        SessionStepView::Reply { response: IpcResponseView::Done, start_events: !subscribed }),
        !(request is Subscribe) ==> session_step(subscribed, Ok(request)) == (
        SessionStepView::Dispatch { request }),
        request is Subscribe ==> subscribed_after(subscribed, Ok(request)),
        !(request is Subscribe) ==> subscribed_after(subscribed, Ok(request)) == subscribed,
{
}

/// The message about the pins is that they changed, and which they are.
pub proof fn pushed_pins_are_the_pins(pins: Seq<ipc::PinSummaryView>)
    ensures
        pins_message(pins) == (ShellMessageView::Event {
            event: ShellEventKind::PinsChanged,
            pins,
        }),
{
}

/// A step says what it holds.
pub proof fn steps_say_what_they_hold(step: SessionStep, progress: LineProgress)
    ensures
        match step {
            SessionStep::Reply { response, start_events } => step@ == (SessionStepView::Reply {
                response: response@,
                start_events,
            }),
            SessionStep::Dispatch { request } => step@ == (SessionStepView::Dispatch { request }),
        },
        match progress {
            LineProgress::Line => progress@ is Line,
            LineProgress::End => progress@ is End,
            LineProgress::More => progress@ is More,
            LineProgress::TooLong { message } => progress@ == (LineProgressView::TooLong {
                message: message@,
            }),
        },
{
}

/// The lines of a stream: what stands before its first newline, and the lines of what
/// stands behind it. What stands behind the last one is a line unless it is nothing.
pub proof fn lines_stand_between_newlines(line: Seq<u8>, rest: Seq<u8>)
    requires
        !line.contains(0x0a),
    ensures
        line.len() == 0 ==> lines_of(line).len() == 0,
        line.len() > 0 ==> lines_of(line) == seq![line],
        lines_of(line.push(0x0a) + rest) == seq![line] + lines_of(rest),
{
    text::pieces_stand_between_separators(line, NEWLINE, rest);
    first_line_then_rest(line, rest);
    assert(seq![line].drop_last() =~= Seq::empty());
}

/// A daemon announces the second version of the protocol.
pub proof fn the_protocol_has_its_version()
    ensures
        PROTOCOL_VERSION == 2,
{
}

} // verus!
