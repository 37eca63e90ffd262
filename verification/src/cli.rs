//! The command line client.
//!
//! Each command is one request. When nobody listens on the socket, the client
//! starts the daemon, waits for it and connects once more; more attempts would
//! only hide a fault of the daemon.

use crate::framing::IoErrorKind;
use crate::ipc;
use crate::ipc::{IpcRequest, IpcResponse, IpcResponseView, PinSummary, PinSummaryView};
use crate::paths;
use crate::pin_id::PinId;
use crate::server;
use crate::text;
use vstd::prelude::*;
use vstd::string::StringExecFns;
use vstd::utf8;

verus! {

/// How long to wait for the daemon, in milliseconds.
pub const SPAWN_RETRY_TIMEOUT_MS: u64 = 2000;

/// How long to wait between two looks at the socket, in milliseconds.
pub const SPAWN_POLL_INTERVAL_MS: u64 = 50;

/// What the client is told to do.
#[derive(Debug, Clone, Copy, PartialEq, Eq, Structural)]
pub enum Command {
    /// Select a region, capture it and pin the result.
    Capture,
    /// Pin the image on the clipboard.
    Clipboard,
    /// List the pins.
    List,
    /// Close one pin.
    Close {
        /// The number of the pin.
        id: u64,
    },
    /// Close every pin.
    CloseAll,
    /// Become the daemon.
    Daemon,
}

/// The request that a command stands for. The daemon is not asked to become
/// itself.
pub open spec fn request_for(command: Command, request: IpcRequest) -> bool {
    match command {
        Command::Capture => request is Capture,
        Command::Clipboard => request is Clipboard,
        Command::List => request is List,
        Command::Close { id } => request matches IpcRequest::Close { id: pin } && pin@ == id,
        Command::CloseAll => request is CloseAll,
        Command::Daemon => false,
    }
}

/// Makes the request that a command stands for.
pub fn build_request(command: &Command) -> (r: Result<IpcRequest, String>)
    ensures
        match r {
            Ok(request) => request_for(*command, request),
            Err(message) => command is Daemon && message@
                == "internal: `daemon` subcommand should not reach build_request"@,
        },
        command is Capture ==> (r matches Ok(request) && request is Capture),
        command is Clipboard ==> (r matches Ok(request) && request is Clipboard),
        command is List ==> (r matches Ok(request) && request is List),
        command matches Command::Close { id } ==> (r matches Ok(IpcRequest::Close { id: pin })
            && pin@ == id),
        command is CloseAll ==> (r matches Ok(request) && request is CloseAll),
        command is Daemon ==> r is Err,
{
    match command {
        Command::Capture => Ok(IpcRequest::Capture),
        Command::Clipboard => Ok(IpcRequest::Clipboard),
        Command::List => Ok(IpcRequest::List),
        Command::Close { id } => Ok(IpcRequest::Close { id: PinId::new(*id) }),
        Command::CloseAll => Ok(IpcRequest::CloseAll),
        Command::Daemon => Err(
            "internal: `daemon` subcommand should not reach build_request".to_owned(),
        ),
    }
}

/// The socket to talk to: that of the flag, or else the one that the
/// environment names, unless the name is empty, or else the default one.
pub open spec fn socket_in(
    flag: Option<Seq<u8>>,
    named: Option<Seq<u8>>,
    runtime_dir: Option<Seq<u8>>,
) -> Option<Seq<u8>> {
    match (flag, named) {
        (Some(path), _) => Some(path),
        (None, Some(path)) if path.len() > 0 => Some(path),
        _ => paths::socket_path_in(runtime_dir),
    }
}

/// The socket to talk to, given the flag and the values of `OSNIP_SOCKET` and
/// `XDG_RUNTIME_DIR`.
pub fn resolve_socket(
    flag: Option<Vec<u8>>,
    named: Option<Vec<u8>>,
    runtime_dir: Option<&Vec<u8>>,
) -> (r: Result<Vec<u8>, String>)
    ensures
        ({
            let socket = socket_in(
                ipc::path_view(flag),
                ipc::path_view(named),
                match runtime_dir {
                    Some(dir) => Some(dir@),
                    None => None,
                },
            );
            match r {
                Ok(path) => socket == Some(path@),
                Err(message) => socket is None && message@
                    == "XDG_RUNTIME_DIR is unset; pass --socket or set OSNIP_SOCKET"@,
            }
        }),
{
    if let Some(path) = flag {
        return Ok(path);
    }
    if let Some(path) = named {
        if path.len() > 0 {
            return Ok(path);
        }
    }
    match paths::default_socket_path(runtime_dir) {
        Some(path) => Ok(path),
        None => Err("XDG_RUNTIME_DIR is unset; pass --socket or set OSNIP_SOCKET".to_owned()),
    }
}

/// Client and daemon find each other: without a flag they agree on the socket,
/// as long as the environment does not name an empty one.
pub proof fn client_and_daemon_agree_on_the_socket(
    named: Option<Seq<u8>>,
    runtime_dir: Option<Seq<u8>>,
)
    requires
        named matches Some(path) ==> path.len() > 0,
    ensures
        socket_in(None, named, runtime_dir) == paths::daemon_socket_in(named, runtime_dir),
{
}

/// Whether a failed connection means that no daemon is running.
pub fn is_socket_missing(kind: IoErrorKind) -> (r: bool)
    ensures
        r == server::dead(kind),
{
    server::is_socket_dead(kind)
}

/// How far the client has come with connecting.
#[derive(Debug, Clone, Copy, PartialEq, Eq, Structural)]
pub enum Stage {
    /// It connects for the first time.
    First,
    /// It starts the daemon.
    Spawning,
    /// It waits for the daemon to listen.
    Waiting,
    /// It connects once more.
    AfterSpawn,
}

/// Why the client did not get through.
#[derive(Debug, Clone, Copy, PartialEq, Eq, Structural)]
pub enum ConnectFailure {
    /// The first connection failed.
    Connect,
    /// The daemon could not be started.
    Spawn,
    /// The daemon did not listen in time.
    TimedOut,
    /// Looking at the socket failed.
    Probe,
    /// The connection after the start failed.
    AfterSpawn,
}

/// What to do next.
#[derive(Debug, Clone, Copy, PartialEq, Eq, Structural)]
pub enum ConnectStep {
    /// Send the request over the connection that was just made.
    Talk,
    /// Start the daemon.
    Spawn,
    /// Connect to see whether the daemon listens.
    Probe,
    /// Wait for [`SPAWN_POLL_INTERVAL_MS`], then look again.
    PollAgain,
    /// Connect once more.
    Reconnect,
    /// Give up.
    Fail(ConnectFailure),
}

/// How far the client is after its last action, and what it does next.
pub open spec fn connect_step(
    stage: Stage,
    auto_spawn: bool,
    outcome: Result<(), IoErrorKind>,
    expired: bool,
) -> (Stage, ConnectStep) {
    match (stage, outcome) {
        (Stage::First, Ok(_)) => (stage, ConnectStep::Talk),
        (Stage::First, Err(kind)) => if auto_spawn && server::dead(kind) {
            (Stage::Spawning, ConnectStep::Spawn)
        } else {
            (stage, ConnectStep::Fail(ConnectFailure::Connect))
        },
        (Stage::Spawning, Ok(_)) => (Stage::Waiting, ConnectStep::Probe),
        (Stage::Spawning, Err(_)) => (stage, ConnectStep::Fail(ConnectFailure::Spawn)),
        (Stage::Waiting, Ok(_)) => (Stage::AfterSpawn, ConnectStep::Reconnect),
        (Stage::Waiting, Err(kind)) => if !server::dead(kind) {
            (stage, ConnectStep::Fail(ConnectFailure::Probe))
        } else if expired {
            (stage, ConnectStep::Fail(ConnectFailure::TimedOut))
        } else {
            (stage, ConnectStep::PollAgain)
        },
        (Stage::AfterSpawn, Ok(_)) => (stage, ConnectStep::Talk),
        (Stage::AfterSpawn, Err(_)) => (stage, ConnectStep::Fail(ConnectFailure::AfterSpawn)),
    }
}

/// A client that connects to the daemon.
#[derive(Debug)]
pub struct Connector {
    auto_spawn: bool,
    stage: Stage,
}

impl Connector {
    /// Whether the client may start the daemon.
    pub closed spec fn may_spawn(&self) -> bool {
        self.auto_spawn
    }

    /// How far the client has come.
    pub closed spec fn stage(&self) -> Stage {
        self.stage
    }

    /// A client that is about to connect for the first time.
    pub fn new(auto_spawn: bool) -> (r: Connector)
        ensures
            r.may_spawn() == auto_spawn,
            r.stage() == Stage::First,
    {
        Connector { auto_spawn, stage: Stage::First }
    }

    /// Decides what to do next, given what came of the last action, and whether
    /// [`SPAWN_RETRY_TIMEOUT_MS`] have passed since the daemon was started.
    pub fn next(&mut self, outcome: Result<(), IoErrorKind>, expired: bool) -> (r: ConnectStep)
        ensures
            (final(self).stage(), r) == connect_step(
                old(self).stage(),
                old(self).may_spawn(),
                outcome,
                expired,
            ),
            final(self).may_spawn() == old(self).may_spawn(),
    {
        match self.stage {
            Stage::First => match outcome {
                Ok(_) => ConnectStep::Talk,
                Err(kind) => {
                    if self.auto_spawn && is_socket_missing(kind) {
                        self.stage = Stage::Spawning;
                        ConnectStep::Spawn
                    } else {
                        ConnectStep::Fail(ConnectFailure::Connect)
                    }
                },
            },
            Stage::Spawning => match outcome {
                Ok(_) => {
                    self.stage = Stage::Waiting;
                    ConnectStep::Probe
                },
                Err(_) => ConnectStep::Fail(ConnectFailure::Spawn),
            },
            Stage::Waiting => match outcome {
                Ok(_) => {
                    self.stage = Stage::AfterSpawn;
                    ConnectStep::Reconnect
                },
                Err(kind) => {
                    if !is_socket_missing(kind) {
                        ConnectStep::Fail(ConnectFailure::Probe)
                    } else if expired {
                        ConnectStep::Fail(ConnectFailure::TimedOut)
                    } else {
                        ConnectStep::PollAgain
                    }
                },
            },
            Stage::AfterSpawn => match outcome {
                Ok(_) => ConnectStep::Talk,
                Err(_) => ConnectStep::Fail(ConnectFailure::AfterSpawn),
            },
        }
    }
}

/// How far the client is after several actions.
pub open spec fn stage_after(
    auto_spawn: bool,
    outcomes: Seq<(Result<(), IoErrorKind>, bool)>,
) -> Stage
    decreases outcomes.len(),
{
    if outcomes.len() == 0 {
        Stage::First
    } else {
        connect_step(
            stage_after(auto_spawn, outcomes.drop_last()),
            auto_spawn,
            outcomes.last().0,
            outcomes.last().1,
        ).0
    }
}

/// What the client does after several actions and one more.
pub open spec fn step_at(
    auto_spawn: bool,
    outcomes: Seq<(Result<(), IoErrorKind>, bool)>,
    i: int,
) -> ConnectStep {
    connect_step(
        stage_after(auto_spawn, outcomes.take(i)),
        auto_spawn,
        outcomes[i].0,
        outcomes[i].1,
    ).1
}

/// Once the client has left the first stage it never comes back to it.
proof fn the_first_stage_is_left_for_good(
    auto_spawn: bool,
    outcomes: Seq<(Result<(), IoErrorKind>, bool)>,
    i: int,
)
    requires
        0 <= i <= outcomes.len(),
        !(stage_after(auto_spawn, outcomes.take(i)) is First),
    ensures
        !(stage_after(auto_spawn, outcomes) is First),
    decreases outcomes.len(),
{
    if i == outcomes.len() {
        assert(outcomes.take(i) =~= outcomes);
    } else {
        assert(outcomes.drop_last().take(i) =~= outcomes.take(i));
        the_first_stage_is_left_for_good(auto_spawn, outcomes.drop_last(), i);
    }
}

/// The daemon is started at most once, whatever happens.
pub proof fn the_daemon_is_started_at_most_once(
    auto_spawn: bool,
    outcomes: Seq<(Result<(), IoErrorKind>, bool)>,
    i: int,
    j: int,
)
    requires
        0 <= i < j < outcomes.len(),
        step_at(auto_spawn, outcomes, i) is Spawn,
    ensures
        !(step_at(auto_spawn, outcomes, j) is Spawn),
{
    let before = outcomes.take(j);
    assert(before.take(i + 1).drop_last() =~= outcomes.take(i));
    assert(before.take(i + 1).last() == outcomes[i]);
    the_first_stage_is_left_for_good(auto_spawn, before, i + 1);
}

/// The daemon is started only when that is wanted and nobody listens, and the
/// client connects again only after that.
pub proof fn the_daemon_is_started_only_when_missing(
    stage: Stage,
    auto_spawn: bool,
    outcome: Result<(), IoErrorKind>,
    expired: bool,
)
    ensures
        connect_step(stage, auto_spawn, outcome, expired).1 is Spawn <==> stage is First
            && auto_spawn && (outcome matches Err(kind) && server::dead(kind)),
        connect_step(stage, auto_spawn, outcome, expired).1 is Reconnect ==> stage is Waiting,
{
}

/// The messages for the operator, outermost first.
pub open spec fn failure_contexts(failure: ConnectFailure, socket: Seq<char>) -> Seq<Seq<char>> {
    match failure {
        ConnectFailure::Connect => seq!["connect to "@ + socket],
        ConnectFailure::Spawn => seq!["spawn daemon for socket "@ + socket],
        ConnectFailure::TimedOut => seq![
            "daemon did not publish socket "@ + socket + " within 2s"@,
            "timed out waiting for "@ + socket,
        ],
        ConnectFailure::Probe => seq![
            "daemon did not publish socket "@ + socket + " within 2s"@,
            "probe socket while waiting"@,
        ],
        ConnectFailure::AfterSpawn => seq!["connect to "@ + socket + " after spawn"@],
    }
}

/// The messages for the operator, outermost first.
pub fn failure_messages(failure: ConnectFailure, socket: &str) -> (r: Vec<String>)
    ensures
        text::views(r@) == failure_contexts(failure, socket@),
{
    let r = match failure {
        ConnectFailure::Connect => vec!["connect to ".to_owned().concat(socket)],
        ConnectFailure::Spawn => vec!["spawn daemon for socket ".to_owned().concat(socket)],
        ConnectFailure::TimedOut => vec![
            "daemon did not publish socket ".to_owned().concat(socket).concat(" within 2s"),
            "timed out waiting for ".to_owned().concat(socket),
        ],
        ConnectFailure::Probe => vec![
            "daemon did not publish socket ".to_owned().concat(socket).concat(" within 2s"),
            "probe socket while waiting".to_owned(),
        ],
        ConnectFailure::AfterSpawn => vec![
            "connect to ".to_owned().concat(socket).concat(" after spawn"),
        ],
    };
    assert(text::views(r@) =~= failure_contexts(failure, socket@));
    r
}

/// What the client prints.
#[derive(Debug, Clone, PartialEq, Eq)]
pub struct Printed {
    /// On its standard output.
    pub stdout: String,
    /// On its standard error.
    pub stderr: String,
}

/// A line of the table of pins. The size and the time stand at the right of
/// their columns.
pub open spec fn table_row(first: Seq<char>, size: Seq<char>, created: Seq<char>) -> Seq<char> {
    first + "  "@ + text::right_aligned(size, 10) + "  "@ + text::right_aligned(created, 20)
        + "\n"@
}

/// The line of a pin. Its number is printed as it is, without padding.
pub open spec fn pin_row(pin: PinSummaryView) -> Seq<char> {
    table_row(
        text::decimal(pin.id as nat),
        text::decimal(pin.width as nat) + "x"@ + text::decimal(pin.height as nat),
        text::decimal(pin.created_at_unix_ms as nat),
    )
}

/// The lines of several pins.
pub open spec fn pin_rows(pins: Seq<PinSummaryView>) -> Seq<char>
    decreases pins.len(),
{
    if pins.len() == 0 {
        Seq::empty()
    } else {
        pin_rows(pins.drop_last()) + pin_row(pins.last())
    }
}

/// What is printed on the standard output.
pub open spec fn stdout_for(request: IpcRequest, response: IpcResponseView) -> Seq<char> {
    match response {
        IpcResponseView::Done => if request is Close || request is CloseAll {
            Seq::empty()
        } else {
            "ok\n"@
        },
        IpcResponseView::Pinned { id } => text::decimal(id as nat) + "\n"@,
        IpcResponseView::Pins { pins } => if pins.len() == 0 {
            "no pins\n"@
        } else {
            table_row(text::right_aligned("ID"@, 6), "SIZE"@, "CREATED (unix ms)"@) + pin_rows(pins)
        },
        IpcResponseView::Error(_) => Seq::empty(),
    }
}

/// What is printed on the standard error.
pub open spec fn stderr_for(response: IpcResponseView) -> Seq<char> {
    match response {
        IpcResponseView::Error(e) => "error: "@ + e.text() + "\n"@,
        _ => Seq::empty(),
    }
}

/// Appends a line of the table.
fn push_row(out: &mut String, first: &str, size: &str, created: &str)
    ensures
        final(out)@ == old(out)@ + table_row(first@, size@, created@),
{
    out.append(first);
    out.append("  ");
    text::push_right_aligned(out, size, 10);
    out.append("  ");
    text::push_right_aligned(out, created, 20);
    out.append("\n");
    assert(out@ =~= old(out)@ + table_row(first@, size@, created@));
}

/// Appends the line of a pin.
fn push_pin(out: &mut String, pin: &PinSummary)
    ensures
        final(out)@ == old(out)@ + pin_row(pin@),
{
    let mut size = text::decimal_string(pin.width as u64);
    size.append("x");
    text::push_decimal(&mut size, pin.height as u64);
    push_row(
        out,
        &pin.id.to_decimal(),
        &size,
        &text::decimal_string(pin.created_at_unix_ms),
    );
}

/// What to print for a response. Closing is silent when it succeeds: the exit
/// code says it.
pub fn print_response(request: &IpcRequest, response: &IpcResponse) -> (r: Printed)
    ensures
        r.stdout@ == stdout_for(*request, response@),
        r.stderr@ == stderr_for(response@),
{
    proof {
        reveal_strlit("");
        assert(""@ =~= Seq::<char>::empty());
    }
    let mut stdout = "".to_owned();
    let mut stderr = "".to_owned();
    match response {
        IpcResponse::Done => match request {
            IpcRequest::Close { .. } => {},
            IpcRequest::CloseAll => {},
            _ => {
                stdout.append("ok\n");
                assert(stdout@ =~= "ok\n"@);
            },
        },
        IpcResponse::Pinned { id } => {
            stdout.append(&id.to_decimal());
            stdout.append("\n");
            assert(stdout@ =~= stdout_for(*request, response@));
        },
        IpcResponse::Pins { pins } => {
            if pins.len() == 0 {
                stdout.append("no pins\n");
                assert(stdout@ =~= "no pins\n"@);
            } else {
                let mut heading = "".to_owned();
                text::push_right_aligned(&mut heading, "ID", 6);
                assert(heading@ =~= text::right_aligned("ID"@, 6));
                push_row(&mut stdout, &heading, "SIZE", "CREATED (unix ms)");
                let ghost head = stdout@;
                let ghost views = ipc::summaries_view(pins@);
                assert(head =~= table_row(
                    text::right_aligned("ID"@, 6),
                    "SIZE"@,
                    "CREATED (unix ms)"@,
                ));
                assert(head + pin_rows(views.take(0)) =~= head);
                for i in 0..pins.len()
                    invariant
                        views == ipc::summaries_view(pins@),
                        stdout@ == head + pin_rows(views.take(i as int)),
                {
                    assert(views.take(i + 1).drop_last() =~= views.take(i as int));
                    assert(views.take(i + 1).last() == pins@[i as int]@);
                    push_pin(&mut stdout, &pins[i]);
                    assert(stdout@ =~= head + pin_rows(views.take(i + 1)));
                }
                assert(views.take(views.len() as int) =~= views);
            }
        },
        IpcResponse::Error(e) => {
            stderr.append("error: ");
            stderr.append(&e.message());
            stderr.append("\n");
            assert(stderr@ =~= stderr_for(response@));
        },
    }
    Printed { stdout, stderr }
}

/// The exit code for a response.
pub open spec fn exit_code_for(response: IpcResponseView) -> int {
    if response is Error {
        1
    } else {
        0
    }
}

/// The exit code for a response, so that scripts can branch on it.
pub fn exit_code(response: &IpcResponse) -> (r: i32)
    ensures
        r == exit_code_for(response@),
        response is Error ==> r == 1,
        !(response is Error) ==> r == 0,
{
    match response {
        IpcResponse::Error(_) => 1,
        _ => 0,
    }
}

/// The name of the daemon's program.
pub open spec fn daemon_program() -> Seq<u8> {
    utf8::encode_utf8("osnip-daemon"@)
}

/// Where the daemon's program is looked for first: beside the client's own.
pub fn daemon_beside(dir: &[u8]) -> (r: Vec<u8>)
    ensures
        r@ == paths::joined(dir@, daemon_program()),
{
    paths::join(dir, "osnip-daemon".as_bytes())
}

/// The daemon's program: the one beside the client's own, if that is a file, or
/// else the one that the search path gives.
pub fn resolve_daemon_path(beside: Option<Vec<u8>>, is_file: bool) -> (r: Vec<u8>)
    ensures
        match beside {
            Some(path) if is_file => r@ == path@,
            _ => r@ == daemon_program(),
        },
{
    if let Some(path) = beside {
        if is_file {
            return path;
        }
    }
    let mut r: Vec<u8> = Vec::new();
    r.extend_from_slice("osnip-daemon".as_bytes());
    assert(r@ =~= daemon_program());
    r
}

/// A failure is the only thing that is printed on the standard error. Then nothing
/// else is printed, and only then the exit code is not zero.
pub proof fn errors_and_results_are_kept_apart(request: IpcRequest, response: IpcResponseView)
    ensures
        stderr_for(response).len() > 0 <==> response is Error,
        response is Error ==> stdout_for(request, response).len() == 0,
        exit_code_for(response) != 0 <==> response is Error,
{
    reveal_strlit("error: ");
}

/// Which socket the client talks to: a flag comes first, then a name in the
/// environment that is not empty, then the default.
pub proof fn a_flag_comes_before_the_environment(
    flag: Option<Seq<u8>>,
    named: Option<Seq<u8>>,
    runtime_dir: Option<Seq<u8>>,
)
    ensures
        flag is Some ==> socket_in(flag, named, runtime_dir) == flag,
        flag is None && named is Some && named->0.len() > 0 ==> socket_in(flag, named, runtime_dir)
            == named,
        flag is None && (named is None || named->0.len() == 0) ==> socket_in(
            flag,
            named,
            runtime_dir,
        ) == paths::socket_path_in(runtime_dir),
{
}

/// When the client does what: it talks exactly over a connection that was made to
/// talk, starts the daemon exactly when that is wanted and nobody listens, looks at the
/// socket once the daemon has been started, goes on looking exactly as long as nobody
/// listens and there is time, and connects once more exactly when somebody does.
pub proof fn each_step_has_its_reason(
    stage: Stage,
    auto_spawn: bool,
    outcome: Result<(), IoErrorKind>,
    expired: bool,
)
    ensures
        ({
            let (next, step) = connect_step(stage, auto_spawn, outcome, expired);
            let missing = outcome matches Err(kind) && (kind is NotFound || kind
                is ConnectionRefused);
            &&& step is Talk <==> outcome is Ok && (stage is First || stage is AfterSpawn)
            &&& step is Spawn <==> stage is First && auto_spawn && missing
            &&& step is Probe <==> stage is Spawning && outcome is Ok
            &&& step is PollAgain <==> stage is Waiting && missing && !expired
            &&& step is Reconnect <==> stage is Waiting && outcome is Ok
            &&& step == ConnectStep::Fail(ConnectFailure::Connect) <==> stage is First
                && outcome is Err && !(auto_spawn && missing)
            &&& step == ConnectStep::Fail(ConnectFailure::Spawn) <==> stage is Spawning
                && outcome is Err
            &&& step == ConnectStep::Fail(ConnectFailure::TimedOut) <==> stage is Waiting && missing
                && expired
            &&& step == ConnectStep::Fail(ConnectFailure::Probe) <==> stage is Waiting
                && outcome is Err && !missing
            &&& step == ConnectStep::Fail(ConnectFailure::AfterSpawn) <==> stage is AfterSpawn
                && outcome is Err
            &&& step is Spawn ==> next is Spawning
            &&& step is Probe ==> next is Waiting
            &&& step is Reconnect ==> next is AfterSpawn
            &&& !(step is Spawn) && !(step is Probe) && !(step is Reconnect) ==> next == stage
        }),
{
}

/// What the operator is told of each failure, with the socket that it is about.
pub proof fn failures_name_their_socket(socket: Seq<char>)
    ensures
        failure_contexts(ConnectFailure::Connect, socket) == seq!["connect to "@ + socket],
        failure_contexts(ConnectFailure::Spawn, socket) == seq![
            "spawn daemon for socket "@ + socket,
        ],
        failure_contexts(ConnectFailure::TimedOut, socket) == seq![
            "daemon did not publish socket "@ + socket + " within 2s"@,
            "timed out waiting for "@ + socket,
        ],
        failure_contexts(ConnectFailure::Probe, socket) == seq![
            "daemon did not publish socket "@ + socket + " within 2s"@,
            "probe socket while waiting"@,
        ],
        failure_contexts(ConnectFailure::AfterSpawn, socket) == seq![
            "connect to "@ + socket + " after spawn"@,
        ],
{
}

/// What is printed for each response: nothing for a pin that was closed, the number of
/// a new pin, and a table of all pins, with a line for each below the heading.
pub proof fn responses_are_printed(
    request: IpcRequest,
    id: u64,
    pins: Seq<PinSummaryView>,
    e: ipc::IpcErrorView,
)
    ensures
        request is Close || request is CloseAll ==> stdout_for(
            request,
            IpcResponseView::Done,
        ).len() == 0,
        !(request is Close) && !(request is CloseAll) ==> stdout_for(request, IpcResponseView::Done)
            == "ok\n"@,
        stdout_for(request, IpcResponseView::Pinned { id }) == text::decimal(id as nat) + "\n"@,
        pins.len() == 0 ==> stdout_for(request, IpcResponseView::Pins { pins }) == "no pins\n"@,
        pins.len() > 0 ==> stdout_for(request, IpcResponseView::Pins { pins })
            == text::right_aligned("ID"@, 6) + "  "@ + text::right_aligned("SIZE"@, 10) + "  "@
            + text::right_aligned("CREATED (unix ms)"@, 20) + "\n"@ + pin_rows(pins),
        stderr_for(IpcResponseView::Error(e)) == "error: "@ + e.text() + "\n"@,
        stderr_for(IpcResponseView::Done).len() == 0,
        stderr_for(IpcResponseView::Pinned { id }).len() == 0,
        stderr_for(IpcResponseView::Pins { pins }).len() == 0,
{
}

/// Each pin has one line in the table, in the order of the list: its number, its width
/// and its height with an `x` between them, and the time of its creation.
pub proof fn each_pin_has_its_line(pins: Seq<PinSummaryView>, pin: PinSummaryView)
    ensures
        pin_rows(Seq::<PinSummaryView>::empty()).len() == 0,
        pin_rows(pins.push(pin)) == pin_rows(pins) + (text::decimal(pin.id as nat) + "  "@
            + text::right_aligned(
            text::decimal(pin.width as nat) + "x"@ + text::decimal(pin.height as nat),
            10,
        ) + "  "@ + text::right_aligned(text::decimal(pin.created_at_unix_ms as nat), 20) + "\n"@),
{
    assert(pins.push(pin).drop_last() =~= pins);
}

/// The exit code is one for a failure and zero for anything else.
pub proof fn failures_exit_with_one(response: IpcResponseView)
    ensures
        exit_code_for(response) == 1 <==> response is Error,
        exit_code_for(response) == 0 <==> !(response is Error),
{
}

/// The program of the daemon is `osnip-daemon`.
pub proof fn the_daemon_has_its_name()
    ensures
        daemon_program() == utf8::encode_utf8("osnip-daemon"@),
{
}

/// The client waits two seconds for the daemon, and looks twenty times in each.
pub proof fn the_client_waits_two_seconds()
    ensures
        SPAWN_RETRY_TIMEOUT_MS == 2000,
        SPAWN_POLL_INTERVAL_MS * 20 == 1000,
{
}

} // verus!
