//! What an external program left behind.

use crate::framing::IoErrorKind;
use crate::text;
use vstd::prelude::*;
use vstd::string::StringExecFns;

verus! {

/// The outcome of a program that was run to its end.
#[derive(Debug, Clone, PartialEq, Eq)]
pub struct ProcessOutput {
    /// Whether the program reported success.
    pub success: bool,
    /// The exit code, unless a signal ended the program.
    pub code: Option<i32>,
    /// What it wrote to its standard output.
    pub stdout: Vec<u8>,
    /// What it wrote to its standard error.
    pub stderr: Vec<u8>,
}

/// Why a program could not be started.
#[derive(Debug, Clone, PartialEq, Eq)]
pub struct LaunchError {
    /// The kind of failure. A program that is not there is not found.
    pub kind: IoErrorKind,
    /// The message of the system.
    pub message: String,
}

/// What a [`LaunchError`] says.
#[verifier::ext_equal]
pub struct LaunchErrorView {
    pub kind: IoErrorKind,
    pub message: Seq<char>,
}

impl View for LaunchError {
    type V = LaunchErrorView;

    open spec fn view(&self) -> LaunchErrorView {
        LaunchErrorView { kind: self.kind, message: self.message@ }
    }
}

/// How an exit code is shown to the operator.
pub open spec fn code_text(code: Option<i32>) -> Seq<char> {
    match code {
        Some(n) => "Some("@ + text::decimal_int(n as int) + ")"@,
        None => "None"@,
    }
}

/// Why a program failed: what it wrote to its standard error, or else its exit
/// code.
pub open spec fn reason_of(code: Option<i32>, said: Seq<char>) -> Seq<char> {
    let trimmed = text::trimmed(said);
    if trimmed.len() == 0 {
        "exit code "@ + code_text(code)
    } else {
        trimmed
    }
}

/// Why a program failed, given what it said.
pub fn failure_reason(code: Option<i32>, said: &str) -> (r: String)
    ensures
        r@ == reason_of(code, said@),
{
    let trimmed = text::trim(said);
    if !text::is_empty(&trimmed) {
        return trimmed;
    }
    let mut r = "exit code ".to_owned();
    match code {
        Some(n) => {
            r.append("Some(");
            r.append(&text::decimal_int_string(n));
            r.append(")");
            assert(r@ == "exit code "@ + code_text(code));
        },
        None => {
            r.append("None");
        },
    }
    r
}

/// Why the program failed that left this behind.
pub open spec fn failure_text(code: Option<i32>, stderr: Seq<u8>) -> Seq<char> {
    reason_of(code, text::text_in(stderr))
}

/// Why the program failed that left this behind.
pub fn failure_message(output: &ProcessOutput) -> (r: String)
    ensures
        r@ == failure_text(output.code, output.stderr@),
{
    let said = text::from_utf8_lossy(&output.stderr);
    failure_reason(output.code, &said)
}

/// Why a program failed: what it wrote to its standard error, without the white space
/// around it, or else its exit code, in decimal.
pub proof fn programs_explain_their_failure(code: Option<i32>, said: Seq<char>)
    ensures
        text::trimmed(said).len() > 0 ==> reason_of(code, said) == text::trimmed(said),
        text::trimmed(said).len() == 0 && code is Some ==> reason_of(code, said)
            == "exit code "@ + ("Some("@ + text::decimal_int(code->0 as int) + ")"@),
        text::trimmed(said).len() == 0 && code is None ==> reason_of(code, said) == "exit code "@
            + "None"@,
{
}

/// What a program wrote to its standard error is read as text.
pub proof fn standard_error_is_text(code: Option<i32>, stderr: Seq<u8>)
    ensures
        failure_text(code, stderr) == reason_of(code, text::text_in(stderr)),
{
}

/// An error says what it holds.
pub proof fn launch_errors_say_what_they_hold(e: LaunchError)
    ensures
        e@.kind == e.kind,
        e@.message == e.message@,
{
}

} // verus!
