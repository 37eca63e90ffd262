//! Desktop notifications with the `notify-send` program.

use crate::clipboard::ClipboardError;
use crate::text;
use vstd::prelude::*;
use vstd::string::StringExecFns;

verus! {

/// How urgent a notification is.
#[derive(Debug, Clone, Copy, PartialEq, Eq, Structural)]
pub enum Urgency {
    /// For the user's information.
    Normal,
    /// Something went wrong.
    Critical,
}

impl Urgency {
    /// The value of the `--urgency` flag.
    pub open spec fn flag(self) -> Seq<char> {
        match self {
            Urgency::Normal => "normal"@,
            Urgency::Critical => "critical"@,
        }
    }

    /// The value of the `--urgency` flag.
    pub fn as_flag(self) -> (r: &'static str)
        ensures
            r@ == self.flag(),
    {
        match self {
            Urgency::Normal => "normal",
            Urgency::Critical => "critical",
        }
    }
}

/// The arguments for `notify-send`. The name of the application lets users
/// route these notifications.
pub open spec fn notify_arguments(
    summary: Seq<char>,
    body: Option<Seq<char>>,
    urgency: Urgency,
) -> Seq<Seq<char>> {
    let always = seq!["--app-name"@, "osnip"@, "--urgency"@, urgency.flag(), summary];
    match body {
        Some(b) => always.push(b),
        None => always,
    }
}

/// The arguments for `notify-send`.
pub fn notify_args(summary: &str, body: Option<&str>, urgency: Urgency) -> (r: Vec<String>)
    ensures
        text::views(r@) == notify_arguments(
            summary@,
            match body {
                Some(b) => Some(b@),
                None => None,
            },
            urgency,
        ),
{
    let mut r = vec![
        "--app-name".to_owned(),
        "osnip".to_owned(),
        "--urgency".to_owned(),
        urgency.as_flag().to_owned(),
        summary.to_owned(),
    ];
    assert(text::views(r@) =~= notify_arguments(summary@, None, urgency));
    if let Some(b) = body {
        let ghost before = r@;
        let text = b.to_owned();
        r.push(text);
        assert(text::views(r@) =~= text::views(before).push(b@));
    }
    r
}

/// A notification for the user.
#[derive(Debug, Clone, PartialEq, Eq)]
pub struct Notice {
    /// What happened.
    pub summary: String,
    /// The details.
    pub body: String,
    /// How urgent it is.
    pub urgency: Urgency,
}

/// What a [`Notice`] says.
#[verifier::ext_equal]
pub struct NoticeView {
    pub summary: Seq<char>,
    pub body: Seq<char>,
    pub urgency: Urgency,
}

impl View for Notice {
    type V = NoticeView;

    open spec fn view(&self) -> NoticeView {
        NoticeView { summary: self.summary@, body: self.body@, urgency: self.urgency }
    }
}

/// What the user is told about a copy.
pub fn copy_notice(outcome: &Result<(), ClipboardError>) -> (r: Notice)
    ensures
        r@ == match outcome {
            Ok(_) => NoticeView {
                summary: "Copied to clipboard"@,
                body: "Image is now on the Wayland selection."@,
                urgency: Urgency::Normal,
            },
            Err(e) => NoticeView {
                summary: "Copy failed"@,
                body: e@.text(),
                urgency: Urgency::Critical,
            },
        },
{
    match outcome {
        Ok(_) => Notice {
            summary: "Copied to clipboard".to_owned(),
            body: "Image is now on the Wayland selection.".to_owned(),
            urgency: Urgency::Normal,
        },
        Err(e) => Notice {
            summary: "Copy failed".to_owned(),
            body: e.message(),
            urgency: Urgency::Critical,
        },
    }
}

/// What the user is told about a save, given the path that was written, or why
/// none was.
pub fn save_notice(outcome: Result<String, String>) -> (r: Notice)
    ensures
        r@ == match outcome {
            Ok(path) => NoticeView {
                summary: "Saved"@,
                body: "Saved to "@ + path@,
                urgency: Urgency::Normal,
            },
            Err(e) => NoticeView {
                summary: "Save failed"@,
                body: e@,
                urgency: Urgency::Critical,
            },
        },
{
    match outcome {
        Ok(path) => Notice {
            summary: "Saved".to_owned(),
            body: "Saved to ".to_owned().concat(&path),
            urgency: Urgency::Normal,
        },
        Err(e) => Notice {
            summary: "Save failed".to_owned(),
            body: e,
            urgency: Urgency::Critical,
        },
    }
}

/// The arguments of a notification: under the name of the application, with its
/// urgency, the summary comes before the body, if there is one.
pub proof fn notifications_hold_summary_and_body(summary: Seq<char>, body: Seq<char>)
    ensures
        notify_arguments(summary, None, Urgency::Normal) == seq![
            "--app-name"@,
            "osnip"@,
            "--urgency"@,
            "normal"@,
            summary,
        ],
        notify_arguments(summary, None, Urgency::Critical) == seq![
            "--app-name"@,
            "osnip"@,
            "--urgency"@,
            "critical"@,
            summary,
        ],
        notify_arguments(summary, Some(body), Urgency::Normal) == seq![
            "--app-name"@,
            "osnip"@,
            "--urgency"@,
            "normal"@,
            summary,
            body,
        ],
        notify_arguments(summary, Some(body), Urgency::Critical) == seq![
            "--app-name"@,
            "osnip"@,
            "--urgency"@,
            "critical"@,
            summary,
            body,
        ],
        Urgency::Normal.flag() == "normal"@,
        Urgency::Critical.flag() == "critical"@,
{
    assert(notify_arguments(summary, Some(body), Urgency::Normal) =~= seq![
        "--app-name"@,
        "osnip"@,
        "--urgency"@,
        "normal"@,
        summary,
        body,
    ]);
    assert(notify_arguments(summary, Some(body), Urgency::Critical) =~= seq![
        "--app-name"@,
        "osnip"@,
        "--urgency"@,
        "critical"@,
        summary,
        body,
    ]);
}

/// A notice says what it holds.
pub proof fn notices_say_what_they_hold(notice: Notice)
    ensures
        notice@.summary == notice.summary@,
        notice@.body == notice.body@,
        notice@.urgency == notice.urgency,
{
}

} // verus!
