//! Images on the clipboard, with the `wl-paste` and `wl-copy` programs.
//!
//! The clipboard may offer an image in several types at once. PNG is lossless
//! and comes first; in the end any image type will do, since the format is
//! recognised by the bytes themselves.

use crate::codec;
use crate::framing::IoErrorKind;
use crate::ipc::{IpcError, IpcErrorView};
use crate::pixels::{Picture, RgbaImage};
use crate::process;
use crate::process::{LaunchError, LaunchErrorView, ProcessOutput};
use crate::text;
use vstd::prelude::*;
use vstd::string::StringExecFns;

verus! {

/// Why the clipboard could not be read or written.
#[derive(Debug, Clone, PartialEq, Eq)]
pub enum ClipboardError {
    /// The program could not be started.
    Launch(LaunchError),
    /// The clipboard is empty or cannot be read.
    Empty,
    /// The clipboard holds something, but no image.
    NoImage,
    /// The chosen type could not be read.
    PasteFailed {
        /// The chosen type.
        mime: String,
        /// Why.
        message: String,
    },
    /// The bytes are no image.
    Decode {
        /// The chosen type.
        mime: String,
        /// Why.
        source: String,
    },
    /// The image could not be made a PNG file.
    Encode(String),
    /// The image could not be handed over.
    CopyFailed(String),
}

/// What a [`ClipboardError`] says.
pub enum ClipboardErrorView {
    Launch(LaunchErrorView),
    Empty,
    NoImage,
    PasteFailed { mime: Seq<char>, message: Seq<char> },
    Decode { mime: Seq<char>, source: Seq<char> },
    Encode(Seq<char>),
    CopyFailed(Seq<char>),
}

impl View for ClipboardError {
    type V = ClipboardErrorView;

    open spec fn view(&self) -> ClipboardErrorView {
        match self {
            ClipboardError::Launch(e) => ClipboardErrorView::Launch(e@),
            ClipboardError::Empty => ClipboardErrorView::Empty,
            ClipboardError::NoImage => ClipboardErrorView::NoImage,
            ClipboardError::PasteFailed { mime, message } => ClipboardErrorView::PasteFailed {
                mime: mime@,
                message: message@,
            },
            ClipboardError::Decode { mime, source } => ClipboardErrorView::Decode {
                mime: mime@,
                source: source@,
            },
            ClipboardError::Encode(e) => ClipboardErrorView::Encode(e@),
            ClipboardError::CopyFailed(e) => ClipboardErrorView::CopyFailed(e@),
        }
    }
}

impl ClipboardErrorView {
    /// The message for the operator.
    pub open spec fn text(self) -> Seq<char> {
        match self {
            ClipboardErrorView::Launch(e) => "failed to launch wl-paste: "@ + e.message,
            ClipboardErrorView::Empty => "clipboard is empty or unreadable"@,
            ClipboardErrorView::NoImage => "clipboard does not contain an image"@,
            ClipboardErrorView::PasteFailed { mime, message } => "wl-paste failed to read "@ + mime
                + ": "@ + message,
            ClipboardErrorView::Decode { mime, source } => "could not decode clipboard image (mime="@
                + mime + "): "@ + source,
            ClipboardErrorView::Encode(e) => "could not encode image to PNG: "@ + e,
            ClipboardErrorView::CopyFailed(e) => "wl-copy failed: "@ + e,
        }
    }

    /// What a client is told. That there is no image, or no program that could
    /// give one, is told apart from a failure.
    pub open spec fn reported(self) -> IpcErrorView {
        match self {
            ClipboardErrorView::Empty => IpcErrorView::ClipboardNoImage,
            ClipboardErrorView::NoImage => IpcErrorView::ClipboardNoImage,
            ClipboardErrorView::Launch(e) if e.kind is NotFound => IpcErrorView::ClipboardNoImage,
            _ => IpcErrorView::CaptureFailed { message: self.text() },
        }
    }
}

impl ClipboardError {
    /// The message for the operator.
    pub fn message(&self) -> (r: String)
        ensures
            r@ == self@.text(),
    {
        match self {
            ClipboardError::Launch(e) => "failed to launch wl-paste: ".to_owned().concat(&e.message),
            ClipboardError::Empty => "clipboard is empty or unreadable".to_owned(),
            ClipboardError::NoImage => "clipboard does not contain an image".to_owned(),
            ClipboardError::PasteFailed { mime, message } => {
                let mut r = "wl-paste failed to read ".to_owned();
                r.append(mime);
                r.append(": ");
                r.append(message);
                r
            },
            ClipboardError::Decode { mime, source } => {
                let mut r = "could not decode clipboard image (mime=".to_owned();
                r.append(mime);
                r.append("): ");
                r.append(source);
                r
            },
            ClipboardError::Encode(e) => "could not encode image to PNG: ".to_owned().concat(e),
            ClipboardError::CopyFailed(e) => "wl-copy failed: ".to_owned().concat(e),
        }
    }
}

// Two errors with the same words need not be the same value, so what the
// conversion gives is stated by `from` itself.
impl vstd::std_specs::convert::FromSpecImpl<ClipboardError> for IpcError {
    open spec fn obeys_from_spec() -> bool {
        false
    }

    open spec fn from_spec(e: ClipboardError) -> IpcError {
        IpcError::ClipboardNoImage
    }
}

impl From<ClipboardError> for IpcError {
    fn from(e: ClipboardError) -> (r: IpcError)
        ensures
            r@ == e@.reported(),
    {
        match e {
            ClipboardError::Empty => IpcError::ClipboardNoImage,
            ClipboardError::NoImage => IpcError::ClipboardNoImage,
            ClipboardError::Launch(LaunchError { kind: IoErrorKind::NotFound, .. }) => {
                IpcError::ClipboardNoImage
            },
            other => IpcError::CaptureFailed { message: other.message() },
        }
    }
}

/// The types that are asked for by name, best first.
pub open spec fn preferred_mimes() -> Seq<Seq<char>> {
    seq!["image/png"@, "image/jpeg"@, "image/bmp"@, "image/webp"@, "image/tiff"@]
}

/// The first of `wanted` that is among `types`.
pub open spec fn first_among(wanted: Seq<Seq<char>>, types: Seq<Seq<char>>) -> Option<Seq<char>>
    decreases wanted.len(),
{
    if wanted.len() == 0 {
        None
    } else if types.contains(wanted[0]) {
        Some(wanted[0])
    } else {
        first_among(wanted.drop_first(), types)
    }
}

/// The first of `types` that is an image type.
pub open spec fn first_image(types: Seq<Seq<char>>) -> Option<Seq<char>>
    decreases types.len(),
{
    if types.len() == 0 {
        None
    } else if text::begins_with(types[0], "image/"@) {
        Some(types[0])
    } else {
        first_image(types.drop_first())
    }
}

/// The type in which the image is read, if there is one.
pub open spec fn picked_mime(types: Seq<Seq<char>>) -> Option<Seq<char>> {
    match first_among(preferred_mimes(), types) {
        Some(mime) => Some(mime),
        None => first_image(types),
    }
}

/// The place of `wanted` among `types`.
fn position(types: &[String], wanted: &str) -> (r: Option<usize>)
    ensures
        match r {
            Some(i) => i < types@.len() && types@[i as int]@ == wanted@,
            None => !text::views(types@).contains(wanted@),
        },
{
    for i in 0..types.len()
        invariant
            forall|j: int| 0 <= j < i ==> types@[j]@ != wanted@,
    {
        if text::same(&types[i], wanted) {
            return Some(i);
        }
    }
    None
}

/// Picks the most desirable image type from a list of offered types.
pub fn pick_image_mime(types: &[String]) -> (r: Option<&str>)
    ensures
        match r {
            Some(mime) => picked_mime(text::views(types@)) == Some(mime@),
            None => picked_mime(text::views(types@)) is None,
        },
{
    let preferred = ["image/png", "image/jpeg", "image/bmp", "image/webp", "image/tiff"];
    let ghost views = text::views(types@);
    assert(preferred_mimes().skip(0) =~= preferred_mimes());
    for k in 0..preferred.len()
        invariant
            views == text::views(types@),
            preferred@.len() == preferred_mimes().len(),
            forall|j: int|
                0 <= j < preferred@.len() ==> (#[trigger] preferred@[j])@ == preferred_mimes()[j],
            first_among(preferred_mimes(), views) == first_among(
                preferred_mimes().skip(k as int),
                views,
            ),
    {
        let ghost left = preferred_mimes().skip(k as int);
        assert(left[0] == preferred@[k as int]@);
        if let Some(i) = position(types, preferred[k]) {
            assert(views[i as int] == left[0]);
            return Some(types[i].as_str());
        }
        assert(left.drop_first() =~= preferred_mimes().skip(k + 1));
    }
    assert(first_among(preferred_mimes(), views) is None);
    assert(views.skip(0) =~= views);
    for i in 0..types.len()
        invariant
            views == text::views(types@),
            first_image(views) == first_image(views.skip(i as int)),
            first_among(preferred_mimes(), views) is None,
    {
        assert(views.skip(i as int)[0] == types@[i as int]@);
        if text::starts_with(&types[i], "image/") {
            return Some(types[i].as_str());
        }
        assert(views.skip(i as int).drop_first() =~= views.skip(i + 1));
    }
    None
}

/// The types that a listing names, one on each line.
pub open spec fn types_in(listing: Seq<char>) -> Seq<Seq<char>> {
    text::pieces(listing, '\n').map_values(|line: Seq<char>| text::trimmed(line)).filter(
        |line: Seq<char>| line.len() > 0,
    )
}

/// The types that a listing names, one on each line.
pub fn listed_types(listing: &str) -> (r: Vec<String>)
    ensures
        text::views(r@) == types_in(listing@),
{
    let lines = text::split(listing, '\n');
    let ghost trimmed = text::pieces(listing@, '\n').map_values(
        |line: Seq<char>| text::trimmed(line),
    );
    let ghost kept = |line: Seq<char>| line.len() > 0;
    let mut r: Vec<String> = Vec::new();
    proof {
        reveal(Seq::filter);
        assert(text::views(r@) =~= Seq::empty());
        assert(trimmed.take(0) =~= Seq::empty());
    }
    for i in 0..lines.len()
        invariant
            text::views(lines@) == text::pieces(listing@, '\n'),
            trimmed == text::pieces(listing@, '\n').map_values(
                |line: Seq<char>| text::trimmed(line),
            ),
            kept == (|line: Seq<char>| line.len() > 0),
            text::views(r@) == trimmed.take(i as int).filter(kept),
    {
        let line = text::trim(&lines[i]);
        assert(text::views(lines@)[i as int] == lines@[i as int]@);
        assert(line@ == trimmed[i as int]);
        assert(trimmed.take(i + 1).drop_last() =~= trimmed.take(i as int));
        proof {
            reveal(Seq::filter);
        }
        if !text::is_empty(&line) {
            let ghost before = r@;
            r.push(line);
            assert(text::views(r@) =~= text::views(before).push(trimmed[i as int]));
        }
    }
    assert(trimmed.take(trimmed.len() as int) =~= trimmed);
    r
}

/// The arguments that make `wl-paste` list the offered types.
pub fn list_args() -> (r: Vec<String>)
    ensures
        text::views(r@) == seq!["--list-types"@],
{
    let r = vec!["--list-types".to_owned()];
    assert(text::views(r@) =~= seq!["--list-types"@]);
    r
}

/// The arguments that make `wl-paste` print the clipboard in one type.
pub fn paste_args(mime: &str) -> (r: Vec<String>)
    ensures
        text::views(r@) == seq!["--type"@, mime@, "--no-newline"@],
{
    let r = vec!["--type".to_owned(), mime.to_owned(), "--no-newline".to_owned()];
    assert(text::views(r@) =~= seq!["--type"@, mime@, "--no-newline"@]);
    r
}

/// The arguments that make `wl-copy` take a PNG file.
pub fn copy_args() -> (r: Vec<String>)
    ensures
        text::views(r@) == seq!["--type"@, "image/png"@],
{
    let r = vec!["--type".to_owned(), "image/png".to_owned()];
    assert(text::views(r@) =~= seq!["--type"@, "image/png"@]);
    r
}

/// The type to ask for, given the listing of the offered types.
pub fn mime_in_listing(listing: &str) -> (r: Result<String, ClipboardError>)
    ensures
        match r {
            Ok(mime) => picked_mime(types_in(listing@)) == Some(mime@),
            Err(e) => picked_mime(types_in(listing@)) is None && e@ == ClipboardErrorView::NoImage,
        },
{
    let types = listed_types(listing);
    match pick_image_mime(&types) {
        Some(mime) => Ok(mime.to_owned()),
        None => Err(ClipboardError::NoImage),
    }
}

/// The type to ask for after the offered types have been listed. `Err` means
/// that the program could not be started.
pub fn mime_from_run(run: Result<ProcessOutput, LaunchError>) -> (r: Result<String, ClipboardError>)
    ensures
        match run {
            Err(e) => r matches Err(f) && f@ == ClipboardErrorView::Launch(e@),
            Ok(output) => if !output.success {
                r matches Err(f) && f@ == ClipboardErrorView::Empty
            } else {
                let picked = picked_mime(types_in(text::text_in(output.stdout@)));
                match r {
                    Ok(mime) => picked == Some(mime@),
                    Err(f) => picked is None && f@ == ClipboardErrorView::NoImage,
                }
            },
        },
{
    match run {
        Err(e) => Err(ClipboardError::Launch(e)),
        Ok(output) => {
            if !output.success {
                return Err(ClipboardError::Empty);
            }
            let listing = text::from_utf8_lossy(&output.stdout);
            mime_in_listing(&listing)
        },
    }
}

/// What became of decoding the clipboard.
pub fn image_from_decoding(mime: String, decoded: Result<RgbaImage, String>) -> (r: Result<
    RgbaImage,
    ClipboardError,
>)
    ensures
        match decoded {
            Ok(image) => r matches Ok(found) && found@ == image@,
            Err(e) => r matches Err(f) && f@ == (ClipboardErrorView::Decode {
                mime: mime@,
                source: e@,
            }),
        },
{
    match decoded {
        Ok(image) => Ok(image),
        Err(source) => Err(ClipboardError::Decode { mime, source }),
    }
}

/// The image on the clipboard, after it has been printed in type `mime`. `Err`
/// means that the program could not be started.
pub fn image_from_run(mime: String, run: Result<ProcessOutput, LaunchError>) -> (r: Result<
    RgbaImage,
    ClipboardError,
>)
    ensures
        match run {
            Err(e) => r matches Err(f) && f@ == ClipboardErrorView::Launch(e@),
            Ok(output) => if !output.success {
                r matches Err(f) && f@ == (ClipboardErrorView::PasteFailed {
                    mime: mime@,
                    message: process::failure_text(output.code, output.stderr@),
                })
            } else {
                match codec::decoded_picture(output.stdout@) {
                    Ok(picture) => r matches Ok(image) && image@ == picture,
                    Err(e) => r matches Err(f) && f@ == (ClipboardErrorView::Decode {
                        mime: mime@,
                        source: e,
                    }),
                }
            },
        },
        r matches Ok(image) ==> run matches Ok(output) && output.success && codec::decoded_image(
            output.stdout@,
        ) == Ok::<(u32, u32, Seq<u8>), Seq<char>>(
            (image@.width, image@.height, image@.pixels),
        ),
{
    match run {
        Err(e) => Err(ClipboardError::Launch(e)),
        Ok(output) => {
            if !output.success {
                let message = process::failure_message(&output);
                return Err(ClipboardError::PasteFailed { mime, message });
            }
            image_from_decoding(mime, codec::decode(&output.stdout))
        },
    }
}

/// What became of encoding the image.
pub fn png_from_encoding(encoded: Result<Vec<u8>, String>) -> (r: Result<Vec<u8>, ClipboardError>)
    ensures
        match encoded {
            Ok(png) => r matches Ok(bytes) && bytes@ == png@,
            Err(e) => r matches Err(f) && f@ == ClipboardErrorView::Encode(e@),
        },
{
    match encoded {
        Ok(png) => Ok(png),
        Err(e) => Err(ClipboardError::Encode(e)),
    }
}

/// The PNG file that is put on the clipboard. What was copied can be pasted: an
/// ordinary image decodes to itself.
pub fn png_for_copy(image: &RgbaImage) -> (r: Result<Vec<u8>, ClipboardError>)
    ensures
        match codec::png_of(image@) {
            Ok(png) => r matches Ok(bytes) && bytes@ == png,
            Err(e) => r matches Err(f) && f@ == ClipboardErrorView::Encode(e),
        },
        codec::ordinary(image@) ==> (r matches Ok(bytes) && codec::decoded_picture(bytes@) == Ok::<
            Picture,
            Seq<char>,
        >(image@)),
        r matches Ok(bytes) ==> codec::png_encoding(image@.width, image@.height, image@.pixels)
            == Ok::<Seq<u8>, Seq<char>>(bytes@),
{
    png_from_encoding(codec::encode_png(image))
}

/// What became of starting `wl-copy`. A program that runs is handed on.
pub fn copy_started<T>(started: Result<T, LaunchError>) -> (r: Result<T, ClipboardError>)
    ensures
        match started {
            Ok(child) => r == Ok::<T, ClipboardError>(child),
            Err(e) => r matches Err(f) && f@ == ClipboardErrorView::Launch(e@),
        },
{
    match started {
        Ok(child) => Ok(child),
        Err(e) => Err(ClipboardError::Launch(e)),
    }
}

/// A step of handing an image to `wl-copy`, once it has been started.
#[derive(Debug, Clone, Copy, PartialEq, Eq, Structural)]
pub enum CopyStep {
    /// Waiting for the PNG file.
    Encode,
    /// Getting hold of the program's input.
    OpenInput,
    /// Writing to it.
    WriteInput,
    /// Closing it.
    CloseInput,
    /// Waiting for the program to end.
    Wait,
}

/// What is said of a step that failed.
pub open spec fn step_failure(step: CopyStep, error: Seq<char>) -> Seq<char> {
    match step {
        CopyStep::Encode => "encode join: "@ + error,
        CopyStep::OpenInput => "wl-copy stdin unavailable"@,
        CopyStep::WriteInput => "write stdin: "@ + error,
        CopyStep::CloseInput => "close stdin: "@ + error,
        CopyStep::Wait => "wait: "@ + error,
    }
}

/// The error for a step that failed.
pub fn copy_failed(step: CopyStep, error: &str) -> (r: ClipboardError)
    ensures
        r@ == ClipboardErrorView::CopyFailed(step_failure(step, error@)),
{
    let said = match step {
        CopyStep::Encode => "encode join: ".to_owned().concat(error),
        CopyStep::OpenInput => "wl-copy stdin unavailable".to_owned(),
        CopyStep::WriteInput => "write stdin: ".to_owned().concat(error),
        CopyStep::CloseInput => "close stdin: ".to_owned().concat(error),
        CopyStep::Wait => "wait: ".to_owned().concat(error),
    };
    ClipboardError::CopyFailed(said)
}

/// What became of handing the image over, once `wl-copy` has ended.
pub fn copy_outcome(output: &ProcessOutput) -> (r: Result<(), ClipboardError>)
    ensures
        match r {
            Ok(_) => output.success,
            Err(f) => !output.success && f@ == ClipboardErrorView::CopyFailed(
                process::failure_text(output.code, output.stderr@),
            ),
        },
{
    if output.success {
        Ok(())
    } else {
        Err(ClipboardError::CopyFailed(process::failure_message(output)))
    }
}

/// What [`first_among`] finds.
proof fn first_among_finds(wanted: Seq<Seq<char>>, types: Seq<Seq<char>>)
    ensures
        first_among(wanted, types) matches Some(mime) ==> types.contains(mime) && wanted.contains(
            mime,
        ),
    decreases wanted.len(),
{
    if wanted.len() > 0 {
        let rest = wanted.drop_first();
        first_among_finds(rest, types);
        if let Some(mime) = first_among(rest, types) {
            let i = choose|i: int| 0 <= i < rest.len() && rest[i] == mime;
            assert(wanted[i + 1] == mime);
        }
        assert(wanted.contains(wanted[0]));
    }
}

/// What [`first_image`] finds.
proof fn first_image_finds(types: Seq<Seq<char>>)
    ensures
        match first_image(types) {
            Some(mime) => types.contains(mime) && text::begins_with(mime, "image/"@),
            None => forall|i: int|
                0 <= i < types.len() ==> !text::begins_with(#[trigger] types[i], "image/"@),
        },
    decreases types.len(),
{
    if types.len() > 0 && !text::begins_with(types[0], "image/"@) {
        let rest = types.drop_first();
        first_image_finds(rest);
        match first_image(rest) {
            Some(mime) => {
                let i = choose|i: int| 0 <= i < rest.len() && rest[i] == mime;
                assert(types[i + 1] == mime);
            },
            None => {
                assert forall|i: int| 0 <= i < types.len() implies !text::begins_with(
                    #[trigger] types[i],
                    "image/"@,
                ) by {
                    if i > 0 {
                        assert(types[i] == rest[i - 1]);
                    }
                }
            },
        }
    }
}

/// The preferred types are image types.
proof fn preferred_mimes_are_images(i: int)
    requires
        0 <= i < preferred_mimes().len(),
    ensures
        text::begins_with(preferred_mimes()[i], "image/"@),
{
    reveal_strlit("image/");
    reveal_strlit("image/png");
    reveal_strlit("image/jpeg");
    reveal_strlit("image/bmp");
    reveal_strlit("image/webp");
    reveal_strlit("image/tiff");
    assert(preferred_mimes()[i].take(6) =~= "image/"@);
}

/// An image is found exactly when an image type is offered, in a type that is
/// offered; PNG is taken whenever it is offered.
pub proof fn an_offered_image_is_found(types: Seq<Seq<char>>)
    ensures
        picked_mime(types) matches Some(mime) ==> types.contains(mime) && text::begins_with(
            mime,
            "image/"@,
        ),
        picked_mime(types) is None <==> forall|i: int|
            0 <= i < types.len() ==> !text::begins_with(#[trigger] types[i], "image/"@),
        types.contains("image/png"@) ==> picked_mime(types) == Some("image/png"@),
{
    first_among_finds(preferred_mimes(), types);
    first_image_finds(types);
    if let Some(mime) = first_among(preferred_mimes(), types) {
        let i = choose|i: int| 0 <= i < preferred_mimes().len() && preferred_mimes()[i] == mime;
        preferred_mimes_are_images(i);
        let j = choose|j: int| 0 <= j < types.len() && types[j] == mime;
        assert(text::begins_with(types[j], "image/"@));
    } else if let Some(mime) = first_image(types) {
        let j = choose|j: int| 0 <= j < types.len() && types[j] == mime;
        assert(text::begins_with(types[j], "image/"@));
    }
}

/// In what order the types are preferred: PNG, then JPEG, then BMP, then WebP, then
/// TIFF, each whenever none before it is offered.
pub proof fn types_are_preferred_in_order(types: Seq<Seq<char>>)
    ensures
        ({
            let png = types.contains("image/png"@);
            let jpeg = types.contains("image/jpeg"@);
            let bmp = types.contains("image/bmp"@);
            let webp = types.contains("image/webp"@);
            let tiff = types.contains("image/tiff"@);
            &&& png ==> picked_mime(types) == Some("image/png"@)
            &&& !png && jpeg ==> picked_mime(types) == Some("image/jpeg"@)
            &&& !png && !jpeg && bmp ==> picked_mime(types) == Some("image/bmp"@)
            &&& !png && !jpeg && !bmp && webp ==> picked_mime(types) == Some("image/webp"@)
            &&& !png && !jpeg && !bmp && !webp && tiff ==> picked_mime(types) == Some(
                "image/tiff"@,
            )
        }),
{
    reveal_with_fuel(first_among, 6);
    let five = preferred_mimes();
    assert(five.drop_first() =~= seq![
        "image/jpeg"@,
        "image/bmp"@,
        "image/webp"@,
        "image/tiff"@,
    ]);
    assert(five.drop_first().drop_first() =~= seq!["image/bmp"@, "image/webp"@, "image/tiff"@]);
    assert(five.drop_first().drop_first().drop_first() =~= seq!["image/webp"@, "image/tiff"@]);
    assert(five.drop_first().drop_first().drop_first().drop_first() =~= seq!["image/tiff"@]);
}

/// Of types that are not preferred, the first image type is taken.
pub proof fn the_first_other_image_is_taken(types: Seq<Seq<char>>, k: int)
    requires
        0 <= k < types.len(),
        text::begins_with(types[k], "image/"@),
        forall|i: int| 0 <= i < k ==> !text::begins_with(#[trigger] types[i], "image/"@),
        !types.contains("image/png"@),
        !types.contains("image/jpeg"@),
        !types.contains("image/bmp"@),
        !types.contains("image/webp"@),
        !types.contains("image/tiff"@),
    ensures
        picked_mime(types) == Some(types[k]),
{
    first_among_finds(preferred_mimes(), types);
    if let Some(mime) = first_among(preferred_mimes(), types) {
        let i = choose|i: int| 0 <= i < preferred_mimes().len() && preferred_mimes()[i] == mime;
        assert(types.contains(preferred_mimes()[i]));
    }
    first_image_is_first(types, k);
}

/// The first image type is found.
proof fn first_image_is_first(types: Seq<Seq<char>>, k: int)
    requires
        0 <= k < types.len(),
        text::begins_with(types[k], "image/"@),
        forall|i: int| 0 <= i < k ==> !text::begins_with(#[trigger] types[i], "image/"@),
    ensures
        first_image(types) == Some(types[k]),
    decreases k,
{
    if k > 0 {
        let rest = types.drop_first();
        assert(!text::begins_with(types[0], "image/"@));
        assert forall|i: int| 0 <= i < k - 1 implies !text::begins_with(
            #[trigger] rest[i],
            "image/"@,
        ) by {
            assert(rest[i] == types[i + 1]);
        }
        first_image_is_first(rest, k - 1);
    }
}

/// A listing names one type on each line, without the white space around it. Blank
/// lines name none.
pub proof fn each_line_names_a_type(line: Seq<char>, rest: Seq<char>)
    requires
        !line.contains('\n'),
    ensures
        text::trimmed(line).len() == 0 ==> types_in(line).len() == 0 && types_in(
            line.push('\n') + rest,
        ) == types_in(rest),
        text::trimmed(line).len() > 0 ==> types_in(line) == seq![text::trimmed(line)] && types_in(
            line.push('\n') + rest,
        ) == seq![text::trimmed(line)] + types_in(rest),
{
    let trim = |l: Seq<char>| text::trimmed(l);
    let kept = |l: Seq<char>| l.len() > 0;
    text::pieces_stand_between_separators(line, '\n', rest);
    let first = seq![line].map_values(trim);
    let more = text::pieces(rest, '\n').map_values(trim);
    assert(first =~= seq![text::trimmed(line)]);
    assert((seq![line] + text::pieces(rest, '\n')).map_values(trim) =~= first + more);
    assert(first.filter(kept) =~= if text::trimmed(line).len() > 0 {
        first
    } else {
        Seq::empty()
    }) by {
        reveal(Seq::filter);
        assert(first.drop_last() =~= Seq::empty());
        assert(first.drop_last().filter(kept) =~= Seq::empty());
    }
    Seq::filter_distributes_over_add(first, more, kept);
    assert(Seq::<Seq<char>>::empty() + more.filter(kept) =~= more.filter(kept));
}

/// What the operator is told of each failure, with the details as they were given.
pub proof fn clipboard_failures_are_explained(
    mime: Seq<char>,
    detail: Seq<char>,
    launch: LaunchErrorView,
)
    ensures
        ClipboardErrorView::Launch(launch).text() == "failed to launch wl-paste: "@ + launch.message,
        ClipboardErrorView::Empty.text() == "clipboard is empty or unreadable"@,
        ClipboardErrorView::NoImage.text() == "clipboard does not contain an image"@,
        (ClipboardErrorView::PasteFailed { mime, message: detail }).text()
            == "wl-paste failed to read "@ + mime + ": "@ + detail,
        (ClipboardErrorView::Decode { mime, source: detail }).text()
            == "could not decode clipboard image (mime="@ + mime + "): "@ + detail,
        ClipboardErrorView::Encode(detail).text() == "could not encode image to PNG: "@ + detail,
        ClipboardErrorView::CopyFailed(detail).text() == "wl-copy failed: "@ + detail,
        step_failure(CopyStep::Encode, detail) == "encode join: "@ + detail,
        step_failure(CopyStep::OpenInput, detail) == "wl-copy stdin unavailable"@,
        step_failure(CopyStep::WriteInput, detail) == "write stdin: "@ + detail,
        step_failure(CopyStep::CloseInput, detail) == "close stdin: "@ + detail,
        step_failure(CopyStep::Wait, detail) == "wait: "@ + detail,
{
}

/// A client hears that there is no image exactly when the clipboard is empty, holds
/// none, or has no program that could give one. Anything else is a failure, in the
/// words for the operator.
pub proof fn a_missing_image_is_no_failure(e: ClipboardErrorView)
    ensures
        e.reported() is ClipboardNoImage <==> e is Empty || e is NoImage || (e matches
        ClipboardErrorView::Launch(launch) && launch.kind is NotFound),
        !(e.reported() is ClipboardNoImage) ==> e.reported() == (IpcErrorView::CaptureFailed {
            message: e.text(),
        }),
{
}

/// An error says what it holds.
pub proof fn clipboard_errors_say_what_they_hold(e: ClipboardError)
    ensures
        match e {
            ClipboardError::Launch(launch) => e@ == ClipboardErrorView::Launch(launch@),
            ClipboardError::Empty => e@ is Empty,
            ClipboardError::NoImage => e@ is NoImage,
            ClipboardError::PasteFailed { mime, message } => e@ == (
            ClipboardErrorView::PasteFailed { mime: mime@, message: message@ }),
            ClipboardError::Decode { mime, source } => e@ == (ClipboardErrorView::Decode {
                mime: mime@,
                source: source@,
            }),
            ClipboardError::Encode(detail) => e@ == ClipboardErrorView::Encode(detail@),
            ClipboardError::CopyFailed(detail) => e@ == ClipboardErrorView::CopyFailed(detail@),
        },
{
}

} // verus!
