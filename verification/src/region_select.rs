//! Interactive selection of a region with the `slurp` program.
//!
//! `slurp` prints the region that the user dragged as a single line
//! `"X,Y WxH"`, and reports failure when the user gave up.

use crate::ipc::{IpcError, IpcErrorView};
use crate::process::{LaunchError, ProcessOutput};
use crate::text;
use vstd::prelude::*;
use vstd::string::StringExecFns;
use vstd::utf8;

verus! {

/// A rectangle in the coordinates of the compositor.
#[derive(Debug, Clone, Copy, PartialEq, Eq, Structural)]
pub struct Region {
    /// Left edge. Outputs may lie left of zero.
    pub x: i32,
    /// Upper edge.
    pub y: i32,
    /// Width, positive.
    pub width: u32,
    /// Height, positive.
    pub height: u32,
}

/// Why no region was selected.
#[derive(Debug, Clone, PartialEq, Eq)]
pub enum RegionError {
    /// The program could not be started.
    Launch(String),
    /// The user gave up.
    Canceled,
    /// The program printed something else than a region.
    MalformedOutput {
        /// What it printed.
        raw: String,
    },
    /// Reading the output failed.
    Io(String),
}

/// What a [`RegionError`] says.
pub enum RegionErrorView {
    Launch(Seq<char>),
    Canceled,
    MalformedOutput { raw: Seq<char> },
    Io(Seq<char>),
}

impl View for RegionError {
    type V = RegionErrorView;

    open spec fn view(&self) -> RegionErrorView {
        match self {
            RegionError::Launch(e) => RegionErrorView::Launch(e@),
            RegionError::Canceled => RegionErrorView::Canceled,
            RegionError::MalformedOutput { raw } => RegionErrorView::MalformedOutput { raw: raw@ },
            RegionError::Io(e) => RegionErrorView::Io(e@),
        }
    }
}

impl RegionErrorView {
    /// The message for the operator.
    pub open spec fn text(self) -> Seq<char> {
        match self {
            RegionErrorView::Launch(e) => "failed to launch slurp: "@ + e,
            RegionErrorView::Canceled => "user canceled region selection"@,
            RegionErrorView::MalformedOutput { raw } => "malformed slurp output: "@
                + text::quoted_text(raw),
            RegionErrorView::Io(e) => "i/o while reading slurp: "@ + e,
        }
    }

    /// What a client is told. That the user gave up is told apart from a
    /// failure.
    pub open spec fn reported(self) -> IpcErrorView {
        match self {
            RegionErrorView::Canceled => IpcErrorView::CaptureCanceled,
            _ => IpcErrorView::CaptureFailed { message: self.text() },
        }
    }
}

impl RegionError {
    /// The message for the operator.
    pub fn message(&self) -> (r: String)
        ensures
            r@ == self@.text(),
    {
        match self {
            RegionError::Launch(e) => "failed to launch slurp: ".to_owned().concat(e),
            RegionError::Canceled => "user canceled region selection".to_owned(),
            RegionError::MalformedOutput { raw } => {
                let quoted = text::quoted(raw);
                "malformed slurp output: ".to_owned().concat(&quoted)
            },
            RegionError::Io(e) => "i/o while reading slurp: ".to_owned().concat(e),
        }
    }
}

// Two errors with the same words need not be the same value, so what the
// conversion gives is stated by `from` itself.
impl vstd::std_specs::convert::FromSpecImpl<RegionError> for IpcError {
    open spec fn obeys_from_spec() -> bool {
        false
    }

    open spec fn from_spec(e: RegionError) -> IpcError {
        IpcError::CaptureCanceled
    }
}

impl From<RegionError> for IpcError {
    fn from(e: RegionError) -> (r: IpcError)
        ensures
            r@ == e@.reported(),
    {
        match e {
            RegionError::Canceled => IpcError::CaptureCanceled,
            other => IpcError::CaptureFailed { message: other.message() },
        }
    }
}

/// The arguments for `slurp`: those of the user, separated by white space, or
/// else ones that select without dimming the screen.
pub open spec fn slurp_arguments(overridden: Option<Seq<char>>) -> Seq<Seq<char>> {
    match overridden {
        Some(raw) => text::words(raw),
        None => seq!["-b"@, "00000000"@, "-c"@, "ffffffff"@, "-w"@, "2"@],
    }
}

/// The arguments for `slurp`, given the value of `OSNIP_SLURP_ARGS`.
pub fn slurp_args(overridden: Option<&str>) -> (r: Vec<String>)
    ensures
        text::views(r@) == slurp_arguments(
            match overridden {
                Some(raw) => Some(raw@),
                None => None,
            },
        ),
{
    match overridden {
        Some(raw) => text::split_whitespace(raw),
        None => {
            let r = vec![
                "-b".to_owned(),
                "00000000".to_owned(),
                "-c".to_owned(),
                "ffffffff".to_owned(),
                "-w".to_owned(),
                "2".to_owned(),
            ];
            assert(text::views(r@) =~= slurp_arguments(None));
            r
        },
    }
}

/// The region that one line of output describes, if it describes one.
pub open spec fn parsed_region(raw: Seq<char>) -> Option<Region> {
    match text::cut(raw, ' ') {
        None => None,
        Some((origin, size)) => match (text::cut(origin, ','), text::cut(size, 'x')) {
            (Some((x, y)), Some((w, h))) => match (
                text::parsed_i32(x),
                text::parsed_i32(y),
                text::parsed_nat(w, 0xffff_ffff),
                text::parsed_nat(h, 0xffff_ffff),
            ) {
                (Some(x), Some(y), Some(w), Some(h)) => if w == 0 || h == 0 {
                    None
                } else {
                    Some(Region { x: x as i32, y: y as i32, width: w as u32, height: h as u32 })
                },
                _ => None,
            },
            _ => None,
        },
    }
}

/// Reads `"X,Y WxH"`, or gives nothing.
fn region_in(raw: &str) -> (r: Option<Region>)
    ensures
        r == parsed_region(raw@),
{
    let (origin, size) = match text::split_once(raw, ' ') {
        Some(halves) => halves,
        None => {
            return None;
        },
    };
    let (x_text, y_text) = match text::split_once(&origin, ',') {
        Some(halves) => halves,
        None => {
            return None;
        },
    };
    let (w_text, h_text) = match text::split_once(&size, 'x') {
        Some(halves) => halves,
        None => {
            return None;
        },
    };
    let x: i32 = match text::parse_i32(&x_text) {
        Some(n) => n,
        None => {
            return None;
        },
    };
    let y: i32 = match text::parse_i32(&y_text) {
        Some(n) => n,
        None => {
            return None;
        },
    };
    let width: u32 = match text::parse_u32(&w_text) {
        Some(n) => n,
        None => {
            return None;
        },
    };
    let height: u32 = match text::parse_u32(&h_text) {
        Some(n) => n,
        None => {
            return None;
        },
    };
    if width == 0 || height == 0 {
        return None;
    }
    Some(Region { x, y, width, height })
}

/// Reads one line of output, `"X,Y WxH"`.
///
/// The origin may be negative; width and height must be positive.
pub fn parse_slurp_output(raw: &str) -> (r: Result<Region, RegionError>)
    ensures
        match r {
            Ok(region) => parsed_region(raw@) == Some(region),
            Err(e) => parsed_region(raw@) is None && e@ == (RegionErrorView::MalformedOutput {
                raw: raw@,
            }),
        },
{
    match region_in(raw) {
        Some(region) => Ok(region),
        None => Err(RegionError::MalformedOutput { raw: raw.to_owned() }),
    }
}

/// What a run of the program amounts to.
pub open spec fn selection(success: bool, stdout: Seq<u8>) -> Result<Region, RegionErrorView> {
    if !success {
        Err(RegionErrorView::Canceled)
    } else if !utf8::valid_utf8(stdout) {
        Err(
            RegionErrorView::MalformedOutput {
                raw: "non-utf8 ("@ + text::utf8_error_text(stdout) + ")"@,
            },
        )
    } else {
        let line = text::trimmed(utf8::decode_utf8(stdout));
        match parsed_region(line) {
            Some(region) => Ok(region),
            None => Err(RegionErrorView::MalformedOutput { raw: line }),
        }
    }
}

/// The region that a run of the program selected. `Err` means that the program
/// could not be started.
pub fn region_from_run(run: Result<ProcessOutput, LaunchError>) -> (r: Result<Region, RegionError>)
    ensures
        match run {
            Err(e) => r matches Err(f) && f@ == RegionErrorView::Launch(e@.message),
            Ok(output) => match r {
                Ok(region) => selection(output.success, output.stdout@) == Ok::<
                    Region,
                    RegionErrorView,
                >(region),
                Err(f) => selection(output.success, output.stdout@) == Err::<
                    Region,
                    RegionErrorView,
                >(f@),
            },
        },
{
    let output = match run {
        Ok(output) => output,
        Err(e) => {
            return Err(RegionError::Launch(e.message));
        },
    };
    if !output.success {
        return Err(RegionError::Canceled);
    }
    match text::from_utf8(&output.stdout) {
        Ok(printed) => {
            let line = text::trim(&printed);
            parse_slurp_output(&line)
        },
        Err(e) => {
            let mut raw = "non-utf8 (".to_owned();
            raw.append(&e);
            raw.append(")");
            Err(RegionError::MalformedOutput { raw })
        },
    }
}

/// How `slurp` prints a region.
pub open spec fn region_text(r: Region) -> Seq<char> {
    let size = text::decimal(r.width as nat).push('x') + text::decimal(r.height as nat);
    let origin = text::decimal_int(r.x as int).push(',') + text::decimal_int(r.y as int);
    origin.push(' ') + size
}

/// A number in decimal holds none of the characters that separate the parts of
/// a region.
proof fn decimals_hold_no_separator(n: int, sep: char)
    requires
        sep == ' ' || sep == ',' || sep == 'x',
    ensures
        !text::decimal_int(n).contains(sep),
{
    let m = if n < 0 {
        (-n) as nat
    } else {
        n as nat
    };
    text::decimal_reads_back(m);
    let d = text::decimal(m);
    let s = text::decimal_int(n);
    if s.contains(sep) {
        let i = choose|i: int| 0 <= i < s.len() && s[i] == sep;
        let k = if n < 0 {
            i - 1
        } else {
            i
        };
        if k >= 0 {
            assert(d[k] == sep);
        }
    }
}

/// Every region that `slurp` prints is read back as it was.
pub proof fn printed_regions_read_back(r: Region)
    requires
        r.width > 0,
        r.height > 0,
    ensures
        parsed_region(region_text(r)) == Some(r),
{
    let x = text::decimal_int(r.x as int);
    let y = text::decimal_int(r.y as int);
    let w = text::decimal(r.width as nat);
    let h = text::decimal(r.height as nat);
    let origin = x.push(',') + y;
    decimals_hold_no_separator(r.x as int, ' ');
    decimals_hold_no_separator(r.y as int, ' ');
    if origin.contains(' ') {
        let i = choose|i: int| 0 <= i < origin.len() && origin[i] == ' ';
        if i < x.len() {
            assert(x[i] == ' ');
        } else if i > x.len() {
            assert(y[i - x.len() - 1] == ' ');
        }
    }
    text::cut_at_the_first(origin, ' ', w.push('x') + h);
    decimals_hold_no_separator(r.x as int, ',');
    text::cut_at_the_first(x, ',', y);
    decimals_hold_no_separator(r.width as int, 'x');
    text::cut_at_the_first(w, 'x', h);
    text::decimal_int_parses_back(r.x as int);
    text::decimal_int_parses_back(r.y as int);
    text::decimal_parses_back(r.width as nat, 0xffff_ffff);
    text::decimal_parses_back(r.height as nat, 0xffff_ffff);
}

/// A region that was accepted is never empty.
pub proof fn accepted_regions_are_not_empty(raw: Seq<char>)
    ensures
        parsed_region(raw) matches Some(r) ==> r.width > 0 && r.height > 0,
{
}

/// A region is a column, a comma, a row, a space, a width, an `x` and a height, in that
/// order, each read as a number.
pub proof fn regions_are_read_in_order(
    x: Seq<char>,
    y: Seq<char>,
    w: Seq<char>,
    h: Seq<char>,
)
    requires
        !x.contains(' ') && !x.contains(','),
        !y.contains(' '),
        !w.contains('x'),
        text::parsed_i32(x) is Some,
        text::parsed_i32(y) is Some,
        text::parsed_nat(w, 0xffff_ffff) is Some,
        text::parsed_nat(h, 0xffff_ffff) is Some,
    ensures
        ({
            let raw = (x.push(',') + y).push(' ') + (w.push('x') + h);
            let (width, height) = (
                text::parsed_nat(w, 0xffff_ffff)->0,
                text::parsed_nat(h, 0xffff_ffff)->0,
            );
            &&& width > 0 && height > 0 ==> (parsed_region(raw) matches Some(r) && {
                &&& r.x == text::parsed_i32(x)->0
                &&& r.y == text::parsed_i32(y)->0
                &&& r.width == width
                &&& r.height == height
            })
            &&& width == 0 || height == 0 ==> parsed_region(raw) is None
        }),
{
    let origin = x.push(',') + y;
    if origin.contains(' ') {
        let i = choose|i: int| 0 <= i < origin.len() && origin[i] == ' ';
        if i < x.len() {
            assert(x.contains(x[i]));
        } else if i > x.len() {
            assert(y.contains(y[i - x.len() - 1]));
        }
    }
    text::cut_at_the_first(origin, ' ', w.push('x') + h);
    text::cut_at_the_first(x, ',', y);
    text::cut_at_the_first(w, 'x', h);
    text::signed_numbers_may_be_negative(x);
    text::signed_numbers_may_be_negative(y);
    text::unsigned_numbers_are_digits(x, 0x7fff_ffff);
    text::unsigned_numbers_are_digits(y, 0x7fff_ffff);
    text::unsigned_numbers_are_digits(w, 0xffff_ffff);
    text::unsigned_numbers_are_digits(h, 0xffff_ffff);
}

/// Whatever is read as a region is written like one, with those numbers.
pub proof fn only_regions_are_read(raw: Seq<char>)
    ensures
        parsed_region(raw) matches Some(r) ==> exists|
            x: Seq<char>,
            y: Seq<char>,
            w: Seq<char>,
            h: Seq<char>,
        |
            {
                &&& raw == #[trigger] ((x.push(',') + y).push(' ') + (w.push('x') + h))
                &&& text::parsed_i32(x) == Some(r.x as int)
                &&& text::parsed_i32(y) == Some(r.y as int)
                &&& text::parsed_nat(w, 0xffff_ffff) == Some(r.width as nat)
                &&& text::parsed_nat(h, 0xffff_ffff) == Some(r.height as nat)
            },
{
    if let Some(r) = parsed_region(raw) {
        text::nothing_to_cut(raw, ' ');
        let (origin, size) = text::cut(raw, ' ')->0;
        text::nothing_to_cut(origin, ',');
        text::nothing_to_cut(size, 'x');
        let (x, y) = text::cut(origin, ',')->0;
        let (w, h) = text::cut(size, 'x')->0;
        text::signed_numbers_may_be_negative(x);
        text::signed_numbers_may_be_negative(y);
        text::unsigned_numbers_are_digits(x, 0x7fff_ffff);
        text::unsigned_numbers_are_digits(y, 0x7fff_ffff);
        text::unsigned_numbers_are_digits(w, 0xffff_ffff);
        text::unsigned_numbers_are_digits(h, 0xffff_ffff);
        assert(raw == (x.push(',') + y).push(' ') + (w.push('x') + h));
    }
}

/// A run that failed was canceled. What a run printed is the region, without the white
/// space around it; if it is none, it is reported as it was printed.
pub proof fn a_run_selects_what_it_printed(success: bool, stdout: Seq<u8>)
    ensures
        !success ==> selection(success, stdout) == Err::<Region, RegionErrorView>(
            RegionErrorView::Canceled,
        ),
        success && !utf8::valid_utf8(stdout) ==> selection(success, stdout) == Err::<
            Region,
            RegionErrorView,
        >(
            RegionErrorView::MalformedOutput {
                raw: "non-utf8 ("@ + text::utf8_error_text(stdout) + ")"@,
            },
        ),
        success && utf8::valid_utf8(stdout) ==> {
            let line = text::trimmed(utf8::decode_utf8(stdout));
            &&& parsed_region(line) matches Some(region) ==> selection(success, stdout) == Ok::<
                Region,
                RegionErrorView,
            >(region)
            &&& parsed_region(line) is None ==> selection(success, stdout) == Err::<
                Region,
                RegionErrorView,
            >(RegionErrorView::MalformedOutput { raw: line })
        },
{
}

/// The arguments for `slurp` are the words of the user, or else a white frame of two
/// pixels without dimming.
pub proof fn the_user_may_set_the_arguments(raw: Seq<char>)
    ensures
        slurp_arguments(Some(raw)) == text::words(raw),
        slurp_arguments(None) == seq!["-b"@, "00000000"@, "-c"@, "ffffffff"@, "-w"@, "2"@],
{
}

/// What the operator is told of each failure, with the detail as it was given.
pub proof fn failed_selections_are_explained(detail: Seq<char>)
    ensures
        RegionErrorView::Launch(detail).text() == "failed to launch slurp: "@ + detail,
        RegionErrorView::Canceled.text() == "user canceled region selection"@,
        (RegionErrorView::MalformedOutput { raw: detail }).text() == "malformed slurp output: "@
            + text::quoted_text(detail),
        RegionErrorView::Io(detail).text() == "i/o while reading slurp: "@ + detail,
{
}

/// A client hears that the capture was canceled exactly when the user gave up. Anything
/// else is a failure, in the words for the operator.
pub proof fn giving_up_is_no_failure(e: RegionErrorView)
    ensures
        e.reported() is CaptureCanceled <==> e is Canceled,
        !(e is Canceled) ==> e.reported() == (IpcErrorView::CaptureFailed { message: e.text() }),
{
}

/// An error says what it holds.
pub proof fn region_errors_say_what_they_hold(e: RegionError)
    ensures
        match e {
            RegionError::Launch(detail) => e@ == RegionErrorView::Launch(detail@),
            RegionError::Canceled => e@ is Canceled,
            RegionError::MalformedOutput { raw } => e@ == (RegionErrorView::MalformedOutput {
                raw: raw@,
            }),
            RegionError::Io(detail) => e@ == RegionErrorView::Io(detail@),
        },
{
}

} // verus!
