//! Where a pin is saved.

use crate::config::Config;
use crate::paths;
use crate::text;
use vstd::prelude::*;
use vstd::utf8;

verus! {

/// Whether a year has a 29th of February.
pub open spec fn leap_year(year: int) -> bool {
    year % 4 == 0 && (year % 100 != 0 || year % 400 == 0)
}

/// How many days a month has.
pub open spec fn days_in_month(year: int, month: int) -> int {
    if month == 2 {
        if leap_year(year) {
            29
        } else {
            28
        }
    } else if month == 4 || month == 6 || month == 9 || month == 11 {
        30
    } else {
        31
    }
}

/// A moment of the calendar and the clock.
#[verifier::ext_equal]
pub struct Moment {
    pub year: i32,
    pub month: u32,
    pub day: u32,
    pub hour: u32,
    pub minute: u32,
    pub second: u32,
}

impl Moment {
    /// Whether the calendar has this day and the clock this time. Years count
    /// for as far as a calendar date can be represented.
    pub open spec fn exists_in_calendar(self) -> bool {
        &&& -262143 <= self.year <= 262142
        &&& 1 <= self.month <= 12
        &&& 1 <= self.day <= days_in_month(self.year as int, self.month as int)
        &&& self.hour < 24
        &&& self.minute < 60
        &&& self.second < 60
    }

    /// The year, with at least four digits; a year that needs more than four
    /// digits, or one before year zero, has a sign.
    pub open spec fn year_text(self) -> Seq<char> {
        if self.year < 0 {
            seq!['-'] + zero_padded((-self.year) as nat, 4)
        } else if self.year > 9999 {
            seq!['+'] + zero_padded(self.year as nat, 4)
        } else {
            zero_padded(self.year as nat, 4)
        }
    }

    /// Year, month and day, a hyphen, hour, minute and second.
    pub open spec fn stamp(self) -> Seq<char> {
        self.year_text() + zero_padded(self.month as nat, 2) + zero_padded(self.day as nat, 2)
            + seq!['-'] + zero_padded(self.hour as nat, 2) + zero_padded(self.minute as nat, 2)
            + zero_padded(self.second as nat, 2)
    }
}

/// A number in decimal, with zeros in front up to a width.
pub open spec fn zero_padded(n: nat, width: nat) -> Seq<char> {
    let digits = text::decimal(n);
    if digits.len() >= width {
        digits
    } else {
        Seq::new((width - digits.len()) as nat, |i: int| '0') + digits
    }
}

/// Local time, to the second.
#[derive(Debug, Clone, Copy, PartialEq, Eq)]
pub struct LocalTime {
    year: i32,
    month: u32,
    day: u32,
    hour: u32,
    minute: u32,
    second: u32,
}

impl View for LocalTime {
    type V = Moment;

    closed spec fn view(&self) -> Moment {
        Moment {
            year: self.year,
            month: self.month,
            day: self.day,
            hour: self.hour,
            minute: self.minute,
            second: self.second,
        }
    }
}

/// Formats a date and a time of day with `chrono`: `NaiveDateTime::format`
/// writes `%Y` with at least four digits, and with a sign where four digits do
/// not hold the year, and each of `%m`, `%d`, `%H`, `%M` and `%S` with two.
/// `NaiveDate::from_ymd_opt` and `NaiveDate::and_hms_opt` give a value for every
/// day of the calendar and every second of the clock, within the years that
/// `NaiveDate` can represent.
#[verifier::external_body]
fn formatted(year: i32, month: u32, day: u32, hour: u32, minute: u32, second: u32) -> (r: String)
    requires
        (Moment { year, month, day, hour, minute, second }).exists_in_calendar(),
    ensures
        r@ == (Moment { year, month, day, hour, minute, second }).stamp(),
{
    let date = chrono::NaiveDate::from_ymd_opt(year, month, day).unwrap();
    let moment = date.and_hms_opt(hour, minute, second).unwrap();
    moment.format("%Y%m%d-%H%M%S").to_string()
}

impl LocalTime {
    #[verifier::type_invariant]
    spec fn exists_in_calendar(self) -> bool {
        self@.exists_in_calendar()
    }

    /// The given moment, when the calendar has that day and the clock that time.
    pub fn new(year: i32, month: u32, day: u32, hour: u32, minute: u32, second: u32) -> (r: Option<
        LocalTime,
    >)
        ensures
            ({
                let moment = Moment { year, month, day, hour, minute, second };
                match r {
                    Some(time) => moment.exists_in_calendar() && time@ == moment,
                    None => !moment.exists_in_calendar(),
                }
            }),
    {
        if year < -262143 || year > 262142 || month < 1 || month > 12 || hour >= 24 || minute >= 60
            || second >= 60 {
            return None;
        }
        let shifted: u32 = (year + 400000) as u32;
        let leap = shifted % 4 == 0 && (shifted % 100 != 0 || shifted % 400 == 0);
        assert(leap == leap_year(year as int));
        let days: u32 = if month == 2 {
            if leap {
                29
            } else {
                28
            }
        } else if month == 4 || month == 6 || month == 9 || month == 11 {
            30
        } else {
            31
        };
        if day < 1 || day > days {
            return None;
        }
        Some(LocalTime { year, month, day, hour, minute, second })
    }

    /// Year, month and day, a hyphen, hour, minute and second.
    pub fn stamp(&self) -> (r: String)
        ensures
            r@ == self@.stamp(),
    {
        proof {
            use_type_invariant(self);
        }
        formatted(self.year, self.month, self.day, self.hour, self.minute, self.second)
    }
}

/// The file name that a template gives: every `{timestamp}` in it makes room
/// for the stamp.
pub open spec fn file_name_from(template: Seq<char>, stamp: Seq<char>) -> Seq<char> {
    text::replaced(template, "{timestamp}"@, stamp)
}

/// Fills in a template of a file name.
pub fn render_template(template: &str, now: &LocalTime) -> (r: String)
    ensures
        r@ == file_name_from(template@, now@.stamp()),
{
    proof {
        reveal_strlit("{timestamp}");
    }
    let stamp = now.stamp();
    text::replace(template, "{timestamp}", &stamp)
}

/// Where a pin that is saved now is written.
pub fn save_path(config: &Config, now: &LocalTime) -> (r: Vec<u8>)
    ensures
        r@ == paths::joined(
            config.save_dir@,
            utf8::encode_utf8(file_name_from(config.filename_template@, now@.stamp())),
        ),
{
    let name = render_template(&config.filename_template, now);
    paths::join(&config.save_dir, name.as_str().as_bytes())
}

/// A template without `{timestamp}` is the file name itself.
pub proof fn template_without_token_is_passed_through(template: Seq<char>, stamp: Seq<char>)
    requires
        forall|i: int|
            0 <= i <= template.len() - "{timestamp}"@.len() ==> #[trigger] template.subrange(
                i,
                i + "{timestamp}"@.len(),
            ) != "{timestamp}"@,
    ensures
        file_name_from(template, stamp) == template,
{
    reveal_strlit("{timestamp}");
    text::nothing_to_replace(template, "{timestamp}"@, stamp);
}

/// In years of up to four digits, a stamp always has the same shape: eight
/// digits, a hyphen and six digits.
pub proof fn stamps_have_one_shape(m: Moment)
    requires
        m.exists_in_calendar(),
        0 <= m.year <= 9999,
    ensures
        m.stamp().len() == 15,
        forall|i: int| 0 <= i < 15 && i != 8 ==> '0' <= #[trigger] m.stamp()[i] <= '9',
        m.stamp()[8] == '-',
{
    padded_digits(m.year as nat, 4);
    padded_digits(m.month as nat, 2);
    padded_digits(m.day as nat, 2);
    padded_digits(m.hour as nat, 2);
    padded_digits(m.minute as nat, 2);
    padded_digits(m.second as nat, 2);
}

/// A number that fits is padded to exactly its width, with digits only.
proof fn padded_digits(n: nat, width: nat)
    requires
        width == 2 && n < 100 || width == 4 && n < 10000,
    ensures
        zero_padded(n, width).len() == width,
        forall|i: int| 0 <= i < width ==> '0' <= #[trigger] zero_padded(n, width)[i] <= '9',
{
    let digits = text::decimal(n);
    text::decimal_reads_back(n);
    reveal_with_fuel(text::decimal, 5);
    assert(digits.len() <= width);
    assert forall|i: int| 0 <= i < width implies '0' <= #[trigger] zero_padded(n, width)[i]
        <= '9' by {
        let zeros = width - digits.len();
        if i >= zeros {
            assert(zero_padded(n, width)[i] == digits[i - zeros]);
        }
    }
}

/// A stamp tells its moment: in years of up to four digits, its digits are those of the
/// year, the month, the day, the hour, the minute and the second, in that order.
pub proof fn stamps_tell_their_moment(m: Moment)
    requires
        m.exists_in_calendar(),
        0 <= m.year <= 9999,
    ensures
        m.stamp().len() == 15,
        text::digits_value(m.stamp().subrange(0, 4)) == m.year,
        text::digits_value(m.stamp().subrange(4, 6)) == m.month,
        text::digits_value(m.stamp().subrange(6, 8)) == m.day,
        m.stamp()[8] == '-',
        text::digits_value(m.stamp().subrange(9, 11)) == m.hour,
        text::digits_value(m.stamp().subrange(11, 13)) == m.minute,
        text::digits_value(m.stamp().subrange(13, 15)) == m.second,
{
    stamps_have_one_shape(m);
    padded_digits(m.year as nat, 4);
    padded_digits(m.month as nat, 2);
    padded_digits(m.day as nat, 2);
    padded_digits(m.hour as nat, 2);
    padded_digits(m.minute as nat, 2);
    padded_digits(m.second as nat, 2);
    padded_value(m.year as nat, 4);
    padded_value(m.month as nat, 2);
    padded_value(m.day as nat, 2);
    padded_value(m.hour as nat, 2);
    padded_value(m.minute as nat, 2);
    padded_value(m.second as nat, 2);
    assert(m.stamp().subrange(0, 4) =~= zero_padded(m.year as nat, 4));
    assert(m.stamp().subrange(4, 6) =~= zero_padded(m.month as nat, 2));
    assert(m.stamp().subrange(6, 8) =~= zero_padded(m.day as nat, 2));
    assert(m.stamp().subrange(9, 11) =~= zero_padded(m.hour as nat, 2));
    assert(m.stamp().subrange(11, 13) =~= zero_padded(m.minute as nat, 2));
    assert(m.stamp().subrange(13, 15) =~= zero_padded(m.second as nat, 2));
}

/// Zeros in front do not count.
proof fn padded_value(n: nat, width: nat)
    ensures
        text::digits_value(zero_padded(n, width)) == n,
{
    let digits = text::decimal(n);
    text::decimal_reads_back(n);
    if digits.len() < width {
        zeros_do_not_count((width - digits.len()) as nat, digits);
    }
}

/// Zeros in front do not count.
proof fn zeros_do_not_count(k: nat, digits: Seq<char>)
    ensures
        text::digits_value(Seq::new(k, |i: int| '0') + digits) == text::digits_value(digits),
    decreases k + digits.len(),
{
    let zeros = Seq::new(k, |i: int| '0');
    let s = zeros + digits;
    if digits.len() > 0 {
        assert(s.drop_last() =~= zeros + digits.drop_last());
        zeros_do_not_count(k, digits.drop_last());
    } else if k > 0 {
        let fewer = Seq::new((k - 1) as nat, |i: int| '0');
        assert(s.drop_last() =~= fewer + digits);
        zeros_do_not_count((k - 1) as nat, digits);
    } else {
        assert(s =~= digits);
    }
}

/// The days of each month, and when a year has a 29th of February.
pub proof fn the_calendar_is_gregorian(year: int, month: int)
    ensures
        leap_year(year) <==> year % 400 == 0 || (year % 4 == 0 && year % 100 != 0),
        month == 2 ==> days_in_month(year, month) == if leap_year(year) {
            29int
        } else {
            28int
        },
        month == 4 || month == 6 || month == 9 || month == 11 ==> days_in_month(year, month) == 30,
        month == 1 || month == 3 || month == 5 || month == 7 || month == 8 || month == 10 || month
            == 12 ==> days_in_month(year, month) == 31,
{
    if year % 400 == 0 {
        assert(year % 4 == 0);
    }
}

/// Which moments there are.
pub proof fn moments_are_days_and_times(m: Moment)
    ensures
        m.exists_in_calendar() <==> {
            &&& -262143 <= m.year <= 262142
            &&& 1 <= m.month <= 12
            &&& 1 <= m.day <= days_in_month(m.year as int, m.month as int)
            &&& m.hour <= 23
            &&& m.minute <= 59
            &&& m.second <= 59
        },
{
}

/// The stamp stands in the file name where `{timestamp}` stands in the template, and
/// everything around it stays as it is.
pub proof fn the_stamp_takes_the_place_of_the_token(
    before: Seq<char>,
    after: Seq<char>,
    stamp: Seq<char>,
)
    requires
        !before.contains('{'),
    ensures
        file_name_from(before + "{timestamp}"@ + after, stamp) == before + stamp + file_name_from(
            after,
            stamp,
        ),
        !after.contains('{') ==> file_name_from(before + "{timestamp}"@ + after, stamp) == before
            + stamp + after,
        file_name_from(before, stamp) == before,
{
    reveal_strlit("{timestamp}");
    let token = "{timestamp}"@;
    let s = before + token + after;
    assert forall|i: int| 0 <= i < before.len() implies #[trigger] s.subrange(
        i,
        i + token.len(),
    ) != token by {
        assert(s.subrange(i, i + token.len())[0] == s[i]);
        assert(s[i] == before[i]);
        assert(before.contains(before[i]));
    }
    text::the_first_occurrence_is_replaced(before, token, after, stamp);
    no_brace_no_token(before);
    template_without_token_is_passed_through(before, stamp);
    if !after.contains('{') {
        no_brace_no_token(after);
        template_without_token_is_passed_through(after, stamp);
    }
}

/// Without a brace there is no token.
proof fn no_brace_no_token(s: Seq<char>)
    requires
        !s.contains('{'),
    ensures
        forall|i: int|
            0 <= i <= s.len() - "{timestamp}"@.len() ==> #[trigger] s.subrange(
                i,
                i + "{timestamp}"@.len(),
            ) != "{timestamp}"@,
{
    reveal_strlit("{timestamp}");
    let token = "{timestamp}"@;
    assert forall|i: int| 0 <= i <= s.len() - token.len() implies #[trigger] s.subrange(
        i,
        i + token.len(),
    ) != token by {
        assert(s.subrange(i, i + token.len())[0] == s[i]);
        assert(s.contains(s[i]));
    }
}

} // verus!
