use crate::text::{decimal_digits, hex_char};
use vstd::prelude::*;

verus! {

/// How far the clock of Istanbul is ahead of UTC, in seconds.
pub const ISTANBUL_OFFSET: i32 = 10800;

/// The earliest instant that can be shown, in seconds since the Unix epoch.
pub const FIRST_SECOND: i64 = -8334601228800;

/// The latest instant that can be shown, in seconds since the Unix epoch.
pub const LAST_SECOND: i64 = 8210266876799;

/// How the table and the messages show an instant.
pub const CLOCK_FORMAT: &'static str = "%Y-%m-%d %H:%M:%S";

/// How file names show an instant.
pub const FILE_FORMAT: &'static str = "%Y-%m-%d_%H-%M-%S";

/// A date of the Gregorian calendar and a time of day.
pub struct Civil {
    pub year: int,
    pub month: int,
    pub day: int,
    pub hour: int,
    pub minute: int,
    pub second: int,
}

/// Whether the year has 366 days.
pub open spec fn is_leap_year(year: int) -> bool {
    year % 4 == 0 && (year % 100 != 0 || year % 400 == 0)
}

/// How many days the year has.
pub open spec fn year_length(year: int) -> int {
    if is_leap_year(year) {
        366
    } else {
        365
    }
}

/// How many days the month has.
pub open spec fn month_length(year: int, month: int) -> int {
    if month == 2 {
        if is_leap_year(year) {
            29
        } else {
            28
        }
    } else if month == 4 || month == 6 || month == 9 || month == 11 {
        30
    } else {
        31
    }
}

/// How many days lie between the first day of the year 1 and the first day of
/// the year.
pub open spec fn days_before_year(year: int) -> int {
    365 * (year - 1) + (year - 1) / 4 - (year - 1) / 100 + (year - 1) / 400
}

/// How many days of the year lie before the month.
pub open spec fn days_before_month(year: int, month: int) -> int
    decreases month,
{
    if month <= 1 {
        0
    } else {
        days_before_month(year, month - 1) + month_length(year, month - 1)
    }
}

impl Civil {
    /// There is such a date and such a time of day.
    pub open spec fn valid(self) -> bool {
        &&& 1 <= self.month <= 12
        &&& 1 <= self.day <= month_length(self.year, self.month)
        &&& 0 <= self.hour < 24
        &&& 0 <= self.minute < 60
        &&& 0 <= self.second < 60
    }

    /// How many days after the first of January 1970 the date lies.
    pub open spec fn epoch_day(self) -> int {
        days_before_year(self.year) + days_before_month(self.year, self.month) + self.day - 1
            - 719162
    }

    /// How many seconds after the beginning of the year 1970 the instant lies.
    pub open spec fn epoch_seconds(self) -> int {
        86400 * self.epoch_day() + 3600 * self.hour + 60 * self.minute + self.second
    }
}

/// A number below one hundred with two digits.
pub open spec fn two_digits(n: int) -> Seq<char> {
    seq![hex_char(n / 10), hex_char(n % 10)]
}

/// A natural number with four digits, or more if it needs them.
pub open spec fn four_digits(n: int) -> Seq<char> {
    if n < 10000 {
        two_digits(n / 100) + two_digits(n % 100)
    } else {
        decimal_digits(n as nat)
    }
}

/// A year with four digits; one that needs more, or lies before the year 0,
/// has a sign in front.
pub open spec fn year_text(year: int) -> Seq<char> {
    if year < 0 {
        seq!['-'] + four_digits(-year)
    } else if year >= 10000 {
        seq!['+'] + four_digits(year)
    } else {
        four_digits(year)
    }
}

/// What one letter of a format stands for.
pub open spec fn field_text(letter: char, c: Civil) -> Seq<char> {
    if letter == 'Y' {
        year_text(c.year)
    } else if letter == 'm' {
        two_digits(c.month)
    } else if letter == 'd' {
        two_digits(c.day)
    } else if letter == 'H' {
        two_digits(c.hour)
    } else if letter == 'M' {
        two_digits(c.minute)
    } else {
        two_digits(c.second)
    }
}

/// The letters that a format may have behind a percent sign.
pub open spec fn is_field_letter(letter: char) -> bool {
    letter == 'Y' || letter == 'm' || letter == 'd' || letter == 'H' || letter == 'M' || letter
        == 'S'
}

/// Every percent sign of the format stands before one of the letters.
pub open spec fn known_format(format: Seq<char>) -> bool
    decreases format.len(),
{
    if format.len() == 0 {
        true
    } else if format[0] == '%' {
        format.len() >= 2 && is_field_letter(format[1]) && known_format(format.skip(2))
    } else {
        known_format(format.skip(1))
    }
}

/// A format with the fields of `c` filled in. What is no field stays.
pub open spec fn filled_in(format: Seq<char>, c: Civil) -> Seq<char>
    decreases format.len(),
{
    if format.len() == 0 {
        Seq::empty()
    } else if format[0] == '%' && format.len() >= 2 {
        field_text(format[1], c) + filled_in(format.skip(2), c)
    } else {
        seq![format[0]] + filled_in(format.skip(1), c)
    }
}

/// `text` shows, in `format`, the date and the time of day on a clock that is
/// `local` seconds past the beginning of 1970.
pub open spec fn shows(text: Seq<char>, local: int, format: Seq<char>) -> bool {
    exists|c: Civil|
        #![trigger c.epoch_seconds()]
        c.valid() && c.epoch_seconds() == local && text == filled_in(format, c)
}

/// Calls `chrono::DateTime::from_timestamp`, `with_timezone` with the offset of
/// `chrono::FixedOffset::east_opt`, and `format`. Trusted: for an instant that chrono can
/// hold, an offset of less than a day and a format of plain characters and the
/// fields above, this gives the format filled in with the date and the time of
/// day at that offset, in the proleptic Gregorian calendar.
#[verifier::external_body]
fn format_instant(seconds: i64, offset: i32, format: &str) -> (s: String)
    requires
        FIRST_SECOND <= seconds <= LAST_SECOND,
        -86400 < offset < 86400,
        known_format(format@),
    ensures
        shows(s@, seconds + offset, format@),
{
    let offset = chrono::FixedOffset::east_opt(offset).unwrap();
    let instant = chrono::DateTime::from_timestamp(seconds, 0).unwrap();
    instant.with_timezone(&offset).format(format).to_string()
}

/// Calls `chrono::Utc::now` and takes its `timestamp`. Trusted: the instant is
/// one that chrono can hold. Which one it is depends on the machine, and is not
/// stated. On a machine whose clock shows a time before 1970, or one that chrono
/// cannot hold, `chrono::Utc::now` panics.
#[verifier::external_body]
fn utc_now() -> (seconds: i64)
    ensures
        FIRST_SECOND <= seconds <= LAST_SECOND,
{
    chrono::Utc::now().timestamp()
}

proof fn lemma_formats_known()
    ensures
        known_format(CLOCK_FORMAT@),
        known_format(FILE_FORMAT@),
{
    reveal_strlit("%Y-%m-%d %H:%M:%S");
    reveal_strlit("%Y-%m-%d_%H-%M-%S");
    reveal_with_fuel(known_format, 12);
}

/// The timestamp of an instant, as the table and the messages show it: the
/// date and the time of day in Istanbul.
pub fn clock_stamp(seconds: i64) -> (s: String)
    requires
        FIRST_SECOND <= seconds <= LAST_SECOND,
    ensures
        shows(s@, seconds + ISTANBUL_OFFSET, CLOCK_FORMAT@),
        shows(s@, seconds + 3 * 3600, "%Y-%m-%d %H:%M:%S"@),
{
    proof {
        lemma_formats_known();
    }
    format_instant(seconds, ISTANBUL_OFFSET, CLOCK_FORMAT)
}

/// The timestamp of an instant, as file names show it.
pub fn file_stamp(seconds: i64) -> (s: String)
    requires
        FIRST_SECOND <= seconds <= LAST_SECOND,
    ensures
        shows(s@, seconds + ISTANBUL_OFFSET, FILE_FORMAT@),
        shows(s@, seconds + 3 * 3600, "%Y-%m-%d_%H-%M-%S"@),
{
    proof {
        lemma_formats_known();
    }
    format_instant(seconds, ISTANBUL_OFFSET, FILE_FORMAT)
}

/// The timestamp of the instant of the call, as the table and the messages
/// show it.
pub fn clock_stamp_now() -> (s: String)
    ensures
        exists|seconds: i64|
            FIRST_SECOND <= seconds <= LAST_SECOND && #[trigger] shows(
                s@,
                seconds + ISTANBUL_OFFSET,
                CLOCK_FORMAT@,
            ),
        exists|seconds: i64|
            FIRST_SECOND <= seconds <= LAST_SECOND && #[trigger] shows(
                s@,
                seconds + 3 * 3600,
                "%Y-%m-%d %H:%M:%S"@,
            ),
{
    clock_stamp(utc_now())
}

/// The timestamp of the instant of the call, as file names show it.
pub fn file_stamp_now() -> (s: String)
    ensures
        exists|seconds: i64|
            FIRST_SECOND <= seconds <= LAST_SECOND && #[trigger] shows(
                s@,
                seconds + ISTANBUL_OFFSET,
                FILE_FORMAT@,
            ),
        exists|seconds: i64|
            FIRST_SECOND <= seconds <= LAST_SECOND && #[trigger] shows(
                s@,
                seconds + 3 * 3600,
                "%Y-%m-%d_%H-%M-%S"@,
            ),
{
    file_stamp(utc_now())
}

} // verus!
