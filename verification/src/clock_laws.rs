use crate::clock::{
    days_before_month, days_before_year, filled_in, four_digits, month_length, shows,
    two_digits, year_length, year_text, Civil, CLOCK_FORMAT, FILE_FORMAT,
};
use crate::messages::plain;
use crate::text::{decimal_digits, digits_value, hex_char, is_digit_of, lemma_digits_value};
use vstd::arithmetic::div_mod::{lemma_fundamental_div_mod_converse, lemma_mod_mod};
use vstd::prelude::*;

verus! {

proof fn lemma_next_quotients(y: int)
    ensures
        (y + 1) / 4 == y / 4 + if (y + 1) % 4 == 0 { 1int } else { 0int },
        (y + 1) / 100 == y / 100 + if (y + 1) % 100 == 0 { 1int } else { 0int },
        (y + 1) / 400 == y / 400 + if (y + 1) % 400 == 0 { 1int } else { 0int },
{
    assert((y + 1) / 4 == y / 4 + if (y + 1) % 4 == 0 { 1int } else { 0int }) by {
    }
    assert((y + 1) / 100 == y / 100 + if (y + 1) % 100 == 0 { 1int } else { 0int }) by {
    }
    assert((y + 1) / 400 == y / 400 + if (y + 1) % 400 == 0 { 1int } else { 0int }) by {
    }
}

proof fn lemma_centuries(y: int)
    ensures
        y % 100 == 0 ==> y % 4 == 0,
        y % 400 == 0 ==> y % 100 == 0,
{
    assert(y % 100 == 0 ==> y % 4 == 0) by {
        assert(y == 100 * (y / 100) + y % 100);
    }
    assert(y % 400 == 0 ==> y % 100 == 0) by {
        assert(y == 400 * (y / 400) + y % 400);
    }
}

proof fn lemma_next_year(year: int)
    ensures
        days_before_year(year + 1) == days_before_year(year) + year_length(year),
{
    lemma_next_quotients(year - 1);
    lemma_centuries(year);
    let (p, q) = ((year - 1) / 4, year / 4);
    let (r, s) = ((year - 1) / 100, year / 100);
    let (t, u) = ((year - 1) / 400, year / 400);
    assert(days_before_year(year) == 365 * (year - 1) + p - r + t);
    assert(days_before_year(year + 1) == 365 * year + q - s + u);
}

proof fn lemma_later_year(a: int, b: int)
    requires
        a < b,
    ensures
        days_before_year(a) + year_length(a) <= days_before_year(b),
    decreases b - a,
{
    lemma_next_year(b - 1);
    if a < b - 1 {
        lemma_later_year(a, b - 1);
    }
}

proof fn lemma_later_month(year: int, a: int, b: int)
    requires
        1 <= a < b,
    ensures
        days_before_month(year, a) + month_length(year, a) <= days_before_month(year, b),
    decreases b - a,
{
    if a < b - 1 {
        lemma_later_month(year, a, b - 1);
    }
}

proof fn lemma_months_fill_year(year: int)
    ensures
        days_before_month(year, 13) == year_length(year),
{
    reveal_with_fuel(days_before_month, 14);
}

/// A valid date lies within its year.
proof fn lemma_day_in_year(c: Civil)
    requires
        c.valid(),
    ensures
        1 <= days_before_month(c.year, c.month) + c.day <= year_length(c.year),
{
    lemma_months_fill_year(c.year);
    lemma_later_month(c.year, c.month, 13);
    if c.month > 1 {
        lemma_later_month(c.year, 1, c.month);
    }
}

/// Two dates and times of day that lie equally many seconds after the
/// beginning of 1970 are the same.
pub proof fn law_instant_has_one_date(a: Civil, b: Civil)
    requires
        a.valid(),
        b.valid(),
        a.epoch_seconds() == b.epoch_seconds(),
    ensures
        a == b,
{
    let sa = 3600 * a.hour + 60 * a.minute + a.second;
    let sb = 3600 * b.hour + 60 * b.minute + b.second;
    assert(0 <= sa < 86400 && 0 <= sb < 86400);
    assert(a.epoch_day() == b.epoch_day());
    assert(sa == sb);
    lemma_day_in_year(a);
    lemma_day_in_year(b);
    if a.year < b.year {
        lemma_later_year(a.year, b.year);
    }
    if b.year < a.year {
        lemma_later_year(b.year, a.year);
    }
    if a.month < b.month {
        lemma_later_month(a.year, a.month, b.month);
    }
    if b.month < a.month {
        lemma_later_month(b.year, b.month, a.month);
    }
}

/// The date after another one.
spec fn next_date(c: Civil) -> Civil {
    if c.day < month_length(c.year, c.month) {
        Civil { day: c.day + 1, ..c }
    } else if c.month < 12 {
        Civil { month: c.month + 1, day: 1, ..c }
    } else {
        Civil { year: c.year + 1, month: 1, day: 1, ..c }
    }
}

/// The date before another one.
spec fn previous_date(c: Civil) -> Civil {
    if c.day > 1 {
        Civil { day: c.day - 1, ..c }
    } else if c.month > 1 {
        Civil { month: c.month - 1, day: month_length(c.year, c.month - 1), ..c }
    } else {
        Civil { year: c.year - 1, month: 12, day: 31, ..c }
    }
}

proof fn lemma_neighbour_dates(c: Civil)
    requires
        c.valid(),
    ensures
        next_date(c).valid(),
        next_date(c).epoch_day() == c.epoch_day() + 1,
        previous_date(c).valid(),
        previous_date(c).epoch_day() == c.epoch_day() - 1,
{
    lemma_next_year(c.year);
    lemma_next_year(c.year - 1);
    lemma_months_fill_year(c.year);
    lemma_months_fill_year(c.year - 1);
}

proof fn lemma_date_of_day(day: int) -> (c: Civil)
    ensures
        c.valid(),
        c.epoch_day() == day,
    decreases if day < 0 {
        -day
    } else {
        day
    },
{
    if day == 0 {
        Civil { year: 1970, month: 1, day: 1, hour: 0, minute: 0, second: 0 }
    } else if day > 0 {
        let c = lemma_date_of_day(day - 1);
        lemma_neighbour_dates(c);
        next_date(c)
    } else {
        let c = lemma_date_of_day(day + 1);
        lemma_neighbour_dates(c);
        previous_date(c)
    }
}

/// Every instant has a date and a time of day, so there is a text that shows
/// it.
pub proof fn law_every_instant_has_a_text(local: int, format: Seq<char>)
    ensures
        exists|text: Seq<char>| shows(text, local, format),
{
    let date = lemma_date_of_day(local / 86400);
    let s = local % 86400;
    let c = Civil { hour: s / 3600, minute: s % 3600 / 60, second: s % 60, ..date };
    assert(c.epoch_day() == date.epoch_day());
    assert(s == 3600 * (s / 3600) + s % 3600);
    assert(s % 3600 == 60 * (s % 3600 / 60) + s % 3600 % 60);
    assert(s % 3600 % 60 == s % 60);
    assert(c.valid());
    assert(c.epoch_seconds() == local);
    assert(shows(filled_in(format, c), local, format));
}

/// There is one text only that shows an instant in a format.
pub proof fn law_instant_has_one_text(
    text: Seq<char>,
    other: Seq<char>,
    local: int,
    format: Seq<char>,
)
    requires
        shows(text, local, format),
        shows(other, local, format),
    ensures
        text == other,
{
    let a = choose|c: Civil|
        #![trigger c.epoch_seconds()]
        c.valid() && c.epoch_seconds() == local && text == filled_in(format, c);
    let b = choose|c: Civil|
        #![trigger c.epoch_seconds()]
        c.valid() && c.epoch_seconds() == local && other == filled_in(format, c);
    law_instant_has_one_date(a, b);
}

/// The two formats in one: they differ in three separators.
spec fn stamp_text(c: Civil, gap: char, colon: char) -> Seq<char> {
    year_text(c.year) + (seq!['-'] + two_digits(c.month) + seq!['-'] + two_digits(c.day)
        + seq![gap] + two_digits(c.hour) + seq![colon] + two_digits(c.minute) + seq![colon]
        + two_digits(c.second))
}

proof fn lemma_stamp_text(c: Civil)
    ensures
        filled_in(CLOCK_FORMAT@, c) == stamp_text(c, ' ', ':'),
        filled_in(FILE_FORMAT@, c) == stamp_text(c, '_', '-'),
{
    reveal_strlit("%Y-%m-%d %H:%M:%S");
    reveal_strlit("%Y-%m-%d_%H-%M-%S");
    reveal_with_fuel(filled_in, 12);
    assert(filled_in(CLOCK_FORMAT@, c) =~= stamp_text(c, ' ', ':'));
    assert(filled_in(FILE_FORMAT@, c) =~= stamp_text(c, '_', '-'));
}

spec fn is_digit(c: char) -> bool {
    '0' <= c <= '9'
}

proof fn lemma_four_digits(n: int)
    requires
        0 <= n,
    ensures
        four_digits(n).len() > 0,
        forall|i: int| 0 <= i < four_digits(n).len() ==> is_digit(#[trigger] four_digits(n)[i]),
        digits_value(four_digits(n)) == n,
{
    if n >= 10000 {
        lemma_digits_value(n as nat);
        assert forall|i: int| 0 <= i < four_digits(n).len() implies is_digit(
            #[trigger] four_digits(n)[i],
        ) by {
            assert('0' <= decimal_digits(n as nat)[i] <= '9');
        }
    } else {
        let s = four_digits(n);
        reveal_with_fuel(digits_value, 5);
        assert(n / 100 % 10 == n / 100 - 10 * (n / 100 / 10));
        assert(n % 100 % 10 == n % 100 - 10 * (n % 100 / 10));
    }
}

/// The characters that a timestamp can hold.
spec fn is_stamp_char(c: char) -> bool {
    is_digit(c) || c == '-' || c == '+' || c == ' ' || c == ':' || c == '_'
}

proof fn lemma_stamp_chars(c: Civil, gap: char, colon: char)
    requires
        c.valid(),
        is_stamp_char(gap),
        is_stamp_char(colon),
    ensures
        forall|i: int|
            0 <= i < stamp_text(c, gap, colon).len() ==> is_stamp_char(
                #[trigger] stamp_text(c, gap, colon)[i],
            ),
{
    let y = if c.year < 0 { -c.year } else { c.year };
    lemma_four_digits(y);
    let yt = year_text(c.year);
    assert forall|i: int| 0 <= i < yt.len() implies is_stamp_char(#[trigger] yt[i]) by {
        if c.year < 0 || c.year >= 10000 {
            if i > 0 {
                assert(yt[i] == four_digits(y)[i - 1]);
            }
        } else {
            assert(yt[i] == four_digits(y)[i]);
        }
    }
    let s = stamp_text(c, gap, colon);
    let n = yt.len() as int;
    assert forall|i: int| 0 <= i < s.len() implies is_stamp_char(#[trigger] s[i]) by {
        if i < n {
            assert(s[i] == yt[i]);
        }
    }
}

/// Timestamps need no escapes in a message, nor in a quoted header.
pub proof fn law_timestamps_are_plain(text: Seq<char>, local: int)
    requires
        shows(text, local, CLOCK_FORMAT@) || shows(text, local, FILE_FORMAT@),
    ensures
        plain(text),
{
    if shows(text, local, CLOCK_FORMAT@) {
        let c = choose|c: Civil|
            #![trigger c.epoch_seconds()]
            c.valid() && c.epoch_seconds() == local && text == filled_in(CLOCK_FORMAT@, c);
        lemma_stamp_text(c);
        lemma_stamp_chars(c, ' ', ':');
        assert(forall|i: int| 0 <= i < text.len() ==> is_stamp_char(#[trigger] text[i]));
    } else {
        let c = choose|c: Civil|
            #![trigger c.epoch_seconds()]
            c.valid() && c.epoch_seconds() == local && text == filled_in(FILE_FORMAT@, c);
        lemma_stamp_text(c);
        lemma_stamp_chars(c, '_', '-');
        assert(forall|i: int| 0 <= i < text.len() ==> is_stamp_char(#[trigger] text[i]));
    }
}

/// The sign that a year is written with, if any.
spec fn year_sign(year: int) -> Seq<char> {
    if year < 0 {
        seq!['-']
    } else if year >= 10000 {
        seq!['+']
    } else {
        Seq::empty()
    }
}

/// A sign in front of digits can be told apart from them.
proof fn lemma_signed_digits(s: Seq<char>, x: Seq<char>, t: Seq<char>, y: Seq<char>)
    requires
        x.len() > 0 && is_digit(x[0]),
        y.len() > 0 && is_digit(y[0]),
        s.len() == 0 || (s.len() == 1 && !is_digit(s[0])),
        t.len() == 0 || (t.len() == 1 && !is_digit(t[0])),
        s + x == t + y,
    ensures
        s == t,
        x == y,
{
    let (l, r) = (s + x, t + y);
    assert(l[0] == if s.len() == 0 { x[0] } else { s[0] });
    assert(r[0] == if t.len() == 0 { y[0] } else { t[0] });
    assert(s.len() == t.len());
    assert(s =~= l.take(s.len() as int));
    assert(t =~= r.take(t.len() as int));
    assert(x =~= l.skip(s.len() as int));
    assert(y =~= r.skip(t.len() as int));
}

proof fn lemma_year_text_is_injective(a: int, b: int)
    requires
        year_text(a) == year_text(b),
    ensures
        a == b,
{
    let na = if a < 0 { -a } else { a };
    let nb = if b < 0 { -b } else { b };
    lemma_four_digits(na);
    lemma_four_digits(nb);
    let (x, y) = (four_digits(na), four_digits(nb));
    assert(year_text(a) =~= year_sign(a) + x);
    assert(year_text(b) =~= year_sign(b) + y);
    assert(is_digit(x[0]));
    assert(is_digit(y[0]));
    lemma_signed_digits(year_sign(a), x, year_sign(b), y);
    assert(na == nb);
    if a != b {
        assert(year_sign(a)[0] == year_sign(b)[0]);
    }
}

proof fn lemma_two_digits(m: int, n: int)
    requires
        0 <= m < 100,
        0 <= n < 100,
        hex_char(m / 10) == hex_char(n / 10),
        hex_char(m % 10) == hex_char(n % 10),
    ensures
        m == n,
{
}

proof fn lemma_stamp_text_is_injective(a: Civil, b: Civil, gap: char, colon: char)
    requires
        a.valid(),
        b.valid(),
        stamp_text(a, gap, colon) == stamp_text(b, gap, colon),
    ensures
        a == b,
{
    let (s, t) = (stamp_text(a, gap, colon), stamp_text(b, gap, colon));
    let n = s.len() - 15;
    assert(s.take(n) =~= year_text(a.year));
    assert(t.take(n) =~= year_text(b.year));
    lemma_year_text_is_injective(a.year, b.year);
    assert(s[n + 1] == hex_char(a.month / 10) && s[n + 2] == hex_char(a.month % 10));
    assert(t[n + 1] == hex_char(b.month / 10) && t[n + 2] == hex_char(b.month % 10));
    lemma_two_digits(a.month, b.month);
    assert(s[n + 4] == hex_char(a.day / 10) && s[n + 5] == hex_char(a.day % 10));
    assert(t[n + 4] == hex_char(b.day / 10) && t[n + 5] == hex_char(b.day % 10));
    lemma_two_digits(a.day, b.day);
    assert(s[n + 7] == hex_char(a.hour / 10) && s[n + 8] == hex_char(a.hour % 10));
    assert(t[n + 7] == hex_char(b.hour / 10) && t[n + 8] == hex_char(b.hour % 10));
    lemma_two_digits(a.hour, b.hour);
    assert(s[n + 10] == hex_char(a.minute / 10) && s[n + 11] == hex_char(a.minute % 10));
    assert(t[n + 10] == hex_char(b.minute / 10) && t[n + 11] == hex_char(b.minute % 10));
    lemma_two_digits(a.minute, b.minute);
    assert(s[n + 13] == hex_char(a.second / 10) && s[n + 14] == hex_char(a.second % 10));
    assert(t[n + 13] == hex_char(b.second / 10) && t[n + 14] == hex_char(b.second % 10));
    lemma_two_digits(a.second, b.second);
}

/// From a timestamp of the table the second that it shows can be read back.
pub proof fn law_clock_stamps_tell_seconds_apart(text: Seq<char>, local: int, other: int)
    requires
        shows(text, local, CLOCK_FORMAT@),
        shows(text, other, CLOCK_FORMAT@),
    ensures
        local == other,
{
    let a = choose|c: Civil|
        #![trigger c.epoch_seconds()]
        c.valid() && c.epoch_seconds() == local && text == filled_in(CLOCK_FORMAT@, c);
    let b = choose|c: Civil|
        #![trigger c.epoch_seconds()]
        c.valid() && c.epoch_seconds() == other && text == filled_in(CLOCK_FORMAT@, c);
    lemma_stamp_text(a);
    lemma_stamp_text(b);
    lemma_stamp_text_is_injective(a, b, ' ', ':');
}

/// From a timestamp of a file name the second that it shows can be read back.
pub proof fn law_file_stamps_tell_seconds_apart(text: Seq<char>, local: int, other: int)
    requires
        shows(text, local, FILE_FORMAT@),
        shows(text, other, FILE_FORMAT@),
    ensures
        local == other,
{
    let a = choose|c: Civil|
        #![trigger c.epoch_seconds()]
        c.valid() && c.epoch_seconds() == local && text == filled_in(FILE_FORMAT@, c);
    let b = choose|c: Civil|
        #![trigger c.epoch_seconds()]
        c.valid() && c.epoch_seconds() == other && text == filled_in(FILE_FORMAT@, c);
    lemma_stamp_text(a);
    lemma_stamp_text(b);
    lemma_stamp_text_is_injective(a, b, '_', '-');
}

/// `text` holds, from position `at` on, the two digits of `n`.
pub open spec fn two_digits_at(text: Seq<char>, at: int, n: int) -> bool {
    is_digit_of(text[at], n / 10) && is_digit_of(text[at + 1], n % 10)
}

/// The last fifteen characters of a timestamp are month, day, hour, minute and
/// second, two digits each, behind their separators.
spec fn laid_out(text: Seq<char>, c: Civil, local: int, gap: char, colon: char) -> bool {
    let n = text.len() as int;
    let s = local % 86400;
    &&& n >= 19
    &&& text[n - 15] == '-' && two_digits_at(text, n - 14, c.month)
    &&& text[n - 12] == '-' && two_digits_at(text, n - 11, c.day)
    &&& text[n - 9] == gap && two_digits_at(text, n - 8, s / 3600)
    &&& text[n - 6] == colon && two_digits_at(text, n - 5, s % 3600 / 60)
    &&& text[n - 3] == colon && two_digits_at(text, n - 2, s % 60)
    &&& 0 <= c.year <= 9999 ==> n == 19 && digits_value(text.take(4)) == c.year
}

proof fn lemma_four_digits_length(n: int)
    requires
        0 <= n,
    ensures
        four_digits(n).len() >= 4,
        n < 10000 ==> four_digits(n).len() == 4,
{
    if n >= 10000 {
        reveal_with_fuel(decimal_digits, 5);
        lemma_digits_value((n / 10000) as nat);
        assert(decimal_digits(n as nat).len() >= 4);
    }
}

/// The time of day is what is left of the day.
proof fn lemma_time_of_day(c: Civil)
    requires
        c.valid(),
    ensures
        c.epoch_seconds() / 86400 == c.epoch_day(),
        c.epoch_seconds() % 86400 / 3600 == c.hour,
        c.epoch_seconds() % 86400 % 3600 / 60 == c.minute,
        c.epoch_seconds() % 86400 % 60 == c.second,
{
    let (d, local) = (c.epoch_day(), c.epoch_seconds());
    let r = 60 * c.minute + c.second;
    let s = 3600 * c.hour + r;
    assert(local == d * 86400 + s);
    lemma_fundamental_div_mod_converse(local, 86400, d, s);
    lemma_fundamental_div_mod_converse(s, 3600, c.hour, r);
    lemma_fundamental_div_mod_converse(r, 60, c.minute, c.second);
    assert(s == (60 * c.hour + c.minute) * 60 + c.second);
    lemma_fundamental_div_mod_converse(s, 60, 60 * c.hour + c.minute, c.second);
}

/// Two digits stand where they are put.
proof fn lemma_two_digits_at(front: Seq<char>, n: int, back: Seq<char>)
    requires
        0 <= n < 100,
    ensures
        two_digits_at(front + two_digits(n) + back, front.len() as int, n),
{
    let text = front + two_digits(n) + back;
    assert(text[front.len() as int] == hex_char(n / 10));
    assert(text[front.len() as int + 1] == hex_char(n % 10));
}

/// Five pairs of digits between their separators, behind a front.
proof fn lemma_five_fields(
    front: Seq<char>,
    fields: (int, int, int, int, int),
    gap: char,
    colon: char,
    text: Seq<char>,
)
    requires
        0 <= fields.0 < 100 && 0 <= fields.1 < 100 && 0 <= fields.2 < 100 && 0 <= fields.3 < 100
            && 0 <= fields.4 < 100,
        text == front + (seq!['-'] + two_digits(fields.0) + seq!['-'] + two_digits(fields.1)
            + seq![gap] + two_digits(fields.2) + seq![colon] + two_digits(fields.3) + seq![colon]
            + two_digits(fields.4)),
    ensures
        text.len() == front.len() + 15,
        ({
            let n = text.len() as int;
            &&& text[n - 15] == '-' && two_digits_at(text, n - 14, fields.0)
            &&& text[n - 12] == '-' && two_digits_at(text, n - 11, fields.1)
            &&& text[n - 9] == gap && two_digits_at(text, n - 8, fields.2)
            &&& text[n - 6] == colon && two_digits_at(text, n - 5, fields.3)
            &&& text[n - 3] == colon && two_digits_at(text, n - 2, fields.4)
        }),
{
    let a = front + seq!['-'];
    let b = a + two_digits(fields.0) + seq!['-'];
    let c = b + two_digits(fields.1) + seq![gap];
    let d = c + two_digits(fields.2) + seq![colon];
    let e = d + two_digits(fields.3) + seq![colon];
    let none = Seq::<char>::empty();
    let te = two_digits(fields.4);
    let td = seq![colon] + te;
    let tc = seq![colon] + two_digits(fields.3) + td;
    let tb = seq![gap] + two_digits(fields.2) + tc;
    let ta = seq!['-'] + two_digits(fields.1) + tb;
    assert(text =~= a + two_digits(fields.0) + ta);
    assert(text =~= b + two_digits(fields.1) + tb);
    assert(text =~= c + two_digits(fields.2) + tc);
    assert(text =~= d + two_digits(fields.3) + td);
    assert(text =~= e + two_digits(fields.4) + none);
    lemma_two_digits_at(a, fields.0, ta);
    lemma_two_digits_at(b, fields.1, tb);
    lemma_two_digits_at(c, fields.2, tc);
    lemma_two_digits_at(d, fields.3, td);
    lemma_two_digits_at(e, fields.4, none);
}

proof fn lemma_laid_out(c: Civil, gap: char, colon: char)
    requires
        c.valid(),
    ensures
        laid_out(stamp_text(c, gap, colon), c, c.epoch_seconds(), gap, colon),
{
    let y = if c.year < 0 { -c.year } else { c.year };
    lemma_four_digits(y);
    lemma_four_digits_length(y);
    let text = stamp_text(c, gap, colon);
    let yt = year_text(c.year);
    lemma_time_of_day(c);
    lemma_five_fields(yt, (c.month, c.day, c.hour, c.minute, c.second), gap, colon, text);
    assert(yt.len() >= 4);
    if 0 <= c.year <= 9999 {
        assert(text.take(4) =~= four_digits(c.year));
    }
}

/// A timestamp of the table shows its instant as year, month, day, hour, minute
/// and second: the date is that of the day, and the time of day is what is left
/// of the day.
pub proof fn law_clock_stamp_layout(text: Seq<char>, local: int) -> (c: Civil)
    requires
        shows(text, local, CLOCK_FORMAT@),
    ensures
        c.valid(),
        c.epoch_day() == local / 86400,
        text.len() >= 19,
        text[text.len() - 15] == '-' && text[text.len() - 12] == '-',
        text[text.len() - 9] == ' ' && text[text.len() - 6] == ':' && text[text.len() - 3] == ':',
        two_digits_at(text, text.len() - 14, c.month),
        two_digits_at(text, text.len() - 11, c.day),
        two_digits_at(text, text.len() - 8, local % 86400 / 3600),
        two_digits_at(text, text.len() - 5, local % 3600 / 60),
        two_digits_at(text, text.len() - 2, local % 60),
        0 <= c.year <= 9999 ==> text.len() == 19 && digits_value(text.take(4)) == c.year,
{
    let c = choose|c: Civil|
        #![trigger c.epoch_seconds()]
        c.valid() && c.epoch_seconds() == local && text == filled_in(CLOCK_FORMAT@, c);
    lemma_stamp_text(c);
    lemma_laid_out(c, ' ', ':');
    lemma_time_of_day(c);
    lemma_remainders(local);
    c
}

/// A timestamp of a file name shows its instant in the same way, with an
/// underscore before the time of day and hyphens in it.
pub proof fn law_file_stamp_layout(text: Seq<char>, local: int) -> (c: Civil)
    requires
        shows(text, local, FILE_FORMAT@),
    ensures
        c.valid(),
        c.epoch_day() == local / 86400,
        text.len() >= 19,
        text[text.len() - 15] == '-' && text[text.len() - 12] == '-',
        text[text.len() - 9] == '_' && text[text.len() - 6] == '-' && text[text.len() - 3] == '-',
        two_digits_at(text, text.len() - 14, c.month),
        two_digits_at(text, text.len() - 11, c.day),
        two_digits_at(text, text.len() - 8, local % 86400 / 3600),
        two_digits_at(text, text.len() - 5, local % 3600 / 60),
        two_digits_at(text, text.len() - 2, local % 60),
        0 <= c.year <= 9999 ==> text.len() == 19 && digits_value(text.take(4)) == c.year,
{
    let c = choose|c: Civil|
        #![trigger c.epoch_seconds()]
        c.valid() && c.epoch_seconds() == local && text == filled_in(FILE_FORMAT@, c);
    lemma_stamp_text(c);
    lemma_laid_out(c, '_', '-');
    lemma_time_of_day(c);
    lemma_remainders(local);
    c
}

proof fn lemma_remainders(local: int)
    ensures
        local % 86400 % 3600 == local % 3600,
        local % 86400 % 60 == local % 60,
{
    lemma_mod_mod(local, 3600, 24);
    lemma_mod_mod(local, 60, 1440);
}

} // verus!
