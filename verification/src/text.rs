//! Canonical text forms: decimal integers and calendar dates.
use vstd::prelude::*;

use crate::outside::push_char;

verus! {

/// The character of the decimal digit `d`, `0 <= d <= 9`.
pub open spec fn digit_char(d: int) -> char {
    (48 + d) as char
}

/// The decimal digits of `n`, without leading zeros.
pub open spec fn digits(n: nat) -> Seq<char>
    decreases n,
{
    if n < 10 {
        seq![digit_char(n as int)]
    } else {
        digits(n / 10).push(digit_char((n % 10) as int))
    }
}

/// Decimal integer text: a minus sign for a negative number, then its digits.
pub open spec fn int_text(i: int) -> Seq<char> {
    if i < 0 {
        seq!['-'] + digits((-i) as nat)
    } else {
        digits(i as nat)
    }
}

/// The two decimal digits of `n`, `n < 100`.
pub open spec fn two_digits(n: nat) -> Seq<char> {
    seq![digit_char((n / 10) as int), digit_char((n % 10) as int)]
}

/// The year of a date text: four digits up to 9999, a plus sign and the
/// digits beyond.
pub open spec fn year_text(year: nat) -> Seq<char> {
    if year <= 9999 {
        two_digits(year / 100) + two_digits(year % 100)
    } else {
        seq!['+'] + digits(year)
    }
}

/// Calendar date text, `YYYY-MM-DD`.
pub open spec fn date_text(year: nat, month: nat, day: nat) -> Seq<char> {
    year_text(year) + seq!['-'] + two_digits(month) + seq!['-'] + two_digits(day)
}

/// A leap year of the proleptic Gregorian calendar.
pub open spec fn is_leap_year(year: int) -> bool {
    year % 4 == 0 && (year % 100 != 0 || year % 400 == 0)
}

/// The number of days of `month` in `year`; 0 where there is no such month.
pub open spec fn days_in_month(year: int, month: int) -> int {
    if month == 2 {
        if is_leap_year(year) {
            29
        } else {
            28
        }
    } else if month == 4 || month == 6 || month == 9 || month == 11 {
        30
    } else if 1 <= month <= 12 {
        31
    } else {
        0
    }
}

/// `year`-`month`-`day` is a day of the calendar.
pub open spec fn is_date(year: int, month: int, day: int) -> bool {
    1 <= day <= days_in_month(year, month)
}

/// The number of days from the first day of 1970 to a day of the proleptic
/// Gregorian calendar; negative for a day before 1970.
pub open spec fn days_from_epoch(year: int, month: int, day: int) -> int {
    let y = if month <= 2 {
        year - 1
    } else {
        year
    };
    let era = y / 400;
    let year_of_era = y - era * 400;
    let shifted_month = if month > 2 {
        month - 3
    } else {
        month + 9
    };
    let day_of_year = (153 * shifted_month + 2) / 5 + day - 1;
    let day_of_era = year_of_era * 365 + year_of_era / 4 - year_of_era / 100 + day_of_year;
    era * 146097 + day_of_era - 719468
}

/// The UNIX timestamp of the start of a day, in UTC: 86400 seconds for each
/// day since the start of 1970.
pub open spec fn unix_midnight(year: int, month: int, day: int) -> int {
    86400 * days_from_epoch(year, month, day)
}

/// A day of the calendar.
#[derive(Clone, Copy, Debug, PartialEq, Eq, Structural)]
pub struct CalendarDate {
    pub year: i32,
    pub month: u32,
    pub day: u32,
}

/// The last year that a date can lie in.
pub const MAX_YEAR: i32 = 262142;

impl CalendarDate {
    /// The date names a day that exists, in a year from 0 to [`MAX_YEAR`].
    pub open spec fn valid(self) -> bool {
        0 <= self.year <= MAX_YEAR && is_date(
            self.year as int,
            self.month as int,
            self.day as int,
        )
    }

    /// The date as `YYYY-MM-DD`.
    pub open spec fn text(self) -> Seq<char> {
        date_text(self.year as nat, self.month as nat, self.day as nat)
    }
}

fn digit(d: u64) -> (c: char)
    requires
        d < 10,
    ensures
        c == digit_char(d as int),
{
    let b: u8 = 48 + (d as u8);
    b as char
}

fn push_digits(s: &mut String, n: u64)
    ensures
        final(s)@ == old(s)@ + digits(n as nat),
    decreases n,
{
    if n >= 10 {
        push_digits(s, n / 10);
    }
    push_char(s, digit(n % 10));
    assert(s@ =~= old(s)@ + digits(n as nat));
}

fn push_two_digits(s: &mut String, n: u64)
    requires
        n < 100,
    ensures
        final(s)@ == old(s)@ + two_digits(n as nat),
{
    push_char(s, digit(n / 10));
    push_char(s, digit(n % 10));
    assert(s@ =~= old(s)@ + two_digits(n as nat));
}

/// The decimal text of `i`.
pub fn render_int(i: i32) -> (s: String)
    ensures
        s@ == int_text(i as int),
{
    let mut s = String::new();
    let wide: i64 = i as i64;
    if wide < 0 {
        push_char(&mut s, '-');
        push_digits(&mut s, (-wide) as u64);
    } else {
        push_digits(&mut s, wide as u64);
    }
    assert(s@ =~= int_text(i as int));
    s
}

/// The text `YYYY-MM-DD` of a date.
pub fn render_date(date: CalendarDate) -> (s: String)
    requires
        date.valid(),
    ensures
        s@ == date.text(),
{
    let mut s = String::new();
    let year: u64 = date.year as u64;
    if year <= 9999 {
        push_two_digits(&mut s, year / 100);
        push_two_digits(&mut s, year % 100);
    } else {
        push_char(&mut s, '+');
        push_digits(&mut s, year);
    }
    assert(s@ =~= year_text(date.year as nat));
    push_char(&mut s, '-');
    push_two_digits(&mut s, date.month as u64);
    push_char(&mut s, '-');
    push_two_digits(&mut s, date.day as u64);
    assert(s@ =~= date.text());
    s
}

} // verus!
