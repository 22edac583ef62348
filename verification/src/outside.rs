//! What the library has from outside: calls into `mysql`, `chrono` and
//! `rand`, and into functions of the standard library that come without a
//! specification. Nothing in this file is proved. Each contract states what the
//! called function's source or documentation says of it, and the rest of the
//! library is proved from these contracts.
use vstd::prelude::*;

use chrono::{Datelike, NaiveDate};
use mysql::from_value_opt;
use mysql::Value;

use crate::codec::contains_text;
use crate::text::{unix_midnight, CalendarDate};
use crate::token::is_alphanumeric;
use crate::value::{date_of, int64_of, int_of, is_ascii_bytes, text_of, Cell, RawValue};

verus! {

/// `rand::Rng::sample` on the thread's generator with
/// `rand::distributions::Alphanumeric`: one character drawn from `A`-`Z`,
/// `a`-`z` and `0`-`9`. Which one is left open.
#[verifier::external_body]
pub(crate) fn sample_alphanumeric() -> (c: char)
    ensures
        is_alphanumeric(c),
{
    rand::Rng::sample(&mut rand::thread_rng(), rand::distributions::Alphanumeric)
}

/// `String::push`: appends one character.
#[verifier::external_body]
pub(crate) fn push_char(s: &mut String, c: char)
    ensures
        final(s)@ == old(s)@.push(c),
{
    s.push(c)
}

/// `str::contains` with a string pattern: whether the pattern occurs in the
/// string.
#[verifier::external_body]
pub(crate) fn str_contains(hay: &str, needle: &str) -> (r: bool)
    ensures
        r == contains_text(hay@, needle@),
{
    hay.contains(needle)
}

/// The lower-case form of a text, as `str::to_lowercase` gives it.
pub uninterp spec fn lowercase(s: Seq<char>) -> Seq<char>;

/// `str::to_lowercase`: the lower-case form of a text.
#[verifier::external_body]
pub(crate) fn to_lowercase(s: &str) -> (r: String)
    ensures
        r@ == lowercase(s@),
{
    s.to_lowercase()
}

/// `mysql::from_value_opt::<String>`: a byte string that is valid UTF-8
/// converts to its text; every other value is refused.
#[verifier::external_body]
pub(crate) fn mysql_text(v: &RawValue) -> (r: Option<String>)
    ensures
        match r {
            Some(s) => text_of(v@) == Some(s@),
            None => text_of(v@) is None,
        },
{
    let value = match v {
        RawValue::Null => Value::NULL,
        RawValue::Bytes(b) => Value::Bytes(b.clone()),
        RawValue::Int(x) => Value::Int(*x),
        RawValue::UInt(x) => Value::UInt(*x),
        RawValue::Date(y, mo, d, h, mi, s, us) => Value::Date(*y, *mo, *d, *h, *mi, *s, *us),
        RawValue::Time(n, d, h, mi, s, us) => Value::Time(*n, *d, *h, *mi, *s, *us),
    };
    from_value_opt::<String>(value).ok()
}

/// `mysql::from_value_opt::<i32>`: an integer value converts if it fits; a
/// byte string converts if it is an optional sign and decimal digits that
/// denote a number that fits; every other value is refused.
#[verifier::external_body]
pub(crate) fn mysql_int(v: &RawValue) -> (r: Option<i32>)
    ensures
        r == int_of(v@),
{
    let value = match v {
        RawValue::Null => Value::NULL,
        RawValue::Bytes(b) => Value::Bytes(b.clone()),
        RawValue::Int(x) => Value::Int(*x),
        RawValue::UInt(x) => Value::UInt(*x),
        RawValue::Date(y, mo, d, h, mi, s, us) => Value::Date(*y, *mo, *d, *h, *mi, *s, *us),
        RawValue::Time(n, d, h, mi, s, us) => Value::Time(*n, *d, *h, *mi, *s, *us),
    };
    from_value_opt::<i32>(value).ok()
}

/// `mysql::from_value_opt::<i64>`: as for 32 bits, with the range of 64.
#[verifier::external_body]
pub(crate) fn mysql_int64(v: &RawValue) -> (r: Option<i64>)
    ensures
        r == int64_of(v@),
{
    let value = match v {
        RawValue::Null => Value::NULL,
        RawValue::Bytes(b) => Value::Bytes(b.clone()),
        RawValue::Int(x) => Value::Int(*x),
        RawValue::UInt(x) => Value::UInt(*x),
        RawValue::Date(y, mo, d, h, mi, s, us) => Value::Date(*y, *mo, *d, *h, *mi, *s, *us),
        RawValue::Time(n, d, h, mi, s, us) => Value::Time(*n, *d, *h, *mi, *s, *us),
    };
    from_value_opt::<i64>(value).ok()
}

/// `mysql::from_value_opt::<chrono::NaiveDate>`, then the date's year, month
/// and day: a date value converts to its day, a byte string in one of the
/// forms `YYYY-MM-DD`, `YYYY-MM-DD hh:mm:ss` and `YYYY-MM-DD hh:mm:ss.f` (one
/// to six digits `f`) to the day it starts with, each only where that day
/// exists; every other value is refused. A byte string must be ASCII: on some
/// that are not, the conversion does not return.
#[verifier::external_body]
pub(crate) fn mysql_date(v: &RawValue) -> (r: Option<CalendarDate>)
    requires
        v@ matches Cell::Bytes(b) ==> is_ascii_bytes(b),
    ensures
        r == date_of(v@),
{
    let value = match v {
        RawValue::Null => Value::NULL,
        RawValue::Bytes(b) => Value::Bytes(b.clone()),
        RawValue::Int(x) => Value::Int(*x),
        RawValue::UInt(x) => Value::UInt(*x),
        RawValue::Date(y, mo, d, h, mi, s, us) => Value::Date(*y, *mo, *d, *h, *mi, *s, *us),
        RawValue::Time(n, d, h, mi, s, us) => Value::Time(*n, *d, *h, *mi, *s, *us),
    };
    let date = from_value_opt::<NaiveDate>(value).ok()?;
    Some(CalendarDate { year: date.year(), month: date.month(), day: date.day() })
}

/// `chrono::NaiveDate::from_ymd_opt`, `and_hms_opt(0, 0, 0)`, `and_utc` and
/// `timestamp`: the number of non-leap seconds from the start of 1970 to the
/// start of the day, in UTC, which is 86400 for each day of the proleptic
/// Gregorian calendar between the two. The day must exist and lie in a year
/// that `NaiveDate` takes, or there is no date to start from.
#[verifier::external_body]
pub(crate) fn midnight(date: CalendarDate) -> (t: i64)
    requires
        date.valid(),
    ensures
        t == unix_midnight(date.year as int, date.month as int, date.day as int),
{
    NaiveDate::from_ymd_opt(date.year, date.month, date.day).unwrap().and_hms_opt(
        0,
        0,
        0,
    ).unwrap().and_utc().timestamp()
}

} // verus!
