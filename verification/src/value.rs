//! Raw storage values and what they convert to.
//!
//! A [`RawValue`] holds one cell as the MySQL client hands it out, floating-point
//! cells excepted: those are not modelled. The conversions themselves are the
//! client library's; what they return is stated here over [`Cell`], the view of
//! a raw value.
use vstd::prelude::*;
use vstd::utf8::{decode_utf8, valid_utf8};

use crate::outside::{mysql_date, mysql_int, mysql_int64, mysql_text};
use crate::text::{is_date, CalendarDate};

verus! {

/// One cell of a row as storage returns it.
#[derive(Debug, PartialEq, Eq)]
pub enum RawValue {
    Null,
    Bytes(Vec<u8>),
    Int(i64),
    UInt(u64),
    /// year, month, day, hour, minutes, seconds, microseconds
    Date(u16, u8, u8, u8, u8, u8, u32),
    /// is negative, days, hours, minutes, seconds, microseconds
    Time(bool, u32, u8, u8, u8, u32),
}

/// A raw value as a mathematical value.
pub enum Cell {
    Null,
    Bytes(Seq<u8>),
    Int(i64),
    UInt(u64),
    Date(u16, u8, u8, u8, u8, u8, u32),
    Time(bool, u32, u8, u8, u8, u32),
}

impl View for RawValue {
    type V = Cell;

    open spec fn view(&self) -> Cell {
        match *self {
            RawValue::Null => Cell::Null,
            RawValue::Bytes(b) => Cell::Bytes(b@),
            RawValue::Int(x) => Cell::Int(x),
            RawValue::UInt(x) => Cell::UInt(x),
            RawValue::Date(y, mo, d, h, mi, s, us) => Cell::Date(y, mo, d, h, mi, s, us),
            RawValue::Time(n, d, h, mi, s, us) => Cell::Time(n, d, h, mi, s, us),
        }
    }
}

impl Clone for RawValue {
    fn clone(&self) -> (r: Self)
        ensures
            r@ == self@,
    {
        match self {
            RawValue::Null => RawValue::Null,
            RawValue::Bytes(b) => RawValue::Bytes(b.clone()),
            RawValue::Int(x) => RawValue::Int(*x),
            RawValue::UInt(x) => RawValue::UInt(*x),
            RawValue::Date(y, mo, d, h, mi, s, us) => RawValue::Date(*y, *mo, *d, *h, *mi, *s, *us),
            RawValue::Time(n, d, h, mi, s, us) => RawValue::Time(*n, *d, *h, *mi, *s, *us),
        }
    }
}

/// The views of the cells of a row.
pub open spec fn cells(row: Seq<RawValue>) -> Seq<Cell> {
    Seq::new(row.len(), |i: int| row[i]@)
}

/// The views of the texts of a list.
pub open spec fn texts(list: Seq<String>) -> Seq<Seq<char>> {
    Seq::new(list.len(), |i: int| list[i]@)
}

/// An ASCII decimal digit.
pub open spec fn is_digit(b: u8) -> bool {
    48 <= b <= 57
}

/// The number that an ASCII decimal digit stands for.
pub open spec fn digit_value(b: u8) -> int {
    b - 48
}

/// The bytes of `b` from `from` up to `to` are decimal digits.
pub open spec fn digits_in(b: Seq<u8>, from: int, to: int) -> bool {
    forall|i: int| from <= i < to ==> is_digit(#[trigger] b[i])
}

/// The number that the decimal digits `b` denote.
pub open spec fn decimal_value(b: Seq<u8>) -> nat
    decreases b.len(),
{
    if b.len() == 0 {
        0
    } else {
        decimal_value(b.drop_last()) * 10 + digit_value(b.last()) as nat
    }
}

/// One decimal digit or more, and nothing else.
pub open spec fn all_digits(b: Seq<u8>) -> bool {
    b.len() > 0 && digits_in(b, 0, b.len() as int)
}

/// The integer that the text `b` denotes: decimal digits, after `+` or `-` if
/// one leads.
pub open spec fn text_int(b: Seq<u8>) -> Option<int> {
    if b.len() > 0 && (b[0] == 45 || b[0] == 43) {
        if all_digits(b.drop_first()) {
            if b[0] == 45 {
                Some(-(decimal_value(b.drop_first()) as int))
            } else {
                Some(decimal_value(b.drop_first()) as int)
            }
        } else {
            None
        }
    } else if all_digits(b) {
        Some(decimal_value(b) as int)
    } else {
        None
    }
}

/// `b` starts with `dddd-dd-dd`.
pub open spec fn date_shape(b: Seq<u8>) -> bool {
    b.len() >= 10 && digits_in(b, 0, 4) && b[4] == 45 && digits_in(b, 5, 7) && b[7] == 45
        && digits_in(b, 8, 10)
}

/// `b` goes on, after a date, with ` dd:dd:dd`.
pub open spec fn time_shape(b: Seq<u8>) -> bool {
    b.len() >= 19 && b[10] == 32 && digits_in(b, 11, 13) && b[13] == 58 && digits_in(b, 14, 16)
        && b[16] == 58 && digits_in(b, 17, 19)
}

/// `b` ends, after date and time, with a point and one to six digits.
pub open spec fn fraction_shape(b: Seq<u8>) -> bool {
    21 <= b.len() <= 26 && b[19] == 46 && digits_in(b, 20, b.len() as int)
}

/// `b` is a date, or a date and a time of day, with or without a fraction of
/// the second.
pub open spec fn is_date_text(b: Seq<u8>) -> bool {
    date_shape(b) && (b.len() == 10 || (time_shape(b) && (b.len() == 19 || fraction_shape(b))))
}

/// The year that a text in date form starts with.
pub open spec fn text_year(b: Seq<u8>) -> int {
    digit_value(b[0]) * 1000 + digit_value(b[1]) * 100 + digit_value(b[2]) * 10 + digit_value(
        b[3],
    )
}

/// The month of a text in date form.
pub open spec fn text_month(b: Seq<u8>) -> int {
    digit_value(b[5]) * 10 + digit_value(b[6])
}

/// The day of the month of a text in date form.
pub open spec fn text_day(b: Seq<u8>) -> int {
    digit_value(b[8]) * 10 + digit_value(b[9])
}

/// The text that a cell converts to: the characters of a byte string that
/// is valid UTF-8. No other cell converts.
pub open spec fn text_of(c: Cell) -> Option<Seq<char>> {
    match c {
        Cell::Bytes(b) => if valid_utf8(b) {
            Some(decode_utf8(b))
        } else {
            None
        },
        _ => None,
    }
}

/// The 32-bit integer that a cell converts to: an integer cell within range,
/// or a byte string that denotes one.
pub open spec fn int_of(c: Cell) -> Option<i32> {
    match c {
        Cell::Int(x) => if i32::MIN <= x <= i32::MAX {
            Some(x as i32)
        } else {
            None
        },
        Cell::UInt(x) => if x <= i32::MAX {
            Some(x as i32)
        } else {
            None
        },
        Cell::Bytes(b) => match text_int(b) {
            Some(n) => if i32::MIN <= n <= i32::MAX {
                Some(n as i32)
            } else {
                None
            },
            None => None,
        },
        _ => None,
    }
}

/// The 64-bit integer that a cell converts to: an integer cell within range,
/// or a byte string that denotes one.
pub open spec fn int64_of(c: Cell) -> Option<i64> {
    match c {
        Cell::Int(x) => Some(x),
        Cell::UInt(x) => if x <= i64::MAX {
            Some(x as i64)
        } else {
            None
        },
        Cell::Bytes(b) => match text_int(b) {
            Some(n) => if i64::MIN <= n <= i64::MAX {
                Some(n as i64)
            } else {
                None
            },
            None => None,
        },
        _ => None,
    }
}

/// The calendar date that a cell converts to: the day of a date cell, or of
/// a byte string in date form, where that day exists.
pub open spec fn date_of(c: Cell) -> Option<CalendarDate> {
    match c {
        Cell::Date(y, m, d, _, _, _, _) => if is_date(y as int, m as int, d as int) {
            Some(CalendarDate { year: y as i32, month: m as u32, day: d as u32 })
        } else {
            None
        },
        Cell::Bytes(b) => if is_date_text(b) && is_date(text_year(b), text_month(b), text_day(b)) {
            Some(
                CalendarDate {
                    year: text_year(b) as i32,
                    month: text_month(b) as u32,
                    day: text_day(b) as u32,
                },
            )
        } else {
            None
        },
        _ => None,
    }
}

/// Every byte is below 128.
pub open spec fn is_ascii_bytes(b: Seq<u8>) -> bool {
    forall|i: int| 0 <= i < b.len() ==> #[trigger] b[i] < 128
}

/// Whether every byte of `b` is below 128.
fn ascii_only(b: &Vec<u8>) -> (r: bool)
    ensures
        r == is_ascii_bytes(b@),
{
    let mut i: usize = 0;
    while i < b.len()
        invariant
            i <= b.len(),
            forall|j: int| 0 <= j < i ==> #[trigger] b@[j] < 128,
        decreases b.len() - i,
    {
        if b[i] >= 128 {
            return false;
        }
        i += 1;
    }
    true
}

impl RawValue {
    /// The text of the cell, if it converts to text.
    pub fn as_text(&self) -> (r: Option<String>)
        ensures
            match r {
                Some(s) => text_of(self@) == Some(s@),
                None => text_of(self@) is None,
            },
    {
        mysql_text(self)
    }

    /// The 32-bit integer of the cell, if it converts to one.
    pub fn as_int(&self) -> (r: Option<i32>)
        ensures
            r == int_of(self@),
    {
        mysql_int(self)
    }

    /// The 64-bit integer of the cell, if it converts to one.
    pub fn as_int64(&self) -> (r: Option<i64>)
        ensures
            r == int64_of(self@),
    {
        mysql_int64(self)
    }

    /// The calendar date of the cell, if it converts to one.
    pub fn as_date(&self) -> (r: Option<CalendarDate>)
        ensures
            r == date_of(self@),
            r matches Some(d) ==> d.valid(),
    {
        if let RawValue::Bytes(b) = self {
            if !ascii_only(b) {
                proof {
                    let i = choose|i: int| 0 <= i < b@.len() && !(#[trigger] b@[i] < 128);
                    assert(!is_digit(b@[i]));
                }
                return None;
            }
        }
        mysql_date(self)
    }
}

} // verus!
