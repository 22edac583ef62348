//! The typed row codec: from raw storage rows to canonical text, column by
//! column, as the column's declared type asks.
//!
//! A column whose type tag contains `date` renders as `YYYY-MM-DD`; one whose
//! tag contains `int` as a decimal integer; every other one as its text. A cell
//! that does not convert to what its column asks makes the whole row fail.
use vstd::prelude::*;
use vstd::utf8::{
    encode_utf8, encode_utf8_decode_utf8, encode_utf8_valid_utf8, is_ascii_chars,
    is_ascii_chars_encode_utf8,
};

use crate::outside::str_contains;
use crate::text::{date_text, digit_char, digits, int_text, render_date, render_int};
use crate::value::{
    all_digits, cells, date_of, decimal_value, int_of, is_date_text, text_day, text_int,
    text_month, text_of, text_year, texts, Cell, RawValue,
};

verus! {

/// How a column renders.
#[derive(Clone, Copy, Debug, PartialEq, Eq, Structural)]
pub enum ColumnKind {
    Date,
    Integer,
    Text,
}

/// `needle` occurs in `hay` as a run of consecutive characters.
pub open spec fn contains_text(hay: Seq<char>, needle: Seq<char>) -> bool {
    exists|i: int|
        0 <= i && i + needle.len() <= hay.len() && #[trigger] hay.subrange(
            i,
            i + needle.len(),
        ) == needle
}

/// The kind of a column, from its type tag.
pub open spec fn kind_of(tag: Seq<char>) -> ColumnKind {
    if contains_text(tag, "date"@) {
        ColumnKind::Date
    } else if contains_text(tag, "int"@) {
        ColumnKind::Integer
    } else {
        ColumnKind::Text
    }
}

/// The canonical text of a cell in a column with type tag `tag`.
pub open spec fn encoded(tag: Seq<char>, c: Cell) -> Option<Seq<char>> {
    match kind_of(tag) {
        ColumnKind::Date => match date_of(c) {
            Some(d) => Some(d.text()),
            None => None,
        },
        ColumnKind::Integer => match int_of(c) {
            Some(i) => Some(int_text(i as int)),
            None => None,
        },
        ColumnKind::Text => text_of(c),
    }
}

/// Every cell of `row` has a type tag and converts to what it asks.
pub open spec fn row_encodes(tags: Seq<Seq<char>>, row: Seq<Cell>) -> bool {
    row.len() <= tags.len() && forall|i: int|
        0 <= i < row.len() ==> (#[trigger] encoded(tags[i], row[i])) is Some
}

/// The canonical texts of `row`, cell by cell.
pub open spec fn encoded_row(tags: Seq<Seq<char>>, row: Seq<Cell>) -> Seq<Seq<char>> {
    Seq::new(row.len(), |i: int| encoded(tags[i], row[i]).unwrap())
}

/// The views of the rows of a table.
pub open spec fn table(rows: Seq<Vec<RawValue>>) -> Seq<Seq<Cell>> {
    Seq::new(rows.len(), |i: int| cells(rows[i]@))
}

/// The views of the rows of an encoded table.
pub open spec fn grid(rows: Seq<Vec<String>>) -> Seq<Seq<Seq<char>>> {
    Seq::new(rows.len(), |i: int| texts(rows[i]@))
}

/// Every row of `rows` encodes.
pub open spec fn rows_encode(tags: Seq<Seq<char>>, rows: Seq<Seq<Cell>>) -> bool {
    forall|i: int| 0 <= i < rows.len() ==> row_encodes(tags, #[trigger] rows[i])
}

/// The canonical texts of `rows`, row by row.
pub open spec fn encoded_rows(tags: Seq<Seq<char>>, rows: Seq<Seq<Cell>>) -> Seq<Seq<Seq<char>>> {
    Seq::new(rows.len(), |i: int| encoded_row(tags, rows[i]))
}

/// Every row of `rows` has a cell `index` that converts to text.
pub open spec fn column_reads(rows: Seq<Seq<Cell>>, index: int) -> bool {
    forall|i: int|
        0 <= i < rows.len() ==> index < (#[trigger] rows[i]).len() && text_of(rows[i][index])
            is Some
}

/// The texts of cell `index`, row by row.
pub open spec fn column_texts(rows: Seq<Seq<Cell>>, index: int) -> Seq<Seq<char>> {
    Seq::new(rows.len(), |i: int| text_of(rows[i][index]).unwrap())
}

/// A text as storage holds it: the bytes of its UTF-8 encoding.
pub open spec fn stored(t: Seq<char>) -> Cell {
    Cell::Bytes(encode_utf8(t))
}

proof fn lemma_digits_read_back(n: nat)
    ensures
        is_ascii_chars(digits(n)),
        digits(n).len() >= 1,
        48 <= digits(n)[0] as int <= 57,
        all_digits(encode_utf8(digits(n))),
        decimal_value(encode_utf8(digits(n))) == n,
    decreases n,
{
    let text = digits(n);
    if n >= 10 {
        lemma_digits_read_back(n / 10);
        let front = digits(n / 10);
        is_ascii_chars_encode_utf8(front);
        assert(text.drop_last() =~= front);
        assert forall|i: int| 0 <= i < text.len() implies '\0' <= #[trigger] text[i] <= '\u{7f}' by {
            if i < front.len() {
                assert(text[i] == front[i]);
            }
        }
        is_ascii_chars_encode_utf8(text);
        assert(encode_utf8(text).drop_last() =~= encode_utf8(front));
        assert(text[0] == front[0]);
    } else {
        is_ascii_chars_encode_utf8(text);
        assert(encode_utf8(text).drop_last() =~= Seq::<u8>::empty());
    }
    let bytes = encode_utf8(text);
    assert(bytes.last() == 48 + n % 10);
    assert(decimal_value(Seq::<u8>::empty()) == 0);
    assert(decimal_value(bytes) == decimal_value(bytes.drop_last()) * 10 + (n % 10));
    assert forall|i: int| 0 <= i < bytes.len() implies 48 <= #[trigger] bytes[i] <= 57 by {
        if i < bytes.len() - 1 {
            assert(bytes[i] == bytes.drop_last()[i]);
        }
    }
}

proof fn lemma_int_reads_back(i: int)
    ensures
        text_int(encode_utf8(int_text(i))) == Some(i),
{
    let text = int_text(i);
    if i < 0 {
        let tail = digits((-i) as nat);
        lemma_digits_read_back((-i) as nat);
        is_ascii_chars_encode_utf8(tail);
        assert forall|j: int| 0 <= j < text.len() implies '\0' <= #[trigger] text[j] <= '\u{7f}' by {
            if j > 0 {
                assert(text[j] == tail[j - 1]);
            }
        }
        is_ascii_chars_encode_utf8(text);
        assert(encode_utf8(text).drop_first() =~= encode_utf8(tail));
        assert(encode_utf8(text)[0] == 45);
    } else {
        lemma_digits_read_back(i as nat);
        is_ascii_chars_encode_utf8(text);
        assert(encode_utf8(text)[0] == text[0] as u8);
    }
}

proof fn lemma_date_reads_back(year: nat, month: nat, day: nat)
    requires
        year <= 9999,
        month <= 99,
        day <= 99,
    ensures
        is_date_text(encode_utf8(date_text(year, month, day))),
        text_year(encode_utf8(date_text(year, month, day))) == year,
        text_month(encode_utf8(date_text(year, month, day))) == month,
        text_day(encode_utf8(date_text(year, month, day))) == day,
{
    let text = date_text(year, month, day);
    assert(text =~= seq![
        digit_char((year / 100 / 10) as int),
        digit_char((year / 100 % 10) as int),
        digit_char((year % 100 / 10) as int),
        digit_char((year % 100 % 10) as int),
        '-',
        digit_char((month / 10) as int),
        digit_char((month % 10) as int),
        '-',
        digit_char((day / 10) as int),
        digit_char((day % 10) as int),
    ]);
    is_ascii_chars_encode_utf8(text);
    let bytes = encode_utf8(text);
    assert(bytes[0] == text[0] as u8);
    assert(bytes[1] == text[1] as u8);
    assert(bytes[2] == text[2] as u8);
    assert(bytes[3] == text[3] as u8);
    assert(bytes[4] == text[4] as u8);
    assert(bytes[5] == text[5] as u8);
    assert(bytes[6] == text[6] as u8);
    assert(bytes[7] == text[7] as u8);
    assert(bytes[8] == text[8] as u8);
    assert(bytes[9] == text[9] as u8);
}

/// Encoding a cell and reading the text back, as storage would hold it,
/// gives the same value: the same calendar date in a date column (for years
/// up to 9999), the same integer in an integer column, the same text in any
/// other; and the text encodes to itself.
pub proof fn lemma_round_trip(tag: Seq<char>, c: Cell)
    requires
        encoded(tag, c) is Some,
        kind_of(tag) == ColumnKind::Date ==> date_of(c).unwrap().year <= 9999,
    ensures
        kind_of(tag) == ColumnKind::Date ==> date_of(stored(encoded(tag, c).unwrap())) == date_of(c),
        kind_of(tag) == ColumnKind::Integer ==> int_of(stored(encoded(tag, c).unwrap())) == int_of(
            c,
        ),
        kind_of(tag) == ColumnKind::Text ==> text_of(stored(encoded(tag, c).unwrap())) == text_of(
            c,
        ),
        encoded(tag, stored(encoded(tag, c).unwrap())) == encoded(tag, c),
{
    let t = encoded(tag, c).unwrap();
    match kind_of(tag) {
        ColumnKind::Date => {
            let d = date_of(c).unwrap();
            lemma_date_reads_back(d.year as nat, d.month as nat, d.day as nat);
        },
        ColumnKind::Integer => {
            lemma_int_reads_back(int_of(c).unwrap() as int);
        },
        ColumnKind::Text => {
            encode_utf8_valid_utf8(t);
            encode_utf8_decode_utf8(t);
        },
    }
}

/// The kind of the column with type tag `column_type`.
pub fn column_kind(column_type: &str) -> (kind: ColumnKind)
    ensures
        kind == kind_of(column_type@),
{
    if str_contains(column_type, "date") {
        ColumnKind::Date
    } else if str_contains(column_type, "int") {
        ColumnKind::Integer
    } else {
        ColumnKind::Text
    }
}

/// The canonical text of `value` in a column with type tag `column_type`.
pub fn encode_value(column_type: &str, value: &RawValue) -> (r: Option<String>)
    ensures
        match r {
            Some(s) => encoded(column_type@, value@) == Some(s@),
            None => encoded(column_type@, value@) is None,
        },
{
    match column_kind(column_type) {
        ColumnKind::Date => match value.as_date() {
            Some(d) => Some(render_date(d)),
            None => None,
        },
        ColumnKind::Integer => match value.as_int() {
            Some(i) => Some(render_int(i)),
            None => None,
        },
        ColumnKind::Text => value.as_text(),
    }
}

/// Appends the canonical text of `value` to `vec`; where the value does not
/// convert, `vec` stays as it is and the answer is `false`.
pub fn push_value(column_type: &str, value: &RawValue, vec: &mut Vec<String>) -> (done: bool)
    ensures
        done == encoded(column_type@, value@) is Some,
        done ==> texts(final(vec)@) == texts(old(vec)@).push(
            encoded(column_type@, value@).unwrap(),
        ),
        !done ==> final(vec)@ == old(vec)@,
{
    match encode_value(column_type, value) {
        Some(s) => {
            vec.push(s);
            assert(texts(vec@) =~= texts(old(vec)@).push(encoded(column_type@, value@).unwrap()));
            true
        },
        None => false,
    }
}

/// The canonical texts of `row` under the type tags `column_types`, or
/// `None` where a cell has no tag or does not convert.
pub fn return_row(column_types: &Vec<String>, row: &Vec<RawValue>) -> (r: Option<Vec<String>>)
    ensures
        match r {
            Some(out) => row_encodes(texts(column_types@), cells(row@)) && texts(out@)
                == encoded_row(texts(column_types@), cells(row@)),
            None => !row_encodes(texts(column_types@), cells(row@)),
        },
{
    if row.len() > column_types.len() {
        return None;
    }
    let ghost tags = texts(column_types@);
    let ghost line = cells(row@);
    let mut formatted_row: Vec<String> = Vec::new();
    let mut i: usize = 0;
    while i < row.len()
        invariant
            i <= row.len() <= column_types.len(),
            tags == texts(column_types@),
            line == cells(row@),
            formatted_row.len() == i,
            forall|j: int| 0 <= j < i ==> (#[trigger] encoded(tags[j], line[j])) is Some,
            forall|j: int|
                0 <= j < i ==> (#[trigger] formatted_row@[j])@ == encoded(tags[j], line[j]).unwrap(),
        decreases row.len() - i,
    {
        let ghost before = formatted_row@;
        if !push_value(column_types[i].as_str(), &row[i], &mut formatted_row) {
            assert(encoded(tags[i as int], line[i as int]) is None);
            return None;
        }
        proof {
            assert(texts(formatted_row@).len() == i + 1);
            assert forall|j: int| 0 <= j < i + 1 implies (#[trigger] formatted_row@[j])@ == encoded(
                tags[j],
                line[j],
            ).unwrap() by {
                assert(texts(formatted_row@)[j] == formatted_row@[j]@);
                if j < i {
                    assert(texts(before)[j] == before[j]@);
                }
            }
        }
        i += 1;
    }
    assert(texts(formatted_row@) =~= encoded_row(tags, line));
    Some(formatted_row)
}

/// The canonical texts of all `rows`, or `None` where one of them fails. No
/// rows give no texts.
pub fn encode_rows(column_types: &Vec<String>, rows: &Vec<Vec<RawValue>>) -> (r: Option<
    Vec<Vec<String>>,
>)
    ensures
        match r {
            Some(out) => rows_encode(texts(column_types@), table(rows@)) && grid(out@)
                == encoded_rows(texts(column_types@), table(rows@)),
            None => !rows_encode(texts(column_types@), table(rows@)),
        },
{
    let ghost tags = texts(column_types@);
    let ghost all = table(rows@);
    let mut processed_rows: Vec<Vec<String>> = Vec::new();
    let mut i: usize = 0;
    while i < rows.len()
        invariant
            i <= rows.len(),
            tags == texts(column_types@),
            all == table(rows@),
            processed_rows.len() == i,
            forall|j: int| 0 <= j < i ==> row_encodes(tags, #[trigger] all[j]),
            forall|j: int|
                0 <= j < i ==> texts((#[trigger] processed_rows@[j])@) == encoded_row(tags, all[j]),
        decreases rows.len() - i,
    {
        match return_row(column_types, &rows[i]) {
            Some(new_row) => {
                assert(all[i as int] == cells(rows@[i as int]@));
                processed_rows.push(new_row);
            },
            None => {
                assert(all[i as int] == cells(rows@[i as int]@));
                return None;
            },
        }
        i += 1;
    }
    assert(grid(processed_rows@) =~= encoded_rows(tags, all));
    Some(processed_rows)
}

/// The text of cell `index` of every row, or `None` where a row has no
/// such cell or the cell is no text.
pub fn read_column(rows: &Vec<Vec<RawValue>>, index: usize) -> (r: Option<Vec<String>>)
    ensures
        match r {
            Some(out) => column_reads(table(rows@), index as int) && texts(out@) == column_texts(
                table(rows@),
                index as int,
            ),
            None => !column_reads(table(rows@), index as int),
        },
{
    let ghost all = table(rows@);
    let mut out: Vec<String> = Vec::new();
    let mut i: usize = 0;
    while i < rows.len()
        invariant
            i <= rows.len(),
            all == table(rows@),
            out.len() == i,
            forall|j: int|
                0 <= j < i ==> index < (#[trigger] all[j]).len() && text_of(all[j][index as int])
                    is Some,
            forall|j: int|
                0 <= j < i ==> (#[trigger] out@[j])@ == text_of(all[j][index as int]).unwrap(),
        decreases rows.len() - i,
    {
        assert(all[i as int] == cells(rows@[i as int]@));
        if index >= rows[i].len() {
            return None;
        }
        assert(all[i as int][index as int] == rows@[i as int]@[index as int]@);
        match rows[i][index].as_text() {
            Some(s) => out.push(s),
            None => {
                return None;
            },
        }
        i += 1;
    }
    assert(texts(out@) =~= column_texts(all, index as int));
    Some(out)
}

/// The type tags of a table, from its column details: the second cell of
/// each.
pub fn get_column_types(details: &Vec<Vec<RawValue>>) -> (r: Option<Vec<String>>)
    ensures
        match r {
            Some(out) => column_reads(table(details@), 1) && texts(out@) == column_texts(
                table(details@),
                1,
            ),
            None => !column_reads(table(details@), 1),
        },
{
    read_column(details, 1)
}

} // verus!
