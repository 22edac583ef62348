//! What a handler asks its caller to do: writes to storage and mails.
use vstd::prelude::*;

use crate::value::texts;

verus! {

/// One change to a table.
#[derive(Debug, PartialEq, Eq)]
pub enum StorageWrite {
    /// Insert a row with `values` in `columns`.
    Insert { table: String, columns: Vec<String>, values: Vec<String> },
    /// In the rows whose `key_column` is `key`, set `column` to `value`.
    Update { table: String, key_column: String, key: String, column: String, value: String },
    /// Delete the rows whose `key_column` is `key`.
    Delete { table: String, key_column: String, key: String },
}

/// A storage write as a mathematical value.
pub enum Write {
    Insert { table: Seq<char>, columns: Seq<Seq<char>>, values: Seq<Seq<char>> },
    Update {
        table: Seq<char>,
        key_column: Seq<char>,
        key: Seq<char>,
        column: Seq<char>,
        value: Seq<char>,
    },
    Delete { table: Seq<char>, key_column: Seq<char>, key: Seq<char> },
}

impl View for StorageWrite {
    type V = Write;

    open spec fn view(&self) -> Write {
        match *self {
            StorageWrite::Insert { table, columns, values } => Write::Insert {
                table: table@,
                columns: texts(columns@),
                values: texts(values@),
            },
            StorageWrite::Update { table, key_column, key, column, value } => Write::Update {
                table: table@,
                key_column: key_column@,
                key: key@,
                column: column@,
                value: value@,
            },
            StorageWrite::Delete { table, key_column, key } => Write::Delete {
                table: table@,
                key_column: key_column@,
                key: key@,
            },
        }
    }
}

/// A mail to send. An empty recipient stands for every user.
#[derive(Debug, PartialEq, Eq)]
pub struct Mail {
    pub to: String,
    pub subject: String,
    pub body: String,
}

/// A mail as a mathematical value.
pub struct Letter {
    pub to: Seq<char>,
    pub subject: Seq<char>,
    pub body: Seq<char>,
}

impl View for Mail {
    type V = Letter;

    open spec fn view(&self) -> Letter {
        Letter { to: self.to@, subject: self.subject@, body: self.body@ }
    }
}

/// An update of one column in the rows found by a key.
pub fn update(table: &str, key_column: &str, key: &str, column: &str, value: &str) -> (w:
    StorageWrite)
    ensures
        w@ == (Write::Update {
            table: table@,
            key_column: key_column@,
            key: key@,
            column: column@,
            value: value@,
        }),
{
    StorageWrite::Update {
        table: table.to_owned(),
        key_column: key_column.to_owned(),
        key: key.to_owned(),
        column: column.to_owned(),
        value: value.to_owned(),
    }
}

/// A deletion of the rows found by a key.
pub fn delete(table: &str, key_column: &str, key: &str) -> (w: StorageWrite)
    ensures
        w@ == (Write::Delete { table: table@, key_column: key_column@, key: key@ }),
{
    StorageWrite::Delete {
        table: table.to_owned(),
        key_column: key_column.to_owned(),
        key: key.to_owned(),
    }
}

} // verus!
