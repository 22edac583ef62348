//! The table editor of the administrator console.
//!
//! Every operation asks first whether the session carries the administrator
//! flag. Where it does not, the answer is a refusal that holds no write, and
//! nothing is changed. No operation changes a session.
use vstd::prelude::*;

use crate::codec::{
    read_column, column_reads, column_texts, encode_rows, encoded_rows, grid, rows_encode, table,
};
use crate::effects::{delete, update, Letter, Mail, StorageWrite, Write};
use crate::session::{lookup, SessionStore, SessionView};
use crate::text::{int_text, render_int};
use crate::value::{text_of, texts, RawValue};
use crate::workflow::{letter_of, write_of};

verus! {

/// The session `id` can be read at `now` and carries the administrator flag.
pub open spec fn admin_at(s: Seq<SessionView>, id: Seq<char>, now: int) -> bool {
    match lookup(s, id, now) {
        Some(v) => v.has("admin"@, "1"@),
        None => false,
    }
}

/// Whether the session may use the table editor.
pub fn is_admin(store: &SessionStore, session: &str, now: u64) -> (r: bool)
    requires
        store.wf(),
    ensures
        r == admin_at(store@, session@, now as int),
{
    match store.find_live(session, now) {
        Some(slot) => store.session(slot).holds_value("admin", "1"),
        None => false,
    }
}

/// A table as the console shows it.
#[derive(Debug, PartialEq, Eq)]
pub struct TableSnapshot {
    pub columns: Vec<String>,
    pub rows: Vec<Vec<String>>,
    pub types: Vec<String>,
}

/// The snapshot of a table can be made: every column has a name and a type
/// tag, and every row encodes under the tags.
pub open spec fn snapshot_reads(details: Seq<Vec<RawValue>>, rows: Seq<Vec<RawValue>>) -> bool {
    column_reads(table(details), 0) && column_reads(table(details), 1) && rows_encode(
        column_texts(table(details), 1),
        table(rows),
    )
}

/// Lists a table: column names, rows in canonical text, and type tags.
/// `details` holds one row per column, name first and type tag second. A
/// table without rows lists no rows.
pub fn get_database(
    store: &SessionStore,
    session: &str,
    now: u64,
    details: &Vec<Vec<RawValue>>,
    rows: &Vec<Vec<RawValue>>,
) -> (r: Option<TableSnapshot>)
    requires
        store.wf(),
    ensures
        r is Some <==> admin_at(store@, session@, now as int) && snapshot_reads(details@, rows@),
        r matches Some(t) ==> texts(t.columns@) == column_texts(table(details@), 0) && texts(
            t.types@,
        ) == column_texts(table(details@), 1) && grid(t.rows@) == encoded_rows(
            column_texts(table(details@), 1),
            table(rows@),
        ),
{
    if !is_admin(store, session, now) {
        return None;
    }
    let column_names = read_column(details, 0)?;
    let column_types = read_column(details, 1)?;
    let processed_rows = encode_rows(&column_types, rows)?;
    Some(TableSnapshot { columns: column_names, rows: processed_rows, types: column_types })
}

/// The titles of a table, for a picker.
#[derive(Debug, PartialEq, Eq)]
pub struct RowTitles {
    pub table: String,
    pub titles: Vec<String>,
}

/// Lists the titles of a table. `rows` holds the title of each row as its
/// first cell.
pub fn get_row_titles(
    store: &SessionStore,
    session: &str,
    now: u64,
    name: &str,
    rows: &Vec<Vec<RawValue>>,
) -> (r: Option<RowTitles>)
    requires
        store.wf(),
    ensures
        r is Some <==> admin_at(store@, session@, now as int) && column_reads(table(rows@), 0),
        r matches Some(t) ==> t.table@ == name@ && texts(t.titles@) == column_texts(
            table(rows@),
            0,
        ),
{
    if !is_admin(store, session, now) {
        return None;
    }
    let titles = read_column(rows, 0)?;
    Some(RowTitles { table: name.to_owned(), titles })
}

/// The write that gives row `id` of `name` the id `new_id`.
pub open spec fn move_write(name: Seq<char>, id: Seq<char>, new_id: int) -> Write {
    Write::Update {
        table: name,
        key_column: "id"@,
        key: id,
        column: "id"@,
        value: int_text(new_id),
    }
}

/// A row is to move to one end of its table.
#[derive(Debug, PartialEq, Eq)]
pub struct Move {
    pub write: StorageWrite,
    /// The row's id after the move; the caller reads the row back under it.
    pub new_id: i32,
    pub message: String,
    pub old_id: String,
}

/// Moves a row behind the last one: its id becomes the largest id in use
/// plus one. Refused where that would leave the range of ids.
pub fn move_row_to_end(
    store: &SessionStore,
    session: &str,
    now: u64,
    name: &str,
    id: &str,
    max_id: i32,
) -> (r: Option<Move>)
    requires
        store.wf(),
    ensures
        r is Some <==> admin_at(store@, session@, now as int) && max_id < i32::MAX,
        r matches Some(m) ==> m.new_id == max_id + 1 && m.write@ == move_write(
            name@,
            id@,
            max_id + 1,
        ) && m.message@ == "Successfully moved row "@ + id@ + " to end."@ && m.old_id@ == id@,
{
    if !is_admin(store, session, now) || max_id == i32::MAX {
        return None;
    }
    let new_id = max_id + 1;
    let message = "Successfully moved row ".to_string().concat(id).concat(" to end.");
    Some(
        Move {
            write: update(name, "id", id, "id", render_int(new_id).as_str()),
            new_id,
            message,
            old_id: id.to_owned(),
        },
    )
}

/// Moves a row before the first one: its id becomes the smallest id in use
/// minus one. Refused where that would leave the range of ids.
pub fn move_row_to_start(
    store: &SessionStore,
    session: &str,
    now: u64,
    name: &str,
    id: &str,
    min_id: i32,
) -> (r: Option<Move>)
    requires
        store.wf(),
    ensures
        r is Some <==> admin_at(store@, session@, now as int) && min_id > i32::MIN,
        r matches Some(m) ==> m.new_id == min_id - 1 && m.write@ == move_write(
            name@,
            id@,
            min_id - 1,
        ) && m.message@ == "Successfully moved row "@ + id@ + " to start."@ && m.old_id@ == id@,
{
    if !is_admin(store, session, now) || min_id == i32::MIN {
        return None;
    }
    let new_id = min_id - 1;
    let message = "Successfully moved row ".to_string().concat(id).concat(" to start.");
    Some(
        Move {
            write: update(name, "id", id, "id", render_int(new_id).as_str()),
            new_id,
            message,
            old_id: id.to_owned(),
        },
    )
}

/// A row is to be deleted.
#[derive(Debug, PartialEq, Eq)]
pub struct Removal {
    pub write: StorageWrite,
    pub message: String,
    pub id: String,
}

/// Deletes the row `id` of a table.
pub fn delete_row(store: &SessionStore, session: &str, now: u64, name: &str, id: &str) -> (r:
    Option<Removal>)
    requires
        store.wf(),
    ensures
        r is Some <==> admin_at(store@, session@, now as int),
        r matches Some(d) ==> d.write@ == (Write::Delete {
            table: name@,
            key_column: "id"@,
            key: id@,
        }) && d.message@ == "Successfully deleted row "@ + id@ + "."@ && d.id@ == id@,
{
    if !is_admin(store, session, now) {
        return None;
    }
    let message = "Successfully deleted row ".to_string().concat(id).concat(".");
    Some(Removal { write: delete(name, "id", id), message, id: id.to_owned() })
}

/// Inserts a row into a table. The values pass through as they are given;
/// storage alone checks them. After the insert the caller reads the row back
/// at the largest id in use.
pub fn add_row(
    store: &SessionStore,
    session: &str,
    now: u64,
    name: &str,
    names: Vec<String>,
    values: Vec<String>,
) -> (r: Option<StorageWrite>)
    requires
        store.wf(),
    ensures
        r is Some <==> admin_at(store@, session@, now as int),
        r matches Some(w) ==> w@ == (Write::Insert {
            table: name@,
            columns: texts(names@),
            values: texts(values@),
        }),
{
    if !is_admin(store, session, now) {
        return None;
    }
    Some(StorageWrite::Insert { table: name.to_owned(), columns: names, values })
}

/// What the administrator is told after row `row_id` was added.
pub fn added_row_message(row_id: i32) -> (m: String)
    ensures
        m@ == "Successfully added row "@ + int_text(row_id as int) + "."@,
{
    "Successfully added row ".to_string().concat(render_int(row_id).as_str()).concat(".")
}

/// One cell is to change.
#[derive(Debug, PartialEq, Eq)]
pub struct Change {
    pub write: StorageWrite,
    pub message: String,
}

/// Sets one cell: column `column_name` of the row `id`.
pub fn change_row(
    store: &SessionStore,
    session: &str,
    now: u64,
    name: &str,
    id: &str,
    column_name: &str,
    value: &str,
) -> (r: Option<Change>)
    requires
        store.wf(),
    ensures
        r is Some <==> admin_at(store@, session@, now as int),
        r matches Some(c) ==> c.write@ == (Write::Update {
            table: name@,
            key_column: "id"@,
            key: id@,
            column: column_name@,
            value: value@,
        }) && c.message@ == "Successfully updated row "@ + id@ + "."@,
{
    if !is_admin(store, session, now) {
        return None;
    }
    let message = "Successfully updated row ".to_string().concat(id).concat(".");
    Some(Change { write: update(name, "id", id, column_name, value), message })
}

/// The address at which an administrator authorizes the site to send mail.
pub open spec fn auth_url(client_id: Seq<char>) -> Seq<char> {
    "https://accounts.google.com/o/oauth2/v2/auth?scope=https://mail.google.com/"@
        + "&include_granted_scopes=true&prompt=consent"@
        + "&redirect_uri=https://www.olmmcc.tk/admin/email/&response_type=code&client_id="@
        + client_id + "&access_type=offline"@
}

/// The address at which to authorize the sending of mail, for an
/// administrator; the empty text for anyone else.
pub fn get_gmail_auth_url(store: &SessionStore, session: &str, now: u64, client_id: &str) -> (r:
    String)
    requires
        store.wf(),
    ensures
        r@ == (if admin_at(store@, session@, now as int) {
            auth_url(client_id@)
        } else {
            Seq::<char>::empty()
        }),
{
    if !is_admin(store, session, now) {
        return String::new();
    }
    "https://accounts.google.com/o/oauth2/v2/auth?scope=https://mail.google.com/".to_string().concat(
        "&include_granted_scopes=true&prompt=consent",
    ).concat(
        "&redirect_uri=https://www.olmmcc.tk/admin/email/&response_type=code&client_id=",
    ).concat(client_id).concat("&access_type=offline")
}

/// The write that keeps an administrator's refresh token: an update of the
/// row of `email` where there is one, an insert where there is none.
pub open spec fn token_write(email: Seq<char>, refresh_token: Seq<char>, known: bool) -> Write {
    if known {
        Write::Update {
            table: "admin"@,
            key_column: "email"@,
            key: email,
            column: "refresh_token"@,
            value: refresh_token,
        }
    } else {
        Write::Insert {
            table: "admin"@,
            columns: seq!["email"@, "refresh_token"@],
            values: seq![email, refresh_token],
        }
    }
}

/// The write that keeps a refresh token, or none: for an administrator whose
/// session knows its address.
pub open spec fn token_kept(
    s: Seq<SessionView>,
    id: Seq<char>,
    now: int,
    refresh_token: Seq<char>,
    known: bool,
) -> Option<Write> {
    match lookup(s, id, now) {
        Some(v) => if v.has("admin"@, "1"@) && v.get("email"@) is Some {
            Some(token_write(v.data["email"@], refresh_token, known))
        } else {
            None
        },
        None => None,
    }
}

/// Keeps the refresh token that an administrator's authorization gave.
/// `known` says whether the administrator already has a row.
pub fn send_gmail_code(
    store: &SessionStore,
    session: &str,
    now: u64,
    refresh_token: &str,
    known: bool,
) -> (r: Option<StorageWrite>)
    requires
        store.wf(),
    ensures
        write_of(r) == token_kept(store@, session@, now as int, refresh_token@, known),
        !admin_at(store@, session@, now as int) ==> r is None,
{
    let slot = store.find_live(session, now)?;
    let current = store.session(slot);
    if !current.holds_value("admin", "1") {
        return None;
    }
    let email = current.get("email")?;
    if known {
        Some(update("admin", "email", email.as_str(), "refresh_token", refresh_token))
    } else {
        let mut columns: Vec<String> = Vec::new();
        columns.push("email".to_string());
        columns.push("refresh_token".to_string());
        let mut values: Vec<String> = Vec::new();
        values.push(email);
        values.push(refresh_token.to_owned());
        let w = StorageWrite::Insert { table: "admin".to_string(), columns, values };
        assert(w@->Insert_columns =~= seq!["email"@, "refresh_token"@]);
        assert(w@->Insert_values =~= seq![email@, refresh_token@]);
        Some(w)
    }
}

/// The refresh token that was kept first, from the rows of the table of
/// administrators: the second cell of the first row.
pub fn stored_refresh_token(rows: &Vec<Vec<RawValue>>) -> (r: Option<String>)
    ensures
        match r {
            Some(t) => rows.len() > 0 && rows[0].len() > 1 && text_of(rows[0]@[1]@) == Some(t@),
            None => rows.len() == 0 || rows[0].len() <= 1 || text_of(rows[0]@[1]@) is None,
        },
{
    if rows.len() == 0 || rows[0].len() <= 1 {
        return None;
    }
    rows[0][1].as_text()
}

/// The mail that an administrator sends: to every user where `recipients`
/// is `all_users`, which the empty recipient stands for, and to `recipient`
/// otherwise.
pub open spec fn admin_letter(
    recipients: Seq<char>,
    recipient: Seq<char>,
    subject: Seq<char>,
    body: Seq<char>,
) -> Letter {
    Letter {
        to: if recipients == "all_users"@ {
            Seq::<char>::empty()
        } else {
            recipient
        },
        subject,
        body,
    }
}

/// Sends a mail on behalf of an administrator.
pub fn send_email(
    store: &SessionStore,
    session: &str,
    now: u64,
    recipients: &str,
    recipient: &str,
    subject: &str,
    body: &str,
) -> (r: Option<Mail>)
    requires
        store.wf(),
    ensures
        letter_of(r) == (if admin_at(store@, session@, now as int) {
            Some(admin_letter(recipients@, recipient@, subject@, body@))
        } else {
            None
        }),
{
    if !is_admin(store, session, now) {
        return None;
    }
    let to = if recipients.to_owned() == "all_users".to_string() {
        String::new()
    } else {
        recipient.to_owned()
    };
    Some(Mail { to, subject: subject.to_owned(), body: body.to_owned() })
}

} // verus!
