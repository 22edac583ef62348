//! User records and the credential refresh that fills a session from one.
use vstd::prelude::*;

use crate::effects::{StorageWrite, Write};
use crate::outside::{lowercase, to_lowercase};
use crate::session::{Session, SessionView};
use crate::text::{int_text, render_int};
use crate::value::{cells, int_of, text_of, Cell, RawValue};

verus! {

/// One row of the table of users.
#[derive(Debug, PartialEq, Eq)]
pub struct UserRecord {
    pub email: String,
    pub password: String,
    pub id: i32,
    pub verified: i32,
    pub admin: i32,
    pub subscription_policy: i32,
    pub invalid_email: i32,
}

/// A user record as a mathematical value.
pub struct UserView {
    pub email: Seq<char>,
    pub password: Seq<char>,
    pub id: int,
    pub verified: int,
    pub admin: int,
    pub subscription_policy: int,
    pub invalid_email: int,
}

impl View for UserRecord {
    type V = UserView;

    open spec fn view(&self) -> UserView {
        UserView {
            email: self.email@,
            password: self.password@,
            id: self.id as int,
            verified: self.verified as int,
            admin: self.admin as int,
            subscription_policy: self.subscription_policy as int,
            invalid_email: self.invalid_email as int,
        }
    }
}

/// Why a credential refresh failed.
#[derive(Clone, Copy, Debug, PartialEq, Eq, Structural)]
pub enum AuthError {
    /// No user has the email or id asked for.
    Unregistered,
    /// The password does not match the stored hash.
    WrongPassword,
}

/// The message that tells the user why a credential refresh failed.
pub open spec fn auth_message(e: AuthError) -> Seq<char> {
    match e {
        AuthError::Unregistered =>
            "This email address is not registered. Please create a new account."@,
        AuthError::WrongPassword => "Wrong password, please try again."@,
    }
}

impl AuthError {
    /// The message shown to the user.
    pub fn message(&self) -> (m: String)
        ensures
            m@ == auth_message(*self),
    {
        match self {
            AuthError::Unregistered =>
                "This email address is not registered. Please create a new account.".to_string(),
            AuthError::WrongPassword => "Wrong password, please try again.".to_string(),
        }
    }
}

/// The user that a row of the table of users holds: email, password hash,
/// id, verified, admin, subscription policy and invalid-email flag, in this
/// order.
pub open spec fn user_of(row: Seq<Cell>) -> Option<UserView> {
    if row.len() >= 7 && text_of(row[0]) is Some && text_of(row[1]) is Some && int_of(row[2])
        is Some && int_of(row[3]) is Some && int_of(row[4]) is Some && int_of(row[5]) is Some
        && int_of(row[6]) is Some {
        Some(
            UserView {
                email: text_of(row[0]).unwrap(),
                password: text_of(row[1]).unwrap(),
                id: int_of(row[2]).unwrap() as int,
                verified: int_of(row[3]).unwrap() as int,
                admin: int_of(row[4]).unwrap() as int,
                subscription_policy: int_of(row[5]).unwrap() as int,
                invalid_email: int_of(row[6]).unwrap() as int,
            },
        )
    } else {
        None
    }
}

/// Reads a user from a row of the table of users.
pub fn decode_user(row: &Vec<RawValue>) -> (r: Option<UserRecord>)
    ensures
        match r {
            Some(u) => user_of(cells(row@)) == Some(u@),
            None => user_of(cells(row@)) is None,
        },
{
    if row.len() < 7 {
        return None;
    }
    let ghost line = cells(row@);
    assert(line[0] == row@[0]@ && line[1] == row@[1]@ && line[2] == row@[2]@ && line[3]
        == row@[3]@ && line[4] == row@[4]@ && line[5] == row@[5]@ && line[6] == row@[6]@);
    let email = row[0].as_text()?;
    let password = row[1].as_text()?;
    let id = row[2].as_int()?;
    let verified = row[3].as_int()?;
    let admin = row[4].as_int()?;
    let subscription_policy = row[5].as_int()?;
    let invalid_email = row[6].as_int()?;
    Some(UserRecord { email, password, id, verified, admin, subscription_policy, invalid_email })
}

/// The form in which an email address is stored and looked up: lower case.
pub fn normalize_email(email: &str) -> (r: String)
    ensures
        r@ == lowercase(email@),
{
    to_lowercase(email)
}

/// The columns of a new user's row.
pub open spec fn new_user_columns() -> Seq<Seq<char>> {
    seq![
        "email"@,
        "password"@,
        "verified"@,
        "admin"@,
        "subscription_policy"@,
        "invalid_email"@,
    ]
}

/// The values of a new user's row: not verified, no administrator,
/// subscribed to emails, the address not known to be invalid.
pub open spec fn new_user_values(email: Seq<char>) -> Seq<Seq<char>> {
    seq![email, ""@, "0"@, "0"@, "1"@, "0"@]
}

/// The row that signing up inserts for `email`.
pub fn new_user_row(email: &str) -> (w: StorageWrite)
    ensures
        w@ == (Write::Insert {
            table: "users"@,
            columns: new_user_columns(),
            values: new_user_values(email@),
        }),
{
    let mut columns: Vec<String> = Vec::new();
    columns.push("email".to_string());
    columns.push("password".to_string());
    columns.push("verified".to_string());
    columns.push("admin".to_string());
    columns.push("subscription_policy".to_string());
    columns.push("invalid_email".to_string());
    let mut values: Vec<String> = Vec::new();
    values.push(email.to_owned());
    values.push("".to_string());
    values.push("0".to_string());
    values.push("0".to_string());
    values.push("1".to_string());
    values.push("0".to_string());
    let w = StorageWrite::Insert { table: "users".to_string(), columns, values };
    assert(w@->Insert_columns =~= new_user_columns());
    assert(w@->Insert_values =~= new_user_values(email@));
    w
}

/// A session after it was filled from the user `u`: identity and the
/// invalid-email flag; for a verified user also email, administrator flag and
/// subscription policy; for another the address that awaits verification.
pub open spec fn refreshed(v: SessionView, u: UserView) -> SessionView {
    let base = v.put("id"@, int_text(u.id)).put("invalid_email"@, int_text(u.invalid_email));
    if u.verified == 1 {
        base.put("verified"@, "1"@).put("email"@, u.email).put("admin"@, int_text(u.admin)).put(
            "subscription_policy"@,
            int_text(u.subscription_policy),
        )
    } else {
        base.put("verified"@, "0"@).put("not_verified_email"@, u.email)
    }
}

/// What a credential refresh answers: the verified flag of the user found,
/// or why it failed. `password_matches` is `None` where no password was
/// supplied.
pub open spec fn refresh_result(user: Option<UserView>, password_matches: Option<bool>) -> Result<
    bool,
    AuthError,
> {
    match user {
        None => Err(AuthError::Unregistered),
        Some(u) => if password_matches == Some(false) {
            Err(AuthError::WrongPassword)
        } else {
            Ok(u.verified == 1)
        },
    }
}

/// The session after a credential refresh: filled where the refresh
/// succeeded, untouched where it failed.
pub open spec fn refresh_session_view(
    v: SessionView,
    user: Option<UserView>,
    password_matches: Option<bool>,
) -> SessionView {
    match user {
        Some(u) => if password_matches == Some(false) {
            v
        } else {
            refreshed(v, u)
        },
        None => v,
    }
}

/// The view of an optional user.
pub open spec fn user_view(user: Option<&UserRecord>) -> Option<UserView> {
    match user {
        Some(u) => Some(u@),
        None => None,
    }
}

/// Fills `session` from the user that storage returned for it, if any, and
/// if the password, where one was supplied, matched.
pub fn refresh_session(
    session: &mut Session,
    user: Option<&UserRecord>,
    password_matches: Option<bool>,
) -> (r: Result<bool, AuthError>)
    requires
        old(session).wf(),
    ensures
        final(session).wf(),
        r == refresh_result(user_view(user), password_matches),
        final(session)@ == refresh_session_view(old(session)@, user_view(user), password_matches),
{
    match user {
        Some(u) => {
            if let Some(matches) = password_matches {
                if !matches {
                    return Err(AuthError::WrongPassword);
                }
            }
            session.set("id", render_int(u.id)).set("invalid_email", render_int(u.invalid_email));
            if u.verified == 1 {
                session.set("verified", "1".to_string()).set("email", u.email.clone()).set(
                    "admin",
                    render_int(u.admin),
                ).set("subscription_policy", render_int(u.subscription_policy));
                Ok(true)
            } else {
                session.set("verified", "0".to_string()).set(
                    "not_verified_email",
                    u.email.clone(),
                );
                Ok(false)
            }
        },
        None => Err(AuthError::Unregistered),
    }
}

} // verus!
