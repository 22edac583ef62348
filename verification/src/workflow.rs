//! The verification workflows: signup verification, password reset, email
//! change and account deletion.
//!
//! Each starts by storing a one-time code in the session, beside the change
//! that it guards, and by mailing the code to the user. Each ends in two
//! steps. Confirming compares the code that comes back with the stored one,
//! exactly, and hands the change to the caller as a storage write; a code
//! that does not match gives no write, and the answer says so. Settling,
//! after the caller has written, clears the code and the pending values from
//! the session; after an account deletion it ends the session. A
//! confirmation that is repeated before the workflow was settled asks for
//! the same write once more, which changes nothing further; after that the
//! code is refused. Attempts are neither counted nor slowed down.
//!
//! What validation refuses is answered before anything changes: no session
//! is opened or written for a request that is refused.
use vstd::prelude::*;

use crate::effects::{delete, update, Letter, Mail, StorageWrite, Write};
use crate::session::{
    distinct_ids, lemma_lookup_replaced, lemma_opened, lemma_replaced_keeps_ids,
    lemma_update_is_replaced, lookup, new_session, removed, replaced, with_new_session,
    SessionStore, SessionView, SESSION_CAPACITY, SESSION_ID_LENGTH, SESSION_TTL,
};
use crate::token::{generate_verification_code, is_token, random_text, CODE_LENGTH};

verus! {

/// The body of a mail that carries a one-time code.
pub open spec fn mail_body(request: Seq<char>, code: Seq<char>, closing: Seq<char>) -> Seq<char> {
    "Hello,\r\nYou requested "@ + request
        + ". Please copy this code and return to OLMMCC's website: "@ + code
        + "\r\n\r\nThis message was sent by the OLMMCC automated system. If you "@ + closing
        + " please contact justus@olmmcc.tk"@
}

fn compose(request: &str, code: &str, closing: &str) -> (body: String)
    ensures
        body@ == mail_body(request@, code@, closing@),
{
    "Hello,\r\nYou requested ".to_string().concat(request).concat(
        ". Please copy this code and return to OLMMCC's website: ",
    ).concat(code).concat(
        "\r\n\r\nThis message was sent by the OLMMCC automated system. If you ",
    ).concat(closing).concat(" please contact justus@olmmcc.tk")
}

/// The mail that carries the code of a signup verification.
pub open spec fn verification_letter(to: Seq<char>, code: Seq<char>) -> Letter {
    Letter {
        to,
        subject: "Verify your OLMMCC account"@,
        body: mail_body(
            "a verification of your email address by logging in"@,
            code,
            "received it in error"@,
        ),
    }
}

/// The mail that carries the code of a password reset.
pub open spec fn password_letter(to: Seq<char>, code: Seq<char>) -> Letter {
    Letter {
        to,
        subject: "Verify your Password Change Request"@,
        body: mail_body("a change of your password"@, code, "did not make this request"@),
    }
}

/// The mail that carries the code of an email change; it goes to the old
/// address and names the new one.
pub open spec fn email_letter(to: Seq<char>, new_email: Seq<char>, code: Seq<char>) -> Letter {
    Letter {
        to,
        subject: "Verify your Email Change Request"@,
        body: mail_body(
            "a change of your email address to "@ + new_email,
            code,
            "did not make this request"@,
        ),
    }
}

/// The mail that carries the code of an account deletion.
pub open spec fn deletion_letter(to: Seq<char>, code: Seq<char>) -> Letter {
    Letter {
        to,
        subject: "Verify your Account Deletion Request"@,
        body: mail_body("a deletion of your OLMMCC account"@, code, "did not make this request"@),
    }
}

/// The view of an optional mail.
pub open spec fn letter_of(mail: Option<Mail>) -> Option<Letter> {
    match mail {
        Some(m) => Some(m@),
        None => None,
    }
}

/// The view of an optional storage write.
pub open spec fn write_of(write: Option<StorageWrite>) -> Option<Write> {
    match write {
        Some(w) => Some(w@),
        None => None,
    }
}

/// A code was mailed: to whom, and the mail.
#[derive(Debug, PartialEq, Eq)]
pub struct Issued {
    pub email: String,
    pub mail: Mail,
}

/// The view of an optional issue: the address and the mail.
pub open spec fn issue_of(issued: Option<Issued>) -> Option<(Seq<char>, Letter)> {
    match issued {
        Some(i) => Some((i.email@, i.mail@)),
        None => None,
    }
}

// ---- signup verification ----

/// The session belongs to an account that awaits verification.
pub open spec fn awaits_verification(v: SessionView) -> bool {
    v.has("verified"@, "0"@) && v.get("not_verified_email"@) is Some
}

/// What sending a verification mail with `code` does: where the session
/// can be read and awaits verification, the code is stored and mailed to the
/// address that awaits it; otherwise nothing happens.
pub open spec fn verification_sent(
    before: Seq<SessionView>,
    after: Seq<SessionView>,
    id: Seq<char>,
    now: int,
    code: Seq<char>,
    mail: Option<Letter>,
) -> bool {
    match lookup(before, id, now) {
        Some(v) => if awaits_verification(v) {
            after == replaced(before, v.put("verification_code"@, code)) && mail == Some(
                verification_letter(v.data["not_verified_email"@], code),
            )
        } else {
            after == before && mail is None
        },
        None => after == before && mail is None,
    }
}

/// Starts a signup verification with the given `code`.
pub fn send_verification_email_with(
    store: &mut SessionStore,
    session: &str,
    now: u64,
    code: String,
) -> (r: Option<Mail>)
    requires
        old(store).wf(),
    ensures
        final(store).wf(),
        verification_sent(old(store)@, final(store)@, session@, now as int, code@, letter_of(r)),
{
    let slot = match store.find_live(session, now) {
        Some(slot) => slot,
        None => {
            return None;
        },
    };
    let current = store.session(slot);
    if !current.holds_value("verified", "0") {
        return None;
    }
    let email = match current.get("not_verified_email") {
        Some(email) => email,
        None => {
            return None;
        },
    };
    let body = compose(
        "a verification of your email address by logging in",
        code.as_str(),
        "received it in error",
    );
    store.session_mut(slot).set("verification_code", code);
    proof {
        let v = old(store)@[slot as int];
        lemma_update_is_replaced(old(store)@, slot as int, v.put("verification_code"@, code@));
    }
    Some(Mail { to: email, subject: "Verify your OLMMCC account".to_string(), body })
}

/// Starts a signup verification with a fresh random code.
pub fn send_verification_email(store: &mut SessionStore, session: &str, now: u64) -> (r: Option<
    Mail,
>)
    requires
        old(store).wf(),
    ensures
        final(store).wf(),
        exists|code: Seq<char>|
            is_token(code, CODE_LENGTH as nat) && #[trigger] verification_sent(
                old(store)@,
                final(store)@,
                session@,
                now as int,
                code,
                letter_of(r),
            ),
{
    let code = generate_verification_code();
    let ghost shown = code@;
    let r = send_verification_email_with(store, session, now, code);
    assert(verification_sent(old(store)@, store@, session@, now as int, shown, letter_of(r)));
    r
}

// ---- account deletion ----

/// The session belongs to a verified account with a known address.
pub open spec fn may_request(v: SessionView) -> bool {
    v.has("verified"@, "1"@) && v.get("email"@) is Some
}

/// What requesting an account deletion with `code` does: where the session
/// can be read and is verified, the code is stored and mailed to the user;
/// otherwise nothing happens.
pub open spec fn deletion_requested(
    before: Seq<SessionView>,
    after: Seq<SessionView>,
    id: Seq<char>,
    now: int,
    code: Seq<char>,
    issued: Option<(Seq<char>, Letter)>,
) -> bool {
    match lookup(before, id, now) {
        Some(v) => if may_request(v) {
            after == replaced(before, v.put("delete_code"@, code)) && issued == Some(
                (v.data["email"@], deletion_letter(v.data["email"@], code)),
            )
        } else {
            after == before && issued is None
        },
        None => after == before && issued is None,
    }
}

/// Starts an account deletion with the given `code`.
pub fn send_delete_email_with(store: &mut SessionStore, session: &str, now: u64, code: String) -> (r:
    Option<Issued>)
    requires
        old(store).wf(),
    ensures
        final(store).wf(),
        deletion_requested(old(store)@, final(store)@, session@, now as int, code@, issue_of(r)),
{
    let slot = match store.find_live(session, now) {
        Some(slot) => slot,
        None => {
            return None;
        },
    };
    let current = store.session(slot);
    if !current.holds_value("verified", "1") {
        return None;
    }
    let email = match current.get("email") {
        Some(email) => email,
        None => {
            return None;
        },
    };
    let body = compose(
        "a deletion of your OLMMCC account",
        code.as_str(),
        "did not make this request",
    );
    store.session_mut(slot).set("delete_code", code);
    proof {
        let v = old(store)@[slot as int];
        lemma_update_is_replaced(old(store)@, slot as int, v.put("delete_code"@, code@));
    }
    let mail = Mail {
        to: email.clone(),
        subject: "Verify your Account Deletion Request".to_string(),
        body,
    };
    Some(Issued { email, mail })
}

/// Starts an account deletion with a fresh random code.
pub fn send_delete_email(store: &mut SessionStore, session: &str, now: u64) -> (r: Option<Issued>)
    requires
        old(store).wf(),
    ensures
        final(store).wf(),
        exists|code: Seq<char>|
            is_token(code, CODE_LENGTH as nat) && #[trigger] deletion_requested(
                old(store)@,
                final(store)@,
                session@,
                now as int,
                code,
                issue_of(r),
            ),
{
    let code = generate_verification_code();
    let ghost shown = code@;
    let r = send_delete_email_with(store, session, now, code);
    assert(deletion_requested(old(store)@, store@, session@, now as int, shown, issue_of(r)));
    r
}

// ---- password reset ----

/// The answer to a request for a password reset.
#[derive(Debug, PartialEq, Eq)]
pub enum PasswordRequest {
    /// The request came from no verified session and from no registered
    /// address: nothing was done, and nothing is said.
    Ignored,
    /// The new password was refused, with the message for the user.
    Rejected(String),
    /// A code was mailed to `email`; it is to be confirmed under `session`.
    Issued { email: String, session: String, mail: Mail },
}

/// The answer to a request for a password reset, as a mathematical value.
pub enum PasswordAnswer {
    Ignored,
    Rejected(Seq<char>),
    Issued { email: Seq<char>, session: Seq<char>, letter: Letter },
}

impl View for PasswordRequest {
    type V = PasswordAnswer;

    open spec fn view(&self) -> PasswordAnswer {
        match *self {
            PasswordRequest::Ignored => PasswordAnswer::Ignored,
            PasswordRequest::Rejected(t) => PasswordAnswer::Rejected(t@),
            PasswordRequest::Issued { email, session, mail } => PasswordAnswer::Issued {
                email: email@,
                session: session@,
                letter: mail@,
            },
        }
    }
}

/// The view of an optional text.
pub open spec fn reason_of(reason: Option<String>) -> Option<Seq<char>> {
    match reason {
        Some(t) => Some(t@),
        None => None,
    }
}

/// The view of an optional borrowed text.
pub open spec fn given(text: Option<&str>) -> Option<Seq<char>> {
    match text {
        Some(t) => Some(t@),
        None => None,
    }
}

/// A password reset may start: from a session that can be read, knows its
/// address and is verified; or, without a session, for an address that is
/// registered.
pub open spec fn may_reset(
    before: Seq<SessionView>,
    session: Option<Seq<char>>,
    registered: bool,
    now: int,
) -> bool {
    match session {
        Some(id) => match lookup(before, id, now) {
            Some(v) => v.get("email"@) is Some && v.has("verified"@, "1"@),
            None => false,
        },
        None => registered,
    }
}

/// Where a password reset that may start goes on, once the new password was
/// accepted: the store, the session that will hold the code, and the address
/// to notify. With a session it is that session and its address. Without one
/// it is a new session that remembers `email`.
pub open spec fn reset_start(
    before: Seq<SessionView>,
    session: Option<Seq<char>>,
    email: Seq<char>,
    new_id: Seq<char>,
    now: int,
) -> (Seq<SessionView>, SessionView, Seq<char>) {
    match session {
        Some(id) => {
            let v = lookup(before, id, now).unwrap();
            (before, v, v.data["email"@])
        },
        None => {
            let v = new_session(new_id, now).put("forgot_password_email"@, email);
            (replaced(with_new_session(before, new_id, now), v), v, email)
        },
    }
}

/// What requesting a password reset does. Where there is nowhere to start
/// from, nothing. Where the new password was refused, nothing either: the
/// refusal is passed on before a session is opened or changed. Otherwise a
/// request without a session gets a new one, the code and the new password
/// hash are stored, and the code is mailed.
pub open spec fn password_requested(
    before: Seq<SessionView>,
    after: Seq<SessionView>,
    session: Option<Seq<char>>,
    email: Seq<char>,
    registered: bool,
    rejection: Option<Seq<char>>,
    new_password: Seq<char>,
    new_id: Seq<char>,
    code: Seq<char>,
    now: int,
    answer: PasswordAnswer,
) -> bool {
    if !may_reset(before, session, registered, now) {
        after == before && answer == PasswordAnswer::Ignored
    } else {
        match rejection {
            Some(t) => after == before && answer == PasswordAnswer::Rejected(t),
            None => {
                let (base, v, to) = reset_start(before, session, email, new_id, now);
                after == replaced(
                    base,
                    v.put("password_change_code"@, code).put("new_password"@, new_password),
                ) && answer == (PasswordAnswer::Issued {
                    email: to,
                    session: v.id,
                    letter: password_letter(to, code),
                })
            },
        }
    }
}

/// Starts a password reset with the given identifier for a new session and
/// the given `code`. `rejection` is what validation said of the new password,
/// `new_password` its hash, `registered` whether `email` is a user's.
pub fn send_password_email_with(
    store: &mut SessionStore,
    now: u64,
    session: Option<&str>,
    email: &str,
    registered: bool,
    rejection: Option<String>,
    new_password: String,
    new_id: String,
    code: String,
) -> (r: PasswordRequest)
    requires
        old(store).wf(),
    ensures
        final(store).wf(),
        password_requested(
            old(store)@,
            final(store)@,
            given(session),
            email@,
            registered,
            reason_of(rejection),
            new_password@,
            new_id@,
            code@,
            now as int,
            r@,
        ),
{
    let held: Option<(String, String)> = match session {
        Some(held) => {
            let current = match store.from_id(held, now) {
                Some(current) => current,
                None => {
                    return PasswordRequest::Ignored;
                },
            };
            let found = match current.get("email") {
                Some(found) => found,
                None => {
                    return PasswordRequest::Ignored;
                },
            };
            if !current.holds_value("verified", "1") {
                return PasswordRequest::Ignored;
            }
            Some((held.to_owned(), found))
        },
        None => {
            if !registered {
                return PasswordRequest::Ignored;
            }
            None
        },
    };
    if let Some(t) = rejection {
        return PasswordRequest::Rejected(t);
    }
    let (id, to) = match held {
        Some(pair) => pair,
        None => {
            store.open(new_id.clone(), SESSION_TTL, SESSION_CAPACITY, now);
            proof {
                lemma_opened(
                    old(store)@,
                    new_session(new_id@, now as int),
                    SESSION_CAPACITY as nat,
                    now as int,
                );
                lemma_lookup_replaced(
                    store@,
                    new_session(new_id@, now as int).put("forgot_password_email"@, email@),
                    now as int,
                );
            }
            store.set(new_id.as_str(), "forgot_password_email", email.to_owned(), now);
            (new_id, email.to_owned())
        },
    };
    let ghost start = reset_start(old(store)@, given(session), email@, new_id@, now as int);
    assert(store@ == start.0);
    assert(lookup(store@, id@, now as int) == Some(start.1));
    let slot = match store.find_live(id.as_str(), now) {
        Some(slot) => slot,
        None => {
            return PasswordRequest::Ignored;
        },
    };
    let body = compose("a change of your password", code.as_str(), "did not make this request");
    store.session_mut(slot).set("password_change_code", code).set("new_password", new_password);
    proof {
        lemma_update_is_replaced(
            start.0,
            slot as int,
            start.1.put("password_change_code"@, code@).put("new_password"@, new_password@),
        );
    }
    let mail = Mail {
        to: to.clone(),
        subject: "Verify your Password Change Request".to_string(),
        body,
    };
    PasswordRequest::Issued { email: to, session: id, mail }
}

/// Starts a password reset with a fresh random code and, where a session is
/// opened for it, a fresh random identifier.
pub fn send_password_email(
    store: &mut SessionStore,
    now: u64,
    session: Option<&str>,
    email: &str,
    registered: bool,
    rejection: Option<String>,
    new_password: String,
) -> (r: PasswordRequest)
    requires
        old(store).wf(),
    ensures
        final(store).wf(),
        exists|new_id: Seq<char>, code: Seq<char>|
            is_token(new_id, SESSION_ID_LENGTH as nat) && is_token(
                code,
                CODE_LENGTH as nat,
            ) && #[trigger] password_requested(
                old(store)@,
                final(store)@,
                given(session),
                email@,
                registered,
                reason_of(rejection),
                new_password@,
                new_id,
                code,
                now as int,
                r@,
            ),
{
    let new_id = random_text(SESSION_ID_LENGTH);
    let code = generate_verification_code();
    let ghost shown_id = new_id@;
    let ghost shown = code@;
    let r = send_password_email_with(
        store,
        now,
        session,
        email,
        registered,
        rejection,
        new_password,
        new_id,
        code,
    );
    assert(password_requested(
        old(store)@,
        store@,
        given(session),
        email@,
        registered,
        reason_of(rejection),
        new_password@,
        shown_id,
        shown,
        now as int,
        r@,
    ));
    r
}

// ---- email change ----

/// The answer to a request for an email change.
#[derive(Debug, PartialEq, Eq)]
pub enum EmailRequest {
    /// The session is missing or not verified.
    Denied,
    /// The new address was refused, with the message for the user.
    Rejected(String),
    /// A code was mailed to `email`, the address in use so far.
    Issued { email: String, mail: Mail },
}

/// The answer to a request for an email change, as a mathematical value.
pub enum EmailAnswer {
    Denied,
    Rejected(Seq<char>),
    Issued { email: Seq<char>, letter: Letter },
}

impl View for EmailRequest {
    type V = EmailAnswer;

    open spec fn view(&self) -> EmailAnswer {
        match *self {
            EmailRequest::Denied => EmailAnswer::Denied,
            EmailRequest::Rejected(t) => EmailAnswer::Rejected(t@),
            EmailRequest::Issued { email, mail } => EmailAnswer::Issued {
                email: email@,
                letter: mail@,
            },
        }
    }
}

/// What requesting an email change does. A session that cannot be read or
/// is not verified is denied. A new address that validation refused is
/// rejected. Otherwise the code and the new address are stored and the code
/// is mailed to the address in use.
pub open spec fn email_change_requested(
    before: Seq<SessionView>,
    after: Seq<SessionView>,
    id: Seq<char>,
    now: int,
    new_email: Seq<char>,
    rejection: Option<Seq<char>>,
    code: Seq<char>,
    answer: EmailAnswer,
) -> bool {
    match lookup(before, id, now) {
        Some(v) => if !v.has("verified"@, "1"@) {
            after == before && answer == EmailAnswer::Denied
        } else if rejection is Some {
            after == before && answer == EmailAnswer::Rejected(rejection.unwrap())
        } else if v.get("email"@) is None {
            after == before && answer == EmailAnswer::Denied
        } else {
            after == replaced(
                before,
                v.put("email_change_code"@, code).put("new_email"@, new_email),
            ) && answer == (EmailAnswer::Issued {
                email: v.data["email"@],
                letter: email_letter(v.data["email"@], new_email, code),
            })
        },
        None => after == before && answer == EmailAnswer::Denied,
    }
}

/// Starts an email change with the given `code`. `rejection` is what
/// validation said of the new address.
pub fn send_change_email_with(
    store: &mut SessionStore,
    session: &str,
    new_email: &str,
    rejection: Option<String>,
    now: u64,
    code: String,
) -> (r: EmailRequest)
    requires
        old(store).wf(),
    ensures
        final(store).wf(),
        email_change_requested(
            old(store)@,
            final(store)@,
            session@,
            now as int,
            new_email@,
            reason_of(rejection),
            code@,
            r@,
        ),
{
    let slot = match store.find_live(session, now) {
        Some(slot) => slot,
        None => {
            return EmailRequest::Denied;
        },
    };
    let current = store.session(slot);
    if !current.holds_value("verified", "1") {
        return EmailRequest::Denied;
    }
    if let Some(t) = rejection {
        return EmailRequest::Rejected(t);
    }
    let email = match current.get("email") {
        Some(email) => email,
        None => {
            return EmailRequest::Denied;
        },
    };
    let request = "a change of your email address to ".to_string().concat(new_email);
    let body = compose(request.as_str(), code.as_str(), "did not make this request");
    store.session_mut(slot).set("email_change_code", code).set("new_email", new_email.to_owned());
    proof {
        let v = old(store)@[slot as int];
        lemma_update_is_replaced(
            old(store)@,
            slot as int,
            v.put("email_change_code"@, code@).put("new_email"@, new_email@),
        );
    }
    let mail = Mail {
        to: email.clone(),
        subject: "Verify your Email Change Request".to_string(),
        body,
    };
    EmailRequest::Issued { email, mail }
}

/// Starts an email change with a fresh random code.
pub fn send_change_email(
    store: &mut SessionStore,
    session: &str,
    new_email: &str,
    rejection: Option<String>,
    now: u64,
) -> (r: EmailRequest)
    requires
        old(store).wf(),
    ensures
        final(store).wf(),
        exists|code: Seq<char>|
            is_token(code, CODE_LENGTH as nat) && #[trigger] email_change_requested(
                old(store)@,
                final(store)@,
                session@,
                now as int,
                new_email@,
                reason_of(rejection),
                code,
                r@,
            ),
{
    let code = generate_verification_code();
    let ghost shown = code@;
    let r = send_change_email_with(store, session, new_email, rejection, now, code);
    assert(email_change_requested(
        old(store)@,
        store@,
        session@,
        now as int,
        new_email@,
        reason_of(rejection),
        shown,
        r@,
    ));
    r
}

// ---- confirmation ----

/// The four workflows.
#[derive(Clone, Copy, Debug, PartialEq, Eq, Structural)]
pub enum Workflow {
    Verification,
    PasswordReset,
    EmailChange,
    Deletion,
}

/// The write that marks the user `email` as verified.
pub open spec fn verified_write(email: Seq<char>) -> Write {
    Write::Update {
        table: "users"@,
        key_column: "email"@,
        key: email,
        column: "verified"@,
        value: "1"@,
    }
}

/// The address whose password a confirmed reset changes: the session's own,
/// or else the one the reset was asked for.
pub open spec fn reset_target(v: SessionView) -> Option<Seq<char>> {
    if v.get("email"@) is Some {
        v.get("email"@)
    } else {
        v.get("forgot_password_email"@)
    }
}

/// The write that gives the user `email` the password hash `hash`.
pub open spec fn password_write(email: Seq<char>, hash: Seq<char>) -> Write {
    Write::Update {
        table: "users"@,
        key_column: "email"@,
        key: email,
        column: "password"@,
        value: hash,
    }
}

/// The write that gives the user `id` the address `email`.
pub open spec fn email_write(id: Seq<char>, email: Seq<char>) -> Write {
    Write::Update { table: "users"@, key_column: "id"@, key: id, column: "email"@, value: email }
}

/// The write that deletes the user `id`.
pub open spec fn deletion_write(id: Seq<char>) -> Write {
    Write::Delete { table: "users"@, key_column: "id"@, key: id }
}

impl Workflow {
    /// The session key under which the workflow keeps its one-time code.
    pub open spec fn code_key(self) -> Seq<char> {
        match self {
            Workflow::Verification => "verification_code"@,
            Workflow::PasswordReset => "password_change_code"@,
            Workflow::EmailChange => "email_change_code"@,
            Workflow::Deletion => "delete_code"@,
        }
    }

    /// The change that the session `v` holds ready for the workflow, if it
    /// holds all of it: for a signup verification the address that awaits it;
    /// for a password reset the target address and the new hash; for an email
    /// change, in a verified session, the user's id and the new address; for
    /// an account deletion, in a verified session, the user's id.
    pub open spec fn pending(self, v: SessionView) -> Option<Write> {
        match self {
            Workflow::Verification => if awaits_verification(v) {
                Some(verified_write(v.data["not_verified_email"@]))
            } else {
                None
            },
            Workflow::PasswordReset => if reset_target(v) is Some && v.get("new_password"@)
                is Some {
                Some(password_write(reset_target(v).unwrap(), v.data["new_password"@]))
            } else {
                None
            },
            Workflow::EmailChange => if v.has("verified"@, "1"@) && v.get("id"@) is Some && v.get(
                "new_email"@,
            ) is Some {
                Some(email_write(v.data["id"@], v.data["new_email"@]))
            } else {
                None
            },
            Workflow::Deletion => if v.has("verified"@, "1"@) && v.get("id"@) is Some {
                Some(deletion_write(v.data["id"@]))
            } else {
                None
            },
        }
    }

    /// What is left of the session `v` once the change has been written:
    /// after a signup verification, a password reset and an email change the
    /// session without the code and the pending values, so that whoever was
    /// logged in stays logged in; after an account deletion nothing, the
    /// session ends.
    pub open spec fn settled(self, v: SessionView) -> Option<SessionView> {
        match self {
            Workflow::Verification => Some(
                v.cut("not_verified_email"@).cut("verification_code"@),
            ),
            Workflow::EmailChange => Some(v.cut("new_email"@).cut("email_change_code"@)),
            Workflow::PasswordReset => Some(
                v.cut("new_password"@).cut("forgot_password_email"@).cut("password_change_code"@),
            ),
            Workflow::Deletion => None,
        }
    }
}

/// The write that a confirmation with `code` asks for: the change that the
/// session holds ready, where the session can be read at `now` and `code` is
/// exactly the code it holds for the workflow; none otherwise.
pub open spec fn confirmed(
    s: Seq<SessionView>,
    workflow: Workflow,
    id: Seq<char>,
    code: Seq<char>,
    now: int,
) -> Option<Write> {
    match lookup(s, id, now) {
        Some(v) => if v.has(workflow.code_key(), code) {
            workflow.pending(v)
        } else {
            None
        },
        None => None,
    }
}

/// The store after a workflow of session `id` was settled at `now`.
pub open spec fn settled_store(
    s: Seq<SessionView>,
    workflow: Workflow,
    id: Seq<char>,
    now: int,
) -> Seq<SessionView> {
    match lookup(s, id, now) {
        Some(v) => match workflow.settled(v) {
            Some(left) => replaced(s, left),
            None => removed(s, id),
        },
        None => s,
    }
}

/// Confirms a workflow: says which change is to be written, if the code
/// matches. The session stays as it is until the change has been written
/// and the workflow is settled; a confirmation repeated until then asks for
/// the same write again.
pub fn confirm(store: &SessionStore, workflow: Workflow, session: &str, code: &str, now: u64) -> (r:
    Option<StorageWrite>)
    requires
        store.wf(),
    ensures
        write_of(r) == confirmed(store@, workflow, session@, code@, now as int),
{
    let current = store.from_id(session, now)?;
    match workflow {
        Workflow::Verification => {
            if !current.holds_value("verification_code", code) || !current.holds_value(
                "verified",
                "0",
            ) {
                return None;
            }
            let email = current.get("not_verified_email")?;
            Some(update("users", "email", email.as_str(), "verified", "1"))
        },
        Workflow::PasswordReset => {
            if !current.holds_value("password_change_code", code) {
                return None;
            }
            let email = match current.get("email") {
                Some(email) => email,
                None => current.get("forgot_password_email")?,
            };
            let hash = current.get("new_password")?;
            Some(update("users", "email", email.as_str(), "password", hash.as_str()))
        },
        Workflow::EmailChange => {
            if !current.holds_value("email_change_code", code) || !current.holds_value(
                "verified",
                "1",
            ) {
                return None;
            }
            let id = current.get("id")?;
            let new_email = current.get("new_email")?;
            Some(update("users", "id", id.as_str(), "email", new_email.as_str()))
        },
        Workflow::Deletion => {
            if !current.holds_value("delete_code", code) || !current.holds_value("verified", "1") {
                return None;
            }
            let id = current.get("id")?;
            Some(delete("users", "id", id.as_str()))
        },
    }
}

/// Settles a workflow after its change has been written: the code and the
/// pending value leave the session, or the session ends. From then on the
/// code is refused.
pub fn settle(store: &mut SessionStore, workflow: Workflow, session: &str, now: u64)
    requires
        old(store).wf(),
    ensures
        final(store).wf(),
        final(store)@ == settled_store(old(store)@, workflow, session@, now as int),
        forall|code: Seq<char>|
            (#[trigger] confirmed(final(store)@, workflow, session@, code, now as int)) is None,
{
    let slot = match store.find_live(session, now) {
        Some(slot) => slot,
        None => {
            return ;
        },
    };
    let ghost v = store@[slot as int];
    match workflow {
        Workflow::Verification => {
            let target = store.session_mut(slot);
            target.unset("not_verified_email");
            target.unset("verification_code");
            proof {
                let left = v.cut("not_verified_email"@).cut("verification_code"@);
                lemma_update_is_replaced(old(store)@, slot as int, left);
                lemma_lookup_replaced(old(store)@, left, now as int);
            }
        },
        Workflow::EmailChange => {
            let target = store.session_mut(slot);
            target.unset("new_email");
            target.unset("email_change_code");
            proof {
                let left = v.cut("new_email"@).cut("email_change_code"@);
                lemma_update_is_replaced(old(store)@, slot as int, left);
                lemma_lookup_replaced(old(store)@, left, now as int);
            }
        },
        Workflow::PasswordReset => {
            let target = store.session_mut(slot);
            target.unset("new_password");
            target.unset("forgot_password_email");
            target.unset("password_change_code");
            proof {
                let left = v.cut("new_password"@).cut("forgot_password_email"@).cut(
                    "password_change_code"@,
                );
                lemma_update_is_replaced(old(store)@, slot as int, left);
                lemma_lookup_replaced(old(store)@, left, now as int);
            }
        },
        Workflow::Deletion => {
            store.delete(session);
        },
    }
}

/// Confirms a signup verification. After the write, the caller settles the
/// workflow and refreshes the session from the user's record.
pub fn verify_account(store: &SessionStore, session: &str, code: &str, now: u64) -> (r: Option<
    StorageWrite,
>)
    requires
        store.wf(),
    ensures
        write_of(r) == confirmed(store@, Workflow::Verification, session@, code@, now as int),
{
    confirm(store, Workflow::Verification, session, code, now)
}

/// Confirms a password reset. After the write, the caller settles the
/// workflow, which clears the code, the new hash and the remembered address.
pub fn change_password(store: &SessionStore, session: &str, code: &str, now: u64) -> (r: Option<
    StorageWrite,
>)
    requires
        store.wf(),
    ensures
        write_of(r) == confirmed(store@, Workflow::PasswordReset, session@, code@, now as int),
{
    confirm(store, Workflow::PasswordReset, session, code, now)
}

/// What the user is told after a confirmed password reset.
pub fn password_changed_message() -> (m: String)
    ensures
        m@ == "Your password was successfully changed!"@,
{
    "Your password was successfully changed!".to_string()
}

/// Confirms an email change. After the write, the caller settles the
/// workflow and refreshes the session from the user's record.
pub fn change_email(store: &SessionStore, session: &str, code: &str, now: u64) -> (r: Option<
    StorageWrite,
>)
    requires
        store.wf(),
    ensures
        write_of(r) == confirmed(store@, Workflow::EmailChange, session@, code@, now as int),
{
    confirm(store, Workflow::EmailChange, session, code, now)
}

/// Confirms an account deletion. After the write, the caller settles the
/// workflow, which ends the session.
pub fn delete_account(store: &SessionStore, session: &str, code: &str, now: u64) -> (r: Option<
    StorageWrite,
>)
    requires
        store.wf(),
    ensures
        write_of(r) == confirmed(store@, Workflow::Deletion, session@, code@, now as int),
{
    confirm(store, Workflow::Deletion, session, code, now)
}

// ---- a new code takes the place of the old one ----

proof fn lemma_keys_differ()
    ensures
        "verification_code"@ != "verified"@,
        "verification_code"@ != "not_verified_email"@,
        "delete_code"@ != "verified"@,
        "delete_code"@ != "id"@,
        "email_change_code"@ != "new_email"@,
        "email_change_code"@ != "verified"@,
        "email_change_code"@ != "id"@,
        "new_email"@ != "verified"@,
        "new_email"@ != "id"@,
        "password_change_code"@ != "new_password"@,
        "password_change_code"@ != "email"@,
        "password_change_code"@ != "forgot_password_email"@,
        "new_password"@ != "email"@,
        "new_password"@ != "forgot_password_email"@,
{
    reveal_strlit("verification_code");
    reveal_strlit("verified");
    reveal_strlit("not_verified_email");
    reveal_strlit("delete_code");
    reveal_strlit("id");
    reveal_strlit("email_change_code");
    reveal_strlit("new_email");
    reveal_strlit("password_change_code");
    reveal_strlit("new_password");
    reveal_strlit("email");
    reveal_strlit("forgot_password_email");
    assert("verification_code"@.len() == 17);
    assert("verified"@.len() == 8);
    assert("not_verified_email"@.len() == 18);
    assert("delete_code"@.len() == 11);
    assert("id"@.len() == 2);
    assert("email_change_code"@.len() == 17);
    assert("new_email"@.len() == 9);
    assert("password_change_code"@.len() == 20);
    assert("new_password"@.len() == 12);
    assert("email"@.len() == 5);
    assert("forgot_password_email"@.len() == 21);
}

/// Signup verification: once a second code has been mailed, the first no
/// longer confirms, and the second does while the session can be read.
pub proof fn lemma_new_verification_code_overwrites(
    s0: Seq<SessionView>,
    s1: Seq<SessionView>,
    s2: Seq<SessionView>,
    id: Seq<char>,
    first: Seq<char>,
    second: Seq<char>,
    times: (int, int, int),
    mails: (Option<Letter>, Option<Letter>),
)
    requires
        distinct_ids(s0),
        verification_sent(s0, s1, id, times.0, first, mails.0),
        verification_sent(s1, s2, id, times.1, second, mails.1),
        mails.0 is Some,
        mails.1 is Some,
    ensures
        first != second ==> confirmed(s2, Workflow::Verification, id, first, times.2) is None,
        lookup(s2, id, times.2) is Some ==> confirmed(
            s2,
            Workflow::Verification,
            id,
            second,
            times.2,
        ) is Some,
{
    let v = lookup(s0, id, times.0).unwrap();
    let v1 = v.put("verification_code"@, first);
    lemma_replaced_keeps_ids(s0, v1);
    lemma_lookup_replaced(s0, v1, times.1);
    let v2 = v1.put("verification_code"@, second);
    lemma_lookup_replaced(s1, v2, times.2);
    lemma_keys_differ();
}

/// Account deletion: once a second code has been mailed, the first no
/// longer confirms, and the second does while the session can be read and
/// knows its user.
pub proof fn lemma_new_deletion_code_overwrites(
    s0: Seq<SessionView>,
    s1: Seq<SessionView>,
    s2: Seq<SessionView>,
    id: Seq<char>,
    first: Seq<char>,
    second: Seq<char>,
    times: (int, int, int),
    issues: (Option<(Seq<char>, Letter)>, Option<(Seq<char>, Letter)>),
)
    requires
        distinct_ids(s0),
        deletion_requested(s0, s1, id, times.0, first, issues.0),
        deletion_requested(s1, s2, id, times.1, second, issues.1),
        issues.0 is Some,
        issues.1 is Some,
    ensures
        first != second ==> confirmed(s2, Workflow::Deletion, id, first, times.2) is None,
        lookup(s2, id, times.2) is Some && lookup(s0, id, times.0).unwrap().get("id"@) is Some
            ==> confirmed(s2, Workflow::Deletion, id, second, times.2) is Some,
{
    let v = lookup(s0, id, times.0).unwrap();
    let v1 = v.put("delete_code"@, first);
    lemma_replaced_keeps_ids(s0, v1);
    lemma_lookup_replaced(s0, v1, times.1);
    let v2 = v1.put("delete_code"@, second);
    lemma_lookup_replaced(s1, v2, times.2);
    lemma_keys_differ();
}

/// Email change: once a second code has been mailed, the first no longer
/// confirms, and the second does while the session can be read and knows its
/// user.
pub proof fn lemma_new_email_code_overwrites(
    s0: Seq<SessionView>,
    s1: Seq<SessionView>,
    s2: Seq<SessionView>,
    id: Seq<char>,
    first: Seq<char>,
    second: Seq<char>,
    new_emails: (Seq<char>, Seq<char>),
    times: (int, int, int),
    answers: (EmailAnswer, EmailAnswer),
)
    requires
        distinct_ids(s0),
        email_change_requested(s0, s1, id, times.0, new_emails.0, None, first, answers.0),
        email_change_requested(s1, s2, id, times.1, new_emails.1, None, second, answers.1),
        answers.0 is Issued,
        answers.1 is Issued,
    ensures
        first != second ==> confirmed(s2, Workflow::EmailChange, id, first, times.2) is None,
        lookup(s2, id, times.2) is Some && lookup(s0, id, times.0).unwrap().get("id"@) is Some
            ==> confirmed(s2, Workflow::EmailChange, id, second, times.2) == Some(
            email_write(lookup(s0, id, times.0).unwrap().data["id"@], new_emails.1),
        ),
{
    let v = lookup(s0, id, times.0).unwrap();
    let v1 = v.put("email_change_code"@, first).put("new_email"@, new_emails.0);
    lemma_replaced_keeps_ids(s0, v1);
    lemma_lookup_replaced(s0, v1, times.1);
    let v2 = v1.put("email_change_code"@, second).put("new_email"@, new_emails.1);
    lemma_lookup_replaced(s1, v2, times.2);
    lemma_keys_differ();
}

/// Password reset: once a second code has been mailed for the same session,
/// the first no longer confirms, and the second does, for the second hash,
/// while the session can be read.
pub proof fn lemma_new_password_code_overwrites(
    s0: Seq<SessionView>,
    s1: Seq<SessionView>,
    s2: Seq<SessionView>,
    id: Seq<char>,
    first: Seq<char>,
    second: Seq<char>,
    hashes: (Seq<char>, Seq<char>),
    times: (int, int, int),
    answers: (PasswordAnswer, PasswordAnswer),
)
    requires
        distinct_ids(s0),
        password_requested(
            s0,
            s1,
            Some(id),
            Seq::empty(),
            false,
            None,
            hashes.0,
            Seq::empty(),
            first,
            times.0,
            answers.0,
        ),
        password_requested(
            s1,
            s2,
            Some(id),
            Seq::empty(),
            false,
            None,
            hashes.1,
            Seq::empty(),
            second,
            times.1,
            answers.1,
        ),
        answers.0 is Issued,
        answers.1 is Issued,
    ensures
        first != second ==> confirmed(s2, Workflow::PasswordReset, id, first, times.2) is None,
        lookup(s2, id, times.2) is Some ==> confirmed(
            s2,
            Workflow::PasswordReset,
            id,
            second,
            times.2,
        ) == Some(password_write(lookup(s0, id, times.0).unwrap().data["email"@], hashes.1)),
{
    let v = lookup(s0, id, times.0).unwrap();
    let v1 = v.put("password_change_code"@, first).put("new_password"@, hashes.0);
    lemma_replaced_keeps_ids(s0, v1);
    lemma_lookup_replaced(s0, v1, times.1);
    let v2 = v1.put("password_change_code"@, second).put("new_password"@, hashes.1);
    lemma_lookup_replaced(s1, v2, times.2);
    lemma_keys_differ();
}

} // verus!
