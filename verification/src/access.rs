//! Signing up, logging in and out, and what a logged-in user reads and sets
//! of their own account.
use vstd::prelude::*;

use crate::account::{
    new_user_columns, new_user_row, new_user_values, refresh_result, refresh_session,
    refresh_session_view, user_view, AuthError, UserRecord, UserView,
};
use crate::codec::contains_text;
use crate::effects::{update, StorageWrite, Write};
use crate::outside::str_contains;
use crate::session::{
    by_creation, distinct_ids, holds, lemma_lookup_replaced, lemma_opened,
    lemma_replaced_keeps_ids, lemma_update_is_replaced, lookup, new_session, removed, replaced,
    slot_of, with_new_session, SessionStore, SessionView, SESSION_CAPACITY, SESSION_ID_LENGTH,
    SESSION_TTL,
};
use crate::token::{is_token, random_text};
use crate::workflow::{reason_of, write_of};

verus! {

/// The answer to a signup or a login.
#[derive(Debug, PartialEq, Eq)]
pub enum AccessReply {
    /// Validation refused the signup, with the message for the user.
    Rejected(String),
    /// The credentials were refused.
    Denied(AuthError),
    /// A session was opened for the user.
    Opened { session: String, verified: bool },
}

/// The answer to a signup or a login, as a mathematical value.
pub enum AccessAnswer {
    Rejected(Seq<char>),
    Denied(AuthError),
    Opened { session: Seq<char>, verified: bool },
}

impl View for AccessReply {
    type V = AccessAnswer;

    open spec fn view(&self) -> AccessAnswer {
        match *self {
            AccessReply::Rejected(t) => AccessAnswer::Rejected(t@),
            AccessReply::Denied(e) => AccessAnswer::Denied(e),
            AccessReply::Opened { session, verified } => AccessAnswer::Opened {
                session: session@,
                verified,
            },
        }
    }
}

/// What opening a session for a user does: a new session `new_id` is opened
/// in any case; where the credential refresh succeeds it is filled from the
/// user and its identifier is the answer, and where it fails the reason is.
pub open spec fn accessed(
    before: Seq<SessionView>,
    after: Seq<SessionView>,
    now: int,
    user: Option<UserView>,
    password_matches: Option<bool>,
    new_id: Seq<char>,
    answer: AccessAnswer,
) -> bool {
    &&& after == replaced(
        with_new_session(before, new_id, now),
        refresh_session_view(new_session(new_id, now), user, password_matches),
    )
    &&& answer == match refresh_result(user, password_matches) {
        Ok(verified) => AccessAnswer::Opened { session: new_id, verified },
        Err(e) => AccessAnswer::Denied(e),
    }
}

fn open_session(
    store: &mut SessionStore,
    now: u64,
    user: Option<&UserRecord>,
    password_matches: Option<bool>,
    new_id: String,
) -> (r: AccessReply)
    requires
        old(store).wf(),
    ensures
        final(store).wf(),
        accessed(
            old(store)@,
            final(store)@,
            now as int,
            user_view(user),
            password_matches,
            new_id@,
            r@,
        ),
{
    store.open(new_id.clone(), SESSION_TTL, SESSION_CAPACITY, now);
    let ghost base = store@;
    let slot = match store.find_live(new_id.as_str(), now) {
        Some(slot) => slot,
        None => {
            return AccessReply::Denied(AuthError::Unregistered);
        },
    };
    let outcome = refresh_session(store.session_mut(slot), user, password_matches);
    proof {
        lemma_update_is_replaced(
            base,
            slot as int,
            refresh_session_view(new_session(new_id@, now as int), user_view(user), password_matches),
        );
    }
    match outcome {
        Ok(verified) => AccessReply::Opened { session: new_id, verified },
        Err(e) => AccessReply::Denied(e),
    }
}

/// Logs a user in under the given identifier for the new session. `user` is
/// the record found for the address, `password_matches` whether the password
/// matched its hash.
pub fn login_with(
    store: &mut SessionStore,
    now: u64,
    user: Option<&UserRecord>,
    password_matches: bool,
    new_id: String,
) -> (r: AccessReply)
    requires
        old(store).wf(),
    ensures
        final(store).wf(),
        accessed(
            old(store)@,
            final(store)@,
            now as int,
            user_view(user),
            Some(password_matches),
            new_id@,
            r@,
        ),
{
    open_session(store, now, user, Some(password_matches), new_id)
}

/// Logs a user in under a fresh random session identifier.
pub fn login(
    store: &mut SessionStore,
    now: u64,
    user: Option<&UserRecord>,
    password_matches: bool,
) -> (r: AccessReply)
    requires
        old(store).wf(),
    ensures
        final(store).wf(),
        exists|new_id: Seq<char>|
            is_token(new_id, SESSION_ID_LENGTH as nat) && #[trigger] accessed(
                old(store)@,
                final(store)@,
                now as int,
                user_view(user),
                Some(password_matches),
                new_id,
                r@,
            ),
{
    let new_id = random_text(SESSION_ID_LENGTH);
    let ghost shown = new_id@;
    let r = login_with(store, now, user, password_matches, new_id);
    assert(accessed(
        old(store)@,
        store@,
        now as int,
        user_view(user),
        Some(password_matches),
        shown,
        r@,
    ));
    r
}

/// Opening a session for a user keeps the store within its capacity; the
/// new session can be read under its identifier at once; and of the sessions
/// that were alive, whoever had to leave was created no later than whoever
/// stays.
pub proof fn lemma_access_evicts_the_oldest(
    before: Seq<SessionView>,
    after: Seq<SessionView>,
    now: int,
    user: Option<UserView>,
    password_matches: Option<bool>,
    new_id: Seq<char>,
    answer: AccessAnswer,
)
    requires
        distinct_ids(before),
        by_creation(before),
        0 <= now,
        accessed(before, after, now, user, password_matches, new_id, answer),
    ensures
        distinct_ids(after),
        by_creation(after),
        after.len() <= SESSION_CAPACITY,
        lookup(after, new_id, now) is Some,
        forall|gone: int, held: int|
            0 <= gone < before.len() && 0 <= held < before.len() && (
            #[trigger] before[gone]).live_at(now) && before[gone].id != new_id && !holds(
                after,
                before[gone].id,
            ) && (#[trigger] before[held]).id != new_id && holds(after, before[held].id)
                ==> before[gone].created_at <= before[held].created_at,
{
    let v = new_session(new_id, now);
    let base = with_new_session(before, new_id, now);
    let w = refresh_session_view(v, user, password_matches);
    lemma_opened(before, v, SESSION_CAPACITY as nat, now);
    lemma_replaced_keeps_ids(base, w);
    lemma_lookup_replaced(base, w, now);
    lemma_update_is_replaced(base, slot_of(base, new_id), w);
}

/// The write that signing up asks for: the row of a new user for an address
/// that validation accepted, none for one that it refused.
pub open spec fn signup_write(rejection: Option<Seq<char>>, email: Seq<char>) -> Option<Write> {
    match rejection {
        Some(_) => None,
        None => Some(
            Write::Insert {
                table: "users"@,
                columns: new_user_columns(),
                values: new_user_values(email),
            },
        ),
    }
}

/// Decides the insert of a signup. `email` is the address in its stored
/// form, `rejection` what validation said of it. After the insert the caller
/// reads the user back and signs them up.
pub fn signup_row(rejection: &Option<String>, email: &str) -> (r: Option<StorageWrite>)
    ensures
        write_of(r) == signup_write(reason_of(*rejection), email@),
{
    match rejection {
        Some(_) => None,
        None => Some(new_user_row(email)),
    }
}

/// What signing up does: where validation refused the address, the refusal
/// is the answer and no session is opened; otherwise a session is opened
/// for the user just created, without a password check.
pub open spec fn signed_up(
    before: Seq<SessionView>,
    after: Seq<SessionView>,
    now: int,
    rejection: Option<Seq<char>>,
    user: Option<UserView>,
    new_id: Seq<char>,
    answer: AccessAnswer,
) -> bool {
    match rejection {
        Some(t) => after == before && answer == AccessAnswer::Rejected(t),
        None => accessed(before, after, now, user, None, new_id, answer),
    }
}

/// Signs a user up under the given identifier for the new session.
/// `rejection` is what validation said of the address; `user` is the record
/// read back after the insert.
pub fn signup_with(
    store: &mut SessionStore,
    now: u64,
    rejection: Option<String>,
    user: Option<&UserRecord>,
    new_id: String,
) -> (r: AccessReply)
    requires
        old(store).wf(),
    ensures
        final(store).wf(),
        signed_up(
            old(store)@,
            final(store)@,
            now as int,
            reason_of(rejection),
            user_view(user),
            new_id@,
            r@,
        ),
{
    match rejection {
        Some(t) => AccessReply::Rejected(t),
        None => open_session(store, now, user, None, new_id),
    }
}

/// Signs a user up under a fresh random session identifier.
pub fn signup(
    store: &mut SessionStore,
    now: u64,
    rejection: Option<String>,
    user: Option<&UserRecord>,
) -> (r: AccessReply)
    requires
        old(store).wf(),
    ensures
        final(store).wf(),
        exists|new_id: Seq<char>|
            is_token(new_id, SESSION_ID_LENGTH as nat) && #[trigger] signed_up(
                old(store)@,
                final(store)@,
                now as int,
                reason_of(rejection),
                user_view(user),
                new_id,
                r@,
            ),
{
    let new_id = random_text(SESSION_ID_LENGTH);
    let ghost shown = new_id@;
    let r = signup_with(store, now, rejection, user, new_id);
    assert(signed_up(
        old(store)@,
        store@,
        now as int,
        reason_of(rejection),
        user_view(user),
        shown,
        r@,
    ));
    r
}

/// Fills the session again from its user's record, as storage holds it now.
/// A session that cannot be read, or a user that is gone, changes nothing.
pub fn refresh(store: &mut SessionStore, session: &str, now: u64, user: Option<&UserRecord>)
    requires
        old(store).wf(),
    ensures
        final(store).wf(),
        final(store)@ == (match lookup(old(store)@, session@, now as int) {
            Some(v) => replaced(old(store)@, refresh_session_view(v, user_view(user), None)),
            None => old(store)@,
        }),
{
    match store.find_live(session, now) {
        Some(slot) => {
            let _ = refresh_session(store.session_mut(slot), user, None);
            proof {
                let v = old(store)@[slot as int];
                lemma_update_is_replaced(
                    old(store)@,
                    slot as int,
                    refresh_session_view(v, user_view(user), None),
                );
            }
        },
        None => {},
    }
}

/// Ends a session that can still be read.
pub fn kill_session(store: &mut SessionStore, session: &str, now: u64)
    requires
        old(store).wf(),
    ensures
        final(store).wf(),
        final(store)@ == (if lookup(old(store)@, session@, now as int) is Some {
            removed(old(store)@, session@)
        } else {
            old(store)@
        }),
        lookup(old(store)@, session@, now as int) is Some ==> forall|later: int|
            lookup(final(store)@, session@, later) is None,
{
    if store.lookup(session, now) {
        store.delete(session);
    }
}

/// The account details that a verified session may read.
#[derive(Debug, PartialEq, Eq)]
pub struct AccountDetails {
    pub email: Option<String>,
    pub admin: Option<String>,
    pub subscription_policy: Option<String>,
}

/// Account details as a mathematical value.
pub struct AccountView {
    pub email: Option<Seq<char>>,
    pub admin: Option<Seq<char>>,
    pub subscription_policy: Option<Seq<char>>,
}

impl View for AccountDetails {
    type V = AccountView;

    open spec fn view(&self) -> AccountView {
        AccountView {
            email: reason_of(self.email),
            admin: reason_of(self.admin),
            subscription_policy: reason_of(self.subscription_policy),
        }
    }
}

/// The value of `key`, if `details` asks for it and the session holds it.
pub open spec fn detail(v: SessionView, details: Seq<char>, key: Seq<char>) -> Option<Seq<char>> {
    if contains_text(details, key) {
        v.get(key)
    } else {
        None
    }
}

/// The details that a read of an account gives: those among email,
/// administrator flag and subscription policy that `details` names, from a
/// session that can be read and is verified; nothing from any other.
pub open spec fn account_of(s: Seq<SessionView>, id: Seq<char>, details: Seq<char>, now: int) -> Option<
    AccountView,
> {
    match lookup(s, id, now) {
        Some(v) => if v.has("verified"@, "1"@) {
            Some(
                AccountView {
                    email: detail(v, details, "email"@),
                    admin: detail(v, details, "admin"@),
                    subscription_policy: detail(v, details, "subscription_policy"@),
                },
            )
        } else {
            None
        },
        None => None,
    }
}

/// Reads the details of the account behind a session.
pub fn get_account(store: &SessionStore, session: &str, details: &str, now: u64) -> (r: Option<
    AccountDetails,
>)
    requires
        store.wf(),
    ensures
        match r {
            Some(a) => account_of(store@, session@, details@, now as int) == Some(a@),
            None => account_of(store@, session@, details@, now as int) is None,
        },
{
    let slot = match store.find_live(session, now) {
        Some(slot) => slot,
        None => {
            return None;
        },
    };
    let current = store.session(slot);
    if !current.holds_value("verified", "1") {
        return None;
    }
    let email = if str_contains(details, "email") {
        current.get("email")
    } else {
        None
    };
    let admin = if str_contains(details, "admin") {
        current.get("admin")
    } else {
        None
    };
    let subscription_policy = if str_contains(details, "subscription_policy") {
        current.get("subscription_policy")
    } else {
        None
    };
    Some(AccountDetails { email, admin, subscription_policy })
}

/// The number that decimal digits denote.
pub open spec fn decimal_number(s: Seq<char>) -> nat
    decreases s.len(),
{
    if s.len() == 0 {
        0
    } else {
        (decimal_number(s.drop_last()) * 10 + (s.last() as int - 48)) as nat
    }
}

/// One decimal digit or more, and nothing else.
pub open spec fn all_digit_chars(s: Seq<char>) -> bool {
    s.len() > 0 && forall|i: int| 0 <= i < s.len() ==> '0' <= #[trigger] s[i] <= '9'
}

/// The subscription policy that a text names: a number below 3, written in
/// decimal digits, after a `+` or not.
pub open spec fn subscription_choice(s: Seq<char>) -> Option<nat> {
    let digits = if s.len() > 0 && s[0] == '+' {
        s.drop_first()
    } else {
        s
    };
    if all_digit_chars(digits) && decimal_number(digits) < 3 {
        Some(decimal_number(digits))
    } else {
        None
    }
}

/// What the user is told after a change of subscription policy.
pub open spec fn subscription_message(choice: nat) -> Seq<char> {
    if choice == 0 {
        "You are now unsubscribed from receiving emails."@
    } else if choice == 1 {
        "You are now subscribed to receive emails."@
    } else {
        "You are now subscribed to receive emails and reminders."@
    }
}

/// Reads a subscription policy.
pub fn parse_subscription(value: &str) -> (r: Option<u8>)
    ensures
        match r {
            Some(k) => subscription_choice(value@) == Some(k as nat),
            None => subscription_choice(value@) is None,
        },
{
    let n = value.unicode_len();
    let start: usize = if n > 0 && value.get_char(0) == '+' {
        1
    } else {
        0
    };
    if start >= n {
        return None;
    }
    let ghost digits = value@.subrange(start as int, n as int);
    assert(digits =~= (if value@.len() > 0 && value@[0] == '+' {
        value@.drop_first()
    } else {
        value@
    }));
    let mut total: u8 = 0;
    let mut i: usize = start;
    while i < n
        invariant
            start <= i <= n,
            n == value@.len(),
            digits == value@.subrange(start as int, n as int),
            digits == (if value@.len() > 0 && value@[0] == '+' {
                value@.drop_first()
            } else {
                value@
            }),
            total <= 3,
            total < 3 ==> total == decimal_number(digits.subrange(0, i - start)),
            total == 3 ==> decimal_number(digits.subrange(0, i - start)) >= 3,
            forall|j: int| 0 <= j < i - start ==> '0' <= #[trigger] digits[j] <= '9',
        decreases n - i,
    {
        let c = value.get_char(i);
        assert(c == digits[i - start]);
        if c < '0' || c > '9' {
            assert(!('0' <= digits[i - start] <= '9'));
            return None;
        }
        let d: u8 = (c as u8) - 48;
        proof {
            let upto = digits.subrange(0, i - start + 1);
            assert(upto.drop_last() =~= digits.subrange(0, i - start));
            assert(upto.last() == c);
        }
        let next: u8 = total * 10 + d;
        total = if next >= 3 {
            3
        } else {
            next
        };
        i += 1;
    }
    assert(digits.subrange(0, n - start) =~= digits);
    if total < 3 {
        Some(total)
    } else {
        None
    }
}

/// The answer to a change of subscription policy.
#[derive(Debug, PartialEq, Eq)]
pub enum SubscriptionReply {
    /// The session cannot be read or knows no user, or the policy is none of
    /// 0, 1 and 2.
    Failed,
    /// Validation refused the policy, with the message for the user.
    Rejected(String),
    /// The policy is to be written; `message` tells the user.
    Changed { write: StorageWrite, message: String },
}

/// The answer to a change of subscription policy, as a mathematical value.
pub enum SubscriptionAnswer {
    Failed,
    Rejected(Seq<char>),
    Changed { write: Write, message: Seq<char> },
}

impl View for SubscriptionReply {
    type V = SubscriptionAnswer;

    open spec fn view(&self) -> SubscriptionAnswer {
        match *self {
            SubscriptionReply::Failed => SubscriptionAnswer::Failed,
            SubscriptionReply::Rejected(t) => SubscriptionAnswer::Rejected(t@),
            SubscriptionReply::Changed { write, message } => SubscriptionAnswer::Changed {
                write: write@,
                message: message@,
            },
        }
    }
}

/// The answer to a change of subscription policy: a refusal by validation
/// is passed on; otherwise the policy of the session's user is to be set to
/// what was asked.
pub open spec fn subscription_changed(
    s: Seq<SessionView>,
    id: Seq<char>,
    subscription: Seq<char>,
    rejection: Option<Seq<char>>,
    now: int,
) -> SubscriptionAnswer {
    match lookup(s, id, now) {
        Some(v) => match rejection {
            Some(t) => SubscriptionAnswer::Rejected(t),
            None => if v.get("id"@) is Some && subscription_choice(subscription) is Some {
                SubscriptionAnswer::Changed {
                    write: Write::Update {
                        table: "users"@,
                        key_column: "id"@,
                        key: v.data["id"@],
                        column: "subscription_policy"@,
                        value: subscription,
                    },
                    message: subscription_message(subscription_choice(subscription).unwrap()),
                }
            } else {
                SubscriptionAnswer::Failed
            },
        },
        None => SubscriptionAnswer::Failed,
    }
}

/// Changes the subscription policy of the session's user. `rejection` is
/// what validation said of the policy.
pub fn change_subscription(
    store: &SessionStore,
    session: &str,
    subscription: &str,
    rejection: Option<String>,
    now: u64,
) -> (r: SubscriptionReply)
    requires
        store.wf(),
    ensures
        r@ == subscription_changed(
            store@,
            session@,
            subscription@,
            reason_of(rejection),
            now as int,
        ),
{
    let slot = match store.find_live(session, now) {
        Some(slot) => slot,
        None => {
            return SubscriptionReply::Failed;
        },
    };
    if let Some(t) = rejection {
        return SubscriptionReply::Rejected(t);
    }
    let id = match store.session(slot).get("id") {
        Some(id) => id,
        None => {
            return SubscriptionReply::Failed;
        },
    };
    let message = match parse_subscription(subscription) {
        Some(0) => "You are now unsubscribed from receiving emails.".to_string(),
        Some(1) => "You are now subscribed to receive emails.".to_string(),
        Some(_) => "You are now subscribed to receive emails and reminders.".to_string(),
        None => {
            return SubscriptionReply::Failed;
        },
    };
    SubscriptionReply::Changed {
        write: update("users", "id", id.as_str(), "subscription_policy", subscription),
        message,
    }
}

} // verus!
