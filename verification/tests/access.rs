use member_requests::access::{
    change_subscription, get_account, kill_session, login, login_with, parse_subscription, refresh,
    signup, signup_row, signup_with, AccessReply, AccountDetails, SubscriptionReply,
};
use member_requests::account::{
    decode_user, new_user_row, normalize_email, refresh_session, AuthError, UserRecord,
};
use member_requests::effects::StorageWrite;
use member_requests::session::{Session, SessionStore};
use member_requests::value::RawValue;

fn text(s: &str) -> RawValue {
    RawValue::Bytes(s.as_bytes().to_vec())
}

fn strings(list: &[&str]) -> Vec<String> {
    list.iter().map(|s| s.to_string()).collect()
}

fn user(email: &str, verified: i32, admin: i32) -> UserRecord {
    UserRecord {
        email: email.to_string(),
        password: "$hash".to_string(),
        id: 17,
        verified,
        admin,
        subscription_policy: 2,
        invalid_email: 0,
    }
}

#[test]
fn normalize_email_lowers_the_case() {
    assert_eq!(normalize_email("A@X.com"), "a@x.com");
    assert_eq!(normalize_email("already@lower.org"), "already@lower.org");
    assert_eq!(normalize_email("ÄÖ@X.de"), "äö@x.de");
}

#[test]
fn new_user_row_is_unverified_and_subscribed_to_emails() {
    assert_eq!(
        new_user_row("a@x.com"),
        StorageWrite::Insert {
            table: "users".to_string(),
            columns: strings(&[
                "email",
                "password",
                "verified",
                "admin",
                "subscription_policy",
                "invalid_email"
            ]),
            values: strings(&["a@x.com", "", "0", "0", "1", "0"]),
        }
    );
}

#[test]
fn decode_user_reads_the_seven_columns() {
    let row = vec![
        text("a@x.com"),
        text("$hash"),
        text("17"),
        RawValue::Int(1),
        text("0"),
        text("2"),
        text("0"),
    ];
    assert_eq!(decode_user(&row), Some(user("a@x.com", 1, 0)));
    assert_eq!(decode_user(&row[..6].to_vec()), None);
    let mut bad = row.clone();
    bad[2] = text("seventeen");
    assert_eq!(decode_user(&bad), None);
    let mut null = row;
    null[0] = RawValue::Null;
    assert_eq!(decode_user(&null), None);
}

#[test]
fn auth_messages_are_distinct() {
    assert_eq!(AuthError::WrongPassword.message(), "Wrong password, please try again.");
    assert_eq!(
        AuthError::Unregistered.message(),
        "This email address is not registered. Please create a new account."
    );
}

#[test]
fn refresh_session_fills_a_verified_session() {
    let mut s = Session::new("sid".to_string(), 30, 0);
    let u = user("a@x.com", 1, 1);
    assert_eq!(refresh_session(&mut s, Some(&u), Some(true)), Ok(true));
    assert_eq!(s.get("id"), Some("17".to_string()));
    assert_eq!(s.get("invalid_email"), Some("0".to_string()));
    assert_eq!(s.get("verified"), Some("1".to_string()));
    assert_eq!(s.get("email"), Some("a@x.com".to_string()));
    assert_eq!(s.get("admin"), Some("1".to_string()));
    assert_eq!(s.get("subscription_policy"), Some("2".to_string()));
    assert_eq!(s.get("not_verified_email"), None);
}

#[test]
fn refresh_session_restricts_an_unverified_session() {
    let mut s = Session::new("sid".to_string(), 30, 0);
    let u = user("a@x.com", 0, 1);
    assert_eq!(refresh_session(&mut s, Some(&u), None), Ok(false));
    assert_eq!(s.get("id"), Some("17".to_string()));
    assert_eq!(s.get("invalid_email"), Some("0".to_string()));
    assert_eq!(s.get("verified"), Some("0".to_string()));
    assert_eq!(s.get("not_verified_email"), Some("a@x.com".to_string()));
    assert_eq!(s.get("email"), None);
    assert_eq!(s.get("admin"), None);
    assert_eq!(s.get("subscription_policy"), None);
}

#[test]
fn refresh_session_fails_without_touching_the_session() {
    let mut s = Session::new("sid".to_string(), 30, 0);
    s.set("kept", "yes".to_string());
    let u = user("a@x.com", 1, 0);
    assert_eq!(refresh_session(&mut s, Some(&u), Some(false)), Err(AuthError::WrongPassword));
    assert_eq!(refresh_session(&mut s, None, Some(true)), Err(AuthError::Unregistered));
    assert_eq!(refresh_session(&mut s, None, None), Err(AuthError::Unregistered));
    assert_eq!(s.get("id"), None);
    assert_eq!(s.get("verified"), None);
    assert_eq!(s.get("kept"), Some("yes".to_string()));
}

#[test]
fn signup_creates_an_unverified_session() {
    let email = normalize_email("A@X.com");
    assert_eq!(email, "a@x.com");
    let created = user(&email, 0, 0);
    let mut store = SessionStore::new();
    let reply = signup_with(&mut store, 100, None, Some(&created), "sid".to_string());
    assert_eq!(reply, AccessReply::Opened { session: "sid".to_string(), verified: false });
    assert_eq!(store.get("sid", "verified", 100), Some("0".to_string()));
    assert_eq!(store.get("sid", "not_verified_email", 100), Some("a@x.com".to_string()));
    assert_eq!(store.get("sid", "id", 100), Some("17".to_string()));
    assert_eq!(store.get("sid", "email", 100), None);
    assert!(store.lookup("sid", 129));
    assert!(!store.lookup("sid", 130));
}

#[test]
fn signup_rejected_by_validation_opens_no_session() {
    let mut store = SessionStore::new();
    let reply = signup_with(
        &mut store,
        100,
        Some("This email is already in use.".to_string()),
        None,
        "sid".to_string(),
    );
    assert_eq!(reply, AccessReply::Rejected("This email is already in use.".to_string()));
    assert_eq!(store.len(), 0);
}

#[test]
fn signup_draws_a_session_id() {
    let created = user("a@x.com", 0, 0);
    let mut store = SessionStore::new();
    match signup(&mut store, 100, None, Some(&created)) {
        AccessReply::Opened { session, verified } => {
            assert!(!verified);
            assert_eq!(session.len(), 32);
            assert!(session.chars().all(|c| c.is_ascii_alphanumeric()));
            assert_eq!(store.get(&session, "verified", 100), Some("0".to_string()));
        }
        other => panic!("unexpected reply {:?}", other),
    }
}

#[test]
fn login_with_the_right_password_on_a_verified_account() {
    let u = user("a@x.com", 1, 1);
    let mut store = SessionStore::new();
    let reply = login_with(&mut store, 100, Some(&u), true, "sid".to_string());
    assert_eq!(reply, AccessReply::Opened { session: "sid".to_string(), verified: true });
    assert_eq!(store.get("sid", "admin", 100), Some("1".to_string()));
    assert_eq!(store.get("sid", "email", 100), Some("a@x.com".to_string()));
    assert_eq!(store.get("sid", "subscription_policy", 100), Some("2".to_string()));
    assert_eq!(store.get("sid", "verified", 100), Some("1".to_string()));
}

#[test]
fn login_with_the_wrong_password_only_creates_the_session() {
    let u = user("a@x.com", 1, 1);
    let mut store = SessionStore::new();
    let reply = login_with(&mut store, 100, Some(&u), false, "sid".to_string());
    assert_eq!(reply, AccessReply::Denied(AuthError::WrongPassword));
    match reply {
        AccessReply::Denied(e) => assert_eq!(e.message(), "Wrong password, please try again."),
        other => panic!("unexpected reply {:?}", other),
    }
    assert_eq!(store.len(), 1);
    assert!(store.lookup("sid", 100));
    for key in ["id", "invalid_email", "verified", "email", "admin", "subscription_policy"] {
        assert_eq!(store.get("sid", key, 100), None);
    }
}

#[test]
fn login_of_an_unregistered_address_is_denied() {
    let mut store = SessionStore::new();
    let reply = login_with(&mut store, 100, None, true, "sid".to_string());
    assert_eq!(reply, AccessReply::Denied(AuthError::Unregistered));
    assert_eq!(store.len(), 1);
}

#[test]
fn login_draws_a_session_id() {
    let u = user("a@x.com", 1, 0);
    let mut store = SessionStore::new();
    match login(&mut store, 5, Some(&u), true) {
        AccessReply::Opened { session, verified } => {
            assert!(verified);
            assert_eq!(session.len(), 32);
            assert_eq!(store.get(&session, "email", 5), Some("a@x.com".to_string()));
        }
        other => panic!("unexpected reply {:?}", other),
    }
}

#[test]
fn login_beyond_capacity_evicts_the_oldest_session() {
    let u = user("a@x.com", 1, 0);
    let mut store = SessionStore::new();
    for i in 0..101 {
        login_with(&mut store, 0, Some(&u), true, format!("s{}", i));
    }
    assert_eq!(store.len(), 100);
    assert!(!store.lookup("s0", 0));
    assert!(store.lookup("s1", 0));
    assert!(store.lookup("s100", 0));
}

#[test]
fn refresh_rereads_the_user() {
    let mut store = SessionStore::new();
    login_with(&mut store, 0, Some(&user("a@x.com", 1, 0)), true, "sid".to_string());
    let mut changed = user("b@x.com", 1, 1);
    changed.subscription_policy = 0;
    refresh(&mut store, "sid", 1, Some(&changed));
    assert_eq!(store.get("sid", "email", 1), Some("b@x.com".to_string()));
    assert_eq!(store.get("sid", "admin", 1), Some("1".to_string()));
    assert_eq!(store.get("sid", "subscription_policy", 1), Some("0".to_string()));
    refresh(&mut store, "sid", 1, None);
    assert_eq!(store.get("sid", "email", 1), Some("b@x.com".to_string()));
    refresh(&mut store, "nobody", 1, Some(&changed));
    assert_eq!(store.len(), 1);
}

#[test]
fn kill_session_ends_it() {
    let mut store = SessionStore::new();
    login_with(&mut store, 0, Some(&user("a@x.com", 1, 0)), true, "sid".to_string());
    kill_session(&mut store, "nobody", 1);
    assert!(store.lookup("sid", 1));
    kill_session(&mut store, "sid", 1);
    assert!(!store.lookup("sid", 1));
    assert_eq!(store.len(), 0);
}

#[test]
fn get_account_gives_what_was_asked_for() {
    let mut store = SessionStore::new();
    login_with(&mut store, 0, Some(&user("a@x.com", 1, 0)), true, "sid".to_string());
    assert_eq!(
        get_account(&store, "sid", "email,admin", 1),
        Some(AccountDetails {
            email: Some("a@x.com".to_string()),
            admin: Some("0".to_string()),
            subscription_policy: None,
        })
    );
    assert_eq!(
        get_account(&store, "sid", "subscription_policy", 1),
        Some(AccountDetails {
            email: None,
            admin: None,
            subscription_policy: Some("2".to_string()),
        })
    );
    assert_eq!(
        get_account(&store, "sid", "", 1),
        Some(AccountDetails { email: None, admin: None, subscription_policy: None })
    );
}

#[test]
fn get_account_needs_a_verified_session() {
    let mut store = SessionStore::new();
    login_with(&mut store, 0, Some(&user("a@x.com", 0, 0)), true, "pending".to_string());
    assert_eq!(get_account(&store, "pending", "email", 1), None);
    assert_eq!(get_account(&store, "nobody", "email", 1), None);
    login_with(&mut store, 0, Some(&user("a@x.com", 1, 0)), true, "sid".to_string());
    assert_eq!(get_account(&store, "sid", "email", 30), None);
}

#[test]
fn parse_subscription_reads_the_three_policies() {
    assert_eq!(parse_subscription("0"), Some(0));
    assert_eq!(parse_subscription("1"), Some(1));
    assert_eq!(parse_subscription("2"), Some(2));
    assert_eq!(parse_subscription("+1"), Some(1));
    assert_eq!(parse_subscription("002"), Some(2));
    assert_eq!(parse_subscription("3"), None);
    assert_eq!(parse_subscription("10"), None);
    assert_eq!(parse_subscription("99999999999999999999999999"), None);
    assert_eq!(parse_subscription(""), None);
    assert_eq!(parse_subscription("+"), None);
    assert_eq!(parse_subscription("-1"), None);
    assert_eq!(parse_subscription("1 "), None);
    assert_eq!(parse_subscription("one"), None);
}

#[test]
fn change_subscription_writes_the_policy() {
    let mut store = SessionStore::new();
    login_with(&mut store, 0, Some(&user("a@x.com", 1, 0)), true, "sid".to_string());
    let messages = [
        "You are now unsubscribed from receiving emails.",
        "You are now subscribed to receive emails.",
        "You are now subscribed to receive emails and reminders.",
    ];
    for (value, message) in ["0", "1", "2"].iter().zip(messages.iter()) {
        assert_eq!(
            change_subscription(&store, "sid", value, None, 1),
            SubscriptionReply::Changed {
                write: StorageWrite::Update {
                    table: "users".to_string(),
                    key_column: "id".to_string(),
                    key: "17".to_string(),
                    column: "subscription_policy".to_string(),
                    value: value.to_string(),
                },
                message: message.to_string(),
            }
        );
    }
}

#[test]
fn change_subscription_refuses_and_fails() {
    let mut store = SessionStore::new();
    login_with(&mut store, 0, Some(&user("a@x.com", 1, 0)), true, "sid".to_string());
    assert_eq!(
        change_subscription(&store, "sid", "7", Some("Invalid subscription.".to_string()), 1),
        SubscriptionReply::Rejected("Invalid subscription.".to_string())
    );
    assert_eq!(change_subscription(&store, "sid", "7", None, 1), SubscriptionReply::Failed);
    assert_eq!(change_subscription(&store, "nobody", "1", None, 1), SubscriptionReply::Failed);
    assert_eq!(change_subscription(&store, "sid", "1", None, 30), SubscriptionReply::Failed);
    store.open("bare".to_string(), 30, 100, 0);
    assert_eq!(change_subscription(&store, "bare", "1", None, 1), SubscriptionReply::Failed);
}

#[test]
fn signup_row_inserts_only_an_accepted_address() {
    let email = normalize_email("A@X.com");
    assert_eq!(
        signup_row(&None, &email),
        Some(StorageWrite::Insert {
            table: "users".to_string(),
            columns: strings(&[
                "email",
                "password",
                "verified",
                "admin",
                "subscription_policy",
                "invalid_email"
            ]),
            values: strings(&["a@x.com", "", "0", "0", "1", "0"]),
        })
    );
    assert_eq!(signup_row(&Some("This email is already in use.".to_string()), &email), None);
}
