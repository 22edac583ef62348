use member_requests::session::{Session, SessionStore, SESSION_ID_LENGTH};

#[test]
fn new_session_is_empty() {
    let s = Session::new("abc".to_string(), 30, 100);
    assert_eq!(s.get_id(), "abc");
    assert_eq!(s.get("verified"), None);
    assert!(!s.holds_value("verified", ""));
}

#[test]
fn set_is_an_upsert_and_chains() {
    let mut s = Session::new("abc".to_string(), 30, 100);
    s.set("a", "1".to_string()).set("b", "2".to_string()).set("a", "3".to_string());
    assert_eq!(s.get("a"), Some("3".to_string()));
    assert_eq!(s.get("b"), Some("2".to_string()));
    assert!(s.holds_value("a", "3"));
    assert!(!s.holds_value("a", "1"));
}

#[test]
fn unset_removes_and_is_a_no_op_where_absent() {
    let mut s = Session::new("abc".to_string(), 30, 100);
    s.set("a", "1".to_string()).set("b", "2".to_string());
    s.unset("a");
    assert_eq!(s.get("a"), None);
    assert_eq!(s.get("b"), Some("2".to_string()));
    s.unset("missing");
    assert_eq!(s.get("b"), Some("2".to_string()));
}

#[test]
fn session_lives_strictly_before_created_plus_ttl() {
    let s = Session::new("abc".to_string(), 30, 100);
    assert!(s.is_live(100));
    assert!(s.is_live(129));
    assert!(!s.is_live(130));
    assert!(!s.is_live(1_000));
    assert!(!Session::new("z".to_string(), 0, 100).is_live(100));
    assert!(Session::new("m".to_string(), u64::MAX, u64::MAX).is_live(u64::MAX));
}

#[test]
fn lookup_window_is_fixed_and_reads_do_not_extend_it() {
    let mut store = SessionStore::new();
    store.open("abc".to_string(), 30, 100, 100);
    for now in 100..130 {
        assert!(store.lookup("abc", now));
        assert_eq!(store.get("abc", "k", now), None);
    }
    assert!(!store.lookup("abc", 130));
    assert!(!store.lookup("abc", 131));
    assert!(store.set("abc", "k", "v".to_string(), 129));
    assert_eq!(store.get("abc", "k", 129), Some("v".to_string()));
    assert_eq!(store.get("abc", "k", 130), None);
    assert!(!store.set("abc", "k", "w".to_string(), 130));
    assert!(!store.unset("abc", "k", 130));
}

#[test]
fn lookup_of_an_unknown_id_is_absent() {
    let store = SessionStore::new();
    assert!(!store.lookup("nobody", 0));
    assert_eq!(store.get("nobody", "k", 0), None);
    assert_eq!(store.find_live("nobody", 0), None);
}

#[test]
fn store_set_get_unset_by_id() {
    let mut store = SessionStore::new();
    store.open("a".to_string(), 30, 100, 0);
    store.open("b".to_string(), 30, 100, 1);
    assert!(store.set("a", "k", "1".to_string(), 2));
    assert!(store.set("b", "k", "2".to_string(), 2));
    assert_eq!(store.get("a", "k", 2), Some("1".to_string()));
    assert_eq!(store.get("b", "k", 2), Some("2".to_string()));
    assert!(store.unset("a", "k", 3));
    assert_eq!(store.get("a", "k", 3), None);
    assert_eq!(store.get("b", "k", 3), Some("2".to_string()));
    assert!(!store.set("c", "k", "3".to_string(), 3));
}

#[test]
fn delete_removes_the_session() {
    let mut store = SessionStore::new();
    store.open("a".to_string(), 30, 100, 0);
    store.open("b".to_string(), 30, 100, 0);
    assert!(store.delete("a"));
    assert!(!store.lookup("a", 1));
    assert!(store.lookup("b", 1));
    assert!(!store.delete("a"));
    assert_eq!(store.len(), 1);
}

#[test]
fn opening_drops_expired_sessions() {
    let mut store = SessionStore::new();
    store.open("a".to_string(), 10, 100, 0);
    store.open("b".to_string(), 30, 100, 5);
    store.open("c".to_string(), 30, 100, 10);
    assert_eq!(store.len(), 2);
    assert!(!store.lookup("a", 10));
    assert!(store.lookup("b", 10));
    assert!(store.lookup("c", 10));
}

#[test]
fn opening_an_id_again_starts_it_empty() {
    let mut store = SessionStore::new();
    store.open("a".to_string(), 30, 100, 0);
    store.set("a", "k", "v".to_string(), 0);
    store.open("a".to_string(), 30, 100, 1);
    assert_eq!(store.len(), 1);
    assert_eq!(store.get("a", "k", 1), None);
    assert!(store.lookup("a", 30));
}

#[test]
fn capacity_evicts_the_oldest() {
    let capacity = 3;
    let k = 2;
    let mut store = SessionStore::new();
    let ids: Vec<String> = (0..capacity + k).map(|i| format!("s{}", i)).collect();
    for (i, id) in ids.iter().enumerate() {
        store.open(id.clone(), 1_000, capacity, i as u64);
        assert!(store.len() <= capacity);
    }
    let found = ids.iter().filter(|id| store.lookup(id.as_str(), 10)).count();
    assert_eq!(found, capacity);
    assert!(!store.lookup("s0", 10));
    assert!(!store.lookup("s1", 10));
    assert!(store.lookup("s2", 10));
    assert!(store.lookup("s3", 10));
    assert!(store.lookup("s4", 10));
}

#[test]
fn capacity_zero_and_one_keep_only_the_newest() {
    let mut store = SessionStore::new();
    store.open("a".to_string(), 30, 0, 0);
    store.open("b".to_string(), 30, 0, 0);
    assert_eq!(store.len(), 1);
    assert!(store.lookup("b", 0));
    store.open("c".to_string(), 30, 1, 0);
    assert_eq!(store.len(), 1);
    assert!(store.lookup("c", 0));
    assert!(!store.lookup("b", 0));
}

#[test]
fn create_draws_a_fresh_alphanumeric_id() {
    let mut store = SessionStore::new();
    let a = store.create(30, 100, 0);
    let b = store.create(30, 100, 0);
    assert_eq!(a.chars().count(), SESSION_ID_LENGTH);
    assert!(a.chars().all(|c| c.is_ascii_alphanumeric()));
    assert_ne!(a, b);
    assert!(store.lookup(&a, 29));
    assert!(!store.lookup(&a, 30));
    assert_eq!(store.get(&a, "verified", 0), None);
    assert_eq!(store.len(), 2);
}

#[test]
fn session_at_a_slot_is_the_one_found() {
    let mut store = SessionStore::new();
    store.open("a".to_string(), 30, 100, 0);
    store.open("b".to_string(), 30, 100, 0);
    store.set("b", "k", "v".to_string(), 0);
    let slot = store.find_live("b", 0).unwrap();
    assert_eq!(store.session(slot).get_id(), "b");
    assert_eq!(store.session(slot).get("k"), Some("v".to_string()));
    assert_eq!(store.find_live("b", 30), None);
}

#[test]
fn from_id_hands_out_the_session() {
    let mut store = SessionStore::new();
    store.open("a".to_string(), 30, 100, 0);
    store.set("a", "k", "v".to_string(), 0);
    let found = store.from_id("a", 29).unwrap();
    assert_eq!(found.get_id(), "a");
    assert_eq!(found.get("k"), Some("v".to_string()));
    assert!(store.from_id("a", 30).is_none());
    assert!(store.from_id("b", 0).is_none());
}

#[test]
fn capacity_bounds_what_can_be_read_when_sessions_expire_out_of_order() {
    let mut store = SessionStore::new();
    store.open("long".to_string(), 1_000, 2, 0);
    store.open("short".to_string(), 1, 2, 0);
    store.open("third".to_string(), 1_000, 2, 5);
    assert_eq!(store.len(), 2);
    assert!(store.lookup("long", 5));
    assert!(!store.lookup("short", 5));
    assert!(store.lookup("third", 5));
}

#[test]
fn a_clock_that_runs_backwards_keeps_sessions_alive() {
    let mut store = SessionStore::new();
    store.open("a".to_string(), 30, 100, 100);
    assert!(store.lookup("a", 50));
    assert!(store.lookup("a", 0));
    assert!(store.set("a", "k", "v".to_string(), 20));
}

#[test]
fn eviction_goes_by_creation_time_under_a_clock_that_runs_backwards() {
    let mut store = SessionStore::new();
    store.open("at100".to_string(), 30, 2, 100);
    store.open("at50".to_string(), 30, 2, 50);
    assert!(store.lookup("at100", 60));
    assert!(store.lookup("at50", 60));
    store.open("at60".to_string(), 30, 2, 60);
    assert_eq!(store.len(), 2);
    assert!(!store.lookup("at50", 60));
    assert!(store.lookup("at60", 60));
    assert!(store.lookup("at100", 60));
    assert_eq!(store.session(0).get_id(), "at60");
    assert_eq!(store.session(1).get_id(), "at100");
}

#[test]
fn sessions_created_together_leave_in_the_order_of_opening() {
    let mut store = SessionStore::new();
    store.open("a".to_string(), 30, 2, 7);
    store.open("b".to_string(), 30, 2, 7);
    store.open("c".to_string(), 30, 2, 7);
    assert!(!store.lookup("a", 7));
    assert!(store.lookup("b", 7));
    assert!(store.lookup("c", 7));
}
