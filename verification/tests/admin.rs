use member_requests::access::login_with;
use member_requests::account::UserRecord;
use member_requests::admin::{
    add_row, added_row_message, change_row, delete_row, get_database, get_gmail_auth_url,
    get_row_titles, is_admin, move_row_to_end, move_row_to_start, send_email, send_gmail_code,
    stored_refresh_token, Change, Move, Removal, RowTitles, TableSnapshot,
};
use member_requests::codec::return_row;
use member_requests::effects::{Mail, StorageWrite};
use member_requests::session::SessionStore;
use member_requests::value::RawValue;

fn text(s: &str) -> RawValue {
    RawValue::Bytes(s.as_bytes().to_vec())
}

fn strings(list: &[&str]) -> Vec<String> {
    list.iter().map(|s| s.to_string()).collect()
}

fn store() -> SessionStore {
    let mut store = SessionStore::new();
    let mut user = UserRecord {
        email: "root@x.com".to_string(),
        password: "$hash".to_string(),
        id: 1,
        verified: 1,
        admin: 1,
        subscription_policy: 1,
        invalid_email: 0,
    };
    login_with(&mut store, 0, Some(&user), true, "admin".to_string());
    user.admin = 0;
    user.email = "user@x.com".to_string();
    login_with(&mut store, 0, Some(&user), true, "user".to_string());
    user.verified = 0;
    login_with(&mut store, 0, Some(&user), true, "pending".to_string());
    store
}

fn details() -> Vec<Vec<RawValue>> {
    vec![
        vec![text("id"), text("int(11)")],
        vec![text("title"), text("varchar(80)")],
        vec![text("day"), text("date")],
    ]
}

#[test]
fn is_admin_reads_the_flag() {
    let store = store();
    assert!(is_admin(&store, "admin", 1));
    assert!(!is_admin(&store, "user", 1));
    assert!(!is_admin(&store, "pending", 1));
    assert!(!is_admin(&store, "nobody", 1));
    assert!(!is_admin(&store, "admin", 30));
}

#[test]
fn get_database_lists_columns_rows_and_types() {
    let rows = vec![
        vec![text("1"), text("Picnic"), text("2021-06-01")],
        vec![text("2"), text("Concert"), text("2021-07-15 19:30:00")],
    ];
    assert_eq!(
        get_database(&store(), "admin", 1, &details(), &rows),
        Some(TableSnapshot {
            columns: strings(&["id", "title", "day"]),
            rows: vec![
                strings(&["1", "Picnic", "2021-06-01"]),
                strings(&["2", "Concert", "2021-07-15"])
            ],
            types: strings(&["int(11)", "varchar(80)", "date"]),
        })
    );
}

#[test]
fn get_database_of_an_empty_table_has_no_rows() {
    assert_eq!(
        get_database(&store(), "admin", 1, &details(), &vec![]),
        Some(TableSnapshot {
            columns: strings(&["id", "title", "day"]),
            rows: vec![],
            types: strings(&["int(11)", "varchar(80)", "date"]),
        })
    );
}

#[test]
fn get_database_fails_on_a_row_that_does_not_encode() {
    let rows = vec![vec![text("1"), text("Picnic"), text("someday")]];
    assert_eq!(get_database(&store(), "admin", 1, &details(), &rows), None);
    let short = vec![vec![text("id")]];
    assert_eq!(get_database(&store(), "admin", 1, &short, &vec![]), None);
}

#[test]
fn get_row_titles_projects_the_titles() {
    let rows = vec![vec![text("Picnic")], vec![text("Concert")]];
    assert_eq!(
        get_row_titles(&store(), "admin", 1, "calendar", &rows),
        Some(RowTitles { table: "calendar".to_string(), titles: strings(&["Picnic", "Concert"]) })
    );
    assert_eq!(get_row_titles(&store(), "admin", 1, "calendar", &vec![vec![]]), None);
}

#[test]
fn move_row_to_end_takes_the_id_after_the_largest() {
    let moved = move_row_to_end(&store(), "admin", 1, "calendar", "5", 9);
    assert_eq!(
        moved,
        Some(Move {
            write: StorageWrite::Update {
                table: "calendar".to_string(),
                key_column: "id".to_string(),
                key: "5".to_string(),
                column: "id".to_string(),
                value: "10".to_string(),
            },
            new_id: 10,
            message: "Successfully moved row 5 to end.".to_string(),
            old_id: "5".to_string(),
        })
    );
    let types = strings(&["int(11)", "varchar(80)", "date"]);
    let reread = vec![text("10"), text("Picnic"), text("2021-06-01")];
    assert_eq!(return_row(&types, &reread), Some(strings(&["10", "Picnic", "2021-06-01"])));
    assert_eq!(move_row_to_end(&store(), "admin", 1, "calendar", "5", i32::MAX), None);
    assert_eq!(move_row_to_end(&store(), "admin", 1, "calendar", "5", -1).unwrap().new_id, 0);
}

#[test]
fn move_row_to_start_takes_the_id_before_the_smallest() {
    let moved = move_row_to_start(&store(), "admin", 1, "calendar", "5", 1);
    assert_eq!(
        moved,
        Some(Move {
            write: StorageWrite::Update {
                table: "calendar".to_string(),
                key_column: "id".to_string(),
                key: "5".to_string(),
                column: "id".to_string(),
                value: "0".to_string(),
            },
            new_id: 0,
            message: "Successfully moved row 5 to start.".to_string(),
            old_id: "5".to_string(),
        })
    );
    let below = move_row_to_start(&store(), "admin", 1, "calendar", "5", 0).unwrap();
    assert_eq!(below.new_id, -1);
    assert_eq!(
        below.write,
        StorageWrite::Update {
            table: "calendar".to_string(),
            key_column: "id".to_string(),
            key: "5".to_string(),
            column: "id".to_string(),
            value: "-1".to_string(),
        }
    );
    assert_eq!(move_row_to_start(&store(), "admin", 1, "calendar", "5", i32::MIN), None);
}

#[test]
fn delete_row_deletes_by_id() {
    assert_eq!(
        delete_row(&store(), "admin", 1, "calendar", "5"),
        Some(Removal {
            write: StorageWrite::Delete {
                table: "calendar".to_string(),
                key_column: "id".to_string(),
                key: "5".to_string(),
            },
            message: "Successfully deleted row 5.".to_string(),
            id: "5".to_string(),
        })
    );
}

#[test]
fn add_row_passes_the_values_through() {
    assert_eq!(
        add_row(
            &store(),
            "admin",
            1,
            "calendar",
            strings(&["title", "day"]),
            strings(&["Picnic", "not checked here"])
        ),
        Some(StorageWrite::Insert {
            table: "calendar".to_string(),
            columns: strings(&["title", "day"]),
            values: strings(&["Picnic", "not checked here"]),
        })
    );
    assert_eq!(added_row_message(12), "Successfully added row 12.");
    assert_eq!(added_row_message(-3), "Successfully added row -3.");
}

#[test]
fn change_row_sets_one_cell() {
    assert_eq!(
        change_row(&store(), "admin", 1, "calendar", "5", "title", "Fair"),
        Some(Change {
            write: StorageWrite::Update {
                table: "calendar".to_string(),
                key_column: "id".to_string(),
                key: "5".to_string(),
                column: "title".to_string(),
                value: "Fair".to_string(),
            },
            message: "Successfully updated row 5.".to_string(),
        })
    );
}

#[test]
fn gmail_auth_url_names_the_client() {
    assert_eq!(
        get_gmail_auth_url(&store(), "admin", 1, "client-7"),
        "https://accounts.google.com/o/oauth2/v2/auth?scope=https://mail.google.com/\
         &include_granted_scopes=true&prompt=consent&redirect_uri=https://www.olmmcc.tk/admin/email/\
         &response_type=code&client_id=client-7&access_type=offline"
    );
    assert_eq!(get_gmail_auth_url(&store(), "user", 1, "client-7"), "");
}

#[test]
fn send_gmail_code_updates_or_inserts_the_token() {
    assert_eq!(
        send_gmail_code(&store(), "admin", 1, "token", true),
        Some(StorageWrite::Update {
            table: "admin".to_string(),
            key_column: "email".to_string(),
            key: "root@x.com".to_string(),
            column: "refresh_token".to_string(),
            value: "token".to_string(),
        })
    );
    assert_eq!(
        send_gmail_code(&store(), "admin", 1, "token", false),
        Some(StorageWrite::Insert {
            table: "admin".to_string(),
            columns: strings(&["email", "refresh_token"]),
            values: strings(&["root@x.com", "token"]),
        })
    );
}

#[test]
fn stored_refresh_token_is_the_second_cell_of_the_first_row() {
    let rows = vec![vec![text("root@x.com"), text("t1")], vec![text("b@x.com"), text("t2")]];
    assert_eq!(stored_refresh_token(&rows), Some("t1".to_string()));
    assert_eq!(stored_refresh_token(&vec![]), None);
    assert_eq!(stored_refresh_token(&vec![vec![text("root@x.com")]]), None);
    assert_eq!(stored_refresh_token(&vec![vec![text("a"), RawValue::Null]]), None);
}

#[test]
fn send_email_goes_to_one_or_to_all() {
    assert_eq!(
        send_email(&store(), "admin", 1, "one", "b@x.com", "Hi", "Body"),
        Some(Mail { to: "b@x.com".to_string(), subject: "Hi".to_string(), body: "Body".to_string() })
    );
    assert_eq!(
        send_email(&store(), "admin", 1, "all_users", "b@x.com", "Hi", "Body"),
        Some(Mail { to: String::new(), subject: "Hi".to_string(), body: "Body".to_string() })
    );
}

#[test]
fn without_the_admin_flag_nothing_is_written() {
    let store = store();
    let before = store.len();
    let rows = vec![vec![text("1"), text("Picnic"), text("2021-06-01")]];
    for session in ["user", "pending", "nobody", ""] {
        assert_eq!(get_database(&store, session, 1, &details(), &rows), None);
        assert_eq!(get_row_titles(&store, session, 1, "calendar", &rows), None);
        assert_eq!(move_row_to_end(&store, session, 1, "calendar", "5", 9), None);
        assert_eq!(move_row_to_start(&store, session, 1, "calendar", "5", 1), None);
        assert_eq!(delete_row(&store, session, 1, "calendar", "5"), None);
        assert_eq!(
            add_row(&store, session, 1, "calendar", strings(&["title"]), strings(&["x"])),
            None
        );
        assert_eq!(change_row(&store, session, 1, "calendar", "5", "title", "x"), None);
        assert_eq!(send_gmail_code(&store, session, 1, "token", true), None);
        assert_eq!(send_gmail_code(&store, session, 1, "token", false), None);
        assert_eq!(send_email(&store, session, 1, "all_users", "", "Hi", "Body"), None);
        assert_eq!(get_gmail_auth_url(&store, session, 1, "client-7"), "");
    }
    assert_eq!(move_row_to_end(&store, "admin", 30, "calendar", "5", 9), None);
    assert_eq!(store.len(), before);
    assert_eq!(store.get("user", "admin", 1), Some("0".to_string()));
}
