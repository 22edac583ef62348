use member_requests::content::{
    article_songs, current_article, expiries, get_calendar_events, get_songs, Article,
    ArticleChoice, CalendarEvent, Song,
};
use member_requests::value::RawValue;

fn text(s: &str) -> RawValue {
    RawValue::Bytes(s.as_bytes().to_vec())
}

fn article(title: &str, expiry: &str) -> Vec<RawValue> {
    vec![text("1"), text(title), text("Text of the article"), text(expiry)]
}

#[test]
fn expiries_are_midnights_in_unix_time() {
    let rows = vec![
        article("a", "1970-01-01"),
        article("b", "1970-01-02"),
        article("c", "2015-05-15"),
        article("d", "1969-12-31"),
        vec![text("1"), text("e"), text("t"), RawValue::Date(2000, 1, 1, 12, 0, 0, 0)],
    ];
    assert_eq!(expiries(&rows), Some(vec![0, 86_400, 1_431_648_000, -86_400, 946_684_800]));
    assert_eq!(expiries(&vec![]), Some(vec![]));
    assert_eq!(expiries(&vec![article("a", "soon")]), None);
    assert_eq!(expiries(&vec![vec![text("1"), text("a"), text("t")]]), None);
}

#[test]
fn current_article_is_the_one_that_expires_last() {
    assert_eq!(current_article(&vec![50, 200, 100], 10), Some(1));
    assert_eq!(current_article(&vec![50, 200, 100], 150), Some(1));
    assert_eq!(current_article(&vec![50, 200, 100], 199), Some(1));
    assert_eq!(current_article(&vec![50, 200, 100], 200), None);
    assert_eq!(current_article(&vec![200, 200, 200], 0), Some(0));
    assert_eq!(current_article(&vec![100, 200, 200], 0), Some(1));
    assert_eq!(current_article(&vec![], 0), None);
    assert_eq!(current_article(&vec![0, -5], 0), None);
    assert_eq!(current_article(&vec![-5, 1], 0), Some(1));
    assert_eq!(current_article(&vec![i64::MAX], u64::MAX), None);
    assert_eq!(current_article(&vec![i64::MAX], i64::MAX as u64 - 1), Some(0));
}

#[test]
fn get_songs_picks_the_article() {
    let rows = vec![
        article("Past", "2020-01-01"),
        article("Spring", "2021-06-01"),
        article("Later", "2021-09-01"),
        article("Also later", "2021-09-01"),
    ];
    let may_2021 = 1_620_000_000;
    assert_eq!(
        get_songs(&rows, may_2021),
        ArticleChoice::Current(Article {
            title: "Later".to_string(),
            text: "Text of the article".to_string()
        })
    );
    let in_2022 = 1_650_000_000;
    assert_eq!(get_songs(&rows, in_2022), ArticleChoice::Nothing);
    assert_eq!(get_songs(&vec![], may_2021), ArticleChoice::Nothing);
}

#[test]
fn get_songs_fails_on_a_row_it_cannot_read() {
    let rows = vec![article("Spring", "2021-06-01"), article("Broken", "June")];
    assert_eq!(get_songs(&rows, 0), ArticleChoice::Failed);
    let untitled =
        vec![vec![text("1"), RawValue::Null, text("Text of the article"), text("2021-06-01")]];
    assert_eq!(get_songs(&untitled, 0), ArticleChoice::Failed);
}

#[test]
fn article_songs_reads_name_link_and_role() {
    let rows = vec![
        vec![text("Later"), text("Hymn"), text("https://x/hymn"), text("opening")],
        vec![text("Later"), text("Psalm"), text("https://x/psalm"), text("closing")],
    ];
    assert_eq!(
        article_songs(&rows),
        Some(vec![
            Song {
                name: "Hymn".to_string(),
                link: "https://x/hymn".to_string(),
                role: "opening".to_string()
            },
            Song {
                name: "Psalm".to_string(),
                link: "https://x/psalm".to_string(),
                role: "closing".to_string()
            },
        ])
    );
    assert_eq!(article_songs(&vec![]), Some(vec![]));
    assert_eq!(article_songs(&vec![vec![text("Later"), text("Hymn"), text("l")]]), None);
}

#[test]
fn calendar_events_are_read_with_their_dates() {
    let rows = vec![vec![
        text("9000000000"),
        text("Picnic"),
        text("2021-06-01 00:00:00"),
        text("10:00"),
        text("12:00"),
        text("Bring food"),
    ]];
    assert_eq!(
        get_calendar_events(&rows),
        Some(vec![CalendarEvent {
            id: 9_000_000_000,
            title: "Picnic".to_string(),
            date: "2021-06-01".to_string(),
            start_time: "10:00".to_string(),
            end_time: "12:00".to_string(),
            notes: "Bring food".to_string(),
        }])
    );
    assert_eq!(get_calendar_events(&vec![]), Some(vec![]));
    let mut bad = rows;
    bad[0][2] = text("2021-06-31");
    assert_eq!(get_calendar_events(&bad), None);
}

#[test]
fn expiries_reach_from_the_year_zero_to_the_last_year_of_a_date_cell() {
    let rows = vec![
        article("a", "0000-01-01"),
        article("b", "0000-02-29"),
        article("c", "0000-03-01"),
        article("d", "0001-01-01"),
        article("e", "9999-12-31"),
        vec![text("1"), text("f"), text("t"), RawValue::Date(10000, 1, 1, 0, 0, 0, 0)],
        vec![text("1"), text("g"), text("t"), RawValue::Date(65535, 12, 31, 0, 0, 0, 0)],
        article("h", "2100-03-01"),
        article("i", "2024-02-29"),
    ];
    assert_eq!(
        expiries(&rows),
        Some(vec![
            -62_167_219_200,
            -62_162_121_600,
            -62_162_035_200,
            -62_135_596_800,
            253_402_214_400,
            253_402_300_800,
            2_005_949_059_200,
            4_107_542_400,
            1_709_164_800,
        ])
    );
}
