//! What the site shows to everyone: the current article with its songs, and
//! the events of the calendar.
use vstd::prelude::*;

use crate::codec::table;
use crate::outside::midnight;
use crate::text::{render_date, unix_midnight};
use crate::value::{cells, date_of, int64_of, text_of, Cell, RawValue};

verus! {

/// An expiry at `e` lies ahead of `now`.
pub open spec fn ahead(e: int, now: int) -> bool {
    e > 0 && now < e
}

/// `i` is the article to show: of those whose expiry lies ahead, the one that
/// expires last, and the first of them where several expire together.
pub open spec fn is_current(expiries: Seq<i64>, now: int, i: int) -> bool {
    &&& 0 <= i < expiries.len()
    &&& ahead(expiries[i] as int, now)
    &&& forall|j: int|
        0 <= j < expiries.len() && ahead(#[trigger] expiries[j] as int, now) ==> expiries[j]
            <= expiries[i]
    &&& forall|j: int| 0 <= j < i ==> #[trigger] expiries[j] != expiries[i]
}

/// Picks the article to show at `now` from the expiries of all articles.
pub fn current_article(expiries: &Vec<i64>, now: u64) -> (r: Option<usize>)
    ensures
        match r {
            Some(i) => is_current(expiries@, now as int, i as int),
            None => forall|j: int|
                0 <= j < expiries.len() ==> !ahead(#[trigger] expiries[j] as int, now as int),
        },
{
    let mut best: i64 = 0;
    let mut chosen: Option<usize> = None;
    let mut i: usize = 0;
    while i < expiries.len()
        invariant
            i <= expiries.len(),
            best >= 0,
            match chosen {
                Some(c) => c < i && expiries[c as int] == best && ahead(best as int, now as int)
                    && forall|j: int| 0 <= j < c ==> #[trigger] expiries[j] != best,
                None => best == 0,
            },
            forall|j: int|
                0 <= j < i && ahead(#[trigger] expiries[j] as int, now as int) ==> expiries[j]
                    <= best,
        decreases expiries.len() - i,
    {
        let expiry = expiries[i];
        if expiry > best && now < (expiry as u64) {
            best = expiry;
            chosen = Some(i);
        }
        i += 1;
    }
    chosen
}

/// The expiry of an article: the start of the day in its fourth cell.
pub open spec fn expiry_of(row: Seq<Cell>) -> Option<int> {
    if row.len() > 3 {
        match date_of(row[3]) {
            Some(d) => Some(unix_midnight(d.year as int, d.month as int, d.day as int)),
            None => None,
        }
    } else {
        None
    }
}

/// Every article has an expiry.
pub open spec fn dated(rows: Seq<Seq<Cell>>) -> bool {
    forall|i: int| 0 <= i < rows.len() ==> expiry_of(#[trigger] rows[i]) is Some
}

/// An article: the second and third cell of its row.
#[derive(Debug, PartialEq, Eq)]
pub struct Article {
    pub title: String,
    pub text: String,
}

/// What there is to show.
#[derive(Debug, PartialEq, Eq)]
pub enum ArticleChoice {
    /// A row could not be read.
    Failed,
    /// No article's expiry lies ahead.
    Nothing,
    /// The article to show. Its songs are those whose `article` is its title.
    Current(Article),
}

/// The expiries of all articles, or `None` where an article has none.
pub fn expiries(articles: &Vec<Vec<RawValue>>) -> (r: Option<Vec<i64>>)
    ensures
        r is Some <==> dated(table(articles@)),
        r matches Some(e) ==> e.len() == articles.len() && forall|i: int|
            0 <= i < e.len() ==> Some((#[trigger] e[i]) as int) == expiry_of(table(articles@)[i]),
{
    let ghost all = table(articles@);
    let mut out: Vec<i64> = Vec::new();
    let mut i: usize = 0;
    while i < articles.len()
        invariant
            i <= articles.len(),
            all == table(articles@),
            out.len() == i,
            forall|j: int| 0 <= j < i ==> expiry_of(#[trigger] all[j]) is Some,
            forall|j: int| 0 <= j < i ==> Some((#[trigger] out[j]) as int) == expiry_of(all[j]),
        decreases articles.len() - i,
    {
        assert(all[i as int] == cells(articles@[i as int]@));
        if articles[i].len() <= 3 {
            return None;
        }
        assert(all[i as int][3] == articles@[i as int]@[3]@);
        match articles[i][3].as_date() {
            Some(d) => out.push(midnight(d)),
            None => {
                return None;
            },
        }
        i += 1;
    }
    Some(out)
}

/// Picks the article to show at `now`: of the articles whose expiry lies
/// ahead, the one that expires last.
pub fn get_songs(articles: &Vec<Vec<RawValue>>, now: u64) -> (r: ArticleChoice)
    ensures
        r is Nothing ==> dated(table(articles@)) && forall|j: int|
            0 <= j < articles.len() ==> !ahead(
                expiry_of(#[trigger] table(articles@)[j]).unwrap(),
                now as int,
            ),
        r matches ArticleChoice::Current(a) ==> dated(table(articles@)) && exists|i: int|
            0 <= i < articles.len() && #[trigger] shown(table(articles@), now as int, i) && text_of(
                table(articles@)[i][1],
            ) == Some(a.title@) && text_of(table(articles@)[i][2]) == Some(a.text@),
        r is Failed ==> !dated(table(articles@)) || exists|i: int|
            0 <= i < articles.len() && #[trigger] shown(table(articles@), now as int, i) && (text_of(
                table(articles@)[i][1],
            ) is None || text_of(table(articles@)[i][2]) is None),
{
    let ghost all = table(articles@);
    let found = match expiries(articles) {
        Some(found) => found,
        None => {
            return ArticleChoice::Failed;
        },
    };
    let i = match current_article(&found, now) {
        Some(i) => i,
        None => {
            assert forall|j: int| 0 <= j < articles.len() implies !ahead(
                expiry_of(#[trigger] all[j]).unwrap(),
                now as int,
            ) by {
                assert(!ahead(found[j] as int, now as int));
            }
            return ArticleChoice::Nothing;
        },
    };
    proof {
        assert forall|j: int| 0 <= j < all.len() && ahead(
            expiry_of(#[trigger] all[j]).unwrap(),
            now as int,
        ) implies expiry_of(all[j]).unwrap() <= expiry_of(all[i as int]).unwrap() by {
            assert(ahead(found[j] as int, now as int));
        }
        assert forall|j: int| 0 <= j < i implies expiry_of(#[trigger] all[j]).unwrap()
            != expiry_of(all[i as int]).unwrap() by {
            assert(found[j] != found[i as int]);
        }
        assert(shown(all, now as int, i as int));
        assert(all[i as int] == cells(articles@[i as int]@));
        assert(all[i as int][1] == articles@[i as int]@[1]@);
        assert(all[i as int][2] == articles@[i as int]@[2]@);
    }
    let title = match articles[i][1].as_text() {
        Some(title) => title,
        None => {
            return ArticleChoice::Failed;
        },
    };
    let text = match articles[i][2].as_text() {
        Some(text) => text,
        None => {
            return ArticleChoice::Failed;
        },
    };
    ArticleChoice::Current(Article { title, text })
}

/// Article `i` is the one to show: its expiry lies ahead of `now`, no
/// article's expiry lies further ahead, and none before it expires with it.
pub open spec fn shown(rows: Seq<Seq<Cell>>, now: int, i: int) -> bool {
    &&& 0 <= i < rows.len()
    &&& ahead(expiry_of(rows[i]).unwrap(), now)
    &&& forall|j: int|
        0 <= j < rows.len() && ahead(expiry_of(#[trigger] rows[j]).unwrap(), now) ==> expiry_of(
            rows[j],
        ).unwrap() <= expiry_of(rows[i]).unwrap()
    &&& forall|j: int|
        0 <= j < i ==> expiry_of(#[trigger] rows[j]).unwrap() != expiry_of(rows[i]).unwrap()
}

/// A song of an article.
#[derive(Debug, PartialEq, Eq)]
pub struct Song {
    pub name: String,
    pub link: String,
    pub role: String,
}

/// The song that a row holds: name, link and role in its second to fourth
/// cell.
pub open spec fn song_reads(row: Seq<Cell>) -> bool {
    row.len() > 3 && text_of(row[1]) is Some && text_of(row[2]) is Some && text_of(row[3]) is Some
}

/// The songs of an article, from their rows.
pub fn article_songs(rows: &Vec<Vec<RawValue>>) -> (r: Option<Vec<Song>>)
    ensures
        r is Some <==> forall|i: int| 0 <= i < rows.len() ==> song_reads(#[trigger] table(rows@)[i]),
        r matches Some(songs) ==> songs.len() == rows.len() && forall|i: int|
            0 <= i < songs.len() ==> {
                let row = table(rows@)[i];
                let song = #[trigger] songs[i];
                text_of(row[1]) == Some(song.name@) && text_of(row[2]) == Some(song.link@)
                    && text_of(row[3]) == Some(song.role@)
            },
{
    let ghost all = table(rows@);
    let mut songs: Vec<Song> = Vec::new();
    let mut i: usize = 0;
    while i < rows.len()
        invariant
            i <= rows.len(),
            all == table(rows@),
            songs.len() == i,
            forall|j: int| 0 <= j < i ==> song_reads(#[trigger] all[j]),
            forall|j: int|
                0 <= j < i ==> {
                    let row = all[j];
                    let song = #[trigger] songs[j];
                    text_of(row[1]) == Some(song.name@) && text_of(row[2]) == Some(song.link@)
                        && text_of(row[3]) == Some(song.role@)
                },
        decreases rows.len() - i,
    {
        let row = &rows[i];
        assert(all[i as int] == cells(row@));
        if row.len() <= 3 {
            return None;
        }
        assert(all[i as int][1] == row@[1]@ && all[i as int][2] == row@[2]@ && all[i as int][3]
            == row@[3]@);
        let name = match row[1].as_text() {
            Some(name) => name,
            None => {
                return None;
            },
        };
        let link = match row[2].as_text() {
            Some(link) => link,
            None => {
                return None;
            },
        };
        let role = match row[3].as_text() {
            Some(role) => role,
            None => {
                return None;
            },
        };
        songs.push(Song { name, link, role });
        i += 1;
    }
    Some(songs)
}

/// An event of the calendar.
#[derive(Debug, PartialEq, Eq)]
pub struct CalendarEvent {
    pub id: i64,
    pub title: String,
    pub date: String,
    pub start_time: String,
    pub end_time: String,
    pub notes: String,
}

/// A row holds an event: id, title, date, start time, end time and notes.
pub open spec fn event_reads(row: Seq<Cell>) -> bool {
    row.len() > 5 && int64_of(row[0]) is Some && text_of(row[1]) is Some && date_of(row[2])
        is Some && text_of(row[3]) is Some && text_of(row[4]) is Some && text_of(row[5]) is Some
}

/// `event` is the event that `row` holds, its date as `YYYY-MM-DD`.
pub open spec fn event_matches(row: Seq<Cell>, event: CalendarEvent) -> bool {
    &&& int64_of(row[0]) == Some(event.id)
    &&& text_of(row[1]) == Some(event.title@)
    &&& date_of(row[2]).unwrap().text() == event.date@
    &&& text_of(row[3]) == Some(event.start_time@)
    &&& text_of(row[4]) == Some(event.end_time@)
    &&& text_of(row[5]) == Some(event.notes@)
}

/// The events of the calendar, from their rows.
pub fn get_calendar_events(rows: &Vec<Vec<RawValue>>) -> (r: Option<Vec<CalendarEvent>>)
    ensures
        r is Some <==> forall|i: int|
            0 <= i < rows.len() ==> event_reads(#[trigger] table(rows@)[i]),
        r matches Some(events) ==> events.len() == rows.len() && forall|i: int|
            0 <= i < events.len() ==> event_matches(table(rows@)[i], #[trigger] events[i]),
{
    let ghost all = table(rows@);
    let mut events: Vec<CalendarEvent> = Vec::new();
    let mut i: usize = 0;
    while i < rows.len()
        invariant
            i <= rows.len(),
            all == table(rows@),
            events.len() == i,
            forall|j: int| 0 <= j < i ==> event_reads(#[trigger] all[j]),
            forall|j: int| 0 <= j < i ==> event_matches(all[j], #[trigger] events[j]),
        decreases rows.len() - i,
    {
        let row = &rows[i];
        assert(all[i as int] == cells(row@));
        if row.len() <= 5 {
            return None;
        }
        assert(all[i as int][0] == row@[0]@ && all[i as int][1] == row@[1]@ && all[i as int][2]
            == row@[2]@ && all[i as int][3] == row@[3]@ && all[i as int][4] == row@[4]@
            && all[i as int][5] == row@[5]@);
        let id = match row[0].as_int64() {
            Some(id) => id,
            None => {
                return None;
            },
        };
        let title = match row[1].as_text() {
            Some(title) => title,
            None => {
                return None;
            },
        };
        let date = match row[2].as_date() {
            Some(date) => render_date(date),
            None => {
                return None;
            },
        };
        let start_time = match row[3].as_text() {
            Some(start_time) => start_time,
            None => {
                return None;
            },
        };
        let end_time = match row[4].as_text() {
            Some(end_time) => end_time,
            None => {
                return None;
            },
        };
        let notes = match row[5].as_text() {
            Some(notes) => notes,
            None => {
                return None;
            },
        };
        events.push(CalendarEvent { id, title, date, start_time, end_time, notes });
        i += 1;
    }
    Some(events)
}

} // verus!
