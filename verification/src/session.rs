//! The session store: short-lived per-visitor records, each a mapping from
//! text keys to text values, found by an opaque identifier.
//!
//! A session lives from its creation until its time-to-live has run out; reading
//! it never extends that window. The store is bounded: opening a session first
//! drops what has expired and then, if the store is still full, the sessions
//! that are oldest by creation time, even where they are still alive. The
//! store keeps its sessions by creation time, the oldest first; a session
//! opened under a clock that has run backwards takes its place among them.
use vstd::prelude::*;

use crate::token::{is_token, random_text};

verus! {

/// Length of the identifiers that [`SessionStore::create`] draws.
pub const SESSION_ID_LENGTH: usize = 32;

/// A session as a mathematical value.
pub struct SessionView {
    pub id: Seq<char>,
    pub created_at: nat,
    pub ttl: nat,
    pub data: Map<Seq<char>, Seq<char>>,
}

impl SessionView {
    /// A session can be read strictly before `created_at + ttl`.
    pub open spec fn live_at(self, now: int) -> bool {
        now < self.created_at + self.ttl
    }

    /// The session with `value` stored under `key`.
    pub open spec fn put(self, key: Seq<char>, value: Seq<char>) -> SessionView {
        SessionView {
            id: self.id,
            created_at: self.created_at,
            ttl: self.ttl,
            data: self.data.insert(key, value),
        }
    }

    /// The session without `key`.
    pub open spec fn cut(self, key: Seq<char>) -> SessionView {
        SessionView {
            id: self.id,
            created_at: self.created_at,
            ttl: self.ttl,
            data: self.data.remove(key),
        }
    }

    /// An empty session `id`, created at `now`.
    pub open spec fn fresh(id: Seq<char>, ttl: nat, now: nat) -> SessionView {
        SessionView { id, created_at: now, ttl, data: Map::empty() }
    }

    /// The value under `key`, if the key is set.
    pub open spec fn get(self, key: Seq<char>) -> Option<Seq<char>> {
        if self.data.contains_key(key) {
            Some(self.data[key])
        } else {
            None
        }
    }

    /// `key` is set, and to `value`.
    pub open spec fn has(self, key: Seq<char>, value: Seq<char>) -> bool {
        self.data.contains_key(key) && self.data[key] == value
    }
}

/// No two sessions of `s` share an identifier.
pub open spec fn distinct_ids(s: Seq<SessionView>) -> bool {
    forall|i: int, j: int| 0 <= i < j < s.len() ==> s[i].id != s[j].id
}

/// Some session of `s` has the identifier `id`.
pub open spec fn holds(s: Seq<SessionView>, id: Seq<char>) -> bool {
    exists|i: int| 0 <= i < s.len() && s[i].id == id
}

/// Where the session with identifier `id` stands in `s`.
pub open spec fn slot_of(s: Seq<SessionView>, id: Seq<char>) -> int {
    choose|i: int| 0 <= i < s.len() && s[i].id == id
}

/// The session that a read of `id` at time `now` finds.
pub open spec fn lookup(s: Seq<SessionView>, id: Seq<char>, now: int) -> Option<SessionView> {
    if holds(s, id) && s[slot_of(s, id)].live_at(now) {
        Some(s[slot_of(s, id)])
    } else {
        None
    }
}

/// The value that a read of `key` in session `id` at time `now` finds.
pub open spec fn field(s: Seq<SessionView>, id: Seq<char>, key: Seq<char>, now: int) -> Option<
    Seq<char>,
> {
    match lookup(s, id, now) {
        Some(v) => if v.data.contains_key(key) {
            Some(v.data[key])
        } else {
            None
        },
        None => None,
    }
}

/// `s` with the session that has `v`'s identifier replaced by `v`.
pub open spec fn replaced(s: Seq<SessionView>, v: SessionView) -> Seq<SessionView> {
    if holds(s, v.id) {
        s.update(slot_of(s, v.id), v)
    } else {
        s
    }
}

/// `s` without the session that has the identifier `id`.
pub open spec fn removed(s: Seq<SessionView>, id: Seq<char>) -> Seq<SessionView> {
    if holds(s, id) {
        s.remove(slot_of(s, id))
    } else {
        s
    }
}

/// The sessions that survive when a session `id` is opened at `now`: those
/// still alive, other than an earlier holder of the same identifier.
pub open spec fn survives(id: Seq<char>, now: int) -> spec_fn(SessionView) -> bool {
    |v: SessionView| v.live_at(now) && v.id != id
}

/// How many earlier sessions may stay beside a new one.
pub open spec fn room(capacity: nat) -> nat {
    if capacity == 0 {
        0
    } else {
        (capacity - 1) as nat
    }
}

/// The last `n` sessions of `s`, or all of `s` if it has no more than `n`.
pub open spec fn newest(s: Seq<SessionView>, n: nat) -> Seq<SessionView> {
    if s.len() > n {
        s.subrange(s.len() - n, s.len() as int)
    } else {
        s
    }
}

/// Creation times never decrease along `s`: the oldest session stands first.
pub open spec fn by_creation(s: Seq<SessionView>) -> bool {
    forall|i: int, j: int| 0 <= i < j < s.len() ==> s[i].created_at <= s[j].created_at
}

/// Where a session created at `t` goes in `s`: behind the last session that
/// was created at `t` or before.
pub open spec fn place(s: Seq<SessionView>, t: nat) -> int
    decreases s.len(),
{
    if s.len() == 0 {
        0
    } else if s.last().created_at <= t {
        s.len() as int
    } else {
        place(s.drop_last(), t)
    }
}

/// The store after `v` has been opened at `now` under `capacity`: of the
/// sessions that survive, the oldest by creation time leave until the rest
/// fit beside `v`, and `v` takes its place by creation time.
pub open spec fn opened(s: Seq<SessionView>, v: SessionView, capacity: nat, now: int) -> Seq<
    SessionView,
> {
    let stay = newest(s.filter(survives(v.id, now)), room(capacity));
    stay.insert(place(stay, v.created_at), v)
}

/// Time to live of the sessions that handlers open, in the unit of the
/// clock that the caller passes as `now`.
pub const SESSION_TTL: u64 = 30;

/// Capacity under which handlers open sessions.
pub const SESSION_CAPACITY: usize = 100;

/// The session that handlers open under `id` at `now`.
pub open spec fn new_session(id: Seq<char>, now: int) -> SessionView {
    SessionView::fresh(id, SESSION_TTL as nat, now as nat)
}

/// The store after a handler has opened `id` at `now`.
pub open spec fn with_new_session(s: Seq<SessionView>, id: Seq<char>, now: int) -> Seq<
    SessionView,
> {
    opened(s, new_session(id, now), SESSION_CAPACITY as nat, now)
}

/// Where no identifier occurs twice, a session stands where its identifier
/// is found.
pub proof fn lemma_slot(s: Seq<SessionView>, i: int)
    requires
        distinct_ids(s),
        0 <= i < s.len(),
    ensures
        holds(s, s[i].id),
        slot_of(s, s[i].id) == i,
{
}

/// Changing the session at slot `i` into `v`, of the same identifier, is
/// replacing it.
pub proof fn lemma_update_is_replaced(s: Seq<SessionView>, i: int, v: SessionView)
    requires
        distinct_ids(s),
        0 <= i < s.len(),
        v.id == s[i].id,
    ensures
        s.update(i, v) == replaced(s, v),
        distinct_ids(replaced(s, v)),
        by_creation(s) && v.created_at == s[i].created_at ==> by_creation(replaced(s, v)),
        s.update(i, s[i]) == s,
{
    lemma_slot(s, i);
    lemma_replaced_keeps_ids(s, v);
    assert(s.update(i, s[i]) =~= s);
    if by_creation(s) && v.created_at == s[i].created_at {
        let t = s.update(i, v);
        assert forall|x: int, y: int| 0 <= x < y < t.len() implies t[x].created_at
            <= t[y].created_at by {
            assert(t[x].created_at == s[x].created_at);
            assert(t[y].created_at == s[y].created_at);
        }
    }
}

/// A read finds what a session was replaced by, within the same window.
pub proof fn lemma_lookup_replaced(s: Seq<SessionView>, v: SessionView, now: int)
    requires
        distinct_ids(s),
        holds(s, v.id),
    ensures
        lookup(replaced(s, v), v.id, now) == (if v.live_at(now) {
            Some(v)
        } else {
            None
        }),
{
    lemma_replaced_keeps_ids(s, v);
}

/// Replacing a session moves none and hides none.
pub proof fn lemma_replaced_keeps_ids(s: Seq<SessionView>, v: SessionView)
    requires
        distinct_ids(s),
    ensures
        distinct_ids(replaced(s, v)),
        replaced(s, v).len() == s.len(),
        forall|id: Seq<char>| holds(replaced(s, v), id) == holds(s, id),
        forall|id: Seq<char>| holds(s, id) ==> slot_of(replaced(s, v), id) == slot_of(s, id),
        holds(s, v.id) ==> replaced(s, v)[slot_of(s, v.id)] == v,
        forall|i: int|
            0 <= i < s.len() && s[i].id != v.id ==> #[trigger] replaced(s, v)[i] == s[i],
{
    let t = replaced(s, v);
    if holds(s, v.id) {
        let p = slot_of(s, v.id);
        assert forall|i: int, j: int| 0 <= i < j < t.len() implies t[i].id != t[j].id by {
            assert(t[i].id == s[i].id);
            assert(t[j].id == s[j].id);
        }
        assert forall|id: Seq<char>| holds(t, id) == holds(s, id) by {
            if holds(s, id) {
                let i = slot_of(s, id);
                assert(t[i].id == id);
            }
            if holds(t, id) {
                let i = slot_of(t, id);
                assert(s[i].id == id);
            }
        }
        assert forall|id: Seq<char>| holds(s, id) implies slot_of(t, id) == slot_of(s, id) by {
            let i = slot_of(s, id);
            assert(t[i].id == id);
            lemma_slot(t, i);
        }
    }
}

/// Removing a session leaves every other one to be found as before.
pub proof fn lemma_removed_keeps_ids(s: Seq<SessionView>, id: Seq<char>)
    requires
        distinct_ids(s),
    ensures
        distinct_ids(removed(s, id)),
        by_creation(s) ==> by_creation(removed(s, id)),
        !holds(removed(s, id), id),
        forall|other: Seq<char>| other != id ==> holds(removed(s, id), other) == holds(s, other),
        forall|other: Seq<char>|
            other != id && holds(s, other) ==> removed(s, id)[slot_of(removed(s, id), other)]
                == s[slot_of(s, other)],
{
    let t = removed(s, id);
    if holds(s, id) {
        let p = slot_of(s, id);
        assert forall|i: int| 0 <= i < t.len() implies #[trigger] t[i] == s[if i < p {
            i
        } else {
            i + 1
        }] by {}
        assert forall|i: int, j: int| 0 <= i < j < t.len() implies t[i].id != t[j].id by {
            let a = if i < p { i } else { i + 1 };
            let b = if j < p { j } else { j + 1 };
            assert(t[i] == s[a]);
            assert(t[j] == s[b]);
        }
        if by_creation(s) {
            assert forall|i: int, j: int| 0 <= i < j < t.len() implies t[i].created_at
                <= t[j].created_at by {
                let a = if i < p { i } else { i + 1 };
                let b = if j < p { j } else { j + 1 };
                assert(t[i] == s[a]);
                assert(t[j] == s[b]);
            }
        }
        if holds(t, id) {
            let i = slot_of(t, id);
            let a = if i < p { i } else { i + 1 };
            assert(t[i] == s[a]);
        }
        assert forall|other: Seq<char>| other != id implies holds(t, other) == holds(
            s,
            other,
        ) by {
            if holds(s, other) {
                let a = slot_of(s, other);
                let i = if a < p { a } else { a - 1 };
                assert(t[i] == s[a]);
            }
            if holds(t, other) {
                let i = slot_of(t, other);
                let a = if i < p { i } else { i + 1 };
                assert(t[i] == s[a]);
            }
        }
        assert forall|other: Seq<char>| other != id && holds(s, other) implies t[slot_of(
            t,
            other,
        )] == s[slot_of(s, other)] by {
            let a = slot_of(s, other);
            let i = if a < p { a } else { a - 1 };
            assert(t[i] == s[a]);
            lemma_slot(t, i);
        }
    }
}

/// What is behind the place of `t` was created after `t`, and the session
/// just before it at `t` or before; where creation times never decrease, so
/// was everything before it.
pub proof fn lemma_place(s: Seq<SessionView>, t: nat)
    ensures
        0 <= place(s, t) <= s.len(),
        forall|i: int| place(s, t) <= i < s.len() ==> (#[trigger] s[i]).created_at > t,
        by_creation(s) ==> forall|i: int| 0 <= i < place(s, t) ==> (#[trigger] s[i]).created_at <= t,
        s.len() > 0 && s.last().created_at <= t ==> place(s, t) == s.len(),
    decreases s.len(),
{
    if s.len() > 0 && s.last().created_at > t {
        let front = s.drop_last();
        lemma_place(front, t);
        assert forall|i: int| place(s, t) <= i < s.len() implies (#[trigger] s[i]).created_at
            > t by {
            if i < front.len() {
                assert(s[i] == front[i]);
            }
        }
        if by_creation(s) {
            assert forall|i: int, j: int| 0 <= i < j < front.len() implies front[i].created_at
                <= front[j].created_at by {
                assert(front[i] == s[i] && front[j] == s[j]);
            }
            assert forall|i: int| 0 <= i < place(s, t) implies (#[trigger] s[i]).created_at
                <= t by {
                assert(s[i] == front[i]);
            }
        }
    } else if s.len() > 0 {
        if by_creation(s) {
            assert forall|i: int| 0 <= i < place(s, t) implies (#[trigger] s[i]).created_at
                <= t by {
                assert(s[s.len() - 1] == s.last());
            }
        }
    }
}

/// What opening a session does to the store. The new session is in it and
/// is found as it was opened. The store stays within `capacity` (one session
/// where `capacity` is 0). Every other session that remains was there
/// before, unchanged, and can still be read. Where creation times did not
/// decrease along the store they still do not, and whoever left for want of
/// room was created no later than whoever stayed.
pub proof fn lemma_opened(s: Seq<SessionView>, v: SessionView, capacity: nat, now: int)
    requires
        distinct_ids(s),
    ensures
        distinct_ids(opened(s, v, capacity, now)),
        by_creation(s) ==> by_creation(opened(s, v, capacity, now)),
        1 <= opened(s, v, capacity, now).len() <= room(capacity) + 1,
        holds(opened(s, v, capacity, now), v.id),
        opened(s, v, capacity, now)[slot_of(opened(s, v, capacity, now), v.id)] == v,
        forall|i: int|
            0 <= i < opened(s, v, capacity, now).len() ==> {
                let w = #[trigger] opened(s, v, capacity, now)[i];
                w == v || (w.live_at(now) && w.id != v.id && holds(s, w.id) && s[slot_of(s, w.id)]
                    == w)
            },
        by_creation(s) ==> forall|a: int, b: int|
            0 <= a < s.len() && 0 <= b < s.len() && survives(v.id, now)(#[trigger] s[a]) && !holds(
                opened(s, v, capacity, now),
                s[a].id,
            ) && holds(opened(s, v, capacity, now), (#[trigger] s[b]).id) && s[b].id != v.id
                ==> s[a].created_at <= s[b].created_at,
{
    let pred = survives(v.id, now);
    let kept = s.filter(pred);
    lemma_filter_distinct(s, pred);
    let stay = newest(kept, room(capacity));
    let start: int = if kept.len() > room(capacity) {
        kept.len() - room(capacity)
    } else {
        0
    };
    assert forall|i: int| 0 <= i < stay.len() implies #[trigger] stay[i] == kept[start + i] by {}
    let p = place(stay, v.created_at);
    lemma_place(stay, v.created_at);
    let t = opened(s, v, capacity, now);
    assert(t == stay.insert(p, v));
    assert(t.len() == stay.len() + 1);
    assert(t[p] == v);
    assert forall|i: int| 0 <= i < t.len() && i != p implies #[trigger] t[i] == kept[start + (if i
        < p {
        i
    } else {
        i - 1
    })] by {}
    assert forall|i: int| 0 <= i < t.len() implies {
        let w = #[trigger] t[i];
        w == v || (w.live_at(now) && w.id != v.id && holds(s, w.id) && s[slot_of(s, w.id)] == w)
    } by {
        if i != p {
            let x = start + (if i < p { i } else { i - 1 });
            let w = t[i];
            assert(w == kept[x]);
            s.lemma_filter_pred(pred, x);
            assert(kept.contains(w));
            s.lemma_filter_contains_rev(pred, w);
            let a = choose|a: int| 0 <= a < s.len() && s[a] == w;
            lemma_slot(s, a);
        }
    }
    assert forall|i: int, j: int| 0 <= i < j < t.len() implies t[i].id != t[j].id by {
        let x = start + (if i < p { i } else { i - 1 });
        let y = start + (if j < p { j } else { j - 1 });
        if i != p && j != p {
            assert(t[i] == kept[x]);
            assert(t[j] == kept[y]);
        } else if i == p {
            assert(t[j] == kept[y]);
            s.lemma_filter_pred(pred, y);
        } else {
            assert(t[i] == kept[x]);
            s.lemma_filter_pred(pred, x);
        }
    }
    lemma_slot(t, p);
    if by_creation(s) {
        lemma_filter_by_creation(s, pred);
        assert forall|i: int, j: int| 0 <= i < j < stay.len() implies stay[i].created_at
            <= stay[j].created_at by {
            assert(stay[i] == kept[start + i]);
            assert(stay[j] == kept[start + j]);
        }
        assert forall|i: int, j: int| 0 <= i < j < t.len() implies t[i].created_at
            <= t[j].created_at by {
            if i != p && j != p {
                assert(t[i] == stay[if i < p { i } else { i - 1 }]);
                assert(t[j] == stay[if j < p { j } else { j - 1 }]);
            } else if i == p {
                assert(t[j] == stay[j - 1]);
            } else {
                assert(t[i] == stay[i]);
            }
        }
        assert forall|a: int, b: int|
            0 <= a < s.len() && 0 <= b < s.len() && pred(#[trigger] s[a]) && !holds(t, s[a].id)
                && holds(t, (#[trigger] s[b]).id) && s[b].id != v.id implies s[a].created_at
                <= s[b].created_at by {
            s.lemma_filter_contains(pred, a);
            let x = choose|x: int| 0 <= x < kept.len() && kept[x] == s[a];
            if x >= start {
                let i = x - start;
                let at = if i < p { i } else { i + 1 };
                assert(t[at] == kept[x]);
            }
            let q = slot_of(t, s[b].id);
            let y = start + (if q < p { q } else { q - 1 });
            assert(t[q] == kept[y]);
            lemma_slot(s, b);
            assert(kept[y] == s[b]);
        }
    }
}

proof fn lemma_filter_by_creation(s: Seq<SessionView>, pred: spec_fn(SessionView) -> bool)
    requires
        by_creation(s),
    ensures
        by_creation(s.filter(pred)),
    decreases s.len(),
{
    reveal(Seq::filter);
    if s.len() > 0 {
        let front = s.drop_last();
        assert forall|i: int, j: int| 0 <= i < j < front.len() implies front[i].created_at
            <= front[j].created_at by {
            assert(front[i] == s[i]);
            assert(front[j] == s[j]);
        }
        lemma_filter_by_creation(front, pred);
        let kept = front.filter(pred);
        if pred(s.last()) {
            let t = kept.push(s.last());
            assert forall|i: int, j: int| 0 <= i < j < t.len() implies t[i].created_at
                <= t[j].created_at by {
                if j == t.len() - 1 {
                    assert(kept.contains(kept[i]));
                    front.lemma_filter_contains_rev(pred, kept[i]);
                    let a = choose|a: int| 0 <= a < front.len() && front[a] == kept[i];
                    assert(s[a] == front[a]);
                    assert(s[s.len() - 1] == s.last());
                }
            }
        }
    }
}

proof fn lemma_filter_distinct(s: Seq<SessionView>, pred: spec_fn(SessionView) -> bool)
    requires
        distinct_ids(s),
    ensures
        distinct_ids(s.filter(pred)),
    decreases s.len(),
{
    reveal(Seq::filter);
    if s.len() > 0 {
        let front = s.drop_last();
        assert forall|i: int, j: int| 0 <= i < j < front.len() implies front[i].id != front[j].id by {
            assert(front[i] == s[i]);
            assert(front[j] == s[j]);
        }
        lemma_filter_distinct(front, pred);
        let kept = front.filter(pred);
        if pred(s.last()) {
            let t = kept.push(s.last());
            assert forall|i: int, j: int| 0 <= i < j < t.len() implies t[i].id != t[j].id by {
                if j == t.len() - 1 {
                    assert(kept.contains(kept[i]));
                    front.lemma_filter_contains_rev(pred, kept[i]);
                    let a = choose|a: int| 0 <= a < front.len() && front[a] == kept[i];
                    assert(s[a] == front[a]);
                    assert(s[s.len() - 1] == s.last());
                }
            }
        }
    }
}

/// A session that is in the store can be read at exactly the times strictly
/// before `created_at + ttl`, whatever was read before.
pub proof fn lemma_lookup_window(s: Seq<SessionView>, i: int, now: int)
    requires
        distinct_ids(s),
        0 <= i < s.len(),
    ensures
        lookup(s, s[i].id, now) is Some <==> now < s[i].created_at + s[i].ttl,
        lookup(s, s[i].id, now) is Some ==> lookup(s, s[i].id, now) == Some(s[i]),
{
    lemma_slot(s, i);
}

/// A session that was just opened can be read at exactly the times strictly
/// before `created_at + ttl`, and is found as it was opened.
pub proof fn lemma_opened_window(
    s: Seq<SessionView>,
    v: SessionView,
    capacity: nat,
    now: int,
    later: int,
)
    requires
        distinct_ids(s),
    ensures
        lookup(opened(s, v, capacity, now), v.id, later) == (if later < v.created_at + v.ttl {
            Some(v)
        } else {
            None
        }),
{
    lemma_opened(s, v, capacity, now);
}

#[derive(Debug)]
struct Entry {
    key: String,
    value: String,
}

/// One session: its identifier, the window in which it can be read, and its
/// key-value data.
#[derive(Debug)]
pub struct Session {
    id: String,
    created_at: u64,
    ttl: u64,
    entries: Vec<Entry>,
}

impl View for Session {
    type V = SessionView;

    closed spec fn view(&self) -> SessionView {
        SessionView {
            id: self.id@,
            created_at: self.created_at as nat,
            ttl: self.ttl as nat,
            data: Map::new(
                |k: Seq<char>|
                    exists|i: int| 0 <= i < self.entries.len() && self.entries[i].key@ == k,
                |k: Seq<char>|
                    self.entries[choose|i: int|
                        0 <= i < self.entries.len() && self.entries[i].key@ == k].value@,
            ),
        }
    }
}

impl Session {
    /// No key occurs twice.
    pub closed spec fn wf(&self) -> bool {
        forall|i: int, j: int|
            0 <= i < j < self.entries.len() ==> self.entries[i].key@ != self.entries[j].key@
    }

    proof fn lemma_entry(&self, i: int)
        requires
            self.wf(),
            0 <= i < self.entries.len(),
        ensures
            self@.data.contains_key(self.entries[i].key@),
            self@.data[self.entries[i].key@] == self.entries[i].value@,
    {
    }

    /// An empty session opened at `now`.
    pub fn new(id: String, ttl: u64, now: u64) -> (s: Session)
        ensures
            s.wf(),
            s@ == SessionView::fresh(id@, ttl as nat, now as nat),
    {
        let s = Session { id, created_at: now, ttl, entries: Vec::new() };
        assert(s@.data =~= Map::<Seq<char>, Seq<char>>::empty());
        s
    }

    /// The identifier of the session.
    pub fn get_id(&self) -> (id: String)
        ensures
            id@ == self@.id,
    {
        self.id.clone()
    }

    /// Whether the session can still be read at `now`.
    pub fn is_live(&self, now: u64) -> (live: bool)
        ensures
            live == self@.live_at(now as int),
    {
        now < self.created_at || now - self.created_at < self.ttl
    }

    fn find(&self, key: &str) -> (r: Option<usize>)
        ensures
            match r {
                Some(i) => i < self.entries.len() && self.entries[i as int].key@ == key@,
                None => forall|i: int| 0 <= i < self.entries.len() ==> self.entries[i].key@ != key@,
            },
    {
        let wanted = key.to_owned();
        let mut i: usize = 0;
        while i < self.entries.len()
            invariant
                i <= self.entries.len(),
                wanted@ == key@,
                forall|j: int| 0 <= j < i ==> self.entries[j].key@ != key@,
            decreases self.entries.len() - i,
        {
            if self.entries[i].key == wanted {
                return Some(i);
            }
            i += 1;
        }
        None
    }

    /// Whether `key` is set to `value`.
    pub fn holds_value(&self, key: &str, value: &str) -> (r: bool)
        requires
            self.wf(),
        ensures
            r == self@.has(key@, value@),
    {
        match self.get(key) {
            Some(v) => v == value.to_owned(),
            None => false,
        }
    }

    /// The value stored under `key`, if any.
    pub fn get(&self, key: &str) -> (r: Option<String>)
        requires
            self.wf(),
        ensures
            match r {
                Some(v) => self@.get(key@) == Some(v@),
                None => self@.get(key@) is None,
            },
    {
        match self.find(key) {
            Some(i) => {
                proof {
                    self.lemma_entry(i as int);
                }
                Some(self.entries[i].value.clone())
            },
            None => None,
        }
    }

    /// Stores `value` under `key`, in place of an earlier value; hands the
    /// session back, so that calls can be chained.
    pub fn set(&mut self, key: &str, value: String) -> (r: &mut Self)
        requires
            old(self).wf(),
        ensures
            r.wf(),
            r@ == old(self)@.put(key@, value@),
            *final(r) == *final(self),
    {
        let found = self.find(key);
        match found {
            Some(i) => {
                self.entries.set(i, Entry { key: key.to_owned(), value });
            },
            None => {
                self.entries.push(Entry { key: key.to_owned(), value });
            },
        }
        proof {
            let new = *self;
            let prev = *old(self);
            let goal = prev@.data.insert(key@, value@);
            assert forall|k: Seq<char>| new@.data.contains_key(k) <==> #[trigger] goal.contains_key(
                k,
            ) by {
                if prev@.data.contains_key(k) {
                    let j = choose|j: int| 0 <= j < prev.entries.len() && prev.entries[j].key@ == k;
                    assert(new.entries[j].key@ == k);
                }
                if k == key@ {
                    let j = if found is Some {
                        found.unwrap() as int
                    } else {
                        prev.entries.len() as int
                    };
                    assert(new.entries[j].key@ == k);
                }
            }
            assert forall|k: Seq<char>| new@.data.contains_key(k) implies #[trigger] new@.data[k]
                == goal[k] by {
                let j = choose|j: int| 0 <= j < new.entries.len() && new.entries[j].key@ == k;
                new.lemma_entry(j);
                if k != key@ {
                    assert(prev.entries[j].key@ == k);
                    prev.lemma_entry(j);
                }
            }
            assert(new@.data =~= goal);
        }
        self
    }

    /// Removes `key`; nothing changes where it is not set.
    pub fn unset(&mut self, key: &str)
        requires
            old(self).wf(),
        ensures
            final(self).wf(),
            final(self)@ == old(self)@.cut(key@),
    {
        let found = self.find(key);
        match found {
            Some(i) => {
                self.entries.remove(i);
            },
            None => {},
        }
        proof {
            let new = *self;
            let prev = *old(self);
            let goal = prev@.data.remove(key@);
            if found is Some {
                let p = found.unwrap() as int;
                assert forall|j: int| 0 <= j < new.entries.len() implies #[trigger] new.entries[j]
                    == prev.entries[if j < p {
                    j
                } else {
                    j + 1
                }] by {}
                assert forall|k: Seq<char>| new@.data.contains_key(k) <==> #[trigger] goal.contains_key(
                    k,
                ) by {
                    if new@.data.contains_key(k) {
                        let j = choose|j: int|
                            0 <= j < new.entries.len() && new.entries[j].key@ == k;
                        let a = if j < p { j } else { j + 1 };
                        assert(prev.entries[a].key@ == k);
                    }
                    if goal.contains_key(k) {
                        let a = choose|a: int|
                            0 <= a < prev.entries.len() && prev.entries[a].key@ == k;
                        let j = if a < p { a } else { a - 1 };
                        assert(new.entries[j] == prev.entries[a]);
                    }
                }
                assert forall|k: Seq<char>| new@.data.contains_key(k) implies #[trigger] new@.data[k]
                    == goal[k] by {
                    let j = choose|j: int| 0 <= j < new.entries.len() && new.entries[j].key@ == k;
                    let a = if j < p { j } else { j + 1 };
                    assert(new.entries[j] == prev.entries[a]);
                    new.lemma_entry(j);
                    prev.lemma_entry(a);
                }
            }
            assert(new@.data =~= goal);
        }
    }
}

/// The sessions of one server, by creation time, the oldest first.
#[derive(Debug)]
pub struct SessionStore {
    sessions: Vec<Session>,
}

impl View for SessionStore {
    type V = Seq<SessionView>;

    closed spec fn view(&self) -> Seq<SessionView> {
        Seq::new(self.sessions.len() as nat, |i: int| self.sessions[i]@)
    }
}

impl SessionStore {
    /// Every session is well formed.
    pub closed spec fn sound(&self) -> bool {
        forall|i: int| 0 <= i < self.sessions.len() ==> (#[trigger] self.sessions[i]).wf()
    }

    /// Every session is well formed, no identifier occurs twice, and the
    /// sessions stand by creation time, the oldest first.
    pub open spec fn wf(&self) -> bool {
        self.sound() && distinct_ids(self@) && by_creation(self@)
    }

    /// A store without sessions.
    pub fn new() -> (store: SessionStore)
        ensures
            store.wf(),
            store@ == Seq::<SessionView>::empty(),
    {
        let store = SessionStore { sessions: Vec::new() };
        assert(store@ =~= Seq::<SessionView>::empty());
        store
    }

    /// The number of sessions held, expired ones included.
    pub fn len(&self) -> (n: usize)
        ensures
            n == self@.len(),
    {
        self.sessions.len()
    }

    fn find(&self, id: &str) -> (r: Option<usize>)
        requires
            self.wf(),
        ensures
            match r {
                Some(i) => i < self@.len() && self@[i as int].id == id@ && holds(self@, id@)
                    && slot_of(self@, id@) == i && i < self.sessions.len(),
                None => !holds(self@, id@),
            },
    {
        let wanted = id.to_owned();
        let mut i: usize = 0;
        while i < self.sessions.len()
            invariant
                i <= self.sessions.len(),
                self.sessions.len() == self@.len(),
                distinct_ids(self@),
                wanted@ == id@,
                forall|j: int| 0 <= j < i ==> self@[j].id != id@,
            decreases self.sessions.len() - i,
        {
            let candidate = self.sessions[i].get_id();
            if candidate == wanted {
                proof {
                    lemma_slot(self@, i as int);
                }
                return Some(i);
            }
            i += 1;
        }
        None
    }

    /// Where the session `id` stands, if it can be read at `now`.
    pub fn find_live(&self, id: &str, now: u64) -> (r: Option<usize>)
        requires
            self.wf(),
        ensures
            match r {
                Some(i) => i < self@.len() && lookup(self@, id@, now as int) == Some(self@[i as int])
                    && self@[i as int].id == id@ && slot_of(self@, id@) == i,
                None => lookup(self@, id@, now as int) is None,
            },
    {
        match self.find(id) {
            Some(i) => if self.sessions[i].is_live(now) {
                Some(i)
            } else {
                None
            },
            None => None,
        }
    }

    /// The session at `slot`.
    pub fn session(&self, slot: usize) -> (r: &Session)
        requires
            self.wf(),
            slot < self@.len(),
        ensures
            r.wf(),
            r@ == self@[slot as int],
    {
        &self.sessions[slot]
    }

    /// The session at `slot`, to be changed in place.
    pub(crate) fn session_mut(&mut self, slot: usize) -> (r: &mut Session)
        requires
            old(self).wf(),
            slot < old(self)@.len(),
        ensures
            r.wf(),
            r@ == old(self)@[slot as int],
            final(self)@ == old(self)@.update(slot as int, final(r)@),
            final(r).wf() ==> final(self).sound(),
    {
        &mut self.sessions[slot]
    }

    /// The session `id`, if it can be read at `now`. Reading extends nothing.
    pub fn from_id(&self, id: &str, now: u64) -> (r: Option<&Session>)
        requires
            self.wf(),
        ensures
            match r {
                Some(session) => session.wf() && lookup(self@, id@, now as int) == Some(session@),
                None => lookup(self@, id@, now as int) is None,
            },
    {
        match self.find_live(id, now) {
            Some(slot) => Some(self.session(slot)),
            None => None,
        }
    }

    /// Whether a session `id` can be read at `now`. Reading extends nothing.
    pub fn lookup(&self, id: &str, now: u64) -> (found: bool)
        requires
            self.wf(),
        ensures
            found == (lookup(self@, id@, now as int) is Some),
    {
        match self.find(id) {
            Some(i) => self.sessions[i].is_live(now),
            None => false,
        }
    }

    /// The value under `key` in session `id`, if the session can be read at
    /// `now` and holds the key.
    pub fn get(&self, id: &str, key: &str, now: u64) -> (r: Option<String>)
        requires
            self.wf(),
        ensures
            match r {
                Some(v) => field(self@, id@, key@, now as int) == Some(v@),
                None => field(self@, id@, key@, now as int) is None,
            },
    {
        match self.find(id) {
            Some(i) => {
                if self.sessions[i].is_live(now) {
                    self.sessions[i].get(key)
                } else {
                    None
                }
            },
            None => None,
        }
    }

    /// Stores `value` under `key` in session `id`, if the session can be read
    /// at `now`; says whether it could.
    pub fn set(&mut self, id: &str, key: &str, value: String, now: u64) -> (done: bool)
        requires
            old(self).wf(),
        ensures
            final(self).wf(),
            done == (lookup(old(self)@, id@, now as int) is Some),
            final(self)@ == (match lookup(old(self)@, id@, now as int) {
                Some(v) => replaced(old(self)@, v.put(key@, value@)),
                None => old(self)@,
            }),
            done ==> field(final(self)@, id@, key@, now as int) == Some(value@),
    {
        match self.find(id) {
            Some(i) => {
                if self.sessions[i].is_live(now) {
                    let mut session = self.sessions.remove(i);
                    session.set(key, value);
                    self.sessions.insert(i, session);
                    proof {
                        let v = old(self)@[i as int];
                        assert(self@ =~= old(self)@.update(i as int, v.put(key@, value@)));
                        lemma_replaced_keeps_ids(old(self)@, v.put(key@, value@));
                        lemma_lookup_replaced(old(self)@, v.put(key@, value@), now as int);
                    }
                    true
                } else {
                    false
                }
            },
            None => false,
        }
    }

    /// Removes `key` from session `id`, if the session can be read at `now`;
    /// says whether it could.
    pub fn unset(&mut self, id: &str, key: &str, now: u64) -> (done: bool)
        requires
            old(self).wf(),
        ensures
            final(self).wf(),
            done == (lookup(old(self)@, id@, now as int) is Some),
            final(self)@ == (match lookup(old(self)@, id@, now as int) {
                Some(v) => replaced(old(self)@, v.cut(key@)),
                None => old(self)@,
            }),
            field(final(self)@, id@, key@, now as int) is None,
    {
        match self.find(id) {
            Some(i) => {
                if self.sessions[i].is_live(now) {
                    let mut session = self.sessions.remove(i);
                    session.unset(key);
                    self.sessions.insert(i, session);
                    proof {
                        let v = old(self)@[i as int];
                        assert(self@ =~= old(self)@.update(i as int, v.cut(key@)));
                        lemma_replaced_keeps_ids(old(self)@, v.cut(key@));
                        lemma_lookup_replaced(old(self)@, v.cut(key@), now as int);
                    }
                    true
                } else {
                    false
                }
            },
            None => false,
        }
    }

    /// Removes session `id`, expired or not; says whether it was there.
    pub fn delete(&mut self, id: &str) -> (done: bool)
        requires
            old(self).wf(),
        ensures
            final(self).wf(),
            done == holds(old(self)@, id@),
            final(self)@ == removed(old(self)@, id@),
            forall|now: int| lookup(final(self)@, id@, now) is None,
    {
        match self.find(id) {
            Some(i) => {
                self.sessions.remove(i);
                proof {
                    assert(self@ =~= old(self)@.remove(i as int));
                    lemma_removed_keeps_ids(old(self)@, id@);
                }
                true
            },
            None => false,
        }
    }

    /// Opens an empty session under the identifier `id` at `now`. Expired
    /// sessions and an earlier session `id` leave first; then the oldest
    /// leave until the new one fits within `capacity`.
    pub fn open(&mut self, id: String, ttl: u64, capacity: usize, now: u64)
        requires
            old(self).wf(),
        ensures
            final(self).wf(),
            final(self)@ == opened(
                old(self)@,
                SessionView::fresh(id@, ttl as nat, now as nat),
                capacity as nat,
                now as int,
            ),
            lookup(final(self)@, id@, now as int) == (if ttl > 0 {
                Some(SessionView::fresh(id@, ttl as nat, now as nat))
            } else {
                None
            }),
    {
        let ghost before = self@;
        let ghost pred = survives(id@, now as int);
        let mut kept: Vec<Session> = Vec::new();
        let ghost mut done: int = 0;
        while self.sessions.len() > 0
            invariant
                0 <= done <= before.len(),
                self.sessions.len() == before.len() - done,
                forall|j: int|
                    0 <= j < self.sessions.len() ==> (#[trigger] self.sessions[j])@ == before[done
                        + j],
                forall|j: int| 0 <= j < self.sessions.len() ==> (#[trigger] self.sessions[j]).wf(),
                forall|j: int| 0 <= j < kept.len() ==> (#[trigger] kept[j]).wf(),
                Seq::new(kept.len() as nat, |j: int| kept[j]@) == before.subrange(0, done).filter(
                    pred,
                ),
                pred == survives(id@, now as int),
            decreases self.sessions.len(),
        {
            let session = self.sessions.remove(0);
            let same = session.get_id() == id;
            let ghost shown = Seq::new(kept.len() as nat, |j: int| kept[j]@);
            proof {
                reveal(Seq::filter);
                assert(before.subrange(0, done + 1).drop_last() =~= before.subrange(0, done));
                assert(before.subrange(0, done + 1).last() == before[done]);
                assert(session@ == before[done]);
            }
            if session.is_live(now) && !same {
                kept.push(session);
                assert(Seq::new(kept.len() as nat, |j: int| kept[j]@) =~= shown.push(before[done]));
            } else {
                assert(Seq::new(kept.len() as nat, |j: int| kept[j]@) =~= shown);
            }
            proof {
                done = done + 1;
            }
        }
        assert(before.subrange(0, done) =~= before);
        let ghost filtered = before.filter(pred);
        let space: usize = if capacity == 0 {
            0
        } else {
            capacity - 1
        };
        let ghost mut dropped: int = 0;
        while kept.len() > space
            invariant
                0 <= dropped <= filtered.len(),
                kept.len() == filtered.len() - dropped,
                dropped > 0 ==> kept.len() >= space,
                forall|j: int| 0 <= j < kept.len() ==> (#[trigger] kept[j]).wf(),
                forall|j: int| 0 <= j < kept.len() ==> (#[trigger] kept[j])@ == filtered[dropped + j],
            decreases kept.len(),
        {
            kept.remove(0);
            proof {
                dropped = dropped + 1;
            }
        }
        let ghost stay = Seq::new(kept.len() as nat, |j: int| kept[j]@);
        assert(stay =~= newest(filtered, room(capacity as nat)));
        let mut at: usize = kept.len();
        assert(stay.subrange(0, at as int) =~= stay);
        while at > 0 && kept[at - 1].created_at > now
            invariant
                at <= kept.len(),
                stay == Seq::new(kept.len() as nat, |j: int| kept[j]@),
                place(stay, now as nat) == place(stay.subrange(0, at as int), now as nat),
            decreases at,
        {
            proof {
                let upto = stay.subrange(0, at as int);
                assert(upto.last() == stay[at - 1]);
                assert(upto.drop_last() =~= stay.subrange(0, at - 1));
            }
            at -= 1;
        }
        proof {
            let upto = stay.subrange(0, at as int);
            if at > 0 {
                assert(upto.last() == stay[at - 1]);
            }
            assert(place(stay, now as nat) == at);
        }
        kept.insert(at, Session::new(id, ttl, now));
        self.sessions = kept;
        proof {
            let v = SessionView::fresh(id@, ttl as nat, now as nat);
            assert(self@ =~= stay.insert(at as int, v));
            lemma_opened(before, v, capacity as nat, now as int);
        }
    }

    /// Opens an empty session under a fresh random identifier and hands the
    /// identifier back.
    pub fn create(&mut self, ttl: u64, capacity: usize, now: u64) -> (id: String)
        requires
            old(self).wf(),
        ensures
            final(self).wf(),
            is_token(id@, SESSION_ID_LENGTH as nat),
            final(self)@ == opened(
                old(self)@,
                SessionView::fresh(id@, ttl as nat, now as nat),
                capacity as nat,
                now as int,
            ),
            lookup(final(self)@, id@, now as int) == (if ttl > 0 {
                Some(SessionView::fresh(id@, ttl as nat, now as nat))
            } else {
                None
            }),
    {
        let id = random_text(SESSION_ID_LENGTH);
        self.open(id.clone(), ttl, capacity, now);
        id
    }
}

} // verus!
