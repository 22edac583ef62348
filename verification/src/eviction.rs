//! The capacity law of the session store: what a run of openings leaves
//! behind.
use vstd::prelude::*;

use crate::session::{
    by_creation, distinct_ids, holds, lemma_opened, lemma_place, lemma_removed_keeps_ids, lookup,
    opened, place, removed, room, slot_of, survives, SessionView,
};

verus! {

/// How many of the identifiers `ids` can be read in `s` at `now`.
pub open spec fn count_found(s: Seq<SessionView>, ids: Seq<Seq<char>>, now: int) -> nat
    decreases ids.len(),
{
    if ids.len() == 0 {
        0
    } else {
        let rest = count_found(s, ids.drop_last(), now);
        if lookup(s, ids.last(), now) is Some {
            rest + 1
        } else {
            rest
        }
    }
}

/// Of any identifiers without repetition, a store finds no more than it holds.
pub proof fn lemma_count_found_bound(s: Seq<SessionView>, ids: Seq<Seq<char>>, now: int)
    requires
        distinct_ids(s),
        ids.no_duplicates(),
    ensures
        count_found(s, ids, now) <= s.len(),
        count_found(s, ids, now) <= ids.len(),
    decreases ids.len(),
{
    if ids.len() > 0 {
        let front = ids.drop_last();
        let id = ids.last();
        assert forall|i: int, j: int| 0 <= i < front.len() && 0 <= j < front.len() && i != j implies front[i] != front[j] by {
            assert(front[i] == ids[i]);
            assert(front[j] == ids[j]);
        }
        lemma_count_found_bound(s, front, now);
        if lookup(s, id, now) is Some {
            let t = removed(s, id);
            lemma_removed_keeps_ids(s, id);
            lemma_count_found_bound(t, front, now);
            lemma_count_found_same(s, t, id, front, now);
        }
    }
}

proof fn lemma_count_found_same(
    s: Seq<SessionView>,
    t: Seq<SessionView>,
    id: Seq<char>,
    ids: Seq<Seq<char>>,
    now: int,
)
    requires
        distinct_ids(s),
        t == removed(s, id),
        forall|i: int| 0 <= i < ids.len() ==> ids[i] != id,
    ensures
        count_found(s, ids, now) == count_found(t, ids, now),
    decreases ids.len(),
{
    if ids.len() > 0 {
        let front = ids.drop_last();
        assert forall|i: int| 0 <= i < front.len() implies front[i] != id by {
            assert(front[i] == ids[i]);
        }
        lemma_count_found_same(s, t, id, front, now);
        lemma_removed_keeps_ids(s, id);
        assert(ids.last() == ids[ids.len() - 1]);
    }
}

/// One call of `create`: the session it opens and the time of the call.
pub struct Opening {
    pub session: SessionView,
    pub now: int,
}

/// The store after the openings `calls`, in order, under one `capacity`.
pub open spec fn opened_all(s: Seq<SessionView>, calls: Seq<Opening>, capacity: nat) -> Seq<
    SessionView,
>
    decreases calls.len(),
{
    if calls.len() == 0 {
        s
    } else {
        opened(
            opened_all(s, calls.drop_last(), capacity),
            calls.last().session,
            capacity,
            calls.last().now,
        )
    }
}

/// The store never outgrows its capacity: after `capacity + k` sessions with
/// identifiers of their own have been opened, `k >= 1`, at least `k` of them
/// can no longer be read, at whatever time.
pub proof fn lemma_capacity_evicts(
    s: Seq<SessionView>,
    calls: Seq<Opening>,
    capacity: nat,
    k: nat,
    now: int,
)
    requires
        distinct_ids(s),
        capacity >= 1,
        k >= 1,
        calls.len() == capacity + k,
        calls.map_values(|c: Opening| c.session.id).no_duplicates(),
    ensures
        distinct_ids(opened_all(s, calls, capacity)),
        opened_all(s, calls, capacity).len() <= capacity,
        calls.len() - count_found(
            opened_all(s, calls, capacity),
            calls.map_values(|c: Opening| c.session.id),
            now,
        ) >= k,
{
    lemma_opened_all(s, calls, capacity);
    lemma_count_found_bound(
        opened_all(s, calls, capacity),
        calls.map_values(|c: Opening| c.session.id),
        now,
    );
}

proof fn lemma_opened_all(s: Seq<SessionView>, calls: Seq<Opening>, capacity: nat)
    requires
        distinct_ids(s),
    ensures
        distinct_ids(opened_all(s, calls, capacity)),
        calls.len() >= 1 ==> opened_all(s, calls, capacity).len() <= room(capacity) + 1,
    decreases calls.len(),
{
    if calls.len() > 0 {
        lemma_opened_all(s, calls.drop_last(), capacity);
        lemma_opened(
            opened_all(s, calls.drop_last(), capacity),
            calls.last().session,
            capacity,
            calls.last().now,
        );
    }
}

/// The openings follow a steady clock and one policy: every session has an
/// identifier of its own, is created at the time of its call and has the
/// same time to live as the others, and the clock never runs backwards.
pub open spec fn steady(calls: Seq<Opening>) -> bool {
    &&& forall|i: int, j: int|
        0 <= i < j < calls.len() ==> calls[i].session.id != calls[j].session.id
    &&& forall|i: int| 0 <= i < calls.len() ==> (#[trigger] calls[i]).session.created_at == calls[i].now
    &&& forall|i: int, j: int|
        0 <= i < j < calls.len() ==> calls[i].session.ttl == calls[j].session.ttl && calls[i].now
            <= calls[j].now
}

/// Nothing in `st` was created after `t`.
pub open spec fn not_after(st: Seq<SessionView>, t: int) -> bool {
    forall|q: int| 0 <= q < st.len() ==> (#[trigger] st[q]).created_at <= t
}

/// After the first `i` openings, `st` ends with the sessions of the openings
/// from `a` on, in order, and holds nothing else of the first `i`.
spec fn ends_with(st: Seq<SessionView>, calls: Seq<Opening>, i: int, a: int) -> bool {
    &&& 0 <= a <= i <= calls.len()
    &&& st.len() >= i - a
    &&& forall|t: int| 0 <= t < i - a ==> #[trigger] st[st.len() - (i - a) + t] == calls[a + t].session
    &&& forall|q: int, j: int|
        0 <= q < st.len() - (i - a) && 0 <= j < i ==> (#[trigger] st[q]).id != (
        #[trigger] calls[j]).session.id
}

/// Where whatever satisfies `pred` is followed only by what satisfies it,
/// filtering keeps a tail.
proof fn lemma_filter_keeps_tail(c: Seq<SessionView>, pred: spec_fn(SessionView) -> bool) -> (m:
    int)
    requires
        forall|x: int, y: int| 0 <= x < y < c.len() && pred(c[x]) ==> pred(c[y]),
    ensures
        0 <= m <= c.len(),
        c.filter(pred) == c.subrange(m, c.len() as int),
    decreases c.len(),
{
    reveal(Seq::filter);
    if c.len() == 0 {
        assert(c.filter(pred) =~= c.subrange(0, 0));
        0
    } else {
        let front = c.drop_last();
        assert forall|x: int, y: int| 0 <= x < y < front.len() && pred(front[x]) implies pred(
            front[y],
        ) by {
            assert(front[x] == c[x] && front[y] == c[y]);
        }
        let m = lemma_filter_keeps_tail(front, pred);
        if pred(c.last()) {
            assert(front.subrange(m, front.len() as int).push(c.last()) =~= c.subrange(
                m,
                c.len() as int,
            ));
            m
        } else {
            if m < front.len() {
                let kept = front.filter(pred);
                assert(kept[0] == front[m]);
                front.lemma_filter_pred(pred, 0);
                assert(front[m] == c[m]);
                assert(pred(c[m]));
                assert(c[c.len() - 1] == c.last());
            }
            assert(front.filter(pred) =~= c.subrange(c.len() as int, c.len() as int));
            c.len() as int
        }
    }
}

proof fn lemma_ends_with_step(
    st: Seq<SessionView>,
    calls: Seq<Opening>,
    capacity: nat,
    i: int,
    a: int,
) -> (next: int)
    requires
        distinct_ids(st),
        steady(calls),
        0 <= i < calls.len(),
        ends_with(st, calls, i, a),
        not_after(st, calls[i].now),
    ensures
        ends_with(opened(st, calls[i].session, capacity, calls[i].now), calls, i + 1, next),
        not_after(opened(st, calls[i].session, capacity, calls[i].now), calls[i].now),
{
    let new = calls[i].session;
    let now = calls[i].now;
    let pred = survives(new.id, now);
    let n = i - a;
    let p = st.len() - n;
    let head = st.subrange(0, p);
    let tail = st.subrange(p, st.len() as int);
    assert(st =~= head + tail);
    Seq::filter_distributes_over_add(head, tail, pred);
    assert forall|x: int, y: int| 0 <= x < y < tail.len() && pred(tail[x]) implies pred(
        tail[y],
    ) by {
        assert(tail[x] == st[st.len() - n + x]);
        assert(tail[y] == st[st.len() - n + y]);
        assert(tail[x] == calls[a + x].session);
        assert(tail[y] == calls[a + y].session);
    }
    let m = lemma_filter_keeps_tail(tail, pred);
    let kept_head = head.filter(pred);
    let kept_tail = tail.subrange(m, tail.len() as int);
    let kept = st.filter(pred);
    assert(kept == kept_head + kept_tail);
    let last = if kept.len() > room(capacity) {
        kept.subrange(kept.len() - room(capacity), kept.len() as int)
    } else {
        kept
    };
    let after = opened(st, new, capacity, now);
    lemma_opened(st, new, capacity, now);
    assert(not_after(after, now)) by {
        assert forall|q: int| 0 <= q < after.len() implies (#[trigger] after[q]).created_at
            <= now by {
            let w = after[q];
            if w != new {
                assert(st[slot_of(st, w.id)] == w);
            }
        }
    }
    assert(after == last.push(new)) by {
        lemma_place(last, new.created_at);
        if last.len() > 0 {
            let w = last.last();
            assert(w == kept[kept.len() - 1]);
            assert(kept.contains(w));
            st.lemma_filter_contains_rev(pred, w);
            let z = choose|z: int| 0 <= z < st.len() && st[z] == w;
            assert(st[z].created_at <= now);
        }
        assert(place(last, new.created_at) == last.len());
        assert(last.insert(last.len() as int, new) =~= last.push(new));
    }
    let shift = kept.len() - last.len();
    assert forall|x: int| 0 <= x < last.len() implies #[trigger] last[x] == kept[shift + x] by {}
    let carried: int = if kept_tail.len() <= last.len() {
        kept_tail.len() as int
    } else {
        last.len() as int
    };
    let next = i - carried;
    assert forall|t: int| 0 <= t < i + 1 - next implies #[trigger] after[after.len() - (i + 1
        - next) + t] == calls[next + t].session by {
        if t < carried {
            let x = last.len() - carried + t;
            assert(after[x] == last[x]);
            assert(last[x] == kept[shift + x]);
            let y = shift + x - kept_head.len();
            assert(kept[shift + x] == kept_tail[y]);
            assert(kept_tail[y] == tail[m + y]);
            assert(tail[m + y] == st[st.len() - n + (m + y)]);
        }
    }
    assert forall|q: int, j: int| 0 <= q < after.len() - (i + 1 - next) && 0 <= j < i + 1 implies (
    #[trigger] after[q]).id != (#[trigger] calls[j]).session.id by {
        assert(after[q] == last[q]);
        assert(last[q] == kept[shift + q]);
        assert(kept[shift + q] == kept_head[shift + q]);
        let w = kept_head[shift + q];
        head.lemma_filter_pred(pred, shift + q);
        assert(kept_head.contains(w));
        head.lemma_filter_contains_rev(pred, w);
        let z = choose|z: int| 0 <= z < head.len() && head[z] == w;
        assert(head[z] == st[z]);
    }
    next
}

proof fn lemma_ends_with_all(s: Seq<SessionView>, calls: Seq<Opening>, capacity: nat, i: int) -> (a:
    int)
    requires
        distinct_ids(s),
        steady(calls),
        0 <= i <= calls.len(),
        calls.len() >= 1,
        not_after(s, calls[0].now),
    ensures
        distinct_ids(opened_all(s, calls.take(i), capacity)),
        ends_with(opened_all(s, calls.take(i), capacity), calls, i, a),
        i >= 1 ==> opened_all(s, calls.take(i), capacity).len() <= room(capacity) + 1,
        not_after(
            opened_all(s, calls.take(i), capacity),
            if i == 0 {
                calls[0].now
            } else {
                calls[i - 1].now
            },
        ),
    decreases i,
{
    if i == 0 {
        assert(calls.take(0).len() == 0);
        0
    } else {
        let before = lemma_ends_with_all(s, calls, capacity, i - 1);
        assert(calls.take(i).drop_last() =~= calls.take(i - 1));
        assert(calls.take(i).last() == calls[i - 1]);
        let st = opened_all(s, calls.take(i - 1), capacity);
        lemma_opened(st, calls[i - 1].session, capacity, calls[i - 1].now);
        lemma_ends_with_step(st, calls, capacity, i - 1, before)
    }
}

/// Under a steady clock and one policy it is the earliest sessions that
/// leave: after `capacity + k` openings, `k >= 1`, in a store that holds
/// nothing created after the first of them, none of the first `k` sessions
/// opened can be read any more, at whatever time.
pub proof fn lemma_capacity_evicts_earliest(
    s: Seq<SessionView>,
    calls: Seq<Opening>,
    capacity: nat,
    k: nat,
)
    requires
        distinct_ids(s),
        steady(calls),
        capacity >= 1,
        k >= 1,
        calls.len() == capacity + k,
        not_after(s, calls[0].now),
    ensures
        forall|j: int, now: int|
            0 <= j < k ==> (#[trigger] lookup(
                opened_all(s, calls, capacity),
                calls[j].session.id,
                now,
            )) is None,
{
    let n = calls.len() as int;
    let a = lemma_ends_with_all(s, calls, capacity, n);
    assert(calls.take(n) =~= calls);
    let last = opened_all(s, calls, capacity);
    assert forall|j: int, now: int| 0 <= j < k implies (#[trigger] lookup(
        last,
        calls[j].session.id,
        now,
    )) is None by {
        let id = calls[j].session.id;
        if holds(last, id) {
            let q = slot_of(last, id);
            let p = last.len() - (n - a);
            if q >= p {
                let t = q - p;
                assert(last[last.len() - (n - a) + t] == calls[a + t].session);
            }
        }
    }
}

/// Whoever leaves for want of room was created no later than whoever stays:
/// of the sessions that were alive when `v` was opened, each one that is gone
/// afterwards is at least as old as each one that is still held.
pub proof fn lemma_oldest_leave(
    s: Seq<SessionView>,
    v: SessionView,
    capacity: nat,
    now: int,
    gone: int,
    held: int,
)
    requires
        distinct_ids(s),
        by_creation(s),
        0 <= gone < s.len(),
        0 <= held < s.len(),
        s[gone].live_at(now),
        s[gone].id != v.id,
        !holds(opened(s, v, capacity, now), s[gone].id),
        s[held].id != v.id,
        holds(opened(s, v, capacity, now), s[held].id),
    ensures
        s[gone].created_at <= s[held].created_at,
{
    lemma_opened(s, v, capacity, now);
}

} // verus!
