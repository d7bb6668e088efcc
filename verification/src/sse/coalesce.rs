//! The coalescing window of a live stream: events are held for a short
//! window and collapsed per aggregate and event type, so a rapid drag
//! produces one update and not forty.
//!
//! Collapsing is per aggregate *and* event type: a create followed by an
//! update are two facts, and keeping only the newer would hand a subscriber
//! an update for a task it has never heard of. A replacement keeps its
//! original position, so what is not merged is not reordered. The buffer's
//! bound has a policy: reaching it asks for an immediate flush, which costs
//! a frame and loses nothing.
use vstd::prelude::*;

use crate::text::str_eq;

verus! {

/// How long an event is held, in nanoseconds: 100 ms.
pub const WINDOW: u128 = 100_000_000;

/// The latest instant an event may be pushed at, so that its deadline is
/// representable.
pub const LATEST_PUSH: u128 = 340282366920938463463374607431668211455 - 100_000_000;

/// How many distinct events may be held before the window is cut short.
pub const MAX_PENDING: usize = 256;

/// One event on the live channel. Ids are the 128 bits of a UUID.
#[derive(Debug, Clone, PartialEq, Eq)]
pub struct LiveEvent {
    pub id: u128,
    pub aggregate_id: u128,
    pub event_type: String,
    pub data: String,
}

/// What decides that two events are the same update.
pub open spec fn key_of(e: LiveEvent) -> (u128, Seq<char>) {
    (e.aggregate_id, e.event_type@)
}

/// Holds events for [`WINDOW`], keeping the newest per key. Instants are
/// nanoseconds on the stream's monotonic clock.
#[derive(Debug)]
pub struct Coalescer {
    pending: Vec<LiveEvent>,
    opened: Option<u128>,
}

/// The held events, oldest first, after one more is pushed: it replaces the
/// held event with its key, in that event's position, or it goes last.
pub open spec fn pushed(held: Seq<LiveEvent>, e: LiveEvent) -> Seq<LiveEvent> {
    if exists|i: int| 0 <= i < held.len() && key_of(held[i]) == key_of(e) {
        held.update(choose|i: int| 0 <= i < held.len() && key_of(held[i]) == key_of(e), e)
    } else {
        held.push(e)
    }
}

/// When the window opened, after one more push at `now`: a push into an
/// open window leaves its start alone; the first one opens it.
pub open spec fn opened_step(opened: Option<u128>, now: u128) -> Option<u128> {
    match opened {
        Some(t) => Some(t),
        None => Some(now),
    }
}

/// One push of `e` at `now` took the window `before` to `after`, answering
/// `flush`: the event replaces the held one with its key in place or goes
/// last, the window keeps the instant it opened at or opens now, and a flush
/// is asked for once [`MAX_PENDING`] events are held.
pub open spec fn push_step(
    before: Coalescer,
    e: LiveEvent,
    now: u128,
    after: Coalescer,
    flush: bool,
) -> bool {
    &&& after.held() == pushed(before.held(), e)
    &&& after.opened_at() == opened_step(before.opened_at(), now)
    &&& flush == (after.held().len() >= MAX_PENDING)
}

/// No two held events share a key.
pub open spec fn keys_distinct(held: Seq<LiveEvent>) -> bool {
    forall|i: int, j: int| 0 <= i < j < held.len() ==> key_of(held[i]) != key_of(held[j])
}

impl Coalescer {
    /// The held events, oldest first.
    pub closed spec fn held(&self) -> Seq<LiveEvent> {
        self.pending@
    }

    /// When the oldest held event was buffered.
    pub closed spec fn opened_at(&self) -> Option<u128> {
        self.opened
    }

    /// Nothing is held exactly when no window is open, and no two held
    /// events share a key.
    pub closed spec fn wf(&self) -> bool {
        &&& keys_distinct(self.pending@)
        &&& (self.pending@.len() == 0 <==> self.opened is None)
        &&& (self.opened matches Some(t) ==> t <= LATEST_PUSH)
    }

    /// An empty window.
    pub fn new() -> (c: Self)
        ensures
            c.wf(),
            c.held() == Seq::<LiveEvent>::empty(),
            c.opened_at() is None,
    {
        Coalescer { pending: Vec::new(), opened: None }
    }

    /// Buffer `event` at `now`. Returns `true` when the caller should flush
    /// immediately.
    pub fn push(&mut self, event: LiveEvent, now: u128) -> (flush: bool)
        requires
            old(self).wf(),
            now <= LATEST_PUSH,
        ensures
            final(self).wf(),
            push_step(*old(self), event, now, *final(self), flush),
    {
        let ghost before = self.pending@;
        let mut i: usize = 0;
        let mut found: Option<usize> = None;
        while i < self.pending.len()
            invariant
                i <= self.pending@.len(),
                self.pending@ == before,
                found is None ==> forall|k: int| 0 <= k < i ==> key_of(self.pending@[k]) != key_of(
                    event,
                ),
                found matches Some(f) ==> f < self.pending@.len() && key_of(self.pending@[f as int])
                    == key_of(event),
            decreases self.pending.len() - i,
        {
            if found.is_none() && self.pending[i].aggregate_id == event.aggregate_id && str_eq(
                self.pending[i].event_type.as_str(),
                event.event_type.as_str(),
            ) {
                found = Some(i);
            }
            i = i + 1;
        }
        match found {
            Some(f) => {
                proof {
                    let c = choose|k: int| 0 <= k < before.len() && key_of(before[k]) == key_of(event);
                    if c != f as int {
                        assert(key_of(before[c]) == key_of(before[f as int]));
                        if c < f {
                            assert(key_of(before[c]) != key_of(before[f as int]));
                        } else {
                            assert(key_of(before[f as int]) != key_of(before[c]));
                        }
                    }
                }
                self.pending.set(f, event);
                assert(self.pending@ == before.update(f as int, event));
            },
            None => {
                self.pending.push(event);
            },
        }
        if self.opened.is_none() {
            self.opened = Some(now);
        }
        self.pending.len() >= MAX_PENDING
    }

    /// When the held events are due: a window after the oldest was buffered.
    pub fn due_at(&self) -> (r: Option<u128>)
        requires
            self.wf(),
        ensures
            match self.opened_at() {
                Some(t) => r == Some((t + WINDOW) as u128),
                None => r is None,
            },
    {
        match self.opened {
            Some(t) => Some(t + WINDOW),
            None => None,
        }
    }

    /// Whether anything is waiting.
    pub fn is_empty(&self) -> (r: bool)
        requires
            self.wf(),
        ensures
            r == (self.held().len() == 0),
    {
        self.pending.len() == 0
    }

    /// Take everything held, oldest first, and close the window.
    pub fn drain(&mut self) -> (events: Vec<LiveEvent>)
        requires
            old(self).wf(),
        ensures
            final(self).wf(),
            events@ == old(self).held(),
            final(self).held() == Seq::<LiveEvent>::empty(),
            final(self).opened_at() is None,
    {
        self.opened = None;
        let mut out: Vec<LiveEvent> = Vec::new();
        std::mem::swap(&mut out, &mut self.pending);
        out
    }
}

/// An event whose key is held replaces the held one in its position: the
/// number held is unchanged, and every other event stays where it was.
pub proof fn law_newest_replaces_in_place(held: Seq<LiveEvent>, e: LiveEvent, i: int)
    requires
        keys_distinct(held),
        0 <= i < held.len(),
        key_of(held[i]) == key_of(e),
    ensures
        pushed(held, e).len() == held.len(),
        pushed(held, e)[i] == e,
        forall|j: int| 0 <= j < held.len() && j != i ==> pushed(held, e)[j] == held[j],
{
    let c = choose|k: int| 0 <= k < held.len() && key_of(held[k]) == key_of(e);
    if c != i {
        if c < i {
            assert(key_of(held[c]) != key_of(held[i]));
        } else {
            assert(key_of(held[i]) != key_of(held[c]));
        }
    }
}

/// An event with a new key is never merged into another: it is appended,
/// and everything held before is kept, in order.
pub proof fn law_distinct_keys_are_not_merged(held: Seq<LiveEvent>, e: LiveEvent)
    requires
        forall|i: int| 0 <= i < held.len() ==> key_of(#[trigger] held[i]) != key_of(e),
    ensures
        pushed(held, e) == held.push(e),
{
}

/// A burst of events on one key, however long, leaves one event held: the
/// last.
pub proof fn law_a_burst_collapses_to_its_last(first: LiveEvent, later: Seq<LiveEvent>)
    requires
        forall|k: int| 0 <= k < later.len() ==> key_of(#[trigger] later[k]) == key_of(first),
    ensures
        burst(seq![first], later).len() == 1,
        later.len() > 0 ==> burst(seq![first], later)[0] == later.last(),
    decreases later.len(),
{
    if later.len() > 0 {
        let init = later.drop_last();
        law_a_burst_collapses_to_its_last(first, init);
        let h = burst(seq![first], init);
        let e = later.last();
        assert(key_of(h[0]) == key_of(e)) by {
            if init.len() > 0 {
                assert(h[0] == init.last());
            }
        }
        law_newest_replaces_in_place(h, e, 0);
    }
}

/// The held events after pushing each of `events` in turn.
pub open spec fn burst(held: Seq<LiveEvent>, events: Seq<LiveEvent>) -> Seq<LiveEvent>
    decreases events.len(),
{
    if events.len() == 0 {
        held
    } else {
        pushed(burst(held, events.drop_last()), events.last())
    }
}

/// When the window opened after pushes at each of `times` in turn.
pub open spec fn opened_through(opened: Option<u128>, times: Seq<u128>) -> Option<u128>
    decreases times.len(),
{
    if times.len() == 0 {
        opened
    } else {
        opened_step(opened_through(opened, times.drop_last()), times.last())
    }
}

/// The window is timed from its first push: however many pushes follow, an
/// empty window that takes pushes at `times` opened at the first of them,
/// so it is due [`WINDOW`] after it and a steady stream cannot postpone it.
pub proof fn law_the_window_opens_at_its_first_push(times: Seq<u128>)
    requires
        times.len() > 0,
    ensures
        opened_through(None, times) == Some(times[0]),
    decreases times.len(),
{
    let prev = times.drop_last();
    if times.len() > 1 {
        law_the_window_opens_at_its_first_push(prev);
        assert(prev[0] == times[0]);
    } else {
        assert(opened_through(None, prev) == None::<u128>);
    }
}

/// Some event of `s` has key `k`.
pub open spec fn has_key(s: Seq<LiveEvent>, k: (u128, Seq<char>)) -> bool {
    exists|j: int| 0 <= j < s.len() && key_of(s[j]) == k
}

/// `x` occurs in `events`, and no later event shares its key: it is the
/// newest of its key.
pub open spec fn newest_of_its_key(events: Seq<LiveEvent>, x: LiveEvent) -> bool {
    exists|j: int|
        0 <= j < events.len() && events[j] == x && forall|j2: int|
            j < j2 < events.len() ==> key_of(#[trigger] events[j2]) != key_of(x)
}

/// An event with key `k` comes in `events` before position `j2`.
pub open spec fn seen_before(events: Seq<LiveEvent>, k: (u128, Seq<char>), j2: int) -> bool {
    exists|j1: int| 0 <= j1 < j2 && key_of(events[j1]) == k
}

/// What an empty window holds after `events` are pushed in turn, and so what
/// draining it hands out: one event per key that was pushed, that key's
/// newest, in the order each key was first pushed.
pub open spec fn collapsed(events: Seq<LiveEvent>, held: Seq<LiveEvent>) -> bool {
    &&& keys_distinct(held)
    &&& forall|k: (u128, Seq<char>)| has_key(held, k) <==> has_key(events, k)
    &&& forall|i: int| 0 <= i < held.len() ==> newest_of_its_key(events, #[trigger] held[i])
    &&& forall|i1: int, i2: int, j2: int|
        0 <= i1 < i2 < held.len() && 0 <= j2 < events.len() && key_of(#[trigger] events[j2])
            == key_of(#[trigger] held[i2]) ==> seen_before(events, key_of(#[trigger] held[i1]), j2)
}

/// Draining a window that took `events` from empty hands out one event per
/// key, the newest of each, in the order the keys were first pushed: a
/// subscriber sees every fact, once, current, and in the order it arose.
pub proof fn law_a_drained_window_holds_each_key_once_in_first_push_order(events: Seq<LiveEvent>)
    ensures
        collapsed(events, burst(Seq::<LiveEvent>::empty(), events)),
    decreases events.len(),
{
    let h0 = burst(Seq::<LiveEvent>::empty(), events);
    if events.len() == 0 {
        assert forall|k: (u128, Seq<char>)| has_key(h0, k) <==> has_key(events, k) by {}
    } else {
        let prev = events.drop_last();
        let e = events.last();
        let n = prev.len() as int;
        law_a_drained_window_holds_each_key_once_in_first_push_order(prev);
        let h = burst(Seq::<LiveEvent>::empty(), prev);
        assert(forall|j: int| 0 <= j < n ==> events[j] == prev[j]);
        assert(events[n] == e);
        if has_key(h, key_of(e)) {
            let c = choose|c: int| 0 <= c < h.len() && key_of(h[c]) == key_of(e);
            law_newest_replaces_in_place(h, e, c);
            let g = pushed(h, e);
            assert(g.len() == h.len());
            assert forall|i: int| 0 <= i < g.len() implies key_of(#[trigger] g[i]) == key_of(h[i]) by {}
            assert forall|k: (u128, Seq<char>)| has_key(g, k) <==> has_key(events, k) by {
                if has_key(g, k) {
                    let i = choose|i: int| 0 <= i < g.len() && key_of(g[i]) == k;
                    assert(key_of(h[i]) == k);
                    assert(has_key(prev, k));
                    let j = choose|j: int| 0 <= j < n && key_of(prev[j]) == k;
                    assert(key_of(events[j]) == k);
                }
                if has_key(events, k) {
                    let j = choose|j: int| 0 <= j < events.len() && key_of(events[j]) == k;
                    if j < n {
                        assert(key_of(prev[j]) == k);
                        assert(has_key(prev, k));
                        let i = choose|i: int| 0 <= i < h.len() && key_of(h[i]) == k;
                        assert(key_of(g[i]) == k);
                    } else {
                        assert(key_of(g[c]) == k);
                    }
                }
            }
            assert forall|i: int| 0 <= i < g.len() implies newest_of_its_key(events, #[trigger] g[i]) by {
                if i == c {
                    assert(events[n] == g[i]);
                } else {
                    assert(g[i] == h[i]);
                    assert(newest_of_its_key(prev, h[i]));
                    let j = choose|j: int|
                        0 <= j < prev.len() && prev[j] == h[i] && forall|j2: int|
                            j < j2 < prev.len() ==> key_of(#[trigger] prev[j2]) != key_of(h[i]);
                    assert(key_of(h[i]) != key_of(h[c]));
                    assert forall|j2: int| j < j2 < events.len() implies key_of(
                        #[trigger] events[j2],
                    ) != key_of(g[i]) by {
                        if j2 < n {
                            assert(events[j2] == prev[j2]);
                        }
                    }
                    assert(events[j] == g[i]);
                }
            }
            assert forall|i1: int, i2: int, j2: int|
                0 <= i1 < i2 < g.len() && 0 <= j2 < events.len() && key_of(#[trigger] events[j2])
                    == key_of(#[trigger] g[i2]) implies seen_before(events, key_of(#[trigger] g[i1]), j2) by {
                assert(key_of(g[i1]) == key_of(h[i1]));
                assert(key_of(g[i2]) == key_of(h[i2]));
                if j2 < n {
                    assert(events[j2] == prev[j2]);
                    assert(key_of(prev[j2]) == key_of(h[i2]));
                    assert(seen_before(prev, key_of(h[i1]), j2));
                    let j1 = choose|j1: int| 0 <= j1 < j2 && key_of(prev[j1]) == key_of(h[i1]);
                    assert(events[j1] == prev[j1]);
                } else {
                    assert(has_key(h, key_of(h[i1])));
                    assert(has_key(prev, key_of(h[i1])));
                    let j1 = choose|j1: int| 0 <= j1 < n && key_of(prev[j1]) == key_of(h[i1]);
                    assert(events[j1] == prev[j1]);
                }
            }
        } else {
            law_distinct_keys_are_not_merged(h, e);
            let g = pushed(h, e);
            assert(g == h.push(e));
            assert forall|a: int, b: int| 0 <= a < b < g.len() implies key_of(g[a]) != key_of(g[b]) by {
                if b == h.len() {
                    assert(g[a] == h[a]);
                }
            }
            assert forall|k: (u128, Seq<char>)| has_key(g, k) <==> has_key(events, k) by {
                if has_key(g, k) {
                    let i = choose|i: int| 0 <= i < g.len() && key_of(g[i]) == k;
                    if i < h.len() {
                        assert(key_of(h[i]) == k);
                        assert(has_key(prev, k));
                        let j = choose|j: int| 0 <= j < n && key_of(prev[j]) == k;
                        assert(key_of(events[j]) == k);
                    } else {
                        assert(key_of(events[n]) == k);
                    }
                }
                if has_key(events, k) {
                    let j = choose|j: int| 0 <= j < events.len() && key_of(events[j]) == k;
                    if j < n {
                        assert(key_of(prev[j]) == k);
                        assert(has_key(prev, k));
                        let i = choose|i: int| 0 <= i < h.len() && key_of(h[i]) == k;
                        assert(key_of(g[i]) == k);
                    } else {
                        assert(key_of(g[h.len() as int]) == k);
                    }
                }
            }
            assert forall|i: int| 0 <= i < g.len() implies newest_of_its_key(events, #[trigger] g[i]) by {
                if i == h.len() {
                    assert(events[n] == g[i]);
                } else {
                    assert(g[i] == h[i]);
                    assert(newest_of_its_key(prev, h[i]));
                    let j = choose|j: int|
                        0 <= j < prev.len() && prev[j] == h[i] && forall|j2: int|
                            j < j2 < prev.len() ==> key_of(#[trigger] prev[j2]) != key_of(h[i]);
                    assert(key_of(h[i]) != key_of(e));
                    assert forall|j2: int| j < j2 < events.len() implies key_of(
                        #[trigger] events[j2],
                    ) != key_of(g[i]) by {
                        if j2 < n {
                            assert(events[j2] == prev[j2]);
                        }
                    }
                    assert(events[j] == g[i]);
                }
            }
            assert forall|i1: int, i2: int, j2: int|
                0 <= i1 < i2 < g.len() && 0 <= j2 < events.len() && key_of(#[trigger] events[j2])
                    == key_of(#[trigger] g[i2]) implies seen_before(events, key_of(#[trigger] g[i1]), j2) by {
                assert(g[i1] == h[i1]);
                assert(has_key(prev, key_of(h[i1])));
                if i2 < h.len() {
                    assert(g[i2] == h[i2]);
                    if j2 < n {
                        assert(events[j2] == prev[j2]);
                        assert(key_of(prev[j2]) == key_of(h[i2]));
                        assert(seen_before(prev, key_of(h[i1]), j2));
                        let j1 = choose|j1: int| 0 <= j1 < j2 && key_of(prev[j1]) == key_of(h[i1]);
                        assert(events[j1] == prev[j1]);
                    } else {
                        assert(key_of(e) != key_of(h[i2]));
                    }
                } else {
                    if j2 < n {
                        assert(events[j2] == prev[j2]);
                        assert(!has_key(prev, key_of(e)));
                    }
                    let j1 = choose|j1: int| 0 <= j1 < n && key_of(prev[j1]) == key_of(h[i1]);
                    assert(events[j1] == prev[j1]);
                    if j2 < n {
                        assert(key_of(prev[j2]) == key_of(e));
                    }
                }
            }
        }
    }
}

/// The distinct keys among `events`.
pub open spec fn keys_in(events: Seq<LiveEvent>) -> Set<(u128, Seq<char>)> {
    events.map_values(|e: LiveEvent| key_of(e)).to_set()
}

/// A window that holds the collapse of `events` holds as many events as
/// there were distinct keys among them.
proof fn lemma_collapsed_counts_keys(events: Seq<LiveEvent>, held: Seq<LiveEvent>)
    requires
        collapsed(events, held),
    ensures
        held.len() == keys_in(events).len(),
{
    let m = held.map_values(|e: LiveEvent| key_of(e));
    assert(m.no_duplicates()) by {
        assert forall|a: int, b: int| 0 <= a < m.len() && 0 <= b < m.len() && a != b implies m[a]
            != m[b] by {
            if a < b {
                assert(key_of(held[a]) != key_of(held[b]));
            } else {
                assert(key_of(held[b]) != key_of(held[a]));
            }
        }
    }
    m.unique_seq_to_set();
    let em = events.map_values(|e: LiveEvent| key_of(e));
    assert forall|k: (u128, Seq<char>)| m.to_set().contains(k) <==> em.to_set().contains(k) by {
        if m.to_set().contains(k) {
            let i = choose|i: int| 0 <= i < m.len() && m[i] == k;
            assert(key_of(held[i]) == k);
            assert(has_key(held, k));
            let j = choose|j: int| 0 <= j < events.len() && key_of(events[j]) == k;
            assert(em[j] == k);
        }
        if em.to_set().contains(k) {
            let j = choose|j: int| 0 <= j < em.len() && em[j] == k;
            assert(key_of(events[j]) == k);
            assert(has_key(events, k));
            let i = choose|i: int| 0 <= i < held.len() && key_of(held[i]) == k;
            assert(m[i] == k);
        }
    }
    assert(m.to_set() =~= em.to_set());
}

/// The `k`-th window of a run of pushes from an empty window holds what the
/// first `k` events collapse to, and opened at the first push.
proof fn lemma_run_of_pushes(
    states: Seq<Coalescer>,
    events: Seq<LiveEvent>,
    times: Seq<u128>,
    flushes: Seq<bool>,
    k: int,
)
    requires
        states.len() == events.len() + 1,
        times.len() == events.len(),
        flushes.len() == events.len(),
        states[0].held() == Seq::<LiveEvent>::empty(),
        states[0].opened_at() is None,
        forall|j: int|
            0 <= j < events.len() ==> #[trigger] push_step(
                states[j],
                events[j],
                times[j],
                states[j + 1],
                flushes[j],
            ),
        0 <= k <= events.len(),
    ensures
        states[k].held() == burst(Seq::<LiveEvent>::empty(), events.take(k)),
        states[k].opened_at() == opened_through(None, times.take(k)),
    decreases k,
{
    if k == 0 {
        assert(events.take(0) =~= Seq::<LiveEvent>::empty());
        assert(times.take(0) =~= Seq::<u128>::empty());
    } else {
        lemma_run_of_pushes(states, events, times, flushes, k - 1);
        let j = k - 1;
        assert(push_step(states[j], events[j], times[j], states[j + 1], flushes[j]));
        assert(states[j + 1] == states[k]);
        assert(events.take(k).drop_last() =~= events.take(k - 1));
        assert(times.take(k).drop_last() =~= times.take(k - 1));
    }
}

/// Any run of pushes into an empty window, stated over the contract of each
/// call: what the window holds, and so what draining it hands out, is one
/// event per key pushed, the newest of each, in the order the keys were first
/// pushed; the window opened at the first push, so it is due [`WINDOW`]
/// after it however many pushes follow; and a push asks for a flush exactly
/// when the distinct keys pushed so far reach [`MAX_PENDING`].
pub proof fn law_a_run_of_pushes_collapses_per_key_and_is_timed_from_its_first(
    states: Seq<Coalescer>,
    events: Seq<LiveEvent>,
    times: Seq<u128>,
    flushes: Seq<bool>,
)
    requires
        states.len() == events.len() + 1,
        times.len() == events.len(),
        flushes.len() == events.len(),
        states[0].held() == Seq::<LiveEvent>::empty(),
        states[0].opened_at() is None,
        forall|j: int|
            0 <= j < events.len() ==> #[trigger] push_step(
                states[j],
                events[j],
                times[j],
                states[j + 1],
                flushes[j],
            ),
    ensures
        collapsed(events, states.last().held()),
        events.len() > 0 ==> states.last().opened_at() == Some(times[0]),
        forall|j: int|
            0 <= j < events.len() ==> #[trigger] flushes[j] == (keys_in(events.take(j + 1)).len()
                >= MAX_PENDING),
{
    let n = events.len() as int;
    lemma_run_of_pushes(states, events, times, flushes, n);
    assert(events.take(n) =~= events);
    assert(times.take(n) =~= times);
    law_a_drained_window_holds_each_key_once_in_first_push_order(events);
    if n > 0 {
        law_the_window_opens_at_its_first_push(times);
    }
    assert forall|j: int| 0 <= j < events.len() implies #[trigger] flushes[j] == (keys_in(
        events.take(j + 1),
    ).len() >= MAX_PENDING) by {
        lemma_run_of_pushes(states, events, times, flushes, j + 1);
        assert(push_step(states[j], events[j], times[j], states[j + 1], flushes[j]));
        law_a_drained_window_holds_each_key_once_in_first_push_order(events.take(j + 1));
        lemma_collapsed_counts_keys(events.take(j + 1), states[j + 1].held());
    }
}

} // verus!
