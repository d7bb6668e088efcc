//! The wire half of a live stream: what it holds and in what order it sends
//! it. Frames already due go out first; a resumed client gets what it
//! missed, or is told to refetch, before any live frame; events wait in the
//! coalescing window; and every ending flushes the window before it says
//! why the stream ended, so the last frames of a stream are never lost.
use vstd::prelude::*;

use crate::sse::coalesce::{Coalescer, LiveEvent, LATEST_PUSH};
use crate::text::{trim, trimmed};
use crate::wire::{parse_uuid, uuid_text_value};

verus! {

/// The heartbeat, in nanoseconds: 30 s, under the 60 s idle timeout that
/// proxies commonly apply.
pub const HEARTBEAT: u128 = 30_000_000_000;

/// `GET /api/v1/stream?project_id=...`: a project is required; there is no
/// subscription to everything.
#[derive(Debug, Clone, Copy, PartialEq, Eq)]
pub struct StreamQuery {
    pub project_id: u128,
}

/// Where a reconnecting client resumes.
#[derive(Debug, Clone, PartialEq, Eq)]
pub enum Resume {
    /// From now.
    Live,
    /// After replaying what it missed.
    Replayed(Vec<LiveEvent>),
    /// Past the replay window: it must refetch.
    Gap,
}

/// What the subscription delivers.
#[derive(Debug, Clone, PartialEq, Eq)]
pub enum Received {
    Event(LiveEvent),
    /// The client fell too far behind.
    Lagged,
    /// The stream was revoked from outside.
    Cancelled,
    /// The server is shutting down.
    Closed,
}

/// One frame on the wire.
#[derive(Debug, Clone, PartialEq, Eq)]
pub enum Frame {
    Event(LiveEvent),
    /// Refetch: the history asked for is gone.
    Gap,
    /// Reconnect with the last event id: this client was too slow.
    Lagged,
    /// Re-authenticate: the credential or the authority was revoked.
    Revoked,
}

/// Where a reconnecting client says it got to, from `Last-Event-ID`. It is
/// the client's own claim, not a credential: it can only pick a position in
/// a history this subscriber may already read, so a forged value costs at
/// most a gap notice.
pub fn resume_from(header: Option<&str>) -> (r: Option<u128>)
    ensures
        match header {
            None => r is None,
            Some(h) => r == uuid_text_value(trimmed(h@)),
        },
{
    match header {
        Some(h) => parse_uuid(trim(h)),
        None => None,
    }
}

/// Events as frames.
pub open spec fn frames(events: Seq<LiveEvent>) -> Seq<Frame> {
    events.map_values(|e: LiveEvent| Frame::Event(e))
}

/// What a terminal delivery adds after the flushed window.
pub open spec fn notice(received: Received) -> Seq<Frame> {
    match received {
        Received::Lagged => seq![Frame::Lagged],
        Received::Cancelled => seq![Frame::Revoked],
        _ => Seq::empty(),
    }
}

/// A stream's state: the frames ready to go out, the window, and the
/// deadline armed while the window holds something.
#[derive(Debug)]
pub struct StreamState {
    backlog: Vec<Frame>,
    window: Coalescer,
    timer: Option<u128>,
}

impl StreamState {
    pub closed spec fn ready(&self) -> Seq<Frame> {
        self.backlog@
    }

    pub closed spec fn held(&self) -> Seq<LiveEvent> {
        self.window.held()
    }

    pub closed spec fn deadline(&self) -> Option<u128> {
        self.timer
    }

    pub closed spec fn wf(&self) -> bool {
        &&& self.window.wf()
        &&& (self.timer is Some ==> self.window.held().len() > 0)
    }

    /// A new stream: a replay goes out first, or the gap notice, before any
    /// live frame, so a client never applies an update to a stale baseline.
    pub fn start(resume: Resume) -> (s: Self)
        ensures
            s.wf(),
            s.held() == Seq::<LiveEvent>::empty(),
            s.deadline() is None,
            s.ready() == (match resume {
                Resume::Live => Seq::<Frame>::empty(),
                Resume::Replayed(missed) => frames(missed@),
                Resume::Gap => seq![Frame::Gap],
            }),
    {
        let mut backlog: Vec<Frame> = Vec::new();
        match resume {
            Resume::Live => {},
            Resume::Replayed(missed) => {
                append_events(&mut backlog, missed);
                assert(backlog@ =~= frames(missed@));
            },
            Resume::Gap => {
                backlog.push(Frame::Gap);
            },
        }
        StreamState { backlog, window: Coalescer::new(), timer: None }
    }

    /// The next frame to send, oldest first.
    pub fn take(&mut self) -> (f: Option<Frame>)
        requires
            old(self).wf(),
        ensures
            final(self).wf(),
            final(self).held() == old(self).held(),
            final(self).deadline() == old(self).deadline(),
            old(self).ready().len() == 0 ==> f is None && final(self).ready() == old(self).ready(),
            old(self).ready().len() > 0 ==> f == Some(old(self).ready()[0]) && final(self).ready()
                == old(self).ready().drop_first(),
    {
        if self.backlog.len() == 0 {
            None
        } else {
            let f = self.backlog.remove(0);
            assert(self.backlog@ =~= old(self).backlog@.drop_first());
            Some(f)
        }
    }

    /// The deadline to wait on, when the window is holding something.
    pub fn timer_due(&self) -> (r: Option<u128>)
        ensures
            r == self.deadline(),
    {
        self.timer
    }

    /// Take what the subscription delivered at `now`. An event goes into the
    /// window; a full window is flushed at once; otherwise the deadline is
    /// armed if it was not. Every ending flushes the window, then adds its
    /// notice. Returns whether the stream is over: it ended and nothing is
    /// left to send.
    pub fn receive(&mut self, received: Received, now: u128) -> (over: bool)
        requires
            old(self).wf(),
            now <= LATEST_PUSH,
        ensures
            final(self).wf(),
            match received {
                Received::Event(e) => !over && (if crate::sse::coalesce::pushed(
                    old(self).held(),
                    e,
                ).len() >= crate::sse::coalesce::MAX_PENDING {
                    &&& final(self).ready() == old(self).ready() + frames(
                        crate::sse::coalesce::pushed(old(self).held(), e),
                    )
                    &&& final(self).held().len() == 0
                    &&& final(self).deadline() is None
                } else {
                    &&& final(self).ready() == old(self).ready()
                    &&& final(self).held() == crate::sse::coalesce::pushed(old(self).held(), e)
                    &&& final(self).deadline() is Some
                    &&& (old(self).deadline() is Some ==> final(self).deadline()
                        == old(self).deadline())
                }),
                _ => {
                    &&& final(self).ready() == old(self).ready() + frames(old(self).held())
                        + notice(received)
                    &&& final(self).held().len() == 0
                    &&& final(self).deadline() is None
                    &&& over == (final(self).ready().len() == 0)
                },
            },
    {
        match received {
            Received::Event(e) => {
                let flush_now = self.window.push(e, now);
                if flush_now {
                    self.timer = None;
                    let drained = self.window.drain();
                    append_events(&mut self.backlog, drained);
                } else if self.timer.is_none() {
                    self.timer = self.window.due_at();
                }
                false
            },
            terminal => {
                self.timer = None;
                let drained = self.window.drain();
                append_events(&mut self.backlog, drained);
                match terminal {
                    Received::Lagged => {
                        self.backlog.push(Frame::Lagged);
                    },
                    Received::Cancelled => {
                        self.backlog.push(Frame::Revoked);
                    },
                    _ => {},
                }
                proof {
                    assert(self.backlog@ =~= old(self).backlog@ + frames(old(self).window.held())
                        + notice(received));
                }
                self.backlog.len() == 0
            },
        }
    }

    /// The window's deadline passed: release what it holds.
    pub fn timer_fired(&mut self)
        requires
            old(self).wf(),
        ensures
            final(self).wf(),
            final(self).ready() == old(self).ready() + frames(old(self).held()),
            final(self).held().len() == 0,
            final(self).deadline() is None,
    {
        self.timer = None;
        let drained = self.window.drain();
        append_events(&mut self.backlog, drained);
    }
}

fn append_events(backlog: &mut Vec<Frame>, events: Vec<LiveEvent>)
    ensures
        final(backlog)@ == old(backlog)@ + frames(events@),
{
    let ghost start = backlog@;
    let ghost all = events@;
    let mut rest = events;
    assert(all.skip(0) =~= all);
    let mut i: usize = 0;
    let n: usize = rest.len();
    while rest.len() > 0
        invariant
            n == all.len(),
            rest@.len() + i == all.len(),
            rest@ == all.skip(i as int),
            backlog@ == start + frames(all.take(i as int)),
        decreases rest.len(),
    {
        let e = rest.remove(0);
        assert(e == all[i as int]);
        assert(rest@ =~= all.skip(i + 1));
        assert(frames(all.take(i + 1)) =~= frames(all.take(i as int)).push(Frame::Event(e)));
        backlog.push(Frame::Event(e));
        i = i + 1;
    }
    assert(all.take(all.len() as int) =~= all);
}

/// Every ending says why only after everything the window held: a frame
/// held when the stream ends goes out, in order, before the notice.
pub proof fn law_an_ending_flushes_the_window_first(
    ready: Seq<Frame>,
    held: Seq<LiveEvent>,
    received: Received,
    k: int,
)
    requires
        !(received is Event),
        0 <= k < held.len(),
    ensures
        (ready + frames(held) + notice(received))[ready.len() + k] == Frame::Event(held[k]),
        notice(received).len() > 0 ==> (ready + frames(held) + notice(received)).last()
            != Frame::Event(held[k]),
{
}

} // verus!
