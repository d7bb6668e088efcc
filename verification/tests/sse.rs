use std::time::Duration;

use casual_task_api::error::ErrorCode;
use casual_task_api::sse::authorize::{may_subscribe, Refusal};
use casual_task_api::sse::coalesce::{Coalescer, LiveEvent, MAX_PENDING, WINDOW};
use casual_task_api::sse::endpoint::{resume_from, Frame, Received, Resume, StreamState, HEARTBEAT};
use casual_task_api::sse::revalidate::{
    after_authentication, after_reauthorization, needs_reauthorization, on_tick, Ended,
    TickAction, Verdict, INTERVAL,
};

fn event_for(id: u128, aggregate: u128, event_type: &str, data: &str) -> LiveEvent {
    LiveEvent {
        id,
        aggregate_id: aggregate,
        event_type: event_type.to_owned(),
        data: data.to_owned(),
    }
}

const NOW: u128 = 5_000_000_000;

#[test]
fn the_heartbeat_is_shorter_than_a_common_proxy_idle_timeout() {
    assert!(HEARTBEAT < Duration::from_secs(60).as_nanos());
    assert_eq!(HEARTBEAT, Duration::from_secs(30).as_nanos(), "the heartbeat is thirty seconds");
}

#[test]
fn the_revocation_window_is_shorter_than_the_heartbeat() {
    assert!(INTERVAL < HEARTBEAT, "the revocation window is not shorter than the heartbeat");
}

#[test]
fn the_window_is_bounded_at_all() {
    assert!(INTERVAL <= Duration::from_secs(30).as_nanos());
    assert!(INTERVAL >= Duration::from_secs(5).as_nanos());
}

#[test]
fn a_rapid_drag_collapses_to_one_update() {
    let mut window = Coalescer::new();
    let task = 42;
    for position in 0..40 {
        let flush = window.push(
            event_for(position, task, "task.updated", &format!("{{\"rank\":{position}}}")),
            NOW,
        );
        assert!(!flush, "forty events on one task should not fill the buffer");
    }
    let emitted = window.drain();
    assert_eq!(emitted.len(), 1, "forty drag frames were not collapsed");
    assert_eq!(emitted[0].data, "{\"rank\":39}");
}

#[test]
fn different_tasks_are_not_collapsed_into_each_other() {
    let mut window = Coalescer::new();
    for task in 0..10 {
        window.push(event_for(task, 100 + task, "task.updated", "{}"), NOW);
    }
    assert_eq!(window.drain().len(), 10);
}

#[test]
fn a_create_is_not_swallowed_by_a_later_update() {
    let mut window = Coalescer::new();
    window.push(event_for(1, 7, "task.created", "{}"), NOW);
    window.push(event_for(2, 7, "task.updated", "{}"), NOW);
    let emitted = window.drain();
    assert_eq!(
        emitted.iter().map(|e| e.event_type.as_str()).collect::<Vec<_>>(),
        vec!["task.created", "task.updated"],
    );
}

#[test]
fn collapsing_does_not_reorder_what_it_does_not_merge() {
    let mut window = Coalescer::new();
    window.push(event_for(1, 1, "task.updated", "a"), NOW);
    window.push(event_for(2, 2, "task.updated", "b"), NOW);
    window.push(event_for(3, 1, "task.updated", "c"), NOW);
    let emitted = window.drain();
    assert_eq!(emitted.iter().map(|e| e.data.as_str()).collect::<Vec<_>>(), vec!["c", "b"]);
}

#[test]
fn the_window_opens_on_the_first_event_and_not_the_last() {
    let mut window = Coalescer::new();
    window.push(event_for(1, 1, "task.updated", "{}"), NOW);
    let due = window.due_at().expect("a held event is due at some point");
    window.push(event_for(2, 2, "task.updated", "{}"), NOW + Duration::from_millis(50).as_nanos());
    assert_eq!(window.due_at(), Some(due));
    assert_eq!(due, NOW + WINDOW);
}

#[test]
fn the_buffer_is_bounded_and_says_so_by_asking_for_a_flush() {
    let mut window = Coalescer::new();
    let mut asked = false;
    for n in 0..MAX_PENDING as u128 {
        asked = window.push(event_for(n, n, "task.updated", "{}"), NOW);
    }
    assert!(asked, "the buffer reached {MAX_PENDING} entries without asking to flush");
    assert_eq!(window.drain().len(), MAX_PENDING, "a flush lost events");
}

#[test]
fn draining_closes_the_window() {
    let mut window = Coalescer::new();
    window.push(event_for(1, 1, "task.updated", "{}"), NOW);
    assert!(window.due_at().is_some());
    let _ = window.drain();
    assert!(window.is_empty());
    assert_eq!(window.due_at(), None);
}

#[test]
fn the_two_narrow_refusals_are_both_403_and_say_which() {
    let no_permission = Refusal::NoReadPermission.into_error();
    let constrained = Refusal::ConstrainedReader.into_error();
    assert_eq!(no_permission.status(), 403);
    assert_eq!(constrained.status(), 403);
    assert_ne!(no_permission.code(), constrained.code());
}

#[test]
fn an_invisible_project_is_a_404_not_a_403() {
    assert_eq!(Refusal::NotVisible.into_error().status(), 404);
    assert_eq!(Refusal::NotVisible.into_error().code(), ErrorCode::ProjectNotFound);
}

#[test]
fn a_subscriber_must_be_able_to_read_every_task() {
    assert_eq!(may_subscribe(false, true, true), Err(Refusal::NotVisible));
    assert_eq!(may_subscribe(true, false, true), Err(Refusal::NoReadPermission));
    assert_eq!(may_subscribe(true, true, false), Err(Refusal::ConstrainedReader));
    assert_eq!(may_subscribe(true, true, true), Ok(()));
}

#[test]
fn only_an_answer_ends_a_stream() {
    assert_eq!(after_authentication(None), None);
    assert_eq!(after_authentication(Some(401)), Some(Verdict::End(Ended::CredentialRevoked)));
    assert_eq!(after_authentication(Some(500)), Some(Verdict::Keep));
    assert!(!needs_reauthorization(4, 4));
    assert!(needs_reauthorization(5, 4));
    assert_eq!(after_reauthorization(Some(false), 5), Verdict::End(Ended::AuthorityWithdrawn));
    assert_eq!(after_reauthorization(Some(true), 5), Verdict::Adopt(5));
    assert_eq!(after_reauthorization(None, 5), Verdict::Adopt(5));
    assert_eq!(on_tick(false, Some(Verdict::End(Ended::CredentialRevoked)), 4), TickAction::Stop);
    assert_eq!(on_tick(true, None, 4), TickAction::Continue(4));
    assert_eq!(on_tick(true, Some(Verdict::Adopt(6)), 4), TickAction::Continue(6));
    assert_eq!(
        on_tick(true, Some(Verdict::End(Ended::AuthorityWithdrawn)), 4),
        TickAction::Cancel(Ended::AuthorityWithdrawn)
    );
}

#[test]
fn a_resumed_stream_sends_its_replay_or_its_gap_first() {
    let mut replay = StreamState::start(Resume::Replayed(vec![event_for(9, 1, "task.updated", "r")]));
    assert_eq!(replay.take(), Some(Frame::Event(event_for(9, 1, "task.updated", "r"))));
    assert_eq!(replay.take(), None);
    let mut gap = StreamState::start(Resume::Gap);
    assert_eq!(gap.take(), Some(Frame::Gap));
    let mut live = StreamState::start(Resume::Live);
    assert_eq!(live.take(), None);
}

#[test]
fn an_ending_flushes_the_window_before_it_says_why() {
    let mut stream = StreamState::start(Resume::Live);
    assert!(!stream.receive(Received::Event(event_for(1, 1, "task.updated", "a")), NOW));
    assert_eq!(stream.timer_due(), Some(NOW + WINDOW));
    assert_eq!(stream.take(), None, "an event waits in the window");
    let over = stream.receive(Received::Cancelled, NOW);
    assert!(!over, "the flushed frames are still to be sent");
    assert_eq!(stream.take(), Some(Frame::Event(event_for(1, 1, "task.updated", "a"))));
    assert_eq!(stream.take(), Some(Frame::Revoked));
    assert_eq!(stream.take(), None);
    assert!(stream.receive(Received::Closed, NOW), "nothing left: the stream is over");
}

#[test]
fn a_lagging_client_is_told_to_reconnect() {
    let mut stream = StreamState::start(Resume::Live);
    stream.receive(Received::Lagged, NOW);
    assert_eq!(stream.take(), Some(Frame::Lagged));
}

#[test]
fn the_deadline_releases_the_window() {
    let mut stream = StreamState::start(Resume::Live);
    stream.receive(Received::Event(event_for(1, 1, "task.updated", "a")), NOW);
    stream.receive(Received::Event(event_for(2, 1, "task.updated", "b")), NOW + 10);
    stream.timer_fired();
    assert_eq!(stream.timer_due(), None);
    assert_eq!(stream.take(), Some(Frame::Event(event_for(2, 1, "task.updated", "b"))));
    assert_eq!(stream.take(), None);
}

#[test]
fn a_last_event_id_is_read_as_a_uuid_or_ignored() {
    assert_eq!(
        resume_from(Some(" 018f2c00-0000-7000-8000-000000000001 ")),
        Some(0x018f2c00_0000_7000_8000_000000000001)
    );
    assert_eq!(resume_from(Some("42")), None);
    assert_eq!(resume_from(None), None);
}

#[test]
fn a_drained_window_gives_each_key_once_newest_in_first_push_order() {
    let mut window = Coalescer::new();
    window.push(event_for(1, 7, "task.updated", "a"), 10);
    window.push(event_for(2, 8, "task.created", "b"), 20);
    window.push(event_for(3, 7, "task.updated", "c"), 30);
    window.push(event_for(4, 9, "task.updated", "d"), 40);
    window.push(event_for(5, 8, "task.created", "e"), 50);
    assert_eq!(window.due_at(), Some(10 + WINDOW), "timed from the first push");
    let drained = window.drain();
    let seen: Vec<(u128, &str)> = drained.iter().map(|e| (e.aggregate_id, e.data.as_str())).collect();
    assert_eq!(seen, vec![(7, "c"), (8, "e"), (9, "d")]);
}
