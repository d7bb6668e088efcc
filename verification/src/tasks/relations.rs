//! Transitions, assignees and tags: the decisions a handler makes around
//! the state machine and the other aggregates, which decide legality
//! themselves.
use vstd::prelude::*;

use crate::error::{bad, conflicting, denied, missing, refused, ApiError, ErrorCode};
use crate::tasks::validate::{
    empty_value, is_empty_value, state_named, within_bytes, FieldValue, TaskState, MAX_TEXT,
};
use crate::tasks::wire::{instant_text, view, viewed, TaskRow, TaskView};
use crate::text::{char_count, trim, trimmed};
use crate::unit::{authorized, denial_of, Decision};
use crate::wire::timestamp;

verus! {

/// A task the caller can see, or the one `404` for absent, deleted and
/// in a project the caller cannot see.
pub fn task_visible<T>(found: Option<T>) -> (r: Result<T, ApiError>)
    ensures
        match found {
            Some(t) => r == Ok::<T, ApiError>(t),
            None => r == Err::<T, ApiError>(missing(ErrorCode::TaskNotFound)),
        },
{
    match found {
        Some(t) => Ok(t),
        None => Err(ApiError::missing(ErrorCode::TaskNotFound)),
    }
}

/// What a `409` on a task tells the loser: the version it lost to, who
/// changed the task and when, and the task as it now stands, so the client
/// can show what changed and offer a merge.
#[derive(Debug, Clone, PartialEq, Eq)]
pub struct TaskConflict {
    pub your_version: i64,
    pub current_version: i64,
    pub changed_by: Option<u128>,
    pub changed_at: String,
    pub current: TaskView,
}

/// The `409` for a write against version `your_version` of a task that
/// now stands as `current`.
pub fn conflict(current: &TaskRow, project_key: &str, your_version: i64) -> (r: (
    ApiError,
    TaskConflict,
))
    ensures
        r.0 == conflicting(ErrorCode::VersionConflict),
        r.1.your_version == your_version,
        r.1.current_version == current.version,
        r.1.changed_by == current.updated_by,
        r.1.changed_at@ == instant_text(current.updated_at as int),
        viewed(r.1.current, *current, project_key@),
{
    let details = TaskConflict {
        your_version,
        current_version: current.version,
        changed_by: current.updated_by,
        changed_at: timestamp(current.updated_at),
        current: view(current, project_key),
    };
    (ApiError::conflict(ErrorCode::VersionConflict), details)
}

/// Where the checks before the state machine leave a transition.
#[derive(Debug, Clone, Copy, PartialEq, Eq, Structural)]
pub enum TransitionStep {
    /// The task already holds the target status: answer `200` and write
    /// nothing.
    AlreadyThere,
    /// Ask the workflow whether the move is legal.
    AskWorkflow,
}

/// The checks a transition makes before the workflow is loaded, in their
/// order: the comment's size, then readable (`404`), then the version
/// (`409`), then the permission on the project (`403`). The version comes
/// before the permission: the actor can already see the task, so its
/// version is no secret, and a stale client is the common case. `current`
/// is the task's version and status; `project_visible` whether its project
/// reads back.
pub open spec fn transition_checks_of(
    comment: Option<&str>,
    current: Option<(i64, u128)>,
    expected: i64,
    project_visible: bool,
    permission: Decision,
    to_status_id: u128,
) -> Result<TransitionStep, ApiError> {
    if comment matches Some(c) && c.len() > MAX_TEXT {
        Err(bad(ErrorCode::OutOfRange))
    } else {
        match current {
            None => Err(missing(ErrorCode::TaskNotFound)),
            Some((version, status_id)) => if version != expected {
                Err(conflicting(ErrorCode::VersionConflict))
            } else if !project_visible {
                Err(missing(ErrorCode::TaskNotFound))
            } else {
                match permission {
                    Decision::Deny(reason) => Err(denial_of(reason)),
                    Decision::Allow => if to_status_id == status_id {
                        Ok(TransitionStep::AlreadyThere)
                    } else {
                        Ok(TransitionStep::AskWorkflow)
                    },
                }
            },
        }
    }
}

/// Run the checks of [`transition_checks_of`].
pub fn transition_checks(
    comment: Option<&str>,
    current: Option<(i64, u128)>,
    expected: i64,
    project_visible: bool,
    permission: Decision,
    to_status_id: u128,
) -> (r: Result<TransitionStep, ApiError>)
    ensures
        r == transition_checks_of(
            comment,
            current,
            expected,
            project_visible,
            permission,
            to_status_id,
        ),
{
    if let Err(e) = within_bytes(comment, MAX_TEXT) {
        return Err(e);
    }
    let (version, status_id) = match task_visible(current) {
        Ok(found) => found,
        Err(e) => return Err(e),
    };
    if version != expected {
        return Err(ApiError::conflict(ErrorCode::VersionConflict));
    }
    if !project_visible {
        return Err(ApiError::missing(ErrorCode::TaskNotFound));
    }
    if let Err(e) = authorized(permission) {
        return Err(e);
    }
    if unchanged(to_status_id, status_id) {
        Ok(TransitionStep::AlreadyThere)
    } else {
        Ok(TransitionStep::AskWorkflow)
    }
}

/// The names of the supplied fields that count as present: a field sent
/// empty does not satisfy a requirement.
pub open spec fn provided(fields: Seq<(String, FieldValue)>) -> Seq<Seq<char>>
    decreases fields.len(),
{
    if fields.len() == 0 {
        Seq::empty()
    } else {
        let rest = provided(fields.drop_last());
        if empty_value(fields.last().1) {
            rest
        } else {
            rest.push(fields.last().0@)
        }
    }
}

/// The required-field names a transition request provides, in order.
pub fn provided_fields(fields: &Vec<(String, FieldValue)>) -> (names: Vec<String>)
    ensures
        names@.map_values(|n: String| n@) == provided(fields@),
{
    let mut names: Vec<String> = Vec::new();
    let mut i: usize = 0;
    while i < fields.len()
        invariant
            i <= fields@.len(),
            names@.map_values(|n: String| n@) == provided(fields@.take(i as int)),
        decreases fields.len() - i,
    {
        let ghost before = names@;
        assert(fields@.take(i + 1).drop_last() =~= fields@.take(i as int));
        if !is_empty_value(&fields[i].1) {
            names.push(fields[i].0.clone());
            assert(names@.map_values(|n: String| n@) =~= before.map_values(|n: String| n@).push(
                fields@[i as int].0@,
            ));
        }
        i = i + 1;
    }
    assert(fields@.take(fields@.len() as int) =~= fields@);
    names
}

/// Why the state machine refused a move.
#[derive(Debug, Clone, PartialEq, Eq)]
pub enum Rejection {
    /// The target is not reachable from the task's status.
    NoSuchTransition,
    /// The transition needs a permission the caller lacks.
    MissingPermission(String),
    /// Required fields were missing, all of them named.
    MissingFields(Vec<String>),
    /// Unresolved tasks block this one.
    BlockedBy(Vec<u128>),
}

/// The documented refusal for a rejection. A missing permission is `403`:
/// the caller may not make this move, which differs from "this move is not
/// possible".
pub open spec fn rejection_error(rejection: Rejection) -> ApiError {
    match rejection {
        Rejection::NoSuchTransition => refused(ErrorCode::NoSuchTransition),
        Rejection::MissingPermission(_) => denied(ErrorCode::TransitionPermission),
        Rejection::MissingFields(_) => refused(ErrorCode::TransitionFieldsMissing),
        Rejection::BlockedBy(_) => refused(ErrorCode::BlockedByDependencies),
    }
}

/// Map a state-machine refusal onto its code; the details (the permission,
/// every missing field, the blockers) travel with the rejection itself.
pub fn rejected(rejection: &Rejection) -> (e: ApiError)
    ensures
        e == rejection_error(*rejection),
{
    match rejection {
        Rejection::NoSuchTransition => ApiError::unprocessable(ErrorCode::NoSuchTransition),
        Rejection::MissingPermission(_) => ApiError::denied(ErrorCode::TransitionPermission),
        Rejection::MissingFields(_) => ApiError::unprocessable(ErrorCode::TransitionFieldsMissing),
        Rejection::BlockedBy(_) => ApiError::unprocessable(ErrorCode::BlockedByDependencies),
    }
}

/// A move to the status the task already occupies writes nothing and
/// answers `200`: this is what makes a retry safe without an idempotency
/// key. It is answered before the workflow is loaded.
pub fn unchanged(to_status_id: u128, current_status_id: u128) -> (r: bool)
    ensures
        r == (to_status_id == current_status_id),
{
    to_status_id == current_status_id
}

/// The note a transition writes as a comment: trimmed, and nothing when it
/// is blank.
pub fn comment_to_write(comment: Option<&str>) -> (r: Option<&str>)
    ensures
        match comment {
            Some(c) if trimmed(c@).len() > 0 => r matches Some(t) && t@ == trimmed(c@),
            _ => r is None,
        },
{
    match comment {
        Some(c) => {
            let t = trim(c);
            if char_count(t) > 0 {
                Some(t)
            } else {
                None
            }
        },
        None => None,
    }
}

/// The event a completed move records. Leaving a terminal state is its own
/// event, because how often work comes back is a question a generic status
/// change cannot answer.
#[derive(Debug, Clone, Copy, PartialEq, Eq, Structural)]
pub enum TransitionEvent {
    StatusChanged,
    Reopened,
}

impl TransitionEvent {
    /// The event type the history and the outbox record.
    pub fn event_type(self) -> (t: &'static str)
        ensures
            self == TransitionEvent::Reopened ==> t@ == "task.reopened"@,
            self == TransitionEvent::StatusChanged ==> t@ == "task.status.changed"@,
    {
        match self {
            TransitionEvent::Reopened => "task.reopened",
            TransitionEvent::StatusChanged => "task.status.changed",
        }
    }
}

/// Whether a stored state is one of the two terminal ones.
pub open spec fn stored_terminal(state: Seq<char>) -> bool {
    state_named(state) matches Some(s) && s.terminal()
}

fn is_terminal_text(state: &str) -> (r: bool)
    ensures
        r == stored_terminal(state@),
{
    match TaskState::parse(state) {
        Some(s) => match s {
            TaskState::Completed => true,
            TaskState::Canceled => true,
            _ => false,
        },
        None => false,
    }
}

/// The event for a move from stored state `was` into state `to`.
pub fn transition_event(was: &str, to: TaskState) -> (e: TransitionEvent)
    ensures
        e == (if stored_terminal(was@) && !to.terminal() {
            TransitionEvent::Reopened
        } else {
            TransitionEvent::StatusChanged
        }),
{
    let was_terminal = is_terminal_text(was);
    let is_terminal = match to {
        TaskState::Completed => true,
        TaskState::Canceled => true,
        _ => false,
    };
    if was_terminal && !is_terminal {
        TransitionEvent::Reopened
    } else {
        TransitionEvent::StatusChanged
    }
}

/// A move is recorded as a reopening exactly when it leaves a terminal
/// state for a non-terminal one; a move between terminal states, or into
/// one, is an ordinary status change.
pub proof fn law_reopening_is_leaving_a_terminal_state(was: TaskState, to: TaskState)
    ensures
        (if stored_terminal(crate::tasks::validate::state_name(was)) && !to.terminal() {
            TransitionEvent::Reopened
        } else {
            TransitionEvent::StatusChanged
        }) == TransitionEvent::Reopened <==> (was.terminal() && !to.terminal()),
{
    crate::tasks::validate::law_state_spelling_round_trips(was);
}

/// What a completed transition leaves behind: the new representation, the
/// version for the `ETag`, and the status the task came from, which an
/// inverse move needs and the moved row no longer knows.
#[derive(Debug, Clone, PartialEq, Eq)]
pub struct Transitioned {
    pub view: TaskView,
    pub version: i64,
    pub from_status_id: u128,
}

/// The answer to a move onto the status the task already holds: the task as
/// it stands, its current version for the `ETag`, and its current status as
/// the one it came from. Nothing is written, no version bumped, no comment,
/// history or outbox record made, so a client may retry a transition whose
/// answer it never saw without an idempotency key.
pub fn already_there(current: &TaskRow, project_key: &str) -> (t: Transitioned)
    ensures
        viewed(t.view, *current, project_key@),
        t.version == current.version,
        t.from_status_id == current.status_id,
{
    Transitioned {
        view: view(current, project_key),
        version: current.version,
        from_status_id: current.status_id,
    }
}

/// An assignee must be able to see the project. The refusal is `422`, one
/// answer for no such user, another tenant's user and a user outside the
/// project, none of which the caller may tell apart.
pub fn check_assignee(may_be_assigned: bool) -> (r: Result<(), ApiError>)
    ensures
        may_be_assigned ==> r is Ok,
        !may_be_assigned ==> r == Err::<(), ApiError>(refused(ErrorCode::AssigneeNotProjectMember)),
{
    if may_be_assigned {
        Ok(())
    } else {
        Err(ApiError::unprocessable(ErrorCode::AssigneeNotProjectMember))
    }
}

/// Assigning and tagging are idempotent: `201` when something was added,
/// `200` when it was already there.
pub fn added_status(added: bool) -> (s: u16)
    ensures
        s == (if added {
            201u16
        } else {
            200u16
        }),
{
    if added {
        201
    } else {
        200
    }
}

/// Unassigning someone who was not assigned is a `404`.
pub fn check_unassigned(removed: bool) -> (r: Result<(), ApiError>)
    ensures
        removed ==> r is Ok,
        !removed ==> r == Err::<(), ApiError>(missing(ErrorCode::TaskNotFound)),
{
    if removed {
        Ok(())
    } else {
        Err(ApiError::missing(ErrorCode::TaskNotFound))
    }
}

/// A tag applied to a task must exist in the workspace and apply to the
/// task's project; its name is what the activity records.
pub fn usable_tag(name: Option<String>) -> (r: Result<String, ApiError>)
    ensures
        match name {
            Some(n) => r == Ok::<String, ApiError>(n),
            None => r == Err::<String, ApiError>(refused(ErrorCode::ReferenceNotFound)),
        },
{
    match name {
        Some(n) => Ok(n),
        None => Err(ApiError::unprocessable(ErrorCode::ReferenceNotFound)),
    }
}

} // verus!
