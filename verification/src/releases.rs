//! Releases: "these went out together".
use vstd::prelude::*;

use crate::error::{bad, ApiError, ErrorCode};
use crate::tasks::wire::instant_text;
use crate::text::{char_count, owned, trim, trimmed, trimmed_within};
use crate::wire::timestamp;

verus! {

/// The longest release name, in characters.
pub const MAX_NAME: usize = 60;

/// The most tasks one release request may carry: the transaction's ceiling.
pub const MAX_TASKS: usize = 200;

/// `GET /api/v1/projects/{id}/releases`.
#[derive(Debug, Clone, PartialEq, Eq)]
pub struct ListQuery {
    pub cursor: Option<String>,
    pub limit: Option<u32>,
}

/// A release as stored. Instants are nanoseconds after the Unix epoch.
#[derive(Debug, Clone, PartialEq, Eq)]
pub struct ReleaseRow {
    pub id: u128,
    pub project_id: u128,
    pub name: String,
    pub note: Option<String>,
    pub created_by: u128,
    pub created_at: i128,
}

/// A release as the API writes it.
#[derive(Debug, Clone, PartialEq, Eq)]
pub struct ReleaseView {
    pub id: u128,
    pub project_id: u128,
    pub name: String,
    pub note: Option<String>,
    pub created_by: u128,
    pub created_at: String,
}

impl ReleaseView {
    /// The representation of a stored release.
    pub fn of(row: ReleaseRow) -> (v: Self)
        ensures
            v.id == row.id,
            v.project_id == row.project_id,
            v.name == row.name,
            v.note == row.note,
            v.created_by == row.created_by,
            v.created_at@ == instant_text(row.created_at as int),
    {
        ReleaseView {
            id: row.id,
            project_id: row.project_id,
            name: row.name,
            note: row.note,
            created_by: row.created_by,
            created_at: timestamp(row.created_at),
        }
    }
}

/// One task a release carried, as stored: its key is composed by the read.
#[derive(Debug, Clone, PartialEq, Eq)]
pub struct ReleasedTask {
    pub task_id: u128,
    pub task_key: String,
    pub title: String,
    pub promoted_at: i128,
}

/// One task a release carried. The key is there so a list reads without a
/// request per row.
#[derive(Debug, Clone, PartialEq, Eq)]
pub struct ReleasedTaskView {
    pub task_id: u128,
    pub key: String,
    pub title: String,
    pub promoted_at: String,
}

impl ReleasedTaskView {
    /// The representation of a released task.
    pub fn of(row: ReleasedTask) -> (v: Self)
        ensures
            v.task_id == row.task_id,
            v.key == row.task_key,
            v.title == row.title,
            v.promoted_at@ == instant_text(row.promoted_at as int),
    {
        ReleasedTaskView {
            task_id: row.task_id,
            key: row.task_key,
            title: row.title,
            promoted_at: timestamp(row.promoted_at),
        }
    }
}

/// A release name appears in a task's history for as long as the task
/// exists, so it is short and not blank: trimmed, 1 to [`MAX_NAME`].
pub fn validated_name(name: &str) -> (r: Result<&str, ApiError>)
    ensures
        match r {
            Ok(t) => t@ == trimmed(name@) && 0 < t@.len() <= MAX_NAME,
            Err(e) => e == bad(ErrorCode::OutOfRange) && (trimmed(name@).len() == 0 || trimmed(
                name@,
            ).len() > MAX_NAME),
        },
{
    match trimmed_within(name, MAX_NAME) {
        Some(t) => Ok(t),
        None => Err(ApiError::bad_request(ErrorCode::OutOfRange)),
    }
}

/// An empty release is not a release, and the batch is bounded.
pub fn validated_batch(task_ids: &[u128]) -> (r: Result<(), ApiError>)
    ensures
        task_ids@.len() == 0 ==> r == Err::<(), ApiError>(bad(ErrorCode::OutOfRange)),
        task_ids@.len() > MAX_TASKS ==> r == Err::<(), ApiError>(bad(ErrorCode::BulkTooLarge)),
        0 < task_ids@.len() <= MAX_TASKS ==> r is Ok,
{
    let task_count = task_ids.len();
    if task_count == 0 {
        return Err(ApiError::bad_request(ErrorCode::OutOfRange));
    }
    if task_count > MAX_TASKS {
        return Err(ApiError::bad_request(ErrorCode::BulkTooLarge));
    }
    Ok(())
}

/// `POST /api/v1/projects/{id}/releases`. The environment is required: a
/// release that records that something happened but not where is not a
/// release.
#[derive(Debug, Clone, PartialEq, Eq)]
pub struct CutRequest {
    pub name: String,
    pub note: Option<String>,
    pub environment_id: u128,
    pub task_ids: Vec<u128>,
}

/// A cut, checked: its name, and its note when one was given that is not
/// blank.
#[derive(Debug, Clone, PartialEq, Eq)]
pub struct ValidCut {
    pub name: String,
    pub note: Option<String>,
}

/// Check a cut before anything is read: the name, then the batch.
pub fn validated_cut(body: &CutRequest) -> (r: Result<ValidCut, ApiError>)
    ensures
        trimmed(body.name@).len() == 0 || trimmed(body.name@).len() > MAX_NAME ==> r == Err::<
            ValidCut,
            ApiError,
        >(bad(ErrorCode::OutOfRange)),
        0 < trimmed(body.name@).len() <= MAX_NAME ==> match r {
            Ok(c) => {
                &&& 0 < body.task_ids@.len() <= MAX_TASKS
                &&& c.name@ == trimmed(body.name@)
                &&& (match body.note {
                    Some(n) if trimmed(n@).len() > 0 => c.note matches Some(m) && m@ == trimmed(n@),
                    _ => c.note is None,
                })
            },
            Err(e) => (body.task_ids@.len() == 0 && e == bad(ErrorCode::OutOfRange)) || (
            body.task_ids@.len() > MAX_TASKS && e == bad(ErrorCode::BulkTooLarge)),
        },
{
    let name = match validated_name(body.name.as_str()) {
        Ok(n) => owned(n),
        Err(e) => return Err(e),
    };
    let note = match &body.note {
        Some(n) => {
            let t = trim(n.as_str());
            if char_count(t) > 0 {
                Some(owned(t))
            } else {
                None
            }
        },
        None => None,
    };
    match validated_batch(body.task_ids.as_slice()) {
        Ok(()) => Ok(ValidCut { name, note }),
        Err(e) => Err(e),
    }
}

/// Why a release write was refused.
#[derive(Debug, Clone, Copy, PartialEq, Eq, Structural)]
pub enum ReleaseError {
    NameTaken,
    EnvironmentNotOnProject,
    TasksNotInProject,
    Db,
}

/// A refused release write: a taken name is `409`; an environment or a task
/// outside the project is `422`, with nothing recorded; anything else `500`.
pub fn refused(error: ReleaseError) -> (e: ApiError)
    ensures
        error == ReleaseError::NameTaken ==> e == crate::error::conflicting(
            ErrorCode::ReleaseNameTaken,
        ),
        error == ReleaseError::EnvironmentNotOnProject ==> e == crate::error::refused(
            ErrorCode::ReferenceNotFound,
        ),
        error == ReleaseError::TasksNotInProject ==> e == crate::error::refused(
            ErrorCode::ReferenceNotFound,
        ),
        error == ReleaseError::Db ==> e == crate::error::with_status(
            crate::error::INTERNAL,
            ErrorCode::Internal,
        ),
{
    match error {
        ReleaseError::NameTaken => ApiError::conflict(ErrorCode::ReleaseNameTaken),
        ReleaseError::EnvironmentNotOnProject => ApiError::unprocessable(
            ErrorCode::ReferenceNotFound,
        ),
        ReleaseError::TasksNotInProject => ApiError::unprocessable(ErrorCode::ReferenceNotFound),
        ReleaseError::Db => ApiError::internal(),
    }
}

} // verus!
