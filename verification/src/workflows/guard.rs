//! May this actor reshape this workflow, and are they looking at the
//! current one? A workflow is a workspace object that many projects may
//! draw their boards from, so a grant on one project is not enough: the
//! actor must hold the permission in every project the workflow lands in.
use vstd::prelude::*;

use crate::error::{conflicting, missing, ApiError, ErrorCode};
use crate::unit::{authorized, denial_of, Decision};

verus! {

/// The first refusal among the answers for the projects on a workflow.
pub open spec fn first_denial(projects: Seq<Decision>) -> Option<ApiError>
    decreases projects.len(),
{
    if projects.len() == 0 {
        None
    } else {
        match projects[0] {
            Decision::Deny(reason) => Some(denial_of(reason)),
            Decision::Allow => first_denial(projects.drop_first()),
        }
    }
}

/// What the authoring gate answers, given the workspace-scope answer and
/// the answer for each project on the workflow.
pub open spec fn authoring_answer(workspace: Decision, projects: Seq<Decision>) -> Result<
    (),
    ApiError,
> {
    match workspace {
        Decision::Allow => Ok(()),
        Decision::Deny(reason) => if projects.len() == 0 {
            Err(denial_of(reason))
        } else {
            match first_denial(projects) {
                Some(e) => Err(e),
                None => Ok(()),
            }
        },
    }
}

/// A workspace-scope answer settles the question without reading which
/// projects use the workflow; only a refusal there needs them.
pub fn settled_by_workspace(workspace: Decision) -> (r: bool)
    ensures
        r == (workspace == Decision::Allow),
{
    match workspace {
        Decision::Allow => true,
        Decision::Deny(_) => false,
    }
}

/// The permission question of the authoring gate. A workspace grant
/// covers every project that uses the workflow, now or later. A workflow no project uses falls back
/// to the workspace answer, because there is no project to ask in.
/// Otherwise every project must allow it, not any: the edit lands in all of
/// them.
pub fn authorize(workspace: Decision, projects: &Vec<Decision>) -> (r: Result<(), ApiError>)
    ensures
        r == authoring_answer(workspace, projects@),
{
    if settled_by_workspace(workspace) {
        return Ok(());
    }
    if projects.len() == 0 {
        return authorized(workspace);
    }
    let mut i: usize = 0;
    assert(projects@.skip(0) =~= projects@);
    while i < projects.len()
        invariant
            i <= projects@.len(),
            workspace != Decision::Allow,
            projects@.len() > 0,
            first_denial(projects@) == first_denial(projects@.skip(i as int)),
        decreases projects.len() - i,
    {
        let d = projects[i];
        assert(projects@.skip(i as int).drop_first() =~= projects@.skip(i + 1));
        assert(projects@.skip(i as int)[0] == d);
        match authorized(d) {
            Ok(()) => {},
            Err(e) => {
                return Err(e);
            },
        }
        i = i + 1;
    }
    assert(projects@.skip(i as int).len() == 0);
    Ok(())
}

/// An edit by a workspace grant, or by a grant in every project, always
/// passes the permission step; a refusal anywhere refuses the whole edit.
pub proof fn law_every_project_must_allow(workspace: Decision, projects: Seq<Decision>, k: int)
    requires
        workspace != Decision::Allow,
        0 <= k < projects.len(),
        projects[k] != Decision::Allow,
    ensures
        authoring_answer(workspace, projects) is Err,
    decreases projects.len(),
{
    lemma_denial_found(projects, k);
}

proof fn lemma_denial_found(projects: Seq<Decision>, k: int)
    requires
        0 <= k < projects.len(),
        projects[k] != Decision::Allow,
    ensures
        first_denial(projects) is Some,
    decreases projects.len(),
{
    if k > 0 && projects[0] == Decision::Allow {
        lemma_denial_found(projects.drop_first(), k - 1);
    }
}

/// The version step: `If-Match` must name the version read. A mismatch is
/// the `409` that carries both versions, so the client can refetch; the
/// same answer comes when the guarded claim finds the row moved on.
pub fn current(version: i64, expected: i64) -> (r: Result<(), ApiError>)
    ensures
        version == expected ==> r is Ok,
        version != expected ==> r == Err::<(), ApiError>(conflicting(ErrorCode::VersionConflict)),
{
    if version == expected {
        Ok(())
    } else {
        Err(ApiError::conflict(ErrorCode::VersionConflict))
    }
}

/// A workflow the caller cannot see is absent: another tenant's workflow
/// reads as missing, never as forbidden.
pub fn visible<T>(row: Option<T>) -> (r: Result<T, ApiError>)
    ensures
        match row {
            Some(w) => r == Ok::<T, ApiError>(w),
            None => r == Err::<T, ApiError>(missing(ErrorCode::NotFound)),
        },
{
    match row {
        Some(w) => Ok(w),
        None => Err(ApiError::missing(ErrorCode::NotFound)),
    }
}

/// The claim: the guarded update returns the new version, or nothing when
/// another admin committed in between, which is the same `409`.
pub fn claimed(new_version: Option<i64>) -> (r: Result<i64, ApiError>)
    ensures
        match new_version {
            Some(v) => r == Ok::<i64, ApiError>(v),
            None => r == Err::<i64, ApiError>(conflicting(ErrorCode::VersionConflict)),
        },
{
    match new_version {
        Some(v) => Ok(v),
        None => Err(ApiError::conflict(ErrorCode::VersionConflict)),
    }
}

/// The whole gate every authoring handler opens with, and the order is the
/// rule: readable (`404`), then `If-Match` present and current (`428`,
/// `409`), then the permission everywhere the workflow lands (`403`), then
/// the guarded claim of the version (`409` when another admin got there
/// first). The version comes before the permission: the actor can already
/// see the workflow, so its version is no secret.
pub open spec fn authoring_gate_of(
    found: Option<i64>,
    if_match: Result<i64, ApiError>,
    workspace: Decision,
    projects: Seq<Decision>,
    claim: Option<i64>,
) -> Result<i64, ApiError> {
    match found {
        None => Err(missing(ErrorCode::NotFound)),
        Some(version) => match if_match {
            Err(e) => Err(e),
            Ok(expected) => if version != expected {
                Err(conflicting(ErrorCode::VersionConflict))
            } else {
                match authoring_answer(workspace, projects) {
                    Err(e) => Err(e),
                    Ok(()) => match claim {
                        None => Err(conflicting(ErrorCode::VersionConflict)),
                        Some(v) => Ok(v),
                    },
                }
            },
        },
    }
}

/// The authoring gate. `found` is the stored version, when the caller can
/// see the workflow; `if_match` is the parsed `If-Match` header; `claim` is
/// the new version from the guarded update, or nothing when it matched no
/// row. On success the new version is what the `ETag` carries.
pub fn may_author(
    found: Option<i64>,
    if_match: Result<i64, ApiError>,
    workspace: Decision,
    projects: &Vec<Decision>,
    claim: Option<i64>,
) -> (r: Result<i64, ApiError>)
    ensures
        r == authoring_gate_of(found, if_match, workspace, projects@, claim),
{
    let version = match visible(found) {
        Ok(v) => v,
        Err(e) => return Err(e),
    };
    let expected = match if_match {
        Ok(x) => x,
        Err(e) => return Err(e),
    };
    if let Err(e) = current(version, expected) {
        return Err(e);
    }
    match authorize(workspace, projects) {
        Ok(()) => {},
        Err(e) => return Err(e),
    }
    claimed(claim)
}

} // verus!
