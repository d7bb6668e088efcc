//! Who may subscribe to what. A stream is authorized once and then delivers
//! whatever arrives, and an event does not carry the facts a constrained
//! grant is decided on. So a subscriber is admitted only if it may read
//! every task in the project: the permission is asked against the most
//! favourable task and then against the worst-case one, and a reader whose
//! grant is constrained per task is refused rather than filtered by guess.
use vstd::prelude::*;

use crate::error::{denied, missing, ApiError, ErrorCode};

verus! {

/// Why a subscription was refused.
#[derive(Debug, Clone, Copy, PartialEq, Eq, Structural)]
pub enum Refusal {
    /// The project does not exist, or the actor cannot see it: one answer.
    NotVisible,
    /// The actor can see the project but holds no task read there.
    NoReadPermission,
    /// The actor's read is constrained per task, so no per-event filter can
    /// be applied.
    ConstrainedReader,
}

pub open spec fn refusal_error(refusal: Refusal) -> ApiError {
    match refusal {
        Refusal::NotVisible => missing(ErrorCode::ProjectNotFound),
        Refusal::NoReadPermission => denied(ErrorCode::NoGrant),
        Refusal::ConstrainedReader => denied(ErrorCode::ConstraintUnsatisfied),
    }
}

impl Refusal {
    /// The answer. An invisible project is `404`, never a `403` that would
    /// confirm it exists; the two `403`s keep distinct codes, because "you
    /// were never granted this" and "your grant did not apply here" have
    /// different fixes.
    pub fn into_error(self) -> (e: ApiError)
        ensures
            e == refusal_error(self),
    {
        match self {
            Refusal::NotVisible => ApiError::missing(ErrorCode::ProjectNotFound),
            Refusal::NoReadPermission => ApiError::denied(ErrorCode::NoGrant),
            Refusal::ConstrainedReader => ApiError::denied(ErrorCode::ConstraintUnsatisfied),
        }
    }
}

/// The subscription decision, from what was asked: whether the project is
/// visible, whether the task read is allowed for the most favourable task
/// (assigned to and reported by the actor), and whether it is allowed for
/// the worst-case task (assigned to nobody, reported by someone else, on no
/// environment).
pub open spec fn subscription_answer(visible: bool, best_case: bool, worst_case: bool) -> Result<
    (),
    Refusal,
> {
    if !visible {
        Err(Refusal::NotVisible)
    } else if !best_case {
        Err(Refusal::NoReadPermission)
    } else if !worst_case {
        Err(Refusal::ConstrainedReader)
    } else {
        Ok(())
    }
}

/// May the actor subscribe to the project's live events?
pub fn may_subscribe(visible: bool, best_case: bool, worst_case: bool) -> (r: Result<(), Refusal>)
    ensures
        r == subscription_answer(visible, best_case, worst_case),
{
    if !visible {
        return Err(Refusal::NotVisible);
    }
    if !best_case {
        return Err(Refusal::NoReadPermission);
    }
    if !worst_case {
        return Err(Refusal::ConstrainedReader);
    }
    Ok(())
}

/// A subscriber is never sent what a read would refuse: admission needs the
/// read to hold for the worst-case task, so it holds for every task.
pub proof fn law_only_unconstrained_readers_subscribe(
    visible: bool,
    best_case: bool,
    worst_case: bool,
)
    ensures
        subscription_answer(visible, best_case, worst_case) is Ok <==> (visible && best_case
            && worst_case),
        subscription_answer(visible, best_case, worst_case) matches Err(r) ==> (refusal_error(
            r,
        ).status == 404 <==> !visible),
{
}

} // verus!
