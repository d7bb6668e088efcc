//! Authoring the edges of a workflow. Removing an edge is free: tasks are
//! never in a transition, only in a status, so nothing has to move.
use vstd::prelude::*;

use crate::error::{bad, conflicting, missing, refused, with_status, ApiError, ErrorCode, INTERNAL};
use crate::order::{insert_sorted, lemma_sorted_set_is_unique, strictly_sorted, views};
use crate::text::{char_count, owned, trim, trimmed};
use crate::workflows::statuses::WriteError;

verus! {

/// The most fields one transition may require: unbounded, one row could
/// carry a megabyte of names that every move then has to check.
pub const MAX_REQUIRED_FIELDS: usize = 20;

/// The longest required field name, in characters.
pub const MAX_FIELD_NAME: usize = 64;

/// `POST /api/v1/workflows/{id}/transitions`. A missing `from` is "from any
/// status".
#[derive(Debug, Clone, PartialEq, Eq)]
pub struct CreateTransitionRequest {
    pub from: Option<u128>,
    pub to: u128,
    pub required_permission: Option<String>,
    pub required_fields: Vec<String>,
    pub ignore_dependencies: bool,
}

/// `PATCH /api/v1/workflows/{id}/transitions/{tid}`. For the permission,
/// absent leaves it alone and `Some(None)` clears it; `from` and `to` are
/// absent because changing either makes a different edge.
#[derive(Debug, Clone, PartialEq, Eq)]
pub struct PatchTransitionRequest {
    pub required_permission: Option<Option<String>>,
    pub required_fields: Option<Vec<String>>,
    pub ignore_dependencies: Option<bool>,
}

/// The names a list of required fields stands for: each one trimmed.
pub open spec fn field_names(fields: Seq<String>) -> Seq<Seq<char>> {
    fields.map_values(|f: String| trimmed(f@))
}

/// At most [`MAX_REQUIRED_FIELDS`] fields, each 1 to [`MAX_FIELD_NAME`]
/// characters once trimmed.
pub open spec fn fields_acceptable(fields: Seq<String>) -> bool {
    &&& fields.len() <= MAX_REQUIRED_FIELDS
    &&& forall|i: int|
        0 <= i < fields.len() ==> 0 < #[trigger] trimmed(fields[i]@).len() <= MAX_FIELD_NAME
}

/// The required fields of a transition: bounded, trimmed, ordered and
/// deduplicated, so that a move refused for missing fields names a stable
/// list rather than one in the order an admin happened to type.
pub fn validated_fields(fields: &[String]) -> (r: Result<Vec<String>, ApiError>)
    ensures
        r is Ok <==> fields_acceptable(fields@),
        r matches Err(e) ==> e == bad(ErrorCode::OutOfRange),
        r matches Ok(out) ==> strictly_sorted(views(out@)) && views(out@).to_set()
            == field_names(fields@).to_set(),
{
    if fields.len() > MAX_REQUIRED_FIELDS {
        return Err(ApiError::bad_request(ErrorCode::OutOfRange));
    }
    let mut out: Vec<String> = Vec::new();
    let mut i: usize = 0;
    while i < fields.len()
        invariant
            i <= fields@.len(),
            fields@.len() <= MAX_REQUIRED_FIELDS,
            forall|k: int| 0 <= k < i ==> 0 < #[trigger] trimmed(fields@[k]@).len() <= MAX_FIELD_NAME,
            strictly_sorted(views(out@)),
            views(out@).to_set() == field_names(fields@.take(i as int)).to_set(),
        decreases fields.len() - i,
    {
        let t = trim(fields[i].as_str());
        let n = char_count(t);
        if n == 0 || n > MAX_FIELD_NAME {
            return Err(ApiError::bad_request(ErrorCode::OutOfRange));
        }
        proof {
            assert(field_names(fields@.take(i + 1)) =~= field_names(fields@.take(i as int)).push(
                t@,
            ));
            field_names(fields@.take(i as int)).lemma_push_to_set_commute(t@);
        }
        insert_sorted(&mut out, owned(t));
        i = i + 1;
    }
    assert(fields@.take(fields@.len() as int) =~= fields@);
    Ok(out)
}

/// The stored list depends on the names alone: two lists of required fields
/// that name the same fields, in any order, with repeats or surrounding
/// spaces, are stored as the same list.
pub proof fn law_required_fields_are_a_stable_list(
    fields: Seq<String>,
    others: Seq<String>,
    stored: Seq<String>,
    stored_others: Seq<String>,
)
    requires
        field_names(fields).to_set() == field_names(others).to_set(),
        strictly_sorted(views(stored)),
        views(stored).to_set() == field_names(fields).to_set(),
        strictly_sorted(views(stored_others)),
        views(stored_others).to_set() == field_names(others).to_set(),
    ensures
        views(stored) == views(stored_others),
{
    lemma_sorted_set_is_unique(views(stored), views(stored_others));
}

/// A validated transition patch: the fields list, when given, checked as a
/// create checks it.
#[derive(Debug, Clone, PartialEq, Eq)]
pub struct TransitionPatch {
    pub required_permission: Option<Option<String>>,
    pub required_fields: Option<Vec<String>>,
    pub ignore_dependencies: Option<bool>,
}

/// Check a transition patch before anything is read.
pub fn validated_transition_patch(patch: PatchTransitionRequest) -> (r: Result<
    TransitionPatch,
    ApiError,
>)
    ensures
        r is Ok <==> (patch.required_fields matches Some(f) ==> fields_acceptable(f@)),
        r matches Err(e) ==> e == bad(ErrorCode::OutOfRange),
        r matches Ok(p) ==> {
            &&& p.required_permission == patch.required_permission
            &&& p.ignore_dependencies == patch.ignore_dependencies
            &&& (match patch.required_fields {
                None => p.required_fields is None,
                Some(f) => p.required_fields matches Some(g) && strictly_sorted(views(g@)) && views(
                    g@,
                ).to_set() == field_names(f@).to_set(),
            })
        },
{
    let fields = match &patch.required_fields {
        Some(f) => match validated_fields(f.as_slice()) {
            Ok(g) => Some(g),
            Err(e) => return Err(e),
        },
        None => None,
    };
    Ok(
        TransitionPatch {
            required_permission: patch.required_permission,
            required_fields: fields,
            ignore_dependencies: patch.ignore_dependencies,
        },
    )
}

/// A failed edge write: a duplicate edge is `409`, a permission outside the
/// closed registry is the caller's `422` and not a fault, anything else is a
/// `500`.
pub fn write_error(error: WriteError) -> (e: ApiError)
    ensures
        error == WriteError::Duplicate ==> e == conflicting(ErrorCode::TransitionExists),
        error == WriteError::UnknownReference ==> e == refused(ErrorCode::ReferenceNotFound),
        error == WriteError::Db ==> e == with_status(INTERNAL, ErrorCode::Internal),
{
    match error {
        WriteError::Duplicate => ApiError::conflict(ErrorCode::TransitionExists),
        WriteError::UnknownReference => ApiError::unprocessable(ErrorCode::ReferenceNotFound),
        WriteError::Db => ApiError::internal(),
    }
}

/// An endpoint of a new edge: a status of this workflow, or the `422` that
/// says it belongs to another. Without it an edge could offer a move onto a
/// column the board does not draw.
pub fn endpoint<T>(status_in_workflow: Option<T>) -> (r: Result<T, ApiError>)
    ensures
        match status_in_workflow {
            Some(s) => r == Ok::<T, ApiError>(s),
            None => r == Err::<T, ApiError>(refused(ErrorCode::StatusWrongWorkflow)),
        },
{
    match status_in_workflow {
        Some(s) => Ok(s),
        None => Err(ApiError::unprocessable(ErrorCode::StatusWrongWorkflow)),
    }
}

/// An edit or removal that touched no edge of this workflow is a `404`.
pub fn edge_found(found: bool) -> (r: Result<(), ApiError>)
    ensures
        found ==> r is Ok,
        !found ==> r == Err::<(), ApiError>(missing(ErrorCode::NotFound)),
{
    if found {
        Ok(())
    } else {
        Err(ApiError::missing(ErrorCode::NotFound))
    }
}

/// The display value recorded for an edge's source: a missing source is
/// the wildcard, "any status", and not missing data.
pub fn source_label<'a>(from: Option<&'a str>) -> (r: &'a str)
    ensures
        match from {
            Some(name) => r@ == name@,
            None => r@ == "any status"@,
        },
{
    match from {
        Some(name) => name,
        None => "any status",
    }
}

} // verus!
