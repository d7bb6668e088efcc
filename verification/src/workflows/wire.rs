//! What the workflow endpoints answer with. Every authoring call returns
//! the whole workflow, not the row it touched: deleting a status also
//! deletes edges, promoting an entry point demotes another, and a reorder
//! moves everything, so a response carrying one row would leave the
//! client's copy wrong in a way it could not detect.
use vstd::prelude::*;

use crate::workflows::statuses::count_in;

verus! {

/// A workflow as stored.
#[derive(Debug, Clone, PartialEq, Eq)]
pub struct WorkflowRow {
    pub id: u128,
    pub name: String,
    pub is_default: bool,
    pub version: i64,
}

/// A status as stored.
#[derive(Debug, Clone, PartialEq, Eq)]
pub struct StatusRow {
    pub id: u128,
    pub name: String,
    pub state: String,
    pub position: i32,
    pub is_initial: bool,
}

/// A transition as stored. No source means "from any status".
#[derive(Debug, Clone, PartialEq, Eq)]
pub struct TransitionRow {
    pub id: u128,
    pub from: Option<u128>,
    pub to: u128,
    pub required_permission: Option<String>,
    pub required_fields: Vec<String>,
    pub ignore_dependencies: bool,
}

/// A status as the API writes it: the name people read, and the permanent
/// state integrations and reports key on.
#[derive(Debug, Clone, PartialEq, Eq)]
pub struct StatusView {
    pub id: u128,
    pub name: String,
    pub state: String,
    pub position: i32,
    pub is_initial: bool,
}

/// A transition as the API writes it.
#[derive(Debug, Clone, PartialEq, Eq)]
pub struct TransitionView {
    pub id: u128,
    pub from: Option<u128>,
    pub to: u128,
    pub required_permission: Option<String>,
    pub required_fields: Vec<String>,
    pub ignore_dependencies: bool,
}

/// A workflow as the API writes it. The version is in the body as well as
/// the `ETag`, because a settings screen holds one workflow across several
/// edits.
#[derive(Debug, Clone, PartialEq, Eq)]
pub struct WorkflowView {
    pub id: u128,
    pub name: String,
    pub is_default: bool,
    pub version: i64,
    /// In position order: the order a board draws its columns in.
    pub statuses: Vec<StatusView>,
    pub transitions: Vec<TransitionView>,
}

pub open spec fn status_view(row: StatusRow) -> StatusView {
    StatusView {
        id: row.id,
        name: row.name,
        state: row.state,
        position: row.position,
        is_initial: row.is_initial,
    }
}

pub open spec fn transition_view(row: TransitionRow) -> TransitionView {
    TransitionView {
        id: row.id,
        from: row.from,
        to: row.to,
        required_permission: row.required_permission,
        required_fields: row.required_fields,
        ignore_dependencies: row.ignore_dependencies,
    }
}

impl StatusView {
    /// The representation of a stored status.
    pub fn of(row: StatusRow) -> (v: Self)
        ensures
            v == status_view(row),
    {
        StatusView {
            id: row.id,
            name: row.name,
            state: row.state,
            position: row.position,
            is_initial: row.is_initial,
        }
    }
}

impl TransitionView {
    /// The representation of a stored transition.
    pub fn of(row: TransitionRow) -> (v: Self)
        ensures
            v == transition_view(row),
    {
        TransitionView {
            id: row.id,
            from: row.from,
            to: row.to,
            required_permission: row.required_permission,
            required_fields: row.required_fields,
            ignore_dependencies: row.ignore_dependencies,
        }
    }
}

impl WorkflowView {
    /// The whole workflow, with the version the response's `ETag` carries:
    /// the statuses and transitions in the order given.
    pub fn assemble(row: WorkflowRow, statuses: Vec<StatusRow>, transitions: Vec<TransitionRow>) -> (v:
        Self)
        ensures
            v.id == row.id,
            v.name == row.name,
            v.is_default == row.is_default,
            v.version == row.version,
            v.statuses@ == statuses@.map_values(|s: StatusRow| status_view(s)),
            v.transitions@ == transitions@.map_values(|t: TransitionRow| transition_view(t)),
    {
        let ghost given = statuses@;
        let mut status_views: Vec<StatusView> = Vec::new();
        for s in it: statuses.into_iter()
            invariant
                it.seq() == given,
                status_views@ == it.seq().take(it.index() as int).map_values(
                    |r: StatusRow| status_view(r),
                ),
        {
            status_views.push(StatusView::of(s));
            assert(it.seq().take(it.index() + 1) =~= it.seq().take(it.index() as int).push(s));
        }
        let ghost given_t = transitions@;
        let mut transition_views: Vec<TransitionView> = Vec::new();
        for t in it: transitions.into_iter()
            invariant
                it.seq() == given_t,
                transition_views@ == it.seq().take(it.index() as int).map_values(
                    |r: TransitionRow| transition_view(r),
                ),
        {
            transition_views.push(TransitionView::of(t));
            assert(it.seq().take(it.index() + 1) =~= it.seq().take(it.index() as int).push(t));
        }
        WorkflowView {
            id: row.id,
            name: row.name,
            is_default: row.is_default,
            version: row.version,
            statuses: status_views,
            transitions: transition_views,
        }
    }
}

/// One status with how much work stands on it. A representation of its
/// own, on an endpoint of its own, because the count is an aggregate over
/// the tasks that only the settings screen shows.
#[derive(Debug, Clone, PartialEq, Eq)]
pub struct StatusUsageView {
    pub id: u128,
    pub name: String,
    pub state: String,
    pub position: i32,
    pub is_initial: bool,
    /// Deleted tasks included: they hold the status too, so this is the
    /// number that moves when the status is deleted.
    pub task_count: i64,
}

pub open spec fn usage_view(row: StatusRow, counts: Seq<(u128, i64)>) -> StatusUsageView {
    StatusUsageView {
        id: row.id,
        name: row.name,
        state: row.state,
        position: row.position,
        is_initial: row.is_initial,
        task_count: count_in(counts, row.id),
    }
}

/// Every status with its count; a status no count names holds nothing.
pub fn usage_views(statuses: Vec<StatusRow>, counts: &Vec<(u128, i64)>) -> (v: Vec<StatusUsageView>)
    ensures
        v@ == statuses@.map_values(|s: StatusRow| usage_view(s, counts@)),
{
    let ghost given = statuses@;
    let mut views: Vec<StatusUsageView> = Vec::new();
    for s in it: statuses.into_iter()
        invariant
            it.seq() == given,
            views@ == it.seq().take(it.index() as int).map_values(
                |r: StatusRow| usage_view(r, counts@),
            ),
    {
        let n = crate::workflows::statuses::task_count(counts, s.id);
        let id = s.id;
        let position = s.position;
        let is_initial = s.is_initial;
        views.push(StatusUsageView { id, name: s.name, state: s.state, position, is_initial, task_count: n });
        assert(it.seq().take(it.index() + 1) =~= it.seq().take(it.index() as int).push(s));
    }
    views
}

/// `POST /api/v1/workflows/{id}/statuses/order`: the complete ordering,
/// not a move, so that no two statuses can end up sharing a position.
#[derive(Debug, Clone, PartialEq, Eq)]
pub struct ReorderRequest {
    pub order: Vec<u128>,
}

/// What a status delete did, beside the workflow it left behind.
#[derive(Debug, Clone, PartialEq, Eq)]
pub struct StatusDeletedView {
    pub workflow: WorkflowView,
    /// Tasks moved onto the target, each with its own history entry.
    pub migrated_tasks: u64,
    /// Edges that named the deleted status and went with it: reported, so
    /// an admin is not surprised by their own change.
    pub removed_transitions: u64,
}

/// What a state remap recomputed: it visibly changes historical reports,
/// so the number of tasks whose state moved is part of the answer.
#[derive(Debug, Clone, PartialEq, Eq)]
pub struct StatusRemappedView {
    pub workflow: WorkflowView,
    pub recomputed_tasks: u64,
}

} // verus!
