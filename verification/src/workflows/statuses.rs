//! Adding, renaming, remapping, reordering and deleting the statuses of a
//! workflow: the checks and decisions, in the order the handlers apply them.
use vstd::prelude::*;

use crate::error::{bad, conflicting, refused, with_status, ApiError, ErrorCode, INTERNAL};
use crate::tasks::validate::{state_name, state_named, TaskState};
use crate::text::{trimmed, trimmed_within};
use crate::workflows::wire::{StatusDeletedView, StatusRemappedView, WorkflowView};

verus! {

/// The longest status name: it is rendered in every board column header.
pub const MAX_STATUS_NAME: usize = 40;

/// Tasks one request may move off a deleted status; a larger move is a
/// tracked background job, not a request.
pub const MIGRATION_LIMIT: i64 = 10000;

/// `POST /api/v1/workflows/{id}/statuses`.
#[derive(Debug, Clone, PartialEq, Eq)]
pub struct CreateStatusRequest {
    pub name: String,
    /// One of the five permanent states.
    pub state: String,
}

/// `PATCH /api/v1/workflows/{id}/statuses/{sid}`.
#[derive(Debug, Clone, PartialEq, Eq)]
pub struct PatchStatusRequest {
    pub name: Option<String>,
    pub state: Option<String>,
    pub is_initial: Option<bool>,
}

/// A status name: trimmed, 1 to [`MAX_STATUS_NAME`] characters.
pub fn validated_name(name: &str) -> (r: Result<&str, ApiError>)
    ensures
        match r {
            Ok(t) => t@ == trimmed(name@) && 0 < t@.len() <= MAX_STATUS_NAME,
            Err(e) => e == bad(ErrorCode::OutOfRange) && (trimmed(name@).len() == 0 || trimmed(
                name@,
            ).len() > MAX_STATUS_NAME),
        },
{
    match trimmed_within(name, MAX_STATUS_NAME) {
        Some(t) => Ok(t),
        None => Err(ApiError::bad_request(ErrorCode::OutOfRange)),
    }
}

/// One of the five permanent states, validated against the enum itself.
pub fn validated_state(value: &str) -> (r: Result<TaskState, ApiError>)
    ensures
        match state_named(value@) {
            Some(s) => r == Ok::<TaskState, ApiError>(s),
            None => r == Err::<TaskState, ApiError>(bad(ErrorCode::InvalidEnum)),
        },
{
    match TaskState::parse(value) {
        Some(s) => Ok(s),
        None => Err(ApiError::bad_request(ErrorCode::InvalidEnum)),
    }
}

/// Why a status write was refused.
#[derive(Debug, Clone, Copy, PartialEq, Eq, Structural)]
pub enum WriteError {
    Duplicate,
    UnknownReference,
    Db,
}

/// A duplicate name is the caller's to fix; anything else is a fault.
pub fn write_error(error: WriteError) -> (e: ApiError)
    ensures
        error == WriteError::Duplicate ==> e == conflicting(ErrorCode::StatusNameTaken),
        error == WriteError::UnknownReference ==> e == refused(ErrorCode::ReferenceNotFound),
        error == WriteError::Db ==> e == with_status(INTERNAL, ErrorCode::Internal),
{
    match error {
        WriteError::Duplicate => ApiError::conflict(ErrorCode::StatusNameTaken),
        WriteError::UnknownReference => ApiError::unprocessable(ErrorCode::ReferenceNotFound),
        WriteError::Db => ApiError::internal(),
    }
}

/// A validated status patch.
#[derive(Debug, Clone, PartialEq, Eq)]
pub struct StatusPatch {
    pub name: Option<String>,
    pub state: Option<TaskState>,
    pub make_initial: bool,
}

/// The first thing wrong with a status patch, in the order it is checked:
/// the name, then the state, then `is_initial: false`.
pub open spec fn patch_refusal(patch: PatchStatusRequest) -> Option<ApiError> {
    if patch.name matches Some(n) && (trimmed(n@).len() == 0 || trimmed(n@).len()
        > MAX_STATUS_NAME) {
        Some(bad(ErrorCode::OutOfRange))
    } else if patch.state matches Some(s) && state_named(s@) is None {
        Some(bad(ErrorCode::InvalidEnum))
    } else if patch.is_initial == Some(false) {
        Some(refused(ErrorCode::InitialStatusRule))
    } else {
        None
    }
}

/// A patch, checked before anything is read: the name and state it names,
/// and `is_initial: false` refused, because a workflow has exactly one initial
/// status and the way to move it is to name the new one.
pub fn validated_patch(patch: &PatchStatusRequest) -> (r: Result<StatusPatch, ApiError>)
    ensures
        match r {
            Ok(p) => {
                &&& (match patch.name {
                    None => p.name is None,
                    Some(n) => p.name matches Some(m) && m@ == trimmed(n@) && 0 < m@.len()
                        <= MAX_STATUS_NAME,
                })
                &&& (match patch.state {
                    None => p.state is None,
                    Some(s) => p.state == state_named(s@) && p.state is Some,
                })
                &&& patch.is_initial != Some(false)
                &&& p.make_initial == (patch.is_initial == Some(true))
            },
            Err(e) => Some(e) == patch_refusal(*patch),
        },
        r is Err <==> patch_refusal(*patch) is Some,
{
    let name = match &patch.name {
        Some(n) => match validated_name(n.as_str()) {
            Ok(t) => Some(crate::text::owned(t)),
            Err(e) => return Err(e),
        },
        None => None,
    };
    let state = match &patch.state {
        Some(s) => match validated_state(s.as_str()) {
            Ok(t) => Some(t),
            Err(e) => return Err(e),
        },
        None => None,
    };
    if patch.is_initial == Some(false) {
        return Err(ApiError::unprocessable(ErrorCode::InitialStatusRule));
    }
    Ok(StatusPatch { name, state, make_initial: patch.is_initial == Some(true) })
}

/// What a status update records: a remap of the permanent state rewrites
/// what every historical report says about the tasks on it, so it is its own
/// event, distinct from a rename.
#[derive(Debug, Clone, Copy, PartialEq, Eq, Structural)]
pub enum StatusEvent {
    Updated,
    Remapped,
}

impl StatusEvent {
    /// The event type the workflow's history records.
    pub fn event_type(self) -> (t: &'static str)
        ensures
            self == StatusEvent::Remapped ==> t@ == "workflow.status.remapped"@,
            self == StatusEvent::Updated ==> t@ == "workflow.status.updated"@,
    {
        match self {
            StatusEvent::Remapped => "workflow.status.remapped",
            StatusEvent::Updated => "workflow.status.updated",
        }
    }
}

/// Whether an update remaps the state: a target was given and differs from
/// the state the status had.
pub fn remaps(target: Option<TaskState>, before: &str) -> (r: bool)
    ensures
        r == (target matches Some(t) && state_name(t) != before@),
{
    match target {
        Some(t) => !crate::text::str_eq(t.as_str(), before),
        None => false,
    }
}

/// The event an update writes.
pub fn status_event(remapped: bool) -> (e: StatusEvent)
    ensures
        e == (if remapped {
            StatusEvent::Remapped
        } else {
            StatusEvent::Updated
        }),
{
    if remapped {
        StatusEvent::Remapped
    } else {
        StatusEvent::Updated
    }
}

// ---------------------------------------------------------------------------
// Reordering
// ---------------------------------------------------------------------------
/// Nothing occurs twice.
pub open spec fn distinct(s: Seq<u128>) -> bool {
    forall|i: int, j: int| 0 <= i < j < s.len() ==> s[i] != s[j]
}

/// `order` lists every one of `known` exactly once.
pub open spec fn is_permutation_of(order: Seq<u128>, known: Seq<u128>) -> bool {
    &&& distinct(order)
    &&& order.len() == known.len()
    &&& order.to_set() == known.to_set()
}

/// Whether `order` lists every one of `known` exactly once.
fn permutes(order: &Vec<u128>, known: &Vec<u128>) -> (ok: bool)
    requires
        distinct(known@),
    ensures
        ok <==> is_permutation_of(order@, known@),
{
    if order.len() != known.len() {
        return false;
    }
    let n = order.len();
    let mut i: usize = 0;
    while i < n
        invariant
            n == order.len(),
            n == known.len(),
            i <= n,
            distinct(known@),
            distinct(order@.take(i as int)),
            forall|k: int| 0 <= k < i ==> known@.contains(#[trigger] order@[k]),
        decreases n - i,
    {
        let x = order[i];
        let mut j: usize = 0;
        let mut seen = false;
        while j < i
            invariant
                i < n,
                n == order.len(),
                j <= i,
                x == order@[i as int],
                seen == exists|k: int| 0 <= k < j && order@[k] == x,
            decreases i - j,
        {
            if order[j] == x {
                seen = true;
            }
            j = j + 1;
        }
        if seen {
            proof {
                let k = choose|k: int| 0 <= k < i && order@[k] == x;
                assert(!distinct(order@));
            }
            return false;
        }
        let mut m: usize = 0;
        let mut present = false;
        while m < n
            invariant
                n == known.len(),
                m <= n,
                present == exists|k: int| 0 <= k < m && known@[k] == x,
            decreases n - m,
        {
            if known[m] == x {
                present = true;
            }
            m = m + 1;
        }
        if !present {
            proof {
                assert(order@.to_set().contains(x)) by {
                    assert(order@[i as int] == x);
                }
                assert(!known@.to_set().contains(x));
            }
            return false;
        }
        proof {
            assert(order@.take(i + 1) =~= order@.take(i as int).push(x));
            assert forall|a: int, b: int| 0 <= a < b < i + 1 implies #[trigger] order@.take(i + 1)[a]
                != #[trigger] order@.take(i + 1)[b] by {
                if b == i {
                    assert(order@.take(i + 1)[a] == order@[a]);
                } else {
                    assert(order@.take(i as int)[a] != order@.take(i as int)[b]);
                }
            }
        }
        i = i + 1;
    }
    proof {
        assert(order@.take(n as int) =~= order@);
        lemma_injection_covers(order@, known@);
    }
    true
}

/// Strictly increasing.
pub open spec fn increasing(s: Seq<u128>) -> bool {
    forall|i: int, j: int| 0 <= i < j < s.len() ==> s[i] < s[j]
}

/// Put `x` into the increasing `v`, which does not hold it, where it belongs.
fn insert_id(v: &mut Vec<u128>, x: u128)
    requires
        increasing(old(v)@),
        !old(v)@.contains(x),
    ensures
        increasing(final(v)@),
        final(v)@.to_set() == old(v)@.to_set().insert(x),
        final(v)@.len() == old(v)@.len() + 1,
{
    let ghost before = v@;
    let mut p: usize = 0;
    while p < v.len() && v[p] < x
        invariant
            v@ == before,
            p <= v@.len(),
            forall|k: int| 0 <= k < p ==> v@[k] < x,
        decreases v.len() - p,
    {
        p = p + 1;
    }
    proof {
        if p < v@.len() {
            assert(v@[p as int] != x);
        }
    }
    v.insert(p, x);
    proof {
        let after = v@;
        assert(after =~= before.subrange(0, p as int).push(x) + before.subrange(p as int, before.len() as int));
        assert forall|y: u128| after.to_set().contains(y) <==> before.to_set().insert(x).contains(y) by {
            if after.to_set().contains(y) {
                let j = choose|j: int| 0 <= j < after.len() && after[j] == y;
                if j < p {
                    assert(before[j] == y);
                } else if j > p {
                    assert(before[j - 1] == y);
                }
            }
            if before.to_set().contains(y) {
                let j = choose|j: int| 0 <= j < before.len() && before[j] == y;
                if j < p {
                    assert(after[j] == y);
                } else {
                    assert(after[j + 1] == y);
                }
            }
            if y == x {
                assert(after[p as int] == x);
            }
        }
        assert(after.to_set() =~= before.to_set().insert(x));
    }
}

/// The ids in increasing order.
fn sorted_ids(ids: &Vec<u128>) -> (s: Vec<u128>)
    requires
        distinct(ids@),
    ensures
        increasing(s@),
        s@.to_set() == ids@.to_set(),
        s@.len() == ids@.len(),
{
    let mut out: Vec<u128> = Vec::new();
    let mut i: usize = 0;
    while i < ids.len()
        invariant
            i <= ids@.len(),
            distinct(ids@),
            increasing(out@),
            out@.to_set() == ids@.take(i as int).to_set(),
            out@.len() == i,
        decreases ids.len() - i,
    {
        let x = ids[i];
        proof {
            assert(ids@.take(i + 1) =~= ids@.take(i as int).push(x));
            ids@.take(i as int).lemma_push_to_set_commute(x);
            if out@.contains(x) {
                let k = choose|k: int| 0 <= k < out@.len() && out@[k] == x;
                assert(out@.to_set().contains(x));
                let j = choose|j: int| 0 <= j < i && ids@.take(i as int)[j] == x;
                assert(ids@[j] == ids@[i as int]);
            }
        }
        insert_id(&mut out, x);
        i = i + 1;
    }
    assert(ids@.take(ids@.len() as int) =~= ids@);
    out
}

/// A refused reorder: the error, the workflow's status ids in increasing
/// order, and the order the client sent, so it can see what it missed.
#[derive(Debug, Clone, PartialEq, Eq)]
pub struct ReorderRefusal {
    pub error: ApiError,
    pub expected: Vec<u128>,
    pub received: Vec<u128>,
}

/// A reorder must be a permutation of the workflow's statuses, checked
/// before anything is written: a partial order would leave the omitted
/// statuses holding positions that can collide with the new ones. A missing,
/// extra, unknown or repeated id is one refusal, which shows every id the
/// workflow has beside what was sent.
pub fn validated_order(order: &Vec<u128>, known: &Vec<u128>) -> (r: Result<(), ReorderRefusal>)
    requires
        distinct(known@),
    ensures
        r is Ok <==> is_permutation_of(order@, known@),
        r matches Err(e) ==> {
            &&& e.error == refused(ErrorCode::ReferenceNotFound)
            &&& e.received@ == order@
            &&& increasing(e.expected@)
            &&& e.expected@.to_set() == known@.to_set()
            &&& e.expected@.len() == known@.len()
        },
{
    if permutes(order, known) {
        Ok(())
    } else {
        let mut received: Vec<u128> = Vec::new();
        let mut i: usize = 0;
        while i < order.len()
            invariant
                i <= order@.len(),
                received@ == order@.take(i as int),
            decreases order.len() - i,
        {
            received.push(order[i]);
            assert(order@.take(i + 1) =~= order@.take(i as int).push(order@[i as int]));
            i = i + 1;
        }
        assert(order@.take(order@.len() as int) =~= order@);
        Err(
            ReorderRefusal {
                error: ApiError::unprocessable(ErrorCode::ReferenceNotFound),
                expected: sorted_ids(known),
                received,
            },
        )
    }
}

/// `n` distinct members of `known`, which has `n` distinct members, are all
/// of them.
proof fn lemma_injection_covers(order: Seq<u128>, known: Seq<u128>)
    requires
        distinct(order),
        distinct(known),
        order.len() == known.len(),
        forall|k: int| 0 <= k < order.len() ==> known.contains(#[trigger] order[k]),
    ensures
        order.to_set() == known.to_set(),
{
    order.unique_seq_to_set();
    known.unique_seq_to_set();
    assert(order.to_set().subset_of(known.to_set()));
    vstd::set_lib::lemma_subset_equality(order.to_set(), known.to_set());
}

// ---------------------------------------------------------------------------
// Deleting
// ---------------------------------------------------------------------------
/// The target of a status deletion, decided from what the handler read: the
/// entry point cannot be deleted; a status holding tasks needs a target; the
/// target cannot be the status itself and must be in this workflow; and no
/// more than [`MIGRATION_LIMIT`] tasks move in one request.
#[derive(Debug, Clone, Copy, PartialEq, Eq, Structural)]
pub enum Migration {
    /// Nothing stands on the status; no target was named.
    Nothing,
    /// Move everything onto this status.
    To(u128),
}

/// A deletion's refusal: the error, and for the two refusals about how much
/// stands on the status, how many tasks that is (and the limit it went
/// over), so the client can say how many would move.
#[derive(Debug, Clone, Copy, PartialEq, Eq, Structural)]
pub struct DeletionRefusal {
    pub error: ApiError,
    pub task_count: Option<i64>,
    pub limit: Option<i64>,
}

impl DeletionRefusal {
    /// A refusal that carries nothing but its error.
    pub fn plain(error: ApiError) -> (d: Self)
        ensures
            d == plain_refusal(error),
    {
        DeletionRefusal { error, task_count: None, limit: None }
    }

    pub fn code(&self) -> (c: ErrorCode)
        ensures
            c == self.error.code,
    {
        self.error.code
    }

    pub fn status(&self) -> (s: u16)
        ensures
            s == self.error.status,
    {
        self.error.status
    }
}

/// A refusal that carries nothing but its error.
pub open spec fn plain_refusal(error: ApiError) -> DeletionRefusal {
    DeletionRefusal { error, task_count: None, limit: None }
}

pub open spec fn migration_of(
    is_initial: bool,
    doomed: u128,
    held: i64,
    migrate_to: Option<u128>,
    target_in_workflow: bool,
) -> Result<Migration, DeletionRefusal> {
    if is_initial {
        Err(plain_refusal(refused(ErrorCode::InitialStatusRule)))
    } else {
        match migrate_to {
            None => if held > 0 {
                Err(
                    DeletionRefusal {
                        error: refused(ErrorCode::StatusHoldsTasks),
                        task_count: Some(held),
                        limit: None,
                    },
                )
            } else {
                Ok(Migration::Nothing)
            },
            Some(t) => if t == doomed {
                Err(plain_refusal(refused(ErrorCode::StatusWrongWorkflow)))
            } else if !target_in_workflow {
                Err(plain_refusal(refused(ErrorCode::StatusWrongWorkflow)))
            } else if held > MIGRATION_LIMIT {
                Err(
                    DeletionRefusal {
                        error: refused(ErrorCode::MigrationTooLarge),
                        task_count: Some(held),
                        limit: Some(MIGRATION_LIMIT),
                    },
                )
            } else {
                Ok(Migration::To(t))
            },
        }
    }
}

/// Whether and where the tasks on a deleted status go. `target_in_workflow`
/// is whether `migrate_to` names a status of this workflow; it is not asked
/// when there is no target.
pub fn plan_deletion(
    is_initial: bool,
    doomed: u128,
    held: i64,
    migrate_to: Option<u128>,
    target_in_workflow: bool,
) -> (r: Result<Migration, DeletionRefusal>)
    ensures
        r == migration_of(is_initial, doomed, held, migrate_to, target_in_workflow),
{
    if is_initial {
        return Err(DeletionRefusal::plain(ApiError::unprocessable(ErrorCode::InitialStatusRule)));
    }
    match migrate_to {
        None => {
            if held > 0 {
                Err(
                    DeletionRefusal {
                        error: ApiError::unprocessable(ErrorCode::StatusHoldsTasks),
                        task_count: Some(held),
                        limit: None,
                    },
                )
            } else {
                Ok(Migration::Nothing)
            }
        },
        Some(t) => {
            if t == doomed || !target_in_workflow {
                Err(DeletionRefusal::plain(ApiError::unprocessable(ErrorCode::StatusWrongWorkflow)))
            } else if held > MIGRATION_LIMIT {
                Err(
                    DeletionRefusal {
                        error: ApiError::unprocessable(ErrorCode::MigrationTooLarge),
                        task_count: Some(held),
                        limit: Some(MIGRATION_LIMIT),
                    },
                )
            } else {
                Ok(Migration::To(t))
            }
        },
    }
}

/// How many tasks a planned deletion moves: none when nothing stood on the
/// status, else every task that did.
pub open spec fn migrated_count(migration: Migration, held: i64) -> u64 {
    match migration {
        Migration::Nothing => 0,
        Migration::To(_) => held as u64,
    }
}

/// The answer to a deletion carried out as planned: the workflow left
/// behind, every task that stood on the status as moved, and the edges that
/// went with it. `held` is the count the plan was made from.
pub fn status_deleted(
    workflow: WorkflowView,
    migration: Migration,
    held: i64,
    removed_transitions: u64,
) -> (v: StatusDeletedView)
    requires
        held >= 0,
    ensures
        v.workflow == workflow,
        v.migrated_tasks == migrated_count(migration, held),
        v.removed_transitions == removed_transitions,
{
    let migrated_tasks: u64 = match migration {
        Migration::Nothing => 0,
        Migration::To(_) => held as u64,
    };
    StatusDeletedView { workflow, migrated_tasks, removed_transitions }
}

/// The answer to a status update: the workflow, and how many tasks had
/// their state recomputed, which is none unless the update remapped the
/// state; a rename or a promotion recomputes nothing.
pub fn status_remapped(workflow: WorkflowView, remapped: bool, recomputed: u64) -> (v:
    StatusRemappedView)
    ensures
        v.workflow == workflow,
        v.recomputed_tasks == (if remapped {
            recomputed
        } else {
            0
        }),
{
    let recomputed_tasks: u64 = if remapped {
        recomputed
    } else {
        0
    };
    StatusRemappedView { workflow, recomputed_tasks }
}

/// A deletion never strands work: when tasks stand on the status, the plan
/// either moves them to another status of the workflow or refuses.
pub proof fn law_deletion_never_orphans(
    is_initial: bool,
    doomed: u128,
    held: i64,
    migrate_to: Option<u128>,
    target_in_workflow: bool,
)
    requires
        held > 0,
    ensures
        migration_of(is_initial, doomed, held, migrate_to, target_in_workflow) matches Ok(m) ==> (
        m matches Migration::To(t) && t != doomed && target_in_workflow),
{
}

/// The count recorded for `status` among the per-status counts: the first
/// one listed, or none.
pub open spec fn count_in(counts: Seq<(u128, i64)>, status: u128) -> i64
    decreases counts.len(),
{
    if counts.len() == 0 {
        0
    } else if counts[0].0 == status {
        counts[0].1
    } else {
        count_in(counts.drop_first(), status)
    }
}

/// How many tasks stand on a status, for the settings screen: a status no
/// task uses is absent from the counts and holds zero. Soft-deleted tasks
/// are counted, because they hold the status too.
pub fn task_count(counts: &Vec<(u128, i64)>, status: u128) -> (n: i64)
    ensures
        n == count_in(counts@, status),
{
    let mut i: usize = 0;
    assert(counts@.skip(0) =~= counts@);
    while i < counts.len()
        invariant
            i <= counts@.len(),
            count_in(counts@, status) == count_in(counts@.skip(i as int), status),
        decreases counts.len() - i,
    {
        assert(counts@.skip(i as int).drop_first() =~= counts@.skip(i + 1));
        assert(counts@.skip(i as int)[0] == counts@[i as int]);
        if counts[i].0 == status {
            return counts[i].1;
        }
        i = i + 1;
    }
    0
}

} // verus!
