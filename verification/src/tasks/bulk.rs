//! `POST /api/v1/tasks/bulk`: many tasks, one request, one answer each.
//! Partial success is the contract: every task gets its own transaction
//! and its own result, and the answer counts both kinds.
use vstd::prelude::*;

use crate::error::{bad, with_status, ApiError, ErrorCode, PRECONDITION_REQUIRED};
use crate::tasks::crud::byte_len;
use crate::tasks::relations::Transitioned;
use crate::tasks::validate::MAX_TEXT;
use crate::tasks::wire::TaskView;
use crate::text::str_eq;
use crate::workflows::statuses::distinct;

verus! {

/// The most tasks one request may name.
pub const MAX_TASKS: usize = 100;

/// The one operation there is, named in the body so the endpoint can grow
/// others without a new route.
pub const TRANSITION: &'static str = "transition";

/// `POST /api/v1/tasks/bulk`. `if_match` holds the version each task is
/// expected at, by task id: forty tasks are at forty versions.
#[derive(Debug, Clone, PartialEq, Eq)]
pub struct BulkRequestBody {
    pub operation: String,
    pub task_ids: Vec<u128>,
    pub to_status_id: Option<u128>,
    pub comment: Option<String>,
    pub if_match: Vec<(u128, i64)>,
}

/// Whether some task id in `if_match` was never named.
pub open spec fn has_stray(if_match: Seq<(u128, i64)>, task_ids: Seq<u128>) -> bool {
    exists|k: int| 0 <= k < if_match.len() && !task_ids.contains(#[trigger] if_match[k].0)
}

/// The first thing wrong with a bulk envelope. A malformed envelope refuses
/// the whole request; anything that could be true of one task and false of
/// the next is a per-task result instead. A repeated task would refuse as a
/// conflict that reads like someone else's edit, and a version for a task
/// that was never named would silently drop a task the caller believed it
/// was moving.
pub open spec fn envelope_refusal(body: BulkRequestBody) -> Option<ApiError> {
    if body.operation@ != TRANSITION@ {
        Some(bad(ErrorCode::InvalidEnum))
    } else if body.to_status_id is None {
        Some(bad(ErrorCode::MissingField))
    } else if body.task_ids@.len() == 0 {
        Some(bad(ErrorCode::OutOfRange))
    } else if body.task_ids@.len() > MAX_TASKS {
        Some(bad(ErrorCode::BulkTooLarge))
    } else if !distinct(body.task_ids@) {
        Some(bad(ErrorCode::OutOfRange))
    } else if has_stray(body.if_match@, body.task_ids@) {
        Some(bad(ErrorCode::OutOfRange))
    } else if body.comment matches Some(c) && byte_len(c@) > MAX_TEXT {
        Some(bad(ErrorCode::OutOfRange))
    } else {
        None
    }
}

fn contains_id(ids: &Vec<u128>, id: u128) -> (r: bool)
    ensures
        r == ids@.contains(id),
{
    let mut i: usize = 0;
    while i < ids.len()
        invariant
            i <= ids@.len(),
            forall|k: int| 0 <= k < i ==> ids@[k] != id,
        decreases ids.len() - i,
    {
        if ids[i] == id {
            assert(ids@[i as int] == id);
            return true;
        }
        i = i + 1;
    }
    false
}

fn all_distinct(ids: &Vec<u128>) -> (r: bool)
    ensures
        r == distinct(ids@),
{
    let mut i: usize = 0;
    while i < ids.len()
        invariant
            i <= ids@.len(),
            forall|a: int, b: int| 0 <= a < b < ids@.len() && a < i ==> ids@[a] != ids@[b],
        decreases ids.len() - i,
    {
        let mut j: usize = i + 1;
        while j < ids.len()
            invariant
                i < j <= ids@.len(),
                forall|a: int, b: int| 0 <= a < b < ids@.len() && a < i ==> ids@[a] != ids@[b],
                forall|b: int| i < b < j ==> ids@[i as int] != ids@[b],
            decreases ids.len() - j,
        {
            if ids[i] == ids[j] {
                return false;
            }
            j = j + 1;
        }
        i = i + 1;
    }
    true
}

/// Check a bulk envelope once, before any task is touched; the target
/// status on success.
pub fn validated_envelope(body: &BulkRequestBody) -> (r: Result<u128, ApiError>)
    ensures
        match envelope_refusal(*body) {
            Some(e) => r == Err::<u128, ApiError>(e),
            None => body.to_status_id matches Some(to) && r == Ok::<u128, ApiError>(to),
        },
{
    if !str_eq(body.operation.as_str(), TRANSITION) {
        return Err(ApiError::bad_request(ErrorCode::InvalidEnum));
    }
    let to_status_id = match body.to_status_id {
        Some(to) => to,
        None => return Err(ApiError::bad_request(ErrorCode::MissingField)),
    };
    if body.task_ids.len() == 0 {
        return Err(ApiError::bad_request(ErrorCode::OutOfRange));
    }
    if body.task_ids.len() > MAX_TASKS {
        return Err(ApiError::bad_request(ErrorCode::BulkTooLarge));
    }
    if !all_distinct(&body.task_ids) {
        return Err(ApiError::bad_request(ErrorCode::OutOfRange));
    }
    let mut k: usize = 0;
    while k < body.if_match.len()
        invariant
            k <= body.if_match@.len(),
            body.operation@ == TRANSITION@,
            body.to_status_id == Some(to_status_id),
            0 < body.task_ids@.len() <= MAX_TASKS,
            distinct(body.task_ids@),
            forall|j: int| 0 <= j < k ==> body.task_ids@.contains(#[trigger] body.if_match@[j].0),
        decreases body.if_match.len() - k,
    {
        if !contains_id(&body.task_ids, body.if_match[k].0) {
            assert(!body.task_ids@.contains(body.if_match@[k as int].0));
            return Err(ApiError::bad_request(ErrorCode::OutOfRange));
        }
        k = k + 1;
    }
    if let Some(c) = &body.comment {
        if c.as_str().len() > MAX_TEXT {
            return Err(ApiError::bad_request(ErrorCode::OutOfRange));
        }
    }
    Ok(to_status_id)
}

/// The version `if_match` gives for `id`: the first entry for it.
pub open spec fn version_for(if_match: Seq<(u128, i64)>, id: u128) -> Option<i64>
    decreases if_match.len(),
{
    if if_match.len() == 0 {
        None
    } else if if_match[0].0 == id {
        Some(if_match[0].1)
    } else {
        version_for(if_match.drop_first(), id)
    }
}

/// The version a task is expected at.
pub fn expected_for(if_match: &Vec<(u128, i64)>, id: u128) -> (r: Option<i64>)
    ensures
        r == version_for(if_match@, id),
{
    let mut i: usize = 0;
    assert(if_match@.skip(0) =~= if_match@);
    while i < if_match.len()
        invariant
            i <= if_match@.len(),
            version_for(if_match@, id) == version_for(if_match@.skip(i as int), id),
        decreases if_match.len() - i,
    {
        assert(if_match@.skip(i as int).drop_first() =~= if_match@.skip(i + 1));
        assert(if_match@.skip(i as int)[0] == if_match@[i as int]);
        if if_match[i].0 == id {
            return Some(if_match[i].1);
        }
        i = i + 1;
    }
    None
}

/// The inverse of one successful move: the status it came from, and the
/// version it now holds, the `If-Match` of the reversal.
#[derive(Debug, Clone, Copy, PartialEq, Eq, Structural)]
pub struct Undo {
    pub to_status_id: u128,
    pub if_match: i64,
}

/// One task's outcome, in the order it was named.
#[derive(Debug, Clone, PartialEq, Eq)]
pub struct BulkResult {
    pub task_id: u128,
    /// The status the same operation answers on its own endpoint.
    pub status: u16,
    pub task: Option<TaskView>,
    pub undo: Option<Undo>,
    pub error: Option<ApiError>,
}

/// The row a task gets from what happened to it: a success carries the task
/// and its undo, a move back to where it came from at the version it now
/// holds; a refusal carries its own status and the error a single-task call
/// would have answered.
pub open spec fn result_of(task_id: u128, done: Result<Transitioned, ApiError>) -> BulkResult {
    match done {
        Ok(t) => BulkResult {
            task_id,
            status: 200,
            task: Some(t.view),
            undo: Some(Undo { to_status_id: t.from_status_id, if_match: t.version }),
            error: None,
        },
        Err(e) => BulkResult { task_id, status: e.status, task: None, undo: None, error: Some(e) },
    }
}

/// A refused task: its own status, and the error a single-task call would
/// have carried.
pub fn refused_result(task_id: u128, error: ApiError) -> (r: BulkResult)
    ensures
        r == result_of(task_id, Err(error)),
{
    BulkResult { task_id, status: error.status, task: None, undo: None, error: Some(error) }
}

/// The refusal of a task named without a version.
pub open spec fn unversioned_error() -> ApiError {
    with_status(PRECONDITION_REQUIRED, ErrorCode::PreconditionRequired)
}

/// A task named without a version is refused on its own, as a single call
/// without `If-Match` would be: a wildcard is exactly the lost update the
/// version rule exists to prevent.
pub fn unversioned(task_id: u128) -> (r: BulkResult)
    ensures
        r == result_of(task_id, Err(unversioned_error())),
        r.status == PRECONDITION_REQUIRED,
{
    refused_result(task_id, ApiError::precondition_required())
}

/// A task's outcome. A success offers its undo: a move back to where it
/// came from, at the version it now holds; a move that changed nothing
/// offers a move to where it already is, which is itself a no-op.
pub fn outcome(task_id: u128, done: Result<Transitioned, ApiError>) -> (r: BulkResult)
    ensures
        r == result_of(task_id, done),
{
    match done {
        Ok(t) => BulkResult {
            task_id,
            status: 200,
            undo: Some(Undo { to_status_id: t.from_status_id, if_match: t.version }),
            task: Some(t.view),
            error: None,
        },
        Err(e) => refused_result(task_id, e),
    }
}

/// The status of every bulk answer, whatever the mix of outcomes: partial
/// success is the contract, not a failure mode.
pub const MULTI_STATUS: u16 = 207;

/// The answer: every result, and how many succeeded and failed, so a
/// client can say "34 moved, 6 refused" without walking the list.
#[derive(Debug, Clone, PartialEq, Eq)]
pub struct BulkResponse {
    pub results: Vec<BulkResult>,
    pub succeeded: usize,
    pub failed: usize,
}

/// How many results carry no error.
pub open spec fn successes(results: Seq<BulkResult>) -> nat
    decreases results.len(),
{
    if results.len() == 0 {
        0
    } else {
        successes(results.drop_last()) + if results.last().error is None {
            1nat
        } else {
            0nat
        }
    }
}

proof fn lemma_successes_bounded(results: Seq<BulkResult>)
    ensures
        successes(results) <= results.len(),
    decreases results.len(),
{
    if results.len() > 0 {
        lemma_successes_bounded(results.drop_last());
    }
}

/// Count the results.
pub fn tally(results: Vec<BulkResult>) -> (r: BulkResponse)
    ensures
        r.results == results,
        r.succeeded == successes(results@),
        r.failed == results@.len() - successes(results@),
{
    let mut succeeded: usize = 0;
    let mut i: usize = 0;
    while i < results.len()
        invariant
            i <= results@.len(),
            succeeded == successes(results@.take(i as int)),
            succeeded <= i,
        decreases results.len() - i,
    {
        assert(results@.take(i + 1).drop_last() =~= results@.take(i as int));
        if results[i].error.is_none() {
            succeeded = succeeded + 1;
        }
        i = i + 1;
    }
    assert(results@.take(results@.len() as int) =~= results@);
    let failed = results.len() - succeeded;
    BulkResponse { results, succeeded, failed }
}

/// Every task is counted once: what succeeded and what failed add up to
/// what was named, and a refused task is never counted as a success.
pub proof fn law_every_result_is_counted_once(results: Seq<BulkResult>)
    ensures
        successes(results) + (results.len() - successes(results)) == results.len(),
        successes(results) <= results.len(),
        (forall|i: int| 0 <= i < results.len() ==> (#[trigger] results[i]).error is Some) ==> successes(
            results,
        ) == 0,
    decreases results.len(),
{
    lemma_successes_bounded(results);
    if results.len() > 0 {
        let rest = results.drop_last();
        assert(forall|i: int| 0 <= i < rest.len() ==> rest[i] == results[i]);
        law_every_result_is_counted_once(rest);
        if (forall|i: int| 0 <= i < results.len() ==> (#[trigger] results[i]).error is Some) {
            assert(results[results.len() - 1].error is Some);
        }
    }
}

/// The tasks a batch tries, in the order they were named, each with the
/// version `if_match` gives it. A task without one is never tried: it is
/// answered `428` before any transaction opens.
pub open spec fn attempted(task_ids: Seq<u128>, if_match: Seq<(u128, i64)>) -> Seq<(u128, i64)>
    decreases task_ids.len(),
{
    if task_ids.len() == 0 {
        Seq::empty()
    } else {
        let before = attempted(task_ids.drop_last(), if_match);
        match version_for(if_match, task_ids.last()) {
            Some(v) => before.push((task_ids.last(), v)),
            None => before,
        }
    }
}

/// What a batch tries of its first `j` tasks is the start of what it tries
/// of them all.
proof fn lemma_attempted_prefix(task_ids: Seq<u128>, if_match: Seq<(u128, i64)>, j: int)
    requires
        0 <= j <= task_ids.len(),
    ensures
        attempted(task_ids.take(j), if_match).len() <= attempted(task_ids, if_match).len(),
        attempted(task_ids, if_match).take(attempted(task_ids.take(j), if_match).len() as int)
            == attempted(task_ids.take(j), if_match),
    decreases task_ids.len(),
{
    if j == task_ids.len() {
        assert(task_ids.take(j) =~= task_ids);
        assert(attempted(task_ids, if_match).take(attempted(task_ids, if_match).len() as int)
            =~= attempted(task_ids, if_match));
    } else {
        let init = task_ids.drop_last();
        assert(init.take(j) =~= task_ids.take(j));
        lemma_attempted_prefix(init, if_match, j);
        let whole = attempted(task_ids, if_match);
        let part = attempted(init, if_match);
        let n = attempted(task_ids.take(j), if_match).len() as int;
        assert(whole.take(n) =~= part.take(n));
    }
}

/// The tasks to try, each with its version.
pub fn attempts(task_ids: &Vec<u128>, if_match: &Vec<(u128, i64)>) -> (a: Vec<(u128, i64)>)
    ensures
        a@ == attempted(task_ids@, if_match@),
{
    let mut a: Vec<(u128, i64)> = Vec::new();
    let mut i: usize = 0;
    while i < task_ids.len()
        invariant
            i <= task_ids@.len(),
            a@ == attempted(task_ids@.take(i as int), if_match@),
        decreases task_ids.len() - i,
    {
        let id = task_ids[i];
        assert(task_ids@.take(i + 1).drop_last() =~= task_ids@.take(i as int));
        assert(task_ids@.take(i + 1).last() == id);
        match expected_for(if_match, id) {
            Some(v) => a.push((id, v)),
            None => {},
        }
        i = i + 1;
    }
    assert(task_ids@.take(task_ids@.len() as int) =~= task_ids@);
    a
}

/// The row of the `i`-th named task: refused `428` when it has no version,
/// else the outcome of its try, which is the `k`-th of [`attempted`] when
/// `k` tasks before it were tried.
pub open spec fn row_of(
    task_ids: Seq<u128>,
    if_match: Seq<(u128, i64)>,
    done: Seq<Result<Transitioned, ApiError>>,
    i: int,
) -> BulkResult {
    let id = task_ids[i];
    if version_for(if_match, id) is None {
        result_of(id, Err(unversioned_error()))
    } else {
        result_of(id, done[attempted(task_ids.take(i), if_match).len() as int])
    }
}

/// The whole answer: one row per named task, in the order the tasks were
/// named, counted, and sent as `207`. `done[k]` is what the `k`-th try of
/// [`attempts`] came to, each in its own transaction; a task `if_match`
/// gives no version was never tried and gets its own `428` row, and the
/// others proceed.
pub fn bulk_answer(
    task_ids: &Vec<u128>,
    if_match: &Vec<(u128, i64)>,
    done: Vec<Result<Transitioned, ApiError>>,
) -> (r: (u16, BulkResponse))
    requires
        done@.len() == attempted(task_ids@, if_match@).len(),
    ensures
        r.0 == MULTI_STATUS,
        r.1.results@.len() == task_ids@.len(),
        forall|i: int|
            0 <= i < task_ids@.len() ==> #[trigger] r.1.results@[i] == row_of(
                task_ids@,
                if_match@,
                done@,
                i,
            ),
        forall|i: int| 0 <= i < task_ids@.len() ==> (#[trigger] r.1.results@[i]).task_id == task_ids@[i],
        forall|i: int|
            0 <= i < task_ids@.len() ==> (version_for(if_match@, #[trigger] task_ids@[i]) matches Some(
                v,
            ) ==> attempted(task_ids@, if_match@)[attempted(task_ids@.take(i), if_match@).len() as int]
                == (task_ids@[i], v)),
        r.1.succeeded == successes(r.1.results@),
        r.1.failed == r.1.results@.len() - successes(r.1.results@),
{
    let mut results: Vec<BulkResult> = Vec::new();
    let mut rest = done;
    let ghost all = rest@;
    let ghost tried = attempted(task_ids@, if_match@);
    let n_done = rest.len();
    let mut i: usize = 0;
    let mut k: usize = 0;
    while i < task_ids.len()
        invariant
            i <= task_ids@.len(),
            all.len() == tried.len(),
            all.len() == n_done,
            tried == attempted(task_ids@, if_match@),
            k == attempted(task_ids@.take(i as int), if_match@).len(),
            k <= all.len(),
            rest@ == all.skip(k as int),
            results@.len() == i,
            forall|j: int|
                0 <= j < i ==> #[trigger] results@[j] == row_of(task_ids@, if_match@, all, j),
        decreases task_ids.len() - i,
    {
        let id = task_ids[i];
        proof {
            assert(task_ids@.take(i + 1).drop_last() =~= task_ids@.take(i as int));
            assert(task_ids@.take(i + 1).last() == id);
            lemma_attempted_prefix(task_ids@, if_match@, i + 1);
        }
        let row = match expected_for(if_match, id) {
            None => unversioned(id),
            Some(_) => {
                assert(rest@[0] == all[k as int]);
                let d = rest.remove(0);
                assert(rest@ =~= all.skip(k + 1));
                k = k + 1;
                outcome(id, d)
            },
        };
        results.push(row);
        i = i + 1;
    }
    proof {
        assert forall|i: int| 0 <= i < task_ids@.len() implies (version_for(
            if_match@,
            #[trigger] task_ids@[i],
        ) matches Some(v) ==> tried[attempted(task_ids@.take(i), if_match@).len() as int] == (
            task_ids@[i],
            v,
        )) by {
            if version_for(if_match@, task_ids@[i]) is Some {
            let v = version_for(if_match@, task_ids@[i])->0;
            assert(task_ids@.take(i + 1).drop_last() =~= task_ids@.take(i));
            assert(task_ids@.take(i + 1).last() == task_ids@[i]);
            lemma_attempted_prefix(task_ids@, if_match@, i + 1);
            let n = attempted(task_ids@.take(i), if_match@).len() as int;
            assert(attempted(task_ids@.take(i + 1), if_match@)[n] == (task_ids@[i], v));
            assert(tried.take(n + 1)[n] == tried[n]);
            }
        }
    }
    (MULTI_STATUS, tally(results))
}

} // verus!
