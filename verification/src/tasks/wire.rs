//! The request and response shapes of the task endpoints, and the stored
//! row they are read from.
use vstd::prelude::*;
use vstd::string::StringExecFns;

use crate::tasks::validate::FieldValue;
use crate::text::{i64_to_decimal, owned, str_eq};
use crate::text::decimal_int;
use crate::wire::{rfc3339_utc, timestamp, zulu};

verus! {

/// A task as stored. Instants are nanoseconds after the Unix epoch; ids
/// are the 128 bits of a UUID. `rank` is the search relevance of the row,
/// already written out as text, when the page was a search.
#[derive(Debug, Clone, PartialEq, Eq)]
pub struct TaskRow {
    pub id: u128,
    pub project_id: u128,
    pub number: i64,
    pub title: String,
    pub description: Option<String>,
    pub task_type: String,
    pub priority: String,
    pub status_id: u128,
    pub state: String,
    pub reporter_id: u128,
    pub environment_id: Option<u128>,
    pub milestone_id: Option<u128>,
    pub parent_id: Option<u128>,
    pub start_at: Option<i128>,
    pub due_at: Option<i128>,
    pub position: String,
    pub created_at: i128,
    pub created_by: u128,
    pub updated_at: i128,
    pub updated_by: Option<u128>,
    pub archived_at: Option<i128>,
    pub version: i64,
    pub rank: Option<String>,
}

/// The task representation: `snake_case`, RFC 3339 UTC timestamps.
#[derive(Debug, Clone, PartialEq, Eq)]
pub struct TaskView {
    pub id: u128,
    /// The human identifier, `WR-125`: the project key and the task number.
    pub key: String,
    pub project_id: u128,
    pub number: i64,
    pub title: String,
    pub description: Option<String>,
    pub task_type: String,
    pub priority: String,
    pub status_id: u128,
    pub state: String,
    pub reporter_id: u128,
    pub environment_id: Option<u128>,
    pub milestone_id: Option<u128>,
    pub parent_id: Option<u128>,
    pub start_at: Option<String>,
    pub due_at: Option<String>,
    pub position: String,
    pub created_at: String,
    pub created_by: u128,
    pub updated_at: String,
    pub updated_by: Option<u128>,
    pub archived_at: Option<String>,
    pub version: i64,
    /// Who is on the task; filled in by the list, empty elsewhere.
    pub assignees: Vec<u128>,
}

/// The human identifier of task `number` in the project keyed `project_key`.
pub open spec fn task_key(project_key: Seq<char>, number: int) -> Seq<char> {
    project_key + "-"@ + decimal_int(number)
}

/// `WR-125`: composed, stored nowhere.
pub fn key_of(project_key: &str, number: i64) -> (k: String)
    ensures
        k@ == task_key(project_key@, number as int),
{
    let mut k = owned(project_key);
    k.append("-");
    let n = i64_to_decimal(number);
    k.append(n.as_str());
    proof {
        reveal_strlit("-");
    }
    k
}

/// How an instant is written: RFC 3339 at UTC with `Z`, empty when it
/// cannot be written.
pub open spec fn instant_text(nanos: int) -> Seq<char> {
    match rfc3339_utc(nanos) {
        Some(text) => zulu(text),
        None => Seq::empty(),
    }
}

/// An optional instant, written.
pub fn optional_instant(at: Option<i128>) -> (r: Option<String>)
    ensures
        match at {
            Some(n) => r matches Some(s) && s@ == instant_text(n as int),
            None => r is None,
        },
{
    match at {
        Some(n) => Some(timestamp(n)),
        None => None,
    }
}

/// `o` and `p` hold the same text, or are both absent.
pub open spec fn same_text(o: Option<String>, p: Option<Seq<char>>) -> bool {
    match (o, p) {
        (Some(a), Some(b)) => a@ == b,
        (None, None) => true,
        _ => false,
    }
}

/// An optional instant as the representation writes it.
pub open spec fn instant_of(at: Option<i128>) -> Option<Seq<char>> {
    match at {
        Some(n) => Some(instant_text(n as int)),
        None => None,
    }
}

/// `v` is the representation of `row` in the project keyed `project_key`,
/// whoever it names as assignees.
pub open spec fn represents(v: TaskView, row: TaskRow, project_key: Seq<char>) -> bool {
    &&& v.id == row.id
    &&& v.key@ == task_key(project_key, row.number as int)
    &&& v.project_id == row.project_id
    &&& v.number == row.number
    &&& v.title == row.title
    &&& v.description == row.description
    &&& v.task_type == row.task_type
    &&& v.priority == row.priority
    &&& v.status_id == row.status_id
    &&& v.state == row.state
    &&& v.reporter_id == row.reporter_id
    &&& v.environment_id == row.environment_id
    &&& v.milestone_id == row.milestone_id
    &&& v.parent_id == row.parent_id
    &&& same_text(v.start_at, instant_of(row.start_at))
    &&& same_text(v.due_at, instant_of(row.due_at))
    &&& v.position == row.position
    &&& v.created_at@ == instant_text(row.created_at as int)
    &&& v.created_by == row.created_by
    &&& v.updated_at@ == instant_text(row.updated_at as int)
    &&& v.updated_by == row.updated_by
    &&& same_text(v.archived_at, instant_of(row.archived_at))
    &&& v.version == row.version
}

/// `v` is the representation of `row` in the project keyed `project_key`,
/// with no assignees filled in.
pub open spec fn viewed(v: TaskView, row: TaskRow, project_key: Seq<char>) -> bool {
    &&& represents(v, row, project_key)
    &&& v.assignees@ == Seq::<u128>::empty()
}

/// The representation of a stored task.
pub fn view(row: &TaskRow, project_key: &str) -> (v: TaskView)
    ensures
        viewed(v, *row, project_key@),
{
    TaskView {
        id: row.id,
        key: key_of(project_key, row.number),
        project_id: row.project_id,
        number: row.number,
        title: row.title.clone(),
        description: row.description.clone(),
        task_type: row.task_type.clone(),
        priority: row.priority.clone(),
        status_id: row.status_id,
        state: row.state.clone(),
        reporter_id: row.reporter_id,
        environment_id: row.environment_id,
        milestone_id: row.milestone_id,
        parent_id: row.parent_id,
        start_at: optional_instant(row.start_at),
        due_at: optional_instant(row.due_at),
        position: row.position.clone(),
        created_at: timestamp(row.created_at),
        created_by: row.created_by,
        updated_at: timestamp(row.updated_at),
        updated_by: row.updated_by,
        archived_at: optional_instant(row.archived_at),
        version: row.version,
        assignees: Vec::new(),
    }
}

/// `POST /api/v1/projects/{id}/tasks`. There is no status: a task starts at
/// its workflow's entry point.
#[derive(Debug, Clone, PartialEq, Eq)]
pub struct CreateRequest {
    pub title: String,
    pub description: Option<String>,
    pub task_type: Option<String>,
    pub priority: Option<String>,
    pub parent_id: Option<u128>,
    /// RFC 3339; refused rather than coerced when it is not.
    pub due_at: Option<String>,
}

/// `PATCH /api/v1/tasks/{id}`. For the nullable fields, absent leaves the
/// field alone and `Some(None)` clears it. `status_id` and `state` are
/// accepted and then refused: the field exists, and it has its own door.
#[derive(Debug, Clone, PartialEq, Eq)]
pub struct PatchRequest {
    pub title: Option<String>,
    pub description: Option<Option<String>>,
    pub task_type: Option<String>,
    pub priority: Option<String>,
    pub start_at: Option<Option<String>>,
    pub due_at: Option<Option<String>>,
    pub status_id: Option<u128>,
    pub state: Option<String>,
}

/// `POST /api/v1/tasks/{id}/transitions`: the target, the values for the
/// transition's required fields, and an optional note.
#[derive(Debug, Clone, PartialEq, Eq)]
pub struct TransitionRequestBody {
    pub to_status_id: u128,
    pub fields: Vec<(String, FieldValue)>,
    pub comment: Option<String>,
}

/// `POST /api/v1/tasks/{id}/assignees`.
#[derive(Debug, Clone, Copy, PartialEq, Eq)]
pub struct AssignRequest {
    pub user_id: u128,
}

/// `POST /api/v1/tasks/{id}/tags`: an existing tag, by id.
#[derive(Debug, Clone, Copy, PartialEq, Eq)]
pub struct TagRequest {
    pub tag_id: u128,
}

/// One field a patch changed, as display values: `None` is `null`.
#[derive(Debug, Clone, PartialEq, Eq)]
pub struct FieldChange {
    pub name: &'static str,
    pub from: Option<String>,
    pub to: Option<String>,
}

/// Text as plain values: `None` is `null`.
pub open spec fn text_view(s: Option<String>) -> Option<Seq<char>> {
    match s {
        Some(t) => Some(t@),
        None => None,
    }
}

/// A change as plain values.
pub open spec fn change_view(c: FieldChange) -> (Seq<char>, Option<Seq<char>>, Option<Seq<char>>) {
    (c.name@, text_view(c.from), text_view(c.to))
}

/// The entry for one compared field: nothing when the value is the same.
pub open spec fn change_if(name: Seq<char>, from: Option<Seq<char>>, to: Option<Seq<char>>) -> Seq<
    (Seq<char>, Option<Seq<char>>, Option<Seq<char>>),
> {
    if from == to {
        Seq::empty()
    } else {
        seq![(name, from, to)]
    }
}

/// The fields a patch changed, compared before and after rather than read
/// off the request: setting a field to the value it held changes nothing.
pub open spec fn changes_between(before: TaskRow, after: TaskRow) -> Seq<
    (Seq<char>, Option<Seq<char>>, Option<Seq<char>>),
> {
    change_if("title"@, Some(before.title@), Some(after.title@)) + change_if(
        "description"@,
        text_view(before.description),
        text_view(after.description),
    ) + change_if("type"@, Some(before.task_type@), Some(after.task_type@)) + change_if(
        "priority"@,
        Some(before.priority@),
        Some(after.priority@),
    ) + change_if("start_at"@, instant_of(before.start_at), instant_of(after.start_at))
        + change_if("due_at"@, instant_of(before.due_at), instant_of(after.due_at))
}

fn same_option_text(a: &Option<String>, b: &Option<String>) -> (r: bool)
    ensures
        r == (text_view(*a) == text_view(*b)),
{
    match (a, b) {
        (Some(x), Some(y)) => str_eq(x.as_str(), y.as_str()),
        (None, None) => true,
        _ => false,
    }
}

fn note(
    changes: &mut Vec<FieldChange>,
    name: &'static str,
    from: Option<String>,
    to: Option<String>,
)
    ensures
        final(changes)@.map_values(|c: FieldChange| change_view(c)) == old(changes)@.map_values(
            |c: FieldChange| change_view(c),
        ) + change_if(name@, text_view(from), text_view(to)),
{
    let ghost before = changes@;
    if !same_option_text(&from, &to) {
        let ghost fv = text_view(from);
        let ghost tv = text_view(to);
        changes.push(FieldChange { name, from, to });
        assert(changes@.map_values(|c: FieldChange| change_view(c)) =~= before.map_values(
            |c: FieldChange| change_view(c),
        ) + seq![(name@, fv, tv)]);
    } else {
        assert(changes@.map_values(|c: FieldChange| change_view(c)) =~= before.map_values(
            |c: FieldChange| change_view(c),
        ) + Seq::empty());
    }
}

fn text_some(s: &String) -> (r: Option<String>)
    ensures
        text_view(r) == Some(s@),
{
    Some(s.clone())
}

fn text_clone(s: &Option<String>) -> (r: Option<String>)
    ensures
        text_view(r) == text_view(*s),
{
    match s {
        Some(t) => Some(t.clone()),
        None => None,
    }
}

/// What an update's activity entry lists.
pub fn changed_fields(before: &TaskRow, after: &TaskRow) -> (changes: Vec<FieldChange>)
    ensures
        changes@.map_values(|c: FieldChange| change_view(c)) == changes_between(*before, *after),
{
    let mut changes: Vec<FieldChange> = Vec::new();
    assert(changes@.map_values(|c: FieldChange| change_view(c)) =~= Seq::empty());
    note(&mut changes, "title", text_some(&before.title), text_some(&after.title));
    note(&mut changes, "description", text_clone(&before.description), text_clone(&after.description));
    note(&mut changes, "type", text_some(&before.task_type), text_some(&after.task_type));
    note(&mut changes, "priority", text_some(&before.priority), text_some(&after.priority));
    note(&mut changes, "start_at", optional_instant(before.start_at), optional_instant(after.start_at));
    note(&mut changes, "due_at", optional_instant(before.due_at), optional_instant(after.due_at));
    proof {
        reveal_strlit("title");
        reveal_strlit("description");
        reveal_strlit("type");
        reveal_strlit("priority");
        reveal_strlit("start_at");
        reveal_strlit("due_at");
    }
    assert(changes@.map_values(|c: FieldChange| change_view(c)) =~= changes_between(*before, *after));
    changes
}

} // verus!
