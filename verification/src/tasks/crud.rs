//! A task as a record: the checks a create and an update make before
//! anything is read, the parent rule, the search filter's full-text term,
//! the ordering of a list and the key its cursor carries. Status is never
//! written here: it has its own door.
use vstd::prelude::*;
use vstd::utf8::encode_utf8;

use crate::error::{bad, conflicting, missing, refused, ApiError, ErrorCode};
use crate::tasks::validate::{
    listed, one_of, optional_timestamp, state_name, state_wire, validated_title, TaskState,
    MAX_TEXT, MAX_TITLE, PRIORITIES, TASK_TYPES,
};
use crate::tasks::wire::{instant_text, represents, view, CreateRequest, PatchRequest, TaskRow, TaskView};
use crate::text::{char_count, decimal_int, i64_to_decimal, owned, parse_i64, parse_i64_spec, str_eq, trimmed};
use crate::unit::{
    authorized, denial_of, framed, hash, hex, idempotency_key, key_of, replay, replayed_status,
    sha256_digest, Claim, Decision,
};
use crate::wire::{limit, parse_rfc3339, rfc3339_instant, timestamp, DEFAULT_LIMIT, MAX_LIMIT};

verus! {

/// The number of UTF-8 bytes `s` takes, as `str::len` reports it.
pub open spec fn byte_len(s: Seq<char>) -> usize {
    encode_utf8(s).len() as usize
}

/// A create, checked: the title trimmed, the enumerations defaulted, the
/// due date read.
#[derive(Debug, Clone, PartialEq, Eq)]
pub struct ValidCreate {
    pub title: String,
    pub task_type: String,
    pub priority: String,
    pub due_at: Option<i128>,
}

/// The first thing wrong with a create body, in the order the checks run:
/// title, type, priority, due date, description.
pub open spec fn create_refusal(body: CreateRequest) -> Option<ApiError> {
    let t = trimmed(body.title@);
    if t.len() == 0 || t.len() > MAX_TITLE {
        Some(bad(ErrorCode::OutOfRange))
    } else if body.task_type matches Some(v) && !listed(TASK_TYPES@, v@) {
        Some(bad(ErrorCode::InvalidEnum))
    } else if body.priority matches Some(v) && !listed(PRIORITIES@, v@) {
        Some(bad(ErrorCode::InvalidEnum))
    } else if body.due_at matches Some(raw) && rfc3339_instant(raw@) is None {
        Some(bad(ErrorCode::MalformedBody))
    } else if body.description matches Some(d) && byte_len(d@) > MAX_TEXT {
        Some(bad(ErrorCode::OutOfRange))
    } else {
        None
    }
}

/// The value an optional enumerated field takes: the default when absent.
pub open spec fn or_default(value: Option<String>, default: Seq<char>) -> Seq<char> {
    match value {
        Some(v) => v@,
        None => default,
    }
}

/// `v` is what an acceptable create body `body` checks out as.
pub open spec fn checked_create(v: ValidCreate, body: CreateRequest) -> bool {
    &&& v.title@ == trimmed(body.title@)
    &&& v.task_type@ == or_default(body.task_type, "TASK"@)
    &&& v.priority@ == or_default(body.priority, "NONE"@)
    &&& (match body.due_at {
        None => v.due_at is None,
        Some(raw) => rfc3339_instant(raw@) matches Some(n) && v.due_at == Some(n as i128),
    })
}

/// Check a create body before anything is read. A type or priority that is
/// absent takes its default; one that is present must be in the schema's
/// list; a due date must be RFC 3339; a description is bounded in bytes.
pub fn validated_create(body: &CreateRequest) -> (r: Result<ValidCreate, ApiError>)
    ensures
        match create_refusal(*body) {
            Some(e) => r == Err::<ValidCreate, ApiError>(e),
            None => r matches Ok(v) && checked_create(v, *body),
        },
{
    let title = match validated_title(body.title.as_str()) {
        Ok(t) => t,
        Err(e) => return Err(e),
    };
    let task_type = match &body.task_type {
        Some(v) => match one_of(Some(v.as_str()), &TASK_TYPES, "TASK") {
            Ok(t) => owned(t),
            Err(e) => return Err(e),
        },
        None => "TASK".to_owned(),
    };
    let priority = match &body.priority {
        Some(v) => match one_of(Some(v.as_str()), &PRIORITIES, "NONE") {
            Ok(t) => owned(t),
            Err(e) => return Err(e),
        },
        None => "NONE".to_owned(),
    };
    let due_at = match &body.due_at {
        Some(raw) => match parse_rfc3339(raw.as_str()) {
            Some(at) => Some(at),
            None => return Err(ApiError::bad_request(ErrorCode::MalformedBody)),
        },
        None => None,
    };
    if let Some(d) = &body.description {
        if d.as_str().len() > MAX_TEXT {
            return Err(ApiError::bad_request(ErrorCode::OutOfRange));
        }
    }
    Ok(ValidCreate { title: owned(title), task_type, priority, due_at })
}

/// The `k` bytes of `n`, most significant first.
pub open spec fn be_bytes(n: nat, k: nat) -> Seq<u8>
    decreases k,
{
    if k == 0 {
        Seq::empty()
    } else {
        be_bytes(n / 256, (k - 1) as nat).push((n % 256) as u8)
    }
}

fn push_be(out: &mut Vec<u8>, n: u128, k: u32)
    ensures
        final(out)@ == old(out)@ + be_bytes(n as nat, k as nat),
    decreases k,
{
    if k > 0 {
        push_be(out, n / 256, k - 1);
        out.push((n % 256) as u8);
        assert(old(out)@ + be_bytes((n / 256) as nat, (k - 1) as nat) + seq![(n % 256) as u8]
            =~= old(out)@ + be_bytes(n as nat, k as nat));
    }
}

/// The sixteen bytes of a UUID, as `Uuid::as_bytes` lays them out.
pub fn uuid_bytes(id: u128) -> (b: Vec<u8>)
    ensures
        b@ == be_bytes(id as nat, 16),
{
    let mut b: Vec<u8> = Vec::new();
    push_be(&mut b, id, 16);
    assert(b@ =~= be_bytes(id as nat, 16));
    b
}

/// The parts a create's request digest is made of: the project, then the
/// title, type and priority as checked, then the description or nothing.
pub open spec fn create_parts(project_id: u128, valid: ValidCreate, description: Option<String>) -> Seq<
    Seq<u8>,
> {
    seq![
        be_bytes(project_id as nat, 16),
        encode_utf8(valid.title@),
        encode_utf8(valid.task_type@),
        encode_utf8(valid.priority@),
        encode_utf8(
            match description {
                Some(d) => d@,
                None => Seq::empty(),
            },
        ),
    ]
}

/// The digest a create's idempotency key is bound to. A retry that
/// reorders its JSON keys still replays; one that changes a field is told
/// its body changed.
pub fn create_digest(project_id: u128, valid: &ValidCreate, description: &Option<String>) -> (h:
    String)
    ensures
        h@ == hex(sha256_digest(framed(create_parts(project_id, *valid, *description)))),
{
    let project = uuid_bytes(project_id);
    let empty = String::new();
    let d: &str = match description {
        Some(d) => d.as_str(),
        None => empty.as_str(),
    };
    let parts: [&[u8]; 5] = [
        project.as_slice(),
        valid.title.as_str().as_bytes(),
        valid.task_type.as_str().as_bytes(),
        valid.priority.as_str().as_bytes(),
        d.as_bytes(),
    ];
    let h = hash(&parts);
    assert(parts@.map_values(|p: &[u8]| p@) =~= create_parts(project_id, *valid, *description));
    h
}

/// The parent a subtask names, as found among the tasks the caller can see:
/// its project, and its own parent. Subtasks are one level deep and stay in
/// their parent's project; a parent that cannot be seen is refused the same
/// way whether or not it exists.
pub open spec fn parent_refusal(found: Option<(u128, Option<u128>)>, project_id: u128) -> Option<
    ApiError,
> {
    match found {
        None => Some(refused(ErrorCode::ReferenceNotFound)),
        Some((parent_project, grandparent)) => if parent_project != project_id {
            Some(refused(ErrorCode::ParentOutOfProject))
        } else if grandparent is Some {
            Some(refused(ErrorCode::ParentOutOfProject))
        } else {
            None
        },
    }
}

/// Whether the parent a create names may have a subtask in `project_id`.
pub fn check_parent(found: Option<(u128, Option<u128>)>, project_id: u128) -> (r: Result<
    (),
    ApiError,
>)
    ensures
        match parent_refusal(found, project_id) {
            Some(e) => r == Err::<(), ApiError>(e),
            None => r is Ok,
        },
{
    match found {
        None => Err(ApiError::unprocessable(ErrorCode::ReferenceNotFound)),
        Some((parent_project, grandparent)) => {
            if parent_project != project_id {
                Err(ApiError::unprocessable(ErrorCode::ParentOutOfProject))
            } else if grandparent.is_some() {
                Err(ApiError::unprocessable(ErrorCode::ParentOutOfProject))
            } else {
                Ok(())
            }
        },
    }
}

/// A create as it leaves the checks made before anything is read: the body
/// checked, the idempotency key, and the digest the key is bound to.
#[derive(Debug, Clone, PartialEq, Eq)]
pub struct CreateRequestChecked {
    pub valid: ValidCreate,
    pub idempotency_key: String,
    pub digest: String,
}

/// The checks a create makes before it reads anything, in their order: the
/// body (title, type, priority, due date, description), then the
/// `Idempotency-Key` header. The digest covers the project and the fields
/// that define the task.
pub fn create_request(body: &CreateRequest, key_header: Option<&str>, project_id: u128) -> (r:
    Result<CreateRequestChecked, ApiError>)
    ensures
        match create_refusal(*body) {
            Some(e) => r == Err::<CreateRequestChecked, ApiError>(e),
            None => match key_header {
                Some(raw) if key_of(raw@) is Some => r matches Ok(c) && {
                    &&& checked_create(c.valid, *body)
                    &&& Some(c.idempotency_key@) == key_of(raw@)
                    &&& c.digest@ == hex(
                        sha256_digest(framed(create_parts(project_id, c.valid, body.description))),
                    )
                },
                _ => r == Err::<CreateRequestChecked, ApiError>(
                    bad(ErrorCode::IdempotencyRequired),
                ),
            },
        },
{
    let valid = match validated_create(body) {
        Ok(v) => v,
        Err(e) => return Err(e),
    };
    let key = match idempotency_key(key_header) {
        Ok(k) => k,
        Err(e) => return Err(e),
    };
    let digest = create_digest(project_id, &valid, &body.description);
    Ok(CreateRequestChecked { valid, idempotency_key: key, digest })
}

/// Where the checks a create makes once it has read leave it.
#[derive(Debug, Clone, PartialEq, Eq)]
pub enum CreateStep {
    /// The key was answered before: send the stored body again, at this
    /// status, and write nothing.
    Replay(u16, String),
    /// Insert the task.
    Insert,
}

/// The checks a create makes after reading, in their order: the project
/// visible (`404`, never a `403` that would tell an outsider it exists),
/// then the permission for the requested type, then the idempotency claim,
/// then the parent when one is named. `parent` is `None` when no parent
/// is named, else what was found among the tasks the caller can see.
pub open spec fn create_step_of(
    project_found: bool,
    permission: Decision,
    claim: Claim,
    parent: Option<Option<(u128, Option<u128>)>>,
    project_id: u128,
) -> Result<CreateStep, ApiError> {
    if !project_found {
        Err(missing(ErrorCode::ProjectNotFound))
    } else {
        match permission {
            Decision::Deny(reason) => Err(denial_of(reason)),
            Decision::Allow => match claim {
                Claim::Replay { status_code, response } => Ok(
                    CreateStep::Replay(replayed_status(status_code), response),
                ),
                Claim::InProgress => Err(conflicting(ErrorCode::IdempotencyInProgress)),
                Claim::BodyChanged => Err(refused(ErrorCode::IdempotencyBodyChanged)),
                Claim::Fresh => match parent {
                    None => Ok(CreateStep::Insert),
                    Some(found) => match parent_refusal(found, project_id) {
                        Some(e) => Err(e),
                        None => Ok(CreateStep::Insert),
                    },
                },
            },
        }
    }
}

/// Run the checks of [`create_step_of`].
pub fn create_checks(
    project_found: bool,
    permission: Decision,
    claim: Claim,
    parent: Option<Option<(u128, Option<u128>)>>,
    project_id: u128,
) -> (r: Result<CreateStep, ApiError>)
    ensures
        r == create_step_of(project_found, permission, claim, parent, project_id),
{
    if !project_found {
        return Err(ApiError::missing(ErrorCode::ProjectNotFound));
    }
    if let Err(e) = authorized(permission) {
        return Err(e);
    }
    match replay(claim) {
        Err(e) => return Err(e),
        Ok(Some((status, response))) => return Ok(CreateStep::Replay(status, response)),
        Ok(None) => {},
    }
    match parent {
        None => Ok(CreateStep::Insert),
        Some(found) => match check_parent(found, project_id) {
            Ok(()) => Ok(CreateStep::Insert),
            Err(e) => Err(e),
        },
    }
}

/// The row a create inserts.
#[derive(Debug, Clone, PartialEq, Eq)]
pub struct NewTask {
    pub id: u128,
    pub project_id: u128,
    pub number: i64,
    pub title: String,
    pub description: Option<String>,
    pub task_type: String,
    pub priority: String,
    pub status_id: u128,
    pub state: String,
    pub reporter_id: u128,
    pub parent_id: Option<u128>,
    pub due_at: Option<i128>,
    pub position: String,
    pub created_by: u128,
}

/// Whether `id` is laid out as a version 7 UUID: the version nibble is 7
/// and the variant bits are those of RFC 9562.
pub open spec fn is_v7(id: u128) -> bool {
    &&& (id >> 76u32) & 0xfu128 == 7
    &&& (id >> 62u32) & 0x3u128 == 2
}

/// The row for a new task: a fresh version 7 id, the checked fields, the
/// workflow's entry status, the allocated number and its position, with
/// the actor as reporter and creator.
pub fn new_task(
    project_id: u128,
    number: i64,
    valid: &ValidCreate,
    description: &Option<String>,
    parent_id: Option<u128>,
    initial_status: u128,
    initial_state: TaskState,
    position: String,
    actor: u128,
) -> (t: NewTask)
    ensures
        is_v7(t.id),
        t.project_id == project_id,
        t.number == number,
        t.title == valid.title,
        t.description == *description,
        t.task_type == valid.task_type,
        t.priority == valid.priority,
        t.status_id == initial_status,
        t.state@ == state_name(initial_state),
        t.reporter_id == actor,
        t.parent_id == parent_id,
        t.due_at == valid.due_at,
        t.position == position,
        t.created_by == actor,
{
    NewTask {
        id: crate::wire::fresh_v7(),
        project_id,
        number,
        title: valid.title.clone(),
        description: description.clone(),
        task_type: valid.task_type.clone(),
        priority: valid.priority.clone(),
        status_id: initial_status,
        state: owned(state_wire(initial_state)),
        reporter_id: actor,
        parent_id,
        due_at: valid.due_at,
        position,
        created_by: actor,
    }
}

/// A patch, checked. `None` leaves a field alone; for the nullable fields
/// `Some(None)` clears it.
#[derive(Debug, Clone, PartialEq, Eq)]
pub struct ValidPatch {
    pub title: Option<String>,
    pub description: Option<Option<String>>,
    pub task_type: Option<String>,
    pub priority: Option<String>,
    pub start_at: Option<Option<i128>>,
    pub due_at: Option<Option<i128>>,
}

/// Whether an optional timestamp text is unreadable.
pub open spec fn unreadable(value: Option<Option<String>>) -> bool {
    value matches Some(Some(raw)) && rfc3339_instant(raw@) is None
}

/// The first thing wrong with a patch, in the order the checks run: a
/// status is never written through a patch; then the title, type, priority,
/// description, start and due dates.
pub open spec fn patch_refusal(body: PatchRequest) -> Option<ApiError> {
    if body.status_id is Some || body.state is Some {
        Some(bad(ErrorCode::StatusNotDirectlyWritable))
    } else if body.title matches Some(t) && (trimmed(t@).len() == 0 || trimmed(t@).len()
        > MAX_TITLE) {
        Some(bad(ErrorCode::OutOfRange))
    } else if body.task_type matches Some(v) && !listed(TASK_TYPES@, v@) {
        Some(bad(ErrorCode::InvalidEnum))
    } else if body.priority matches Some(v) && !listed(PRIORITIES@, v@) {
        Some(bad(ErrorCode::InvalidEnum))
    } else if body.description matches Some(Some(d)) && byte_len(d@) > MAX_TEXT {
        Some(bad(ErrorCode::OutOfRange))
    } else if unreadable(body.start_at) || unreadable(body.due_at) {
        Some(bad(ErrorCode::MalformedBody))
    } else {
        None
    }
}

/// What an optional timestamp text reads as.
pub open spec fn timestamp_read(value: Option<Option<String>>, got: Option<Option<i128>>) -> bool {
    match value {
        None => got is None,
        Some(None) => got == Some(None::<i128>),
        Some(Some(raw)) => rfc3339_instant(raw@) matches Some(n) && got == Some(Some(n as i128)),
    }
}

fn as_str_option(value: &Option<Option<String>>) -> (r: Option<Option<&str>>)
    ensures
        match *value {
            None => r is None,
            Some(None) => r == Some(None::<&str>),
            Some(Some(s)) => r matches Some(Some(t)) && t@ == s@,
        },
{
    match value {
        None => None,
        Some(None) => Some(None),
        Some(Some(s)) => Some(Some(s.as_str())),
    }
}

fn nullable_text(value: &Option<Option<String>>) -> (r: Option<Option<String>>)
    ensures
        r == *value,
{
    match value {
        None => None,
        Some(None) => Some(None),
        Some(Some(s)) => Some(Some(s.clone())),
    }
}

/// Check a patch before anything is read.
pub fn validated_patch(body: &PatchRequest) -> (r: Result<ValidPatch, ApiError>)
    ensures
        match patch_refusal(*body) {
            Some(e) => r == Err::<ValidPatch, ApiError>(e),
            None => r matches Ok(p) && {
                &&& (match body.title {
                    None => p.title is None,
                    Some(t) => p.title matches Some(u) && u@ == trimmed(t@),
                })
                &&& p.description == body.description
                &&& p.task_type == body.task_type
                &&& p.priority == body.priority
                &&& timestamp_read(body.start_at, p.start_at)
                &&& timestamp_read(body.due_at, p.due_at)
            },
        },
{
    if body.status_id.is_some() || body.state.is_some() {
        return Err(ApiError::bad_request(ErrorCode::StatusNotDirectlyWritable));
    }
    let title = match &body.title {
        Some(t) => match validated_title(t.as_str()) {
            Ok(u) => Some(owned(u)),
            Err(e) => return Err(e),
        },
        None => None,
    };
    let task_type = match &body.task_type {
        Some(v) => match one_of(Some(v.as_str()), &TASK_TYPES, "TASK") {
            Ok(_) => Some(v.clone()),
            Err(e) => return Err(e),
        },
        None => None,
    };
    let priority = match &body.priority {
        Some(v) => match one_of(Some(v.as_str()), &PRIORITIES, "NONE") {
            Ok(_) => Some(v.clone()),
            Err(e) => return Err(e),
        },
        None => None,
    };
    if let Some(Some(d)) = &body.description {
        if d.as_str().len() > MAX_TEXT {
            return Err(ApiError::bad_request(ErrorCode::OutOfRange));
        }
    }
    let start_at = match optional_timestamp(as_str_option(&body.start_at)) {
        Ok(v) => v,
        Err(e) => return Err(e),
    };
    let due_at = match optional_timestamp(as_str_option(&body.due_at)) {
        Ok(v) => v,
        Err(e) => return Err(e),
    };
    Ok(
        ValidPatch {
            title,
            description: nullable_text(&body.description),
            task_type,
            priority,
            start_at,
            due_at,
        },
    )
}

/// Changing a task's type is raising one of the new type, and is
/// authorized as such on top of the update itself: otherwise a grant
/// narrowed to one type is escaped by raising that type and converting it.
pub fn retypes(wanted: Option<&str>, current: &str) -> (r: bool)
    ensures
        r == (wanted matches Some(w) && w@ != current@),
{
    match wanted {
        Some(w) => !str_eq(w, current),
        None => false,
    }
}


/// The checks every versioned write to a task makes once it has read the
/// task, in their order: readable (`404`), then the version (`409`), then
/// the permission (`403`). `current` is the version read, or nothing when
/// the caller cannot see the task.
pub open spec fn write_checks_of(current: Option<i64>, expected: i64, permission: Decision) -> Result<
    (),
    ApiError,
> {
    match current {
        None => Err(missing(ErrorCode::TaskNotFound)),
        Some(version) => if version != expected {
            Err(conflicting(ErrorCode::VersionConflict))
        } else {
            match permission {
                Decision::Allow => Ok(()),
                Decision::Deny(reason) => Err(denial_of(reason)),
            }
        },
    }
}

/// Run the checks of [`write_checks_of`]. The version comes before the
/// permission: the actor can already see the task, so its version is no
/// secret, and a stale client is the common case.
pub fn write_checks(current: Option<i64>, expected: i64, permission: Decision) -> (r: Result<
    (),
    ApiError,
>)
    ensures
        r == write_checks_of(current, expected, permission),
{
    match current {
        None => Err(ApiError::missing(ErrorCode::TaskNotFound)),
        Some(version) => {
            if version != expected {
                Err(ApiError::conflict(ErrorCode::VersionConflict))
            } else {
                match authorized(permission) {
                    Ok(()) => Ok(()),
                    Err(e) => Err(e),
                }
            }
        },
    }
}

/// The second question an update that changes the type asks: may the
/// actor raise a task of the new type here? The project must still read
/// back; `create` is the answer for the new type.
pub fn authorize_retype(wanted: Option<&str>, current: &str, project_found: bool, create: Decision) -> (r:
    Result<(), ApiError>)
    ensures
        !(wanted matches Some(w) && w@ != current@) ==> r is Ok,
        (wanted matches Some(w) && w@ != current@) ==> r == (if !project_found {
            Err::<(), ApiError>(missing(ErrorCode::ProjectNotFound))
        } else {
            match create {
                Decision::Allow => Ok(()),
                Decision::Deny(reason) => Err(denial_of(reason)),
            }
        }),
{
    if !retypes(wanted, current) {
        return Ok(());
    }
    if !project_found {
        return Err(ApiError::missing(ErrorCode::ProjectNotFound));
    }
    match authorized(create) {
        Ok(()) => Ok(()),
        Err(e) => Err(e),
    }
}

// ---------------------------------------------------------------------------
// Listing: the filter's full-text term, the ordering, the cursor key
// ---------------------------------------------------------------------------
/// The field a filter clause constrains, as far as this module reads it:
/// the full-text field `q`, or another.
#[derive(Debug, Clone, Copy, PartialEq, Eq, Structural)]
pub enum Field {
    Q,
    Other,
}

/// A clause's value: a literal, a symbol such as `@me`, or another kind.
#[derive(Debug, Clone, PartialEq, Eq)]
pub enum Value {
    Literal(String),
    Symbol(String),
    Other,
}

/// One comparison in a filter.
#[derive(Debug, Clone, PartialEq, Eq)]
pub struct Clause {
    pub field: Field,
    pub value: Value,
}

/// A parsed filter.
#[derive(Debug)]
pub enum Node {
    Clause(Clause),
    And(Vec<Node>),
    Or(Vec<Node>),
    Not(Box<Node>),
}

/// The full-text term of a filter: the first `q` clause met walking it
/// depth first, left to right.
pub open spec fn term_of(node: Node) -> Option<Seq<char>>
    decreases node,
{
    match node {
        Node::Clause(c) => if c.field == Field::Q {
            match c.value {
                Value::Literal(t) => Some(t@),
                Value::Symbol(t) => Some(t@),
                Value::Other => None,
            }
        } else {
            None
        },
        Node::And(children) => first_term(children@),
        Node::Or(children) => first_term(children@),
        Node::Not(inner) => term_of(*inner),
    }
}

/// The first term among `children`, in order.
pub open spec fn first_term(children: Seq<Node>) -> Option<Seq<char>>
    decreases children,
{
    if children.len() == 0 {
        None
    } else {
        match term_of(children[0]) {
            Some(t) => Some(t),
            None => first_term(children.drop_first()),
        }
    }
}

proof fn lemma_first_term_at(children: Seq<Node>, i: int)
    requires
        0 <= i < children.len(),
        forall|k: int| 0 <= k < i ==> term_of(#[trigger] children[k]) is None,
    ensures
        first_term(children) == (match term_of(children[i]) {
            Some(t) => Some(t),
            None => first_term(children.skip(i + 1)),
        }),
    decreases i,
{
    if i > 0 {
        let rest = children.drop_first();
        assert(forall|k: int| 0 <= k < i - 1 ==> rest[k] == children[k + 1]);
        lemma_first_term_at(rest, i - 1);
        assert(rest.skip(i) =~= children.skip(i + 1));
    } else {
        assert(children.drop_first() =~= children.skip(1));
    }
}

/// The full-text term in a filter, if it has one.
pub fn full_text_term(node: &Node) -> (r: Option<&str>)
    ensures
        match term_of(*node) {
            Some(t) => r matches Some(s) && s@ == t,
            None => r is None,
        },
    decreases node,
{
    match node {
        Node::Clause(clause) => {
            if clause.field == Field::Q {
                match &clause.value {
                    Value::Literal(term) => Some(term.as_str()),
                    Value::Symbol(term) => Some(term.as_str()),
                    Value::Other => None,
                }
            } else {
                None
            }
        },
        Node::And(children) => first_full_text_term(children),
        Node::Or(children) => first_full_text_term(children),
        Node::Not(inner) => full_text_term(inner),
    }
}

fn first_full_text_term(children: &Vec<Node>) -> (r: Option<&str>)
    ensures
        match first_term(children@) {
            Some(t) => r matches Some(s) && s@ == t,
            None => r is None,
        },
    decreases children,
{
    let mut i: usize = 0;
    while i < children.len()
        invariant
            i <= children@.len(),
            forall|k: int| 0 <= k < i ==> term_of(#[trigger] children@[k]) is None,
        decreases children.len() - i,
    {
        proof {
            lemma_first_term_at(children@, i as int);
        }
        match full_text_term(&children[i]) {
            Some(t) => {
                return Some(t);
            },
            None => {},
        }
        i = i + 1;
    }
    proof {
        lemma_no_term(children@);
    }
    None
}

proof fn lemma_no_term(children: Seq<Node>)
    requires
        forall|k: int| 0 <= k < children.len() ==> term_of(#[trigger] children[k]) is None,
    ensures
        first_term(children) is None,
    decreases children.len(),
{
    if children.len() > 0 {
        let rest = children.drop_first();
        assert(forall|k: int| 0 <= k < rest.len() ==> rest[k] == children[k + 1]);
        lemma_no_term(rest);
    }
}

/// The longest full-text term, in characters: an unbounded term is an
/// unbounded query construction.
pub const MAX_SEARCH_TERM: usize = 256;

/// A search term longer than [`MAX_SEARCH_TERM`] is refused.
pub fn check_search_term(filter: &Node) -> (r: Result<(), ApiError>)
    ensures
        (term_of(*filter) matches Some(t) && t.len() > MAX_SEARCH_TERM) ==> r == Err::<(), ApiError>(
            bad(ErrorCode::SearchTooLong),
        ),
        !(term_of(*filter) matches Some(t) && t.len() > MAX_SEARCH_TERM) ==> r is Ok,
{
    match full_text_term(filter) {
        Some(term) => {
            if char_count(term) > MAX_SEARCH_TERM {
                Err(ApiError::bad_request(ErrorCode::SearchTooLong))
            } else {
                Ok(())
            }
        },
        None => Ok(()),
    }
}

/// What a list can be ordered by.
#[derive(Debug, Clone, Copy, PartialEq, Eq, Structural)]
pub enum SortField {
    CreatedAt,
    UpdatedAt,
    DueAt,
    Priority,
    Position,
    Key,
    Rank,
    StatusPosition,
}

#[derive(Debug, Clone, Copy, PartialEq, Eq, Structural)]
pub enum Direction {
    Asc,
    Desc,
}

/// One sort key and its direction.
#[derive(Debug, Clone, Copy, PartialEq, Eq, Structural)]
pub struct Sort {
    pub field: SortField,
    pub direction: Direction,
}

/// The order of a list that asked for none: most recently updated first.
pub open spec fn default_sort() -> Sort {
    Sort { field: SortField::UpdatedAt, direction: Direction::Desc }
}

/// The order a list runs in. A search with no explicit order is by
/// relevance. Two combinations are refused: `rank` without a term has
/// nothing to rank against, and a second key would make the cursor, which
/// carries one key and the id, non-deterministic across pages.
pub open spec fn sort_answer(sorts: Seq<Sort>, filter: Node) -> Result<Sort, ApiError> {
    let searching = term_of(filter) is Some;
    if sorts.len() > 1 {
        Err(bad(ErrorCode::UnsortableField))
    } else if sorts.len() == 0 {
        Ok(
            if searching {
                Sort { field: SortField::Rank, direction: Direction::Desc }
            } else {
                default_sort()
            },
        )
    } else if sorts[0].field == SortField::Rank && !searching {
        Err(bad(ErrorCode::UnsortableField))
    } else {
        Ok(sorts[0])
    }
}

/// Decide the ordering of a list.
pub fn sort_for(sorts: &Vec<Sort>, filter: &Node) -> (r: Result<Sort, ApiError>)
    ensures
        r == sort_answer(sorts@, *filter),
{
    let searching = full_text_term(filter).is_some();
    if sorts.len() > 1 {
        return Err(ApiError::bad_request(ErrorCode::UnsortableField));
    }
    if sorts.len() == 0 {
        return Ok(
            if searching {
                Sort { field: SortField::Rank, direction: Direction::Desc }
            } else {
                Sort { field: SortField::UpdatedAt, direction: Direction::Desc }
            },
        );
    }
    let sort = sorts[0];
    if sort.field == SortField::Rank && !searching {
        return Err(ApiError::bad_request(ErrorCode::UnsortableField));
    }
    Ok(sort)
}

/// The value a cursor carries to resume a sort on `field` after `row`: it
/// must be written as the query reads it back, or page two fails.
pub open spec fn cursor_key_of(row: TaskRow, field: SortField) -> Seq<char> {
    match field {
        SortField::CreatedAt => instant_text(row.created_at as int),
        SortField::UpdatedAt => instant_text(row.updated_at as int),
        SortField::DueAt => match row.due_at {
            Some(n) => instant_text(n as int),
            None => Seq::empty(),
        },
        SortField::Priority => row.priority@,
        SortField::Position => row.position@,
        SortField::Key => decimal_int(row.number as int),
        SortField::Rank => match row.rank {
            Some(r) => r@,
            None => "0"@,
        },
        SortField::StatusPosition => Seq::empty(),
    }
}

/// The cursor key of a row for a sort.
pub fn cursor_key(row: &TaskRow, field: SortField) -> (k: String)
    ensures
        k@ == cursor_key_of(*row, field),
        field == SortField::CreatedAt ==> k@ == instant_text(row.created_at as int),
        field == SortField::UpdatedAt ==> k@ == instant_text(row.updated_at as int),
        field == SortField::Key ==> parse_i64_spec(k@) == Some(row.number),
{
    proof {
        crate::text::lemma_decimal_round_trips(row.number);
    }
    match field {
        SortField::CreatedAt => timestamp(row.created_at),
        SortField::UpdatedAt => timestamp(row.updated_at),
        SortField::DueAt => match row.due_at {
            Some(n) => timestamp(n),
            None => String::new(),
        },
        SortField::Priority => row.priority.clone(),
        SortField::Position => row.position.clone(),
        SortField::Key => i64_to_decimal(row.number),
        SortField::Rank => match &row.rank {
            Some(r) => r.clone(),
            None => "0".to_owned(),
        },
        SortField::StatusPosition => String::new(),
    }
}

/// A cursor resumes on the column its sort orders by: the key written for a
/// sort on a timestamp is that timestamp of the row, written as the list
/// writes instants; for the task key it is the row's number, which reads
/// back as that number; for priority, position and rank it is that column
/// as stored. So two rows that agree on a sort's column get the same key,
/// whatever else differs between them.
pub proof fn law_a_cursor_resumes_on_the_column_its_sort_orders_by(a: TaskRow, b: TaskRow)
    ensures
        cursor_key_of(a, SortField::CreatedAt) == instant_text(a.created_at as int),
        cursor_key_of(a, SortField::UpdatedAt) == instant_text(a.updated_at as int),
        cursor_key_of(a, SortField::DueAt) == (match a.due_at {
            Some(n) => instant_text(n as int),
            None => Seq::<char>::empty(),
        }),
        cursor_key_of(a, SortField::Priority) == a.priority@,
        cursor_key_of(a, SortField::Position) == a.position@,
        parse_i64_spec(cursor_key_of(a, SortField::Key)) == Some(a.number),
        a.created_at == b.created_at ==> cursor_key_of(a, SortField::CreatedAt) == cursor_key_of(
            b,
            SortField::CreatedAt,
        ),
        a.updated_at == b.updated_at ==> cursor_key_of(a, SortField::UpdatedAt) == cursor_key_of(
            b,
            SortField::UpdatedAt,
        ),
        a.due_at == b.due_at ==> cursor_key_of(a, SortField::DueAt) == cursor_key_of(
            b,
            SortField::DueAt,
        ),
        a.number == b.number ==> cursor_key_of(a, SortField::Key) == cursor_key_of(b, SortField::Key),
{
    crate::text::lemma_decimal_round_trips(a.number);
}

/// What `str::parse::<u32>` accepts: as for a signed number, but no sign
/// but `+`, and a value that fits.
pub open spec fn parse_u32_spec(s: Seq<char>) -> Option<u32> {
    if s.len() > 0 && s[0] == '-' {
        None
    } else {
        match parse_i64_spec(s) {
            Some(v) => if 0 <= v <= u32::MAX {
                Some(v as u32)
            } else {
                None
            },
            None => None,
        }
    }
}

/// The page size of a list from its `limit` parameter: a value that is not
/// a number is refused with the page-size code, then [`limit`] applies.
pub fn parse_limit(raw: Option<&str>) -> (r: Result<u32, ApiError>)
    ensures
        match raw {
            None => r == Ok::<u32, ApiError>(DEFAULT_LIMIT),
            Some(text) => match parse_u32_spec(text@) {
                None => r == Err::<u32, ApiError>(bad(ErrorCode::PageTooLarge)),
                Some(n) => if 1 <= n <= MAX_LIMIT {
                    r == Ok::<u32, ApiError>(n)
                } else {
                    r == Err::<u32, ApiError>(bad(ErrorCode::PageTooLarge))
                },
            },
        },
{
    match raw {
        None => limit(None),
        Some(text) => {
            let negative = match text.chars().next() {
                Some(c) => c == '-',
                None => false,
            };
            if negative {
                return Err(ApiError::bad_request(ErrorCode::PageTooLarge));
            }
            match parse_i64(text) {
                Some(v) => {
                    if 0 <= v && v <= 4294967295 {
                        limit(Some(v as u32))
                    } else {
                        Err(ApiError::bad_request(ErrorCode::PageTooLarge))
                    }
                },
                None => Err(ApiError::bad_request(ErrorCode::PageTooLarge)),
            }
        },
    }
}

/// Where the next page starts: after the last row shown, by the key of
/// the sort actually used and the row's id. Nothing when there is no next
/// page.
pub fn next_cursor(rows: &Vec<TaskRow>, has_more: bool, field: SortField) -> (r: Option<(String, u128)>)
    ensures
        !has_more || rows@.len() == 0 ==> r is None,
        has_more && rows@.len() > 0 ==> (r matches Some((k, id)) && k@ == cursor_key_of(
            rows@.last(),
            field,
        ) && id == rows@.last().id),
{
    if !has_more || rows.len() == 0 {
        return None;
    }
    let last = &rows[rows.len() - 1];
    Some((cursor_key(last, field), last.id))
}

/// A list parameter as the filter grammar reads it: `project_id` is an
/// alias for `project`, kept because the endpoint shipped with it.
pub open spec fn grammar_name(name: Seq<char>) -> Seq<char> {
    if name == "project_id"@ {
        "project"@
    } else {
        name
    }
}

/// The query pairs handed to the filter grammar, in order, with the alias
/// rewritten and every value as given.
pub fn search_pairs(params: &Vec<(String, String)>) -> (pairs: Vec<(String, String)>)
    ensures
        pairs@.len() == params@.len(),
        forall|i: int|
            0 <= i < params@.len() ==> (#[trigger] pairs@[i]).0@ == grammar_name(params@[i].0@)
                && pairs@[i].1@ == params@[i].1@,
{
    let mut pairs: Vec<(String, String)> = Vec::new();
    let mut i: usize = 0;
    while i < params.len()
        invariant
            i <= params@.len(),
            pairs@.len() == i,
            forall|k: int|
                0 <= k < i ==> (#[trigger] pairs@[k]).0@ == grammar_name(params@[k].0@)
                    && pairs@[k].1@ == params@[k].1@,
        decreases params.len() - i,
    {
        let name = if str_eq(params[i].0.as_str(), "project_id") {
            proof {
                reveal_strlit("project");
            }
            "project".to_owned()
        } else {
            params[i].0.clone()
        };
        pairs.push((name, params[i].1.clone()));
        i = i + 1;
    }
    pairs
}

/// The assignees of `task` among the page's `(task, user)` pairs, in the
/// order the pairs came.
pub open spec fn assignees_in(pairs: Seq<(u128, u128)>, task: u128) -> Seq<u128>
    decreases pairs.len(),
{
    if pairs.len() == 0 {
        Seq::empty()
    } else {
        let rest = assignees_in(pairs.drop_last(), task);
        if pairs.last().0 == task {
            rest.push(pairs.last().1)
        } else {
            rest
        }
    }
}

/// Who is on a task, from the one query that read the whole page's
/// assignees: a list shows whose work each task is without a query per row.
pub fn assignees_of(pairs: &Vec<(u128, u128)>, task: u128) -> (users: Vec<u128>)
    ensures
        users@ == assignees_in(pairs@, task),
{
    let mut users: Vec<u128> = Vec::new();
    let mut i: usize = 0;
    while i < pairs.len()
        invariant
            i <= pairs@.len(),
            users@ == assignees_in(pairs@.take(i as int), task),
        decreases pairs.len() - i,
    {
        assert(pairs@.take(i + 1).drop_last() =~= pairs@.take(i as int));
        if pairs[i].0 == task {
            users.push(pairs[i].1);
        }
        i = i + 1;
    }
    assert(pairs@.take(pairs@.len() as int) =~= pairs@);
    users
}

/// The key of the project `project` among the projects the caller can
/// reach, or nothing when it is not among them.
pub open spec fn key_for(keys: Seq<(u128, String)>, project: u128) -> Seq<char>
    decreases keys.len(),
{
    if keys.len() == 0 {
        Seq::empty()
    } else if keys[0].0 == project {
        keys[0].1@
    } else {
        key_for(keys.drop_first(), project)
    }
}

fn project_key(keys: &Vec<(u128, String)>, project: u128) -> (k: &str)
    ensures
        k@ == key_for(keys@, project),
{
    let mut i: usize = 0;
    assert(keys@.skip(0) =~= keys@);
    while i < keys.len()
        invariant
            i <= keys@.len(),
            key_for(keys@, project) == key_for(keys@.skip(i as int), project),
        decreases keys.len() - i,
    {
        assert(keys@.skip(i as int).drop_first() =~= keys@.skip(i + 1));
        assert(keys@.skip(i as int)[0] == keys@[i as int]);
        if keys[i].0 == project {
            return keys[i].1.as_str();
        }
        i = i + 1;
    }
    proof {
        reveal_strlit("");
        assert(keys@.skip(i as int).len() == 0);
    }
    ""
}

/// One page of the task list.
#[derive(Debug, Clone, PartialEq, Eq)]
pub struct TaskPage {
    pub data: Vec<TaskView>,
    pub has_more: bool,
    /// Where the next page starts: the sort key and the id of the last row.
    pub next: Option<(String, u128)>,
}

/// The rows a page shows: the probe row fetched to detect a next page is
/// dropped.
pub open spec fn shown(rows: Seq<TaskRow>, limit: u32) -> Seq<TaskRow> {
    if rows.len() > limit {
        rows.take(limit as int)
    } else {
        rows
    }
}

/// Assemble a page from the rows read (one more than the limit when there
/// is a next page), the keys of the projects the caller can reach, and the
/// assignees of the whole page read at once. Each task carries its
/// project's key and its own assignees; the cursor carries the key of the
/// sort actually used, so the next page resumes on the column the query
/// orders by.
pub fn task_page(
    rows: Vec<TaskRow>,
    limit: u32,
    keys: &Vec<(u128, String)>,
    assignees: &Vec<(u128, u128)>,
    field: SortField,
) -> (p: TaskPage)
    ensures
        p.has_more == (rows@.len() > limit),
        p.data@.len() == shown(rows@, limit).len(),
        forall|i: int|
            0 <= i < p.data@.len() ==> {
                let row = #[trigger] shown(rows@, limit)[i];
                &&& represents(p.data@[i], row, key_for(keys@, row.project_id))
                &&& p.data@[i].assignees@ == assignees_in(assignees@, row.id)
            },
        !p.has_more || shown(rows@, limit).len() == 0 ==> p.next is None,
        p.has_more && shown(rows@, limit).len() > 0 ==> (p.next matches Some((k, id)) && k@
            == cursor_key_of(shown(rows@, limit).last(), field) && id == shown(
            rows@,
            limit,
        ).last().id),
{
    let mut rows = rows;
    let has_more = crate::workspaces::truncate(&mut rows, limit);
    let next = next_cursor(&rows, has_more, field);
    let mut data: Vec<TaskView> = Vec::new();
    let mut i: usize = 0;
    while i < rows.len()
        invariant
            i <= rows@.len(),
            data@.len() == i,
            forall|j: int|
                0 <= j < i ==> {
                    let row = #[trigger] rows@[j];
                    &&& represents(data@[j], row, key_for(keys@, row.project_id))
                    &&& data@[j].assignees@ == assignees_in(assignees@, row.id)
                },
        decreases rows.len() - i,
    {
        let row = &rows[i];
        let mut built = view(row, project_key(keys, row.project_id));
        built.assignees = assignees_of(assignees, row.id);
        data.push(built);
        i = i + 1;
    }
    TaskPage { data, has_more, next }
}

} // verus!
