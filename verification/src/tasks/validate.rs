//! Field-level validation of tasks: pure functions over request values, each
//! returning the documented refusal rather than a bare "no".
use vstd::prelude::*;

use crate::error::{bad, ApiError, ErrorCode};
use crate::text::{char_count, one_of_strs, str_eq, trim, trimmed, trimmed_within};
use crate::wire::{parse_rfc3339, rfc3339_instant};

verus! {

/// The five permanent states. Closed for the life of the API: a team renames
/// and reorders statuses; it never invents a state.
#[derive(Debug, Clone, Copy, PartialEq, Eq, Structural)]
pub enum TaskState {
    Backlog,
    Planned,
    Active,
    Completed,
    Canceled,
}

/// The stored and wire spelling of a state.
pub open spec fn state_name(state: TaskState) -> Seq<char> {
    match state {
        TaskState::Backlog => "BACKLOG"@,
        TaskState::Planned => "PLANNED"@,
        TaskState::Active => "ACTIVE"@,
        TaskState::Completed => "COMPLETED"@,
        TaskState::Canceled => "CANCELED"@,
    }
}

/// The state a spelling names: exactly one of the five, in capitals.
pub open spec fn state_named(text: Seq<char>) -> Option<TaskState> {
    if text == "BACKLOG"@ {
        Some(TaskState::Backlog)
    } else if text == "PLANNED"@ {
        Some(TaskState::Planned)
    } else if text == "ACTIVE"@ {
        Some(TaskState::Active)
    } else if text == "COMPLETED"@ {
        Some(TaskState::Completed)
    } else if text == "CANCELED"@ {
        Some(TaskState::Canceled)
    } else {
        None
    }
}

impl TaskState {
    /// Every state, in workflow order.
    pub fn all() -> (v: Vec<TaskState>)
        ensures
            v@ == seq![
                TaskState::Backlog,
                TaskState::Planned,
                TaskState::Active,
                TaskState::Completed,
                TaskState::Canceled,
            ],
    {
        let mut v = Vec::new();
        v.push(TaskState::Backlog);
        v.push(TaskState::Planned);
        v.push(TaskState::Active);
        v.push(TaskState::Completed);
        v.push(TaskState::Canceled);
        v
    }

    /// The state a spelling names, or `None`.
    pub fn parse(text: &str) -> (r: Option<TaskState>)
        ensures
            r == state_named(text@),
    {
        if str_eq(text, "BACKLOG") {
            Some(TaskState::Backlog)
        } else if str_eq(text, "PLANNED") {
            Some(TaskState::Planned)
        } else if str_eq(text, "ACTIVE") {
            Some(TaskState::Active)
        } else if str_eq(text, "COMPLETED") {
            Some(TaskState::Completed)
        } else if str_eq(text, "CANCELED") {
            Some(TaskState::Canceled)
        } else {
            None
        }
    }

    /// The stored spelling. Exhaustive, so a sixth state cannot appear
    /// without deciding what it is called on disk.
    pub fn as_str(self) -> (s: &'static str)
        ensures
            s@ == state_name(self),
    {
        match self {
            TaskState::Backlog => "BACKLOG",
            TaskState::Planned => "PLANNED",
            TaskState::Active => "ACTIVE",
            TaskState::Completed => "COMPLETED",
            TaskState::Canceled => "CANCELED",
        }
    }

    /// Completed and canceled are the two terminal states.
    pub open spec fn terminal(self) -> bool {
        self == TaskState::Completed || self == TaskState::Canceled
    }
}

/// Every state reads back as itself: parsing a state's own spelling gives
/// that state.
pub proof fn law_state_spelling_round_trips(state: TaskState)
    ensures
        state_named(state_name(state)) == Some(state),
{
    reveal_strlit("BACKLOG");
    reveal_strlit("PLANNED");
    reveal_strlit("ACTIVE");
    reveal_strlit("COMPLETED");
    reveal_strlit("CANCELED");
    assert("BACKLOG"@[0] != "PLANNED"@[0]);
    assert("BACKLOG"@.len() != "ACTIVE"@.len());
    assert("BACKLOG"@[1] != "COMPLETED"@[1]);
    assert("BACKLOG"@.len() != "CANCELED"@.len());
    assert("PLANNED"@.len() != "ACTIVE"@.len());
    assert("PLANNED"@[0] != "COMPLETED"@[0]);
    assert("PLANNED"@.len() != "CANCELED"@.len());
    assert("ACTIVE"@.len() != "COMPLETED"@.len());
    assert("ACTIVE"@.len() != "CANCELED"@.len());
    assert("COMPLETED"@.len() != "CANCELED"@.len());
}

/// The stored spelling of a state.
pub fn state_wire(state: TaskState) -> (s: &'static str)
    ensures
        s@ == state_name(state),
{
    state.as_str()
}

/// The most characters a title may have: the schema's own bound.
pub const MAX_TITLE: usize = 512;

/// The most bytes a description, or a transition comment, may have.
pub const MAX_TEXT: usize = 65536;

/// A title: trimmed, 1 to [`MAX_TITLE`] characters, so the caller gets a
/// described bound rather than a `500` from a constraint.
pub fn validated_title(title: &str) -> (r: Result<&str, ApiError>)
    ensures
        match r {
            Ok(t) => t@ == trimmed(title@) && 0 < t@.len() <= MAX_TITLE,
            Err(e) => e == bad(ErrorCode::OutOfRange) && (trimmed(title@).len() == 0 || trimmed(
                title@,
            ).len() > MAX_TITLE),
        },
{
    match trimmed_within(title, MAX_TITLE) {
        Some(t) => Ok(t),
        None => Err(ApiError::bad_request(ErrorCode::OutOfRange)),
    }
}

/// `task_type`, as the schema declares it.
pub const TASK_TYPES: [&'static str; 5] = ["TASK", "BUG", "FEATURE", "INCIDENT", "REQUEST"];

/// `task_priority`, in its declared order.
pub const PRIORITIES: [&'static str; 5] = ["NONE", "LOW", "MEDIUM", "HIGH", "URGENT"];

pub open spec fn listed(allowed: Seq<&str>, value: Seq<char>) -> bool {
    exists|i: int| 0 <= i < allowed.len() && allowed[i]@ == value
}

/// An enumerated field: absent is the default; present must be one of
/// `allowed`. An unknown value is refused rather than defaulted.
pub fn one_of<'a>(value: Option<&'a str>, allowed: &[&'static str], default: &'a str) -> (r: Result<
    &'a str,
    ApiError,
>)
    ensures
        match value {
            None => r == Ok::<&str, ApiError>(default),
            Some(v) => if listed(allowed@, v@) {
                r == Ok::<&str, ApiError>(v)
            } else {
                r == Err::<&str, ApiError>(bad(ErrorCode::InvalidEnum))
            },
        },
{
    match value {
        None => Ok(default),
        Some(v) => {
            if one_of_strs(v, allowed) {
                Ok(v)
            } else {
                Err(ApiError::bad_request(ErrorCode::InvalidEnum))
            }
        },
    }
}

/// The kinds of task.
#[derive(Debug, Clone, Copy, PartialEq, Eq, Structural)]
pub enum TaskType {
    Task,
    Bug,
    Feature,
    Incident,
    Request,
}

pub open spec fn task_type_named(stored: Seq<char>) -> Option<TaskType> {
    if stored == "TASK"@ {
        Some(TaskType::Task)
    } else if stored == "BUG"@ {
        Some(TaskType::Bug)
    } else if stored == "FEATURE"@ {
        Some(TaskType::Feature)
    } else if stored == "INCIDENT"@ {
        Some(TaskType::Incident)
    } else if stored == "REQUEST"@ {
        Some(TaskType::Request)
    } else {
        None
    }
}

/// The stored type as the enum; `None` for anything unrecognised rather
/// than a default, so a type constraint is satisfied only by a type it lists
/// and an unknown value denies.
pub fn task_type_of(stored: &str) -> (r: Option<TaskType>)
    ensures
        r == task_type_named(stored@),
{
    if str_eq(stored, "TASK") {
        Some(TaskType::Task)
    } else if str_eq(stored, "BUG") {
        Some(TaskType::Bug)
    } else if str_eq(stored, "FEATURE") {
        Some(TaskType::Feature)
    } else if str_eq(stored, "INCIDENT") {
        Some(TaskType::Incident)
    } else if str_eq(stored, "REQUEST") {
        Some(TaskType::Request)
    } else {
        None
    }
}

/// A patch's nullable timestamp: absent leaves it alone (`None`), `null`
/// clears it (`Some(None)`), and text must be RFC 3339.
pub fn optional_timestamp(value: Option<Option<&str>>) -> (r: Result<Option<Option<i128>>, ApiError>)
    ensures
        match value {
            None => r == Ok::<Option<Option<i128>>, ApiError>(None),
            Some(None) => r == Ok::<Option<Option<i128>>, ApiError>(Some(None)),
            Some(Some(raw)) => match rfc3339_instant(raw@) {
                Some(n) => r matches Ok(Some(Some(m))) && m == n,
                None => r == Err::<Option<Option<i128>>, ApiError>(bad(ErrorCode::MalformedBody)),
            },
        },
{
    match value {
        None => Ok(None),
        Some(None) => Ok(Some(None)),
        Some(Some(raw)) => match parse_rfc3339(raw) {
            Some(at) => Ok(Some(Some(at))),
            None => Err(ApiError::bad_request(ErrorCode::MalformedBody)),
        },
    }
}

/// What a submitted field value is, as far as "present and non-empty"
/// needs to know.
#[derive(Debug, Clone, PartialEq, Eq)]
pub enum FieldValue {
    Null,
    Bool(bool),
    Number,
    Text(String),
    /// An array, by its number of elements.
    List(usize),
    /// An object, by its number of members.
    Object(usize),
}

pub open spec fn empty_value(value: FieldValue) -> bool {
    match value {
        FieldValue::Null => true,
        FieldValue::Text(s) => trimmed(s@).len() == 0,
        FieldValue::List(n) => n == 0,
        FieldValue::Object(n) => n == 0,
        _ => false,
    }
}

/// Whether a supplied value counts as absent: `null`, blank text, an empty
/// list or object is a field the user did not fill in, and accepting one
/// would make a required field a formality.
pub fn is_empty_value(value: &FieldValue) -> (r: bool)
    ensures
        r == empty_value(*value),
{
    match value {
        FieldValue::Null => true,
        FieldValue::Text(s) => char_count(trim(s.as_str())) == 0,
        FieldValue::List(n) => *n == 0,
        FieldValue::Object(n) => *n == 0,
        _ => false,
    }
}

/// A text field bounded in bytes.
pub fn within_bytes(text: Option<&str>, max: usize) -> (r: Result<(), ApiError>)
    ensures
        match text {
            Some(t) => (t.len() > max) <==> r is Err,
            None => r is Ok,
        },
        r is Err ==> r == Err::<(), ApiError>(bad(ErrorCode::OutOfRange)),
{
    match text {
        Some(t) => {
            if t.len() > max {
                Err(ApiError::bad_request(ErrorCode::OutOfRange))
            } else {
                Ok(())
            }
        },
        None => Ok(()),
    }
}

} // verus!
