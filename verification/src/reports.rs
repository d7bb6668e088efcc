//! Running a report: a filter plus an aggregation over the same closed
//! field set as the task list. Nothing a report asks can be more than a
//! list could; the checks here keep it that way, and the answer names the
//! scope it was computed over, because two viewers get two right numbers.
use vstd::prelude::*;

use crate::error::{bad, with_status, ApiError, ErrorCode, NOT_IMPLEMENTED};
use crate::tasks::validate::{state_name, state_named, TaskState};
use crate::tasks::wire::{instant_of, text_view};
use crate::text::{owned, str_eq};
use crate::wire::timestamp;

verus! {

/// The most result groups a report returns.
pub const MAX_GROUPS: u32 = 1000;

/// `POST /api/v1/reports/run`. The filter is the same `field: value` map a
/// list URL carries; an absent measure is `count`.
#[derive(Debug, Clone, PartialEq, Eq)]
pub struct RunRequest {
    pub filter: Vec<(String, String)>,
    pub measure: String,
    pub group_by: String,
    pub bucket: Option<BucketRequest>,
    pub limit: Option<u32>,
}

/// The measure a request names when it names none.
pub fn count() -> (m: String)
    ensures
        m@ == "count"@,
{
    "count".to_owned()
}

/// The time grain of a series.
#[derive(Debug, Clone, PartialEq, Eq)]
pub struct BucketRequest {
    pub field: String,
    pub interval: String,
}

/// One group of the answer. A missing key is a real answer: unassigned,
/// untriaged, on no environment.
#[derive(Debug, Clone, PartialEq, Eq)]
pub struct GroupView {
    pub key: Option<String>,
    pub bucket_start: Option<String>,
    pub total: i64,
}

/// What a report can be sliced by: a closed set.
#[derive(Debug, Clone, Copy, PartialEq, Eq, Structural)]
pub enum Dimension {
    Status,
    State,
    Type,
    Priority,
    Project,
    Team,
    Environment,
    Reporter,
    Milestone,
    Assignee,
}

pub open spec fn dimension_named(name: Seq<char>) -> Option<Dimension> {
    if name == "status"@ {
        Some(Dimension::Status)
    } else if name == "state"@ {
        Some(Dimension::State)
    } else if name == "type"@ {
        Some(Dimension::Type)
    } else if name == "priority"@ {
        Some(Dimension::Priority)
    } else if name == "project"@ {
        Some(Dimension::Project)
    } else if name == "team"@ {
        Some(Dimension::Team)
    } else if name == "environment"@ {
        Some(Dimension::Environment)
    } else if name == "reporter"@ {
        Some(Dimension::Reporter)
    } else if name == "milestone"@ {
        Some(Dimension::Milestone)
    } else if name == "assignee"@ {
        Some(Dimension::Assignee)
    } else {
        None
    }
}

/// A refused report request: the error, the request field at fault, and
/// the value it held, echoed so the client sees what it sent.
#[derive(Debug, Clone, PartialEq, Eq)]
pub struct ReportRefusal {
    pub error: ApiError,
    pub field: &'static str,
    pub value: String,
}

impl ReportRefusal {
    pub fn status(&self) -> (s: u16)
        ensures
            s == self.error.status,
    {
        self.error.status
    }

    pub fn code(&self) -> (c: ErrorCode)
        ensures
            c == self.error.code,
    {
        self.error.code
    }
}

/// `e` refuses with `error`, naming `field` and echoing `value`.
pub open spec fn names(e: ReportRefusal, error: ApiError, field: Seq<char>, value: Seq<char>) -> bool {
    e.error == error && e.field@ == field && e.value@ == value
}

/// The dimension `group_by` names, or `400`.
pub fn dimension_of(name: &str) -> (r: Result<Dimension, ReportRefusal>)
    ensures
        match dimension_named(name@) {
            Some(d) => r == Ok::<Dimension, ReportRefusal>(d),
            None => r matches Err(e) && names(e, bad(ErrorCode::OutOfRange), "group_by"@, name@),
        },
{
    if str_eq(name, "status") {
        Ok(Dimension::Status)
    } else if str_eq(name, "state") {
        Ok(Dimension::State)
    } else if str_eq(name, "type") {
        Ok(Dimension::Type)
    } else if str_eq(name, "priority") {
        Ok(Dimension::Priority)
    } else if str_eq(name, "project") {
        Ok(Dimension::Project)
    } else if str_eq(name, "team") {
        Ok(Dimension::Team)
    } else if str_eq(name, "environment") {
        Ok(Dimension::Environment)
    } else if str_eq(name, "reporter") {
        Ok(Dimension::Reporter)
    } else if str_eq(name, "milestone") {
        Ok(Dimension::Milestone)
    } else if str_eq(name, "assignee") {
        Ok(Dimension::Assignee)
    } else {
        Err(
            ReportRefusal {
                error: ApiError::bad_request(ErrorCode::OutOfRange),
                field: "group_by",
                value: owned(name),
            },
        )
    }
}

/// How a duration measure reduces its samples.
#[derive(Debug, Clone, Copy, PartialEq, Eq, Structural)]
pub enum Reduce {
    P50,
    P90,
    Avg,
}

/// What number a report computes.
#[derive(Debug, Clone, Copy, PartialEq, Eq, Structural)]
pub enum Measure {
    Count,
    TimeInState(Reduce),
}

/// The measures that read state occupancy, which this build keeps no
/// bounded projection of.
pub open spec fn unbuilt_measure(name: Seq<char>) -> bool {
    name == "cycle_time"@ || name == "lead_time"@ || name == "time_in_state"@ || name
        == "throughput"@
}

/// The refusal of a measure other than `count`.
pub open spec fn measure_error(name: Seq<char>) -> ApiError {
    if unbuilt_measure(name) {
        with_status(NOT_IMPLEMENTED, ErrorCode::NotBuilt)
    } else {
        bad(ErrorCode::OutOfRange)
    }
}

/// `count` is answered. The occupancy measures are refused by name with
/// `501`, never answered with counts someone would then quote; anything
/// else is `400`.
pub fn measure_of(name: &str) -> (r: Result<Measure, ReportRefusal>)
    ensures
        name@ == "count"@ ==> r == Ok::<Measure, ReportRefusal>(Measure::Count),
        name@ != "count"@ ==> (r matches Err(e) && names(e, measure_error(name@), "measure"@, name@)),
{
    if str_eq(name, "count") {
        Ok(Measure::Count)
    } else if str_eq(name, "cycle_time") || str_eq(name, "lead_time") || str_eq(
        name,
        "time_in_state",
    ) || str_eq(name, "throughput") {
        Err(
            ReportRefusal {
                error: ApiError::new(NOT_IMPLEMENTED, ErrorCode::NotBuilt),
                field: "measure",
                value: owned(name),
            },
        )
    } else {
        Err(
            ReportRefusal {
                error: ApiError::bad_request(ErrorCode::OutOfRange),
                field: "measure",
                value: owned(name),
            },
        )
    }
}

/// The state a report narrows to. Time in state needs one of the five
/// permanent states, named exactly: there is no sensible default. Every
/// other measure takes none, and gets the empty string: a state beside
/// `count` would be a parameter the answer ignores.
pub open spec fn state_answer(measure: Measure, state: Option<Seq<char>>) -> Result<
    Seq<char>,
    ApiError,
> {
    match measure {
        Measure::TimeInState(_) => match state {
            None => Err(bad(ErrorCode::MissingField)),
            Some(s) => match state_named(s) {
                Some(_) => Ok(s),
                None => Err(bad(ErrorCode::InvalidEnum)),
            },
        },
        Measure::Count => match state {
            None => Ok(Seq::empty()),
            Some(_) => Err(bad(ErrorCode::OutOfRange)),
        },
    }
}

/// The state a report is about, checked against its measure.
pub fn state_for(measure: Measure, state: Option<&str>) -> (r: Result<&'static str, ApiError>)
    ensures
        match state_answer(measure, text_of(state)) {
            Ok(s) => r matches Ok(t) && t@ == s,
            Err(e) => r == Err::<&'static str, ApiError>(e),
        },
{
    match measure {
        Measure::TimeInState(_) => match state {
            None => Err(ApiError::bad_request(ErrorCode::MissingField)),
            Some(s) => match TaskState::parse(s) {
                Some(parsed) => {
                    assert(state_name(parsed) == s@);
                    Ok(parsed.as_str())
                },
                None => Err(ApiError::bad_request(ErrorCode::InvalidEnum)),
            },
        },
        Measure::Count => match state {
            None => {
                proof {
                    reveal_strlit("");
                }
                Ok("")
            },
            Some(_) => Err(ApiError::bad_request(ErrorCode::OutOfRange)),
        },
    }
}

/// An optional text as plain values.
pub open spec fn text_of(state: Option<&str>) -> Option<Seq<char>> {
    match state {
        Some(s) => Some(s@),
        None => None,
    }
}

/// The instant a series is bucketed by.
#[derive(Debug, Clone, Copy, PartialEq, Eq, Structural)]
pub enum BucketField {
    CreatedAt,
    UpdatedAt,
    DueAt,
}

#[derive(Debug, Clone, Copy, PartialEq, Eq, Structural)]
pub enum Interval {
    Day,
    Week,
    Month,
}

#[derive(Debug, Clone, Copy, PartialEq, Eq, Structural)]
pub struct Bucket {
    pub field: BucketField,
    pub interval: Interval,
}

pub open spec fn bucket_field_named(name: Seq<char>) -> Option<BucketField> {
    if name == "created_at"@ {
        Some(BucketField::CreatedAt)
    } else if name == "updated_at"@ {
        Some(BucketField::UpdatedAt)
    } else if name == "due_at"@ {
        Some(BucketField::DueAt)
    } else {
        None
    }
}

pub open spec fn interval_named(name: Seq<char>) -> Option<Interval> {
    if name == "day"@ {
        Some(Interval::Day)
    } else if name == "week"@ {
        Some(Interval::Week)
    } else if name == "month"@ {
        Some(Interval::Month)
    } else {
        None
    }
}

/// What checking a bucket answers: the field is checked first, then the
/// interval, and a refusal names the one at fault.
pub open spec fn bucket_answer(request: BucketRequest, r: Result<Bucket, ReportRefusal>) -> bool {
    match bucket_field_named(request.field@) {
        None => r matches Err(e) && names(e, bad(ErrorCode::OutOfRange), "field"@, request.field@),
        Some(f) => match interval_named(request.interval@) {
            None => r matches Err(e) && names(
                e,
                bad(ErrorCode::OutOfRange),
                "interval"@,
                request.interval@,
            ),
            Some(i) => r == Ok::<Bucket, ReportRefusal>(Bucket { field: f, interval: i }),
        },
    }
}

/// A series' grain: one of three instants, one of three intervals.
pub fn bucket_of(request: &BucketRequest) -> (r: Result<Bucket, ReportRefusal>)
    ensures
        bucket_answer(*request, r),
{
    let f = request.field.as_str();
    let field = if str_eq(f, "created_at") {
        BucketField::CreatedAt
    } else if str_eq(f, "updated_at") {
        BucketField::UpdatedAt
    } else if str_eq(f, "due_at") {
        BucketField::DueAt
    } else {
        return Err(
            ReportRefusal {
                error: ApiError::bad_request(ErrorCode::OutOfRange),
                field: "field",
                value: owned(f),
            },
        );
    };
    let i = request.interval.as_str();
    let interval = if str_eq(i, "day") {
        Interval::Day
    } else if str_eq(i, "week") {
        Interval::Week
    } else if str_eq(i, "month") {
        Interval::Month
    } else {
        return Err(
            ReportRefusal {
                error: ApiError::bad_request(ErrorCode::OutOfRange),
                field: "interval",
                value: owned(i),
            },
        );
    };
    Ok(Bucket { field, interval })
}

/// What a run will compute: checked before any filter is read.
#[derive(Debug, Clone, Copy, PartialEq, Eq, Structural)]
pub struct ReportPlan {
    pub dimension: Dimension,
    pub measure: Measure,
    pub bucket: Option<Bucket>,
    pub limit: u32,
}

/// The group limit: the requested one brought into 1 to [`MAX_GROUPS`],
/// the ceiling when none was asked.
pub open spec fn group_limit(requested: Option<u32>) -> u32 {
    match requested {
        None => MAX_GROUPS,
        Some(n) => if n < 1 {
            1
        } else if n > MAX_GROUPS {
            MAX_GROUPS
        } else {
            n
        },
    }
}

/// Check a run request, in order: the dimension, the measure, the bucket;
/// then bound the number of groups.
pub fn plan(body: &RunRequest) -> (r: Result<ReportPlan, ReportRefusal>)
    ensures
        match dimension_named(body.group_by@) {
            None => r matches Err(e) && names(
                e,
                bad(ErrorCode::OutOfRange),
                "group_by"@,
                body.group_by@,
            ),
            Some(d) => if body.measure@ != "count"@ {
                r matches Err(e) && names(e, measure_error(body.measure@), "measure"@, body.measure@)
            } else {
                match body.bucket {
                    Some(b) if bucket_field_named(b.field@) is None || interval_named(
                        b.interval@,
                    ) is None => r matches Err(e) && bucket_answer(b, Err(e)),
                    _ => r matches Ok(p) && p.dimension == d && p.measure == Measure::Count
                        && p.limit == group_limit(body.limit) && (match body.bucket {
                        None => p.bucket is None,
                        Some(b) => p.bucket == Some(
                            Bucket {
                                field: bucket_field_named(b.field@)->0,
                                interval: interval_named(b.interval@)->0,
                            },
                        ),
                    }),
                }
            },
        },
{
    let dimension = match dimension_of(body.group_by.as_str()) {
        Ok(d) => d,
        Err(e) => return Err(e),
    };
    let measure = match measure_of(body.measure.as_str()) {
        Ok(m) => m,
        Err(e) => return Err(e),
    };
    let bucket = match &body.bucket {
        Some(b) => match bucket_of(b) {
            Ok(x) => Some(x),
            Err(e) => return Err(e),
        },
        None => None,
    };
    let limit = match body.limit {
        None => MAX_GROUPS,
        Some(n) => if n < 1 {
            1
        } else if n > MAX_GROUPS {
            MAX_GROUPS
        } else {
            n
        },
    };
    Ok(ReportPlan { dimension, measure, bucket, limit })
}

/// One row the database returns for a report: the group key, the start of
/// its bucket in nanoseconds after the epoch, and the count.
#[derive(Debug, Clone, PartialEq, Eq)]
pub struct ReportRow {
    pub key: Option<String>,
    pub bucket_start: Option<i128>,
    pub total: i64,
}

/// A row as the answer shows it.
pub fn group_view(row: &ReportRow) -> (g: GroupView)
    ensures
        g.key == row.key,
        text_view(g.bucket_start) == instant_of(row.bucket_start),
        g.total == row.total,
{
    GroupView {
        key: match &row.key {
            Some(k) => Some(k.clone()),
            None => None,
        },
        bucket_start: match row.bucket_start {
            Some(n) => Some(timestamp(n)),
            None => None,
        },
        total: row.total,
    }
}

/// The sum of the groups' totals.
pub open spec fn sum_totals(groups: Seq<GroupView>) -> int
    decreases groups.len(),
{
    if groups.len() == 0 {
        0
    } else {
        sum_totals(groups.drop_last()) + groups.last().total
    }
}

/// Every prefix of the groups sums within `i64`: what adding them up in
/// order needs.
pub open spec fn sums_fit(groups: Seq<GroupView>) -> bool {
    forall|k: int|
        0 <= k <= groups.len() ==> i64::MIN <= #[trigger] sum_totals(groups.take(k)) <= i64::MAX
}

/// The report's total: the sum of what its groups count.
pub fn total_of(groups: &Vec<GroupView>) -> (t: i64)
    requires
        sums_fit(groups@),
    ensures
        t == sum_totals(groups@),
{
    let mut t: i64 = 0;
    let mut i: usize = 0;
    assert(groups@.take(0) =~= Seq::<GroupView>::empty());
    while i < groups.len()
        invariant
            i <= groups@.len(),
            sums_fit(groups@),
            t == sum_totals(groups@.take(i as int)),
        decreases groups.len() - i,
    {
        assert(groups@.take(i + 1).drop_last() =~= groups@.take(i as int));
        assert(i64::MIN <= sum_totals(groups@.take(i + 1)) <= i64::MAX);
        t = t + groups[i].total;
        i = i + 1;
    }
    assert(groups@.take(groups@.len() as int) =~= groups@);
    t
}

/// The answer to a run: the slice and measure asked for, the groups, their
/// total, and how many projects the numbers were computed over.
#[derive(Debug, Clone, PartialEq, Eq)]
pub struct ReportAnswer {
    pub group_by: String,
    pub measure: String,
    pub groups: Vec<GroupView>,
    pub total: i64,
    pub scope_projects: usize,
}

/// Assemble the answer from the rows the database returned.
pub fn answer(group_by: String, rows: &Vec<ReportRow>, scope_projects: usize) -> (a: ReportAnswer)
    requires
        forall|k: int|
            0 <= k <= rows@.len() ==> i64::MIN <= #[trigger] row_sum(rows@.take(k)) <= i64::MAX,
    ensures
        a.group_by == group_by,
        a.measure@ == "count"@,
        a.groups@.len() == rows@.len(),
        forall|k: int|
            0 <= k < rows@.len() ==> {
                &&& (#[trigger] a.groups@[k]).total == rows@[k].total
                &&& a.groups@[k].key == rows@[k].key
                &&& text_view(a.groups@[k].bucket_start) == instant_of(rows@[k].bucket_start)
            },
        a.total == row_sum(rows@),
        a.total == sum_totals(a.groups@),
        a.scope_projects == scope_projects,
{
    let mut groups: Vec<GroupView> = Vec::new();
    let mut i: usize = 0;
    while i < rows.len()
        invariant
            i <= rows@.len(),
            groups@.len() == i,
            forall|k: int|
                0 <= k < i ==> {
                    &&& (#[trigger] groups@[k]).total == rows@[k].total
                    &&& groups@[k].key == rows@[k].key
                    &&& text_view(groups@[k].bucket_start) == instant_of(rows@[k].bucket_start)
                },
        decreases rows.len() - i,
    {
        groups.push(group_view(&rows[i]));
        i = i + 1;
    }
    proof {
        lemma_same_sums(groups@, rows@);
        assert(groups@.take(groups@.len() as int) =~= groups@);
        assert(rows@.take(rows@.len() as int) =~= rows@);
        assert forall|k: int| 0 <= k <= groups@.len() implies i64::MIN <= #[trigger] sum_totals(
            groups@.take(k),
        ) <= i64::MAX by {
            assert(sum_totals(groups@.take(k)) == row_sum(rows@.take(k)));
        }
    }
    let total = total_of(&groups);
    ReportAnswer { group_by, measure: count(), groups, total, scope_projects }
}

/// The sum of the rows' counts.
pub open spec fn row_sum(rows: Seq<ReportRow>) -> int
    decreases rows.len(),
{
    if rows.len() == 0 {
        0
    } else {
        row_sum(rows.drop_last()) + rows.last().total
    }
}

proof fn lemma_same_sums(groups: Seq<GroupView>, rows: Seq<ReportRow>)
    requires
        groups.len() == rows.len(),
        forall|k: int| 0 <= k < rows.len() ==> (#[trigger] groups[k]).total == rows[k].total,
    ensures
        forall|k: int| 0 <= k <= rows.len() ==> #[trigger] sum_totals(groups.take(k)) == row_sum(rows.take(k)),
    decreases rows.len(),
{
    assert forall|k: int| 0 <= k <= rows.len() implies #[trigger] sum_totals(groups.take(k)) == row_sum(
        rows.take(k),
    ) by {
        lemma_same_prefix_sums(groups, rows, k);
    }
}

proof fn lemma_same_prefix_sums(groups: Seq<GroupView>, rows: Seq<ReportRow>, k: int)
    requires
        groups.len() == rows.len(),
        0 <= k <= rows.len(),
        forall|j: int| 0 <= j < rows.len() ==> (#[trigger] groups[j]).total == rows[j].total,
    ensures
        sum_totals(groups.take(k)) == row_sum(rows.take(k)),
    decreases k,
{
    if k > 0 {
        lemma_same_prefix_sums(groups, rows, k - 1);
        assert(groups.take(k).drop_last() =~= groups.take(k - 1));
        assert(rows.take(k).drop_last() =~= rows.take(k - 1));
    }
}

} // verus!
