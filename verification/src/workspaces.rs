//! Workspaces, membership and teams: the request shapes, and every decision
//! the handlers make that is not a database read.
//!
//! Non-membership never reaches a handler (the membership check answers `404`
//! first), and the handlers keep that property below it: a team in another
//! tenant reads back as absent and gets the same `404` as one never created.
use vstd::prelude::*;

use crate::error::{bad, conflicting, missing, refused, with_status, ApiError, ErrorCode, INTERNAL, PRECONDITION_REQUIRED};
use crate::rate_limit::layer::ActorType;
use crate::text::{
    chars_of, decimal_int, i64_to_decimal, one_of_strs, parse_i64, parse_i64_spec, push_char,
    str_eq, trim, trimmed, trimmed_within, decimal_nat, is_digit, is_space,
};
use crate::tasks::wire::instant_text;
use crate::wire::{timestamp, DEFAULT_LIMIT, MAX_LIMIT};

verus! {

/// The longest workspace or team name, in characters.
pub const MAX_NAME: usize = 200;

/// The longest slug.
pub const MAX_SLUG: usize = 64;

/// `POST /api/v1/workspaces`.
#[derive(Debug, Clone, PartialEq, Eq)]
pub struct CreateWorkspace {
    pub name: String,
    pub slug: String,
}

/// `PATCH /api/v1/workspaces/{workspace_id}`.
#[derive(Debug, Clone, PartialEq, Eq)]
pub struct RenameWorkspace {
    pub name: String,
}

/// `POST /api/v1/workspaces/{workspace_id}/teams`.
#[derive(Debug, Clone, PartialEq, Eq)]
pub struct CreateTeam {
    pub name: String,
}

/// `POST /api/v1/workspaces/{workspace_id}/members`. An absent type is
/// `MEMBER`: the narrower guest shape has to be asked for.
#[derive(Debug, Clone, PartialEq, Eq)]
pub struct AddMember {
    pub user_id: u128,
    pub member_type: Option<String>,
}

/// `POST /api/v1/teams/{team_id}/members`.
#[derive(Debug, Clone, PartialEq, Eq)]
pub struct AddTeamMember {
    pub user_id: u128,
}

/// `/workspaces/{workspace_id}/members/{user_id}`.
#[derive(Debug, Clone, Copy, PartialEq, Eq, Structural)]
pub struct MemberPath {
    pub workspace_id: u128,
    pub user_id: u128,
}

/// `/teams/{team_id}/members`.
#[derive(Debug, Clone, Copy, PartialEq, Eq, Structural)]
pub struct TeamPath {
    pub team_id: u128,
}

/// `/teams/{team_id}/members/{user_id}`.
#[derive(Debug, Clone, Copy, PartialEq, Eq, Structural)]
pub struct TeamMemberPath {
    pub team_id: u128,
    pub user_id: u128,
}

/// A workspace as stored. Instants are nanoseconds after the Unix epoch.
#[derive(Debug, Clone, PartialEq, Eq)]
pub struct WorkspaceRecord {
    pub id: u128,
    pub name: String,
    pub slug: String,
    pub created_at: i128,
}

/// A member as stored. The email is gone once the account is anonymized.
#[derive(Debug, Clone, PartialEq, Eq)]
pub struct MemberRecord {
    pub user_id: u128,
    pub display_name: String,
    pub email: Option<String>,
    pub member_type: String,
    pub joined_at: i128,
}

/// A team member as stored.
#[derive(Debug, Clone, PartialEq, Eq)]
pub struct TeamMemberRecord {
    pub user_id: u128,
    pub display_name: String,
    pub email: Option<String>,
    pub member_type: String,
}

/// A team as stored.
#[derive(Debug, Clone, PartialEq, Eq)]
pub struct TeamRecord {
    pub id: u128,
    pub name: String,
    pub created_at: i128,
}

/// A workspace as the API writes it.
#[derive(Debug, Clone, PartialEq, Eq)]
pub struct WorkspaceBody {
    pub id: u128,
    pub name: String,
    pub slug: String,
    pub created_at: String,
}

/// A member as the API writes it.
#[derive(Debug, Clone, PartialEq, Eq)]
pub struct MemberBody {
    pub user_id: u128,
    pub display_name: String,
    pub email: Option<String>,
    pub member_type: String,
    pub joined_at: String,
}

/// A team member as the API writes it.
#[derive(Debug, Clone, PartialEq, Eq)]
pub struct TeamMemberBody {
    pub user_id: u128,
    pub display_name: String,
    pub email: Option<String>,
    pub member_type: String,
}

/// A team as the API writes it.
#[derive(Debug, Clone, PartialEq, Eq)]
pub struct TeamBody {
    pub id: u128,
    pub name: String,
    pub created_at: String,
}

/// The representation of a stored workspace; instants are RFC 3339 at UTC.
pub fn workspace_body(record: &WorkspaceRecord) -> (b: WorkspaceBody)
    ensures
        b.id == record.id,
        b.name == record.name,
        b.slug == record.slug,
        b.created_at@ == instant_text(record.created_at as int),
{
    WorkspaceBody {
        id: record.id,
        name: record.name.clone(),
        slug: record.slug.clone(),
        created_at: timestamp(record.created_at),
    }
}

/// The representation of a stored member.
pub fn member_body(record: &MemberRecord) -> (b: MemberBody)
    ensures
        b.user_id == record.user_id,
        b.display_name == record.display_name,
        b.email == record.email,
        b.member_type == record.member_type,
        b.joined_at@ == instant_text(record.joined_at as int),
{
    MemberBody {
        user_id: record.user_id,
        display_name: record.display_name.clone(),
        email: record.email.clone(),
        member_type: record.member_type.clone(),
        joined_at: timestamp(record.joined_at),
    }
}

/// The representation of a stored team member.
pub fn team_member_body(record: &TeamMemberRecord) -> (b: TeamMemberBody)
    ensures
        b.user_id == record.user_id,
        b.display_name == record.display_name,
        b.email == record.email,
        b.member_type == record.member_type,
{
    TeamMemberBody {
        user_id: record.user_id,
        display_name: record.display_name.clone(),
        email: record.email.clone(),
        member_type: record.member_type.clone(),
    }
}

/// The representation of a stored team.
pub fn team_body(record: &TeamRecord) -> (b: TeamBody)
    ensures
        b.id == record.id,
        b.name == record.name,
        b.created_at@ == instant_text(record.created_at as int),
{
    TeamBody { id: record.id, name: record.name.clone(), created_at: timestamp(record.created_at) }
}

/// Cursor pagination parameters.
#[derive(Debug, Clone, PartialEq, Eq)]
pub struct Paging {
    pub limit: Option<u32>,
    /// The opaque `next_cursor` from a previous page.
    pub cursor: Option<String>,
}

/// The list envelope.
#[derive(Debug, Clone, PartialEq, Eq)]
pub struct PageInfo {
    pub next_cursor: Option<String>,
    pub has_more: bool,
}

/// `{ "data": [...], "page": { ... } }`.
#[derive(Debug, Clone, PartialEq, Eq)]
pub struct PageBody<T> {
    pub data: Vec<T>,
    pub page: PageInfo,
}

/// A page of `data`: the cursor is kept only when there is more.
pub fn page_body<T>(data: Vec<T>, has_more: bool, next: Option<String>) -> (p: PageBody<T>)
    ensures
        p.data@ == data@,
        p.page.has_more == has_more,
        p.page.next_cursor == (if has_more {
            next
        } else {
            None
        }),
{
    PageBody { data, page: PageInfo { next_cursor: if has_more { next } else { None }, has_more } }
}

/// Only a person may create a workspace or list their own: a bearer token is
/// scoped to one workspace, and using one to reach another is outside what it
/// was issued for. `403`, not `404`: the endpoint is not hidden.
pub fn only_a_person(actor: ActorType) -> (r: Result<(), ApiError>)
    ensures
        actor == ActorType::User <==> r is Ok,
        actor != ActorType::User ==> r == Err::<(), ApiError>(
            crate::error::denied(ErrorCode::WrongCredentialType),
        ),
{
    match actor {
        ActorType::User => Ok(()),
        _ => Err(ApiError::denied(ErrorCode::WrongCredentialType)),
    }
}

/// A name: trimmed, then 1 to [`MAX_NAME`] characters.
pub fn valid_name(name: &str) -> (r: Result<&str, ApiError>)
    ensures
        match r {
            Ok(t) => t@ == trimmed(name@) && 0 < t@.len() <= MAX_NAME,
            Err(e) => e == bad(ErrorCode::OutOfRange) && (trimmed(name@).len() == 0 || trimmed(
                name@,
            ).len() > MAX_NAME),
        },
{
    match trimmed_within(name, MAX_NAME) {
        Some(t) => Ok(t),
        None => Err(ApiError::bad_request(ErrorCode::OutOfRange)),
    }
}

pub open spec fn is_slug_char(c: char) -> bool {
    ('a' <= c && c <= 'z') || ('0' <= c && c <= '9') || c == '-'
}

/// A slug is URL-visible, so its character set is bounded rather than
/// trusted: 1 to [`MAX_SLUG`] of `a-z`, `0-9` and `-`, starting with a letter
/// or digit.
pub open spec fn is_slug(s: Seq<char>) -> bool {
    &&& 0 < s.len() <= MAX_SLUG
    &&& s[0] != '-'
    &&& forall|i: int| 0 <= i < s.len() ==> is_slug_char(#[trigger] s[i])
}

/// The slug, unchanged, or the documented refusal.
pub fn valid_slug(slug: &str) -> (r: Result<&str, ApiError>)
    ensures
        is_slug(slug@) ==> r == Ok::<&str, ApiError>(slug),
        !is_slug(slug@) ==> r == Err::<&str, ApiError>(bad(ErrorCode::OutOfRange)),
{
    let v = chars_of(slug);
    let mut ok = v.len() > 0 && v.len() <= MAX_SLUG && v[0] != '-';
    let mut i: usize = 0;
    while ok && i < v.len()
        invariant
            v@ == slug@,
            i <= v.len(),
            ok ==> forall|k: int| 0 <= k < i ==> is_slug_char(#[trigger] slug@[k]),
            ok ==> 0 < v.len() <= MAX_SLUG && v@[0] != '-',
            !ok ==> !is_slug(slug@),
        decreases v.len() - i,
    {
        let c = v[i];
        if !(('a' <= c && c <= 'z') || ('0' <= c && c <= '9') || c == '-') {
            assert(!is_slug_char(slug@[i as int]));
            ok = false;
        }
        i = i + 1;
    }
    if ok {
        Ok(slug)
    } else {
        Err(ApiError::bad_request(ErrorCode::OutOfRange))
    }
}

/// The page size: absent is the default; 0 and over [`MAX_LIMIT`] are
/// refused, since a silently clamped page is indistinguishable from a short
/// last one.
pub fn limit_of(paging: &Paging) -> (r: Result<u32, ApiError>)
    ensures
        match paging.limit {
            None => r == Ok::<u32, ApiError>(DEFAULT_LIMIT),
            Some(n) => if 1 <= n <= MAX_LIMIT {
                r == Ok::<u32, ApiError>(n)
            } else {
                r == Err::<u32, ApiError>(bad(ErrorCode::PageTooLarge))
            },
        },
{
    match paging.limit {
        None => Ok(DEFAULT_LIMIT),
        Some(n) => {
            if n == 0 || n > MAX_LIMIT {
                Err(ApiError::bad_request(ErrorCode::PageTooLarge))
            } else {
                Ok(n)
            }
        },
    }
}

/// Drop the probe row fetched to detect a next page, reporting whether it
/// was there.
pub fn truncate<T>(rows: &mut Vec<T>, limit: u32) -> (more: bool)
    ensures
        more == (old(rows)@.len() > limit),
        final(rows)@ == (if more {
            old(rows)@.take(limit as int)
        } else {
            old(rows)@
        }),
{
    let limit = limit as usize;
    if rows.len() > limit {
        rows.truncate(limit);
        true
    } else {
        false
    }
}

/// The id immediately below `id`, so a keyset walk starting after it
/// includes `id` itself; `None` for the smallest id.
pub fn previous_uuid(id: u128) -> (r: Option<u128>)
    ensures
        id == 0 ==> r is None,
        id > 0 ==> r == Some((id - 1) as u128),
{
    id.checked_sub(1)
}

// ---------------------------------------------------------------------------
// If-Match and ETag
// ---------------------------------------------------------------------------
/// `s` without a leading `W/` (one, as `trim_start_matches` removes repeats
/// too: every leading `W/`).
pub open spec fn strip_weak(s: Seq<char>) -> Seq<char>
    decreases s.len(),
{
    if s.len() >= 2 && s[0] == 'W' && s[1] == '/' {
        strip_weak(s.subrange(2, s.len() as int))
    } else {
        s
    }
}

/// The index of the first character that is not `"`, from `i` on.
pub open spec fn quote_lead(s: Seq<char>, i: int) -> int
    decreases s.len() - i,
{
    if 0 <= i < s.len() && s[i] == '"' {
        quote_lead(s, i + 1)
    } else {
        i
    }
}

/// One past the last character that is not `"`, below `j`, not below `lo`.
pub open spec fn quote_tail(s: Seq<char>, lo: int, j: int) -> int
    decreases j - lo,
{
    if lo < j && 0 < j <= s.len() && s[j - 1] == '"' {
        quote_tail(s, lo, j - 1)
    } else {
        j
    }
}

/// `s` with every leading and trailing `"` removed.
pub open spec fn unquoted(s: Seq<char>) -> Seq<char> {
    let a = quote_lead(s, 0);
    s.subrange(a, quote_tail(s, a, s.len() as int))
}

/// The version an `If-Match` value names: trimmed, leading `W/` dropped,
/// quotes dropped, then a decimal `i64`.
pub open spec fn if_match_version(raw: Seq<char>) -> Option<i64> {
    parse_i64_spec(unquoted(strip_weak(trimmed(raw))))
}

proof fn lemma_quote_lead(s: Seq<char>, i: int)
    requires
        0 <= i <= s.len(),
    ensures
        i <= quote_lead(s, i) <= s.len(),
    decreases s.len() - i,
{
    if i < s.len() && s[i] == '"' {
        lemma_quote_lead(s, i + 1);
    }
}

proof fn lemma_quote_tail(s: Seq<char>, lo: int, j: int)
    requires
        0 <= lo <= j <= s.len(),
    ensures
        lo <= quote_tail(s, lo, j) <= j,
    decreases j - lo,
{
    if lo < j && s[j - 1] == '"' {
        lemma_quote_tail(s, lo, j - 1);
    }
}

/// `raw` with leading `W/` and surrounding quotes removed.
fn strip_validator(raw: &str) -> (r: String)
    ensures
        r@ == unquoted(strip_weak(raw@)),
{
    let v = chars_of(raw);
    let n = v.len();
    let mut i: usize = 0;
    assert(raw@.subrange(0, n as int) =~= raw@);
    while n >= 2 && i <= n - 2 && v[i] == 'W' && v[i + 1] == '/'
        invariant
            v@ == raw@,
            n == v.len(),
            i <= n,
            strip_weak(raw@) == strip_weak(raw@.subrange(i as int, n as int)),
        decreases n - i,
    {
        let ghost t = raw@.subrange(i as int, n as int);
        assert(t[0] == v@[i as int] && t[1] == v@[i + 1]);
        assert(t.subrange(2, t.len() as int) =~= raw@.subrange(i + 2, n as int));
        i = i + 2;
    }
    let ghost w = raw@.subrange(i as int, n as int);
    proof {
        if w.len() >= 2 {
            assert(w[0] == v@[i as int] && w[1] == v@[i + 1]);
        }
        assert(strip_weak(raw@) == w);
    }
    let mut a: usize = i;
    while a < n && v[a] == '"'
        invariant
            v@ == raw@,
            n == v.len(),
            i <= a <= n,
            w == raw@.subrange(i as int, n as int),
            quote_lead(w, 0) == quote_lead(w, a - i),
        decreases n - a,
    {
        assert(w[a - i] == v@[a as int]);
        a = a + 1;
    }
    proof {
        if a < n {
            assert(w[a - i] == v@[a as int]);
        }
        assert(quote_lead(w, 0) == a - i);
    }
    let mut b: usize = n;
    while b > a && v[b - 1] == '"'
        invariant
            v@ == raw@,
            n == v.len(),
            i <= a <= b <= n,
            w == raw@.subrange(i as int, n as int),
            quote_lead(w, 0) == a - i,
            quote_tail(w, a - i, n - i) == quote_tail(w, a - i, b - i),
        decreases b - a,
    {
        assert(w[b - 1 - i] == v@[b - 1]);
        b = b - 1;
    }
    proof {
        if b > a {
            assert(w[b - 1 - i] == v@[b - 1]);
        }
        assert(quote_tail(w, a - i, n - i) == b - i);
    }
    let mut out: Vec<char> = Vec::new();
    let mut k: usize = a;
    while k < b
        invariant
            v@ == raw@,
            a <= k <= b <= n,
            n == v.len(),
            out@ == raw@.subrange(a as int, k as int),
        decreases b - k,
    {
        out.push(v[k]);
        assert(raw@.subrange(a as int, k + 1) =~= raw@.subrange(a as int, k as int).push(
            v@[k as int],
        ));
        k = k + 1;
    }
    assert(unquoted(w) =~= raw@.subrange(a as int, b as int));
    crate::text::string_of(&out)
}

/// The version from `If-Match`, or the documented refusal: `428` when the
/// header is absent (a conditional write that forgot its condition is not
/// applied unconditionally), `400` when it is not an ETag this server issued.
/// Weak validators are accepted: they are what a caching proxy may rewrite an
/// ETag into.
pub fn if_match(header: Option<&str>) -> (r: Result<i64, ApiError>)
    ensures
        match header {
            None => r == Err::<i64, ApiError>(
                with_status(PRECONDITION_REQUIRED, ErrorCode::PreconditionRequired),
            ),
            Some(raw) => match if_match_version(raw@) {
                Some(v) => r == Ok::<i64, ApiError>(v),
                None => r == Err::<i64, ApiError>(bad(ErrorCode::IfMatchMalformed)),
            },
        },
{
    let raw = match header {
        Some(raw) => raw,
        None => return Err(ApiError::precondition_required()),
    };
    let t = trim(raw);
    let bare = strip_validator(t);
    match parse_i64(bare.as_str()) {
        Some(v) => Ok(v),
        None => Err(ApiError::bad_request(ErrorCode::IfMatchMalformed)),
    }
}

/// An ETag this server issued reads back, through `If-Match`, as the
/// version it was issued for: the conditional write compares against what
/// the client was given.
pub proof fn law_an_etag_reads_back_as_its_version(version: i64)
    ensures
        if_match_version(seq!['"'] + decimal_int(version as int) + seq!['"']) == Some(version),
{
    let d = decimal_int(version as int);
    let t = seq!['"'] + d + seq!['"'];
    crate::text::lemma_decimal_round_trips(version);
    let digits = if version < 0 {
        decimal_nat((-(version as int)) as nat)
    } else {
        decimal_nat(version as nat)
    };
    if version < 0 {
        crate::text::lemma_decimal_nat((-(version as int)) as nat);
    } else {
        crate::text::lemma_decimal_nat(version as nat);
    }
    assert(d.len() >= 1);
    assert(is_digit(digits[digits.len() - 1]));
    assert(d[d.len() - 1] == digits[digits.len() - 1]);
    assert(d[0] != '"') by {
        if version >= 0 {
            assert(is_digit(digits[0]));
        }
    }
    assert(t[0] == '"');
    assert(t[t.len() - 1] == '"');
    assert(!is_space('"'));
    crate::text::lemma_trimmed_unchanged(t);
    assert(strip_weak(t) == t);
    assert(t[1] == d[0]);
    assert(quote_lead(t, 1) == 1);
    assert(quote_lead(t, 0) == 1);
    assert(t[t.len() - 2] == d[d.len() - 1]);
    assert(quote_tail(t, 1, t.len() - 1) == t.len() - 1);
    assert(quote_tail(t, 1, t.len() as int) == t.len() - 1);
    assert(unquoted(t) =~= d);
}

/// The `ETag` a version is exposed as: the decimal version in quotes.
pub fn etag(version: i64) -> (t: String)
    ensures
        t@ == seq!['"'] + decimal_int(version as int) + seq!['"'],
{
    let mut t = String::new();
    push_char(&mut t, '"');
    let digits = i64_to_decimal(version);
    let v = chars_of(digits.as_str());
    let mut i: usize = 0;
    while i < v.len()
        invariant
            i <= v.len(),
            v@ == decimal_int(version as int),
            t@ == seq!['"'] + v@.take(i as int),
        decreases v.len() - i,
    {
        push_char(&mut t, v[i]);
        assert(v@.take(i as int).push(v@[i as int]) =~= v@.take(i + 1));
        assert((seq!['"'] + v@.take(i as int)).push(v@[i as int]) =~= seq!['"'] + v@.take(i + 1));
        i = i + 1;
    }
    push_char(&mut t, '"');
    assert(v@.take(v.len() as int) =~= v@);
    t
}

// ---------------------------------------------------------------------------
// Membership decisions
// ---------------------------------------------------------------------------
/// The member type an add asks for: absent means `MEMBER`, so the wider type
/// is never granted by omission the narrower one needs; anything outside
/// `allowed` is refused as unprocessable (`422`).
pub fn member_type<'a>(requested: Option<&'a str>, allowed: &[&str]) -> (r: Result<
    &'a str,
    ApiError,
>)
    ensures
        match requested {
            None => {
                if exists|i: int| 0 <= i < allowed@.len() && allowed@[i]@ == "MEMBER"@ {
                    r matches Ok(t) && t@ == "MEMBER"@
                } else {
                    r == Err::<&str, ApiError>(refused(ErrorCode::OutOfRange))
                }
            },
            Some(t) => if exists|i: int| 0 <= i < allowed@.len() && allowed@[i]@ == t@ {
                r == Ok::<&str, ApiError>(t)
            } else {
                r == Err::<&str, ApiError>(refused(ErrorCode::OutOfRange))
            },
        },
{
    let chosen: &'a str = match requested {
        Some(t) => t,
        None => "MEMBER",
    };
    if one_of_strs(chosen, allowed) {
        Ok(chosen)
    } else {
        Err(ApiError::unprocessable(ErrorCode::OutOfRange))
    }
}

/// The status an idempotent add answers with: `201` when it added, `200` when
/// the member was already there. A retry of a request whose response was lost
/// is doing the right thing and must not look like an error.
pub fn added_status(added: bool) -> (s: u16)
    ensures
        s == (if added {
            201u16
        } else {
            200u16
        }),
{
    if added {
        201
    } else {
        200
    }
}

/// What removing a member does once it is allowed: the membership goes,
/// the workspace's authorization epoch is bumped so that no decision cached
/// while the member belonged outlives the removal, the removal is recorded
/// under `event_type`, and the answer is `status` with no body.
#[derive(Debug, Clone, Copy, PartialEq, Eq)]
pub struct MemberRemoval {
    pub status: u16,
    pub bumps_epoch: bool,
    pub event_type: &'static str,
}

/// Whether a member may be removed: the target must be a member (`404`
/// otherwise), and the last member is protected, because a workspace nobody
/// belongs to is unreachable forever (`422`). `member_count` is counted under
/// the workspace row's write lock, so two concurrent removals cannot each
/// believe they are not the last.
pub fn removal(target_is_member: bool, member_count: i64) -> (r: Result<MemberRemoval, ApiError>)
    ensures
        !target_is_member ==> r == Err::<MemberRemoval, ApiError>(missing(ErrorCode::NotFound)),
        target_is_member && member_count <= 1 ==> r == Err::<MemberRemoval, ApiError>(
            refused(ErrorCode::LastMember),
        ),
        target_is_member && member_count > 1 ==> (r matches Ok(p) && p.status == 204
            && p.bumps_epoch && p.event_type@ == "workspace.member.removed"@),
{
    if !target_is_member {
        return Err(ApiError::missing(ErrorCode::NotFound));
    }
    if member_count <= 1 {
        return Err(ApiError::unprocessable(ErrorCode::LastMember));
    }
    Ok(MemberRemoval { status: 204, bumps_epoch: true, event_type: "workspace.member.removed" })
}

/// The rename outcome: a row that was there a statement ago and did not
/// update lost a version race, and the loser is told the version it lost to.
#[derive(Debug, Clone, Copy, PartialEq, Eq, Structural)]
pub struct StaleVersion {
    pub your_version: i64,
    pub current_version: i64,
}

/// The `409` for a version race, with both versions.
pub fn version_conflict(your_version: i64, current_version: i64) -> (r: (ApiError, StaleVersion))
    ensures
        r.0 == conflicting(ErrorCode::VersionConflict),
        r.1 == (StaleVersion { your_version, current_version }),
{
    (ApiError::conflict(ErrorCode::VersionConflict), StaleVersion { your_version, current_version })
}

/// SQLSTATE of a unique violation.
pub open spec fn is_unique_violation(state: Option<&str>) -> bool {
    state matches Some(s) && s@ == "23505"@
}

/// SQLSTATE of a foreign-key violation.
pub open spec fn is_foreign_key_violation(state: Option<&str>) -> bool {
    state matches Some(s) && s@ == "23503"@
}

/// A failed insert: a taken unique name is the caller's `409` with `taken`;
/// anything else is a `500`.
pub fn insert_failure(sqlstate: Option<&str>, taken: ErrorCode) -> (e: ApiError)
    ensures
        is_unique_violation(sqlstate) ==> e == conflicting(taken),
        !is_unique_violation(sqlstate) ==> e == with_status(INTERNAL, ErrorCode::Internal),
{
    let unique = match sqlstate {
        Some(s) => str_eq(s, "23505"),
        None => false,
    };
    if unique {
        ApiError::conflict(taken)
    } else {
        ApiError::internal()
    }
}

/// A failed member insert: a user id that names nobody is `422` (valid
/// syntax, violates a domain rule); anything else is a `500`.
pub fn member_insert_failure(sqlstate: Option<&str>) -> (e: ApiError)
    ensures
        is_foreign_key_violation(sqlstate) ==> e == refused(ErrorCode::ReferenceNotFound),
        !is_foreign_key_violation(sqlstate) ==> e == with_status(INTERNAL, ErrorCode::Internal),
{
    let fk = match sqlstate {
        Some(s) => str_eq(s, "23503"),
        None => false,
    };
    if fk {
        ApiError::unprocessable(ErrorCode::ReferenceNotFound)
    } else {
        ApiError::internal()
    }
}

/// A team member must already belong to the workspace: anyone else is a
/// `422`, the body naming someone the workspace does not have.
pub fn team_member_allowed(workspace_member: bool) -> (r: Result<(), ApiError>)
    ensures
        workspace_member ==> r is Ok,
        !workspace_member ==> r == Err::<(), ApiError>(refused(ErrorCode::ReferenceNotFound)),
{
    if workspace_member {
        Ok(())
    } else {
        Err(ApiError::unprocessable(ErrorCode::ReferenceNotFound))
    }
}

/// The member an add reads back: the first row at or after `user_id`, when
/// it is that user. A member that vanished within the transaction is a
/// fault.
pub fn read_back<T>(first: Option<(u128, T)>, user_id: u128) -> (r: Result<T, ApiError>)
    ensures
        match first {
            Some((id, row)) if id == user_id => r == Ok::<T, ApiError>(row),
            _ => r == Err::<T, ApiError>(with_status(INTERNAL, ErrorCode::Internal)),
        },
{
    match first {
        Some((id, row)) => if id == user_id {
            Ok(row)
        } else {
            Err(internal_message("the member vanished mid-transaction"))
        },
        None => Err(internal_message("the member vanished mid-transaction")),
    }
}

/// The opaque `500` for a fault described by `doing`: the description is
/// for the log, never the response.
pub fn internal_message(doing: &str) -> (e: ApiError)
    ensures
        e == with_status(INTERNAL, ErrorCode::Internal),
{
    ApiError::internal()
}

/// Query parameters the reader refused, unknown or unparseable, are a
/// `400`, never silently ignored.
pub fn query_accepted<T>(parsed: Option<T>) -> (r: Result<T, ApiError>)
    ensures
        match parsed {
            Some(p) => r == Ok::<T, ApiError>(p),
            None => r == Err::<T, ApiError>(bad(ErrorCode::UnknownField)),
        },
{
    match parsed {
        Some(p) => Ok(p),
        None => Err(ApiError::bad_request(ErrorCode::UnknownField)),
    }
}

} // verus!
