//! The routes the server serves, how a request's method and status become
//! metric labels, the request id, and the browser-history fallback.
//!
//! Metric labels are bounded: the route is the router's template interned
//! against [`ROUTES`], never the request path, so an unrouted path, which is
//! attacker controlled, cannot become a metric series.
use vstd::prelude::*;

use crate::rate_limit::class::Method;
use crate::tasks::crud::is_v7;
use crate::wire::{fresh_v7, hyphenated, uuid_text};
use crate::text::{
    chars_of, range_starts_with, starts_with, starts_with_spec, str_eq, trim_range, trimmed,
};

verus! {

/// The header carrying a request id in and out.
pub const REQUEST_ID_HEADER: &'static str = "x-request-id";

/// How long shutdown waits for in-flight requests, in nanoseconds: shorter
/// than the orchestrator's thirty-second kill grace.
pub const DRAIN: u128 = 20_000_000_000;

/// Every route template this server serves, and `unmatched` for a request
/// that matched none.
pub const ROUTES: [&'static str; 85] = [
    "/health/live",
    "/health/ready",
    "/metrics",
    "/api/v1/auth/login",
    "/api/v1/auth/logout",
    "/api/v1/auth/session",
    "/api/v1/auth/mfa",
    "/api/v1/auth/mfa/enrolment",
    "/api/v1/auth/mfa/enrolment/confirm",
    "/api/v1/auth/mfa/step-up",
    "/api/v1/auth/mfa/recovery",
    "/api/v1/workspaces/{workspace_id}/mfa-requirement",
    "/api/v1/stream",
    "/api/v1/exports",
    "/api/v1/exports/{id}",
    "/api/v1/exports/{id}/download",
    "/api/v1/auth/password-reset",
    "/api/v1/auth/password-reset/confirm",
    "/api/v1/projects",
    "/api/v1/projects/{id}",
    "/api/v1/projects/{id}/tasks",
    "/api/v1/tasks",
    "/api/v1/tasks/bulk",
    "/api/v1/workflows/{id}",
    "/api/v1/workflows/{id}/statuses",
    "/api/v1/workflows/{id}/statuses/order",
    "/api/v1/workflows/{id}/statuses/{sid}",
    "/api/v1/workflows/{id}/transitions",
    "/api/v1/workflows/{id}/transitions/{tid}",
    "/api/v1/projects/{id}/teams",
    "/api/v1/projects/{id}/teams/{team_id}",
    "/api/v1/projects/{id}/environments",
    "/api/v1/projects/{id}/environments/order",
    "/api/v1/environments/{id}",
    "/api/v1/tasks/{id}/environment",
    "/api/v1/projects/{id}/releases",
    "/api/v1/releases/{id}",
    "/api/v1/reports/run",
    "/api/v1/me",
    "/api/v1/me/queue",
    "/api/v1/me/teams",
    "/api/v1/me/password",
    "/api/v1/me/sessions",
    "/api/v1/me/sessions/{id}",
    "/api/v1/roles",
    "/api/v1/roles/{id}",
    "/api/v1/role-assignments",
    "/api/v1/role-assignments/{id}",
    "/api/v1/permissions/effective",
    "/api/v1/permissions/explain",
    "/api/v1/notifications",
    "/api/v1/notifications/read",
    "/api/v1/tasks/{id}/attachments",
    "/api/v1/attachments/{id}/commit",
    "/api/v1/attachments/{id}/download",
    "/api/v1/tasks/{id}",
    "/api/v1/tasks/{id}/activity",
    "/api/v1/tasks/{id}/custody",
    "/api/v1/tasks/{id}/team",
    "/api/v1/tasks/{id}/promotions",
    "/api/v1/tasks/{id}/verifications",
    "/api/v1/tasks/{id}/dependencies",
    "/api/v1/tasks/{id}/dependencies/{other_id}",
    "/api/v1/tasks/{id}/comments",
    "/api/v1/comments/{id}",
    "/api/v1/tasks/{id}/tags/{tag_id}",
    "/api/v1/tags",
    "/api/v1/tasks/{id}/subtasks",
    "/api/v1/projects/{id}/milestones",
    "/api/v1/milestones/{id}",
    "/api/v1/tasks/{id}/transitions",
    "/api/v1/tasks/{id}/assignees",
    "/api/v1/tasks/{id}/assignees/{user_id}",
    "/api/v1/tasks/{id}/tags",
    "/api/v1/workspaces",
    "/api/v1/workspaces/{workspace_id}",
    "/api/v1/workspaces/{workspace_id}/members",
    "/api/v1/workspaces/{workspace_id}/members/{user_id}",
    "/api/v1/workspaces/{workspace_id}/invitations",
    "/api/v1/workspaces/{workspace_id}/invitations/{id}",
    "/api/v1/auth/invitations/accept",
    "/api/v1/workspaces/{workspace_id}/teams",
    "/api/v1/teams/{team_id}/members",
    "/api/v1/teams/{team_id}/members/{user_id}",
    "unmatched",
];

/// Whether `route` is one of [`ROUTES`].
pub open spec fn is_declared(route: Seq<char>) -> bool {
    exists|i: int| 0 <= i < ROUTES@.len() && ROUTES@[i]@ == route
}

/// The interned `&'static str` for a route template, or `None` for a path
/// the router does not serve.
pub fn declared_route(route: &str) -> (r: Option<&'static str>)
    ensures
        r is Some <==> is_declared(route@),
        r matches Some(x) ==> x@ == route@,
{
    let mut i: usize = 0;
    while i < ROUTES.len()
        invariant
            i <= ROUTES@.len(),
            forall|k: int| 0 <= k < i ==> ROUTES@[k]@ != route@,
        decreases ROUTES@.len() - i,
    {
        if str_eq(ROUTES[i], route) {
            return Some(ROUTES[i]);
        }
        i = i + 1;
    }
    None
}

/// A method's metric label, or `None` for a verb outside the fixed set: an
/// arbitrary verb would be an unbounded label.
pub fn declared_method(method: Method) -> (r: Option<&'static str>)
    ensures
        r is None <==> method == Method::Other,
        method == Method::Get ==> r == Some("GET"),
        method == Method::Post ==> r == Some("POST"),
        method == Method::Put ==> r == Some("PUT"),
        method == Method::Patch ==> r == Some("PATCH"),
        method == Method::Delete ==> r == Some("DELETE"),
        method == Method::Head ==> r == Some("HEAD"),
        method == Method::Options ==> r == Some("OPTIONS"),
{
    match method {
        Method::Get => Some("GET"),
        Method::Post => Some("POST"),
        Method::Put => Some("PUT"),
        Method::Patch => Some("PATCH"),
        Method::Delete => Some("DELETE"),
        Method::Head => Some("HEAD"),
        Method::Options => Some("OPTIONS"),
        Method::Other => None,
    }
}

/// A status code collapsed to its class, so the label has five values.
#[derive(Debug, Clone, Copy, PartialEq, Eq, Structural)]
pub enum StatusClass {
    Informational,
    Success,
    Redirection,
    ClientError,
    ServerError,
}

pub open spec fn class_of_status(status: u16) -> StatusClass {
    if 100 <= status <= 199 {
        StatusClass::Informational
    } else if 200 <= status <= 299 {
        StatusClass::Success
    } else if 300 <= status <= 399 {
        StatusClass::Redirection
    } else if 400 <= status <= 499 {
        StatusClass::ClientError
    } else {
        StatusClass::ServerError
    }
}

/// `1xx` to `5xx`; anything outside 100..=499 counts as `5xx`.
pub fn status_class(status: u16) -> (c: StatusClass)
    ensures
        c == class_of_status(status),
{
    if 100 <= status && status <= 199 {
        StatusClass::Informational
    } else if 200 <= status && status <= 299 {
        StatusClass::Success
    } else if 300 <= status && status <= 399 {
        StatusClass::Redirection
    } else if 400 <= status && status <= 499 {
        StatusClass::ClientError
    } else {
        StatusClass::ServerError
    }
}

impl StatusClass {
    /// The label value.
    pub fn label(self) -> (l: &'static str)
        ensures
            self == StatusClass::Informational ==> l == "1xx",
            self == StatusClass::Success ==> l == "2xx",
            self == StatusClass::Redirection ==> l == "3xx",
            self == StatusClass::ClientError ==> l == "4xx",
            self == StatusClass::ServerError ==> l == "5xx",
    {
        match self {
            StatusClass::Informational => "1xx",
            StatusClass::Success => "2xx",
            StatusClass::Redirection => "3xx",
            StatusClass::ClientError => "4xx",
            StatusClass::ServerError => "5xx",
        }
    }
}

/// The labels one request is counted under: its method, its route
/// template and its status class. Every value comes from a fixed set, so no
/// label can carry an id; a request with an undeclared verb or route is not
/// counted at all.
#[derive(Debug, Clone, Copy, PartialEq, Eq)]
pub struct RequestLabels {
    pub method: &'static str,
    pub route: &'static str,
    pub status_class: StatusClass,
}

/// The labels for a request, or `None` when its method or route is not in
/// the fixed sets.
pub fn request_labels(method: Method, route: &str, status: u16) -> (r: Option<RequestLabels>)
    ensures
        r is Some <==> (method != Method::Other && is_declared(route@)),
        r matches Some(l) ==> l.route@ == route@ && l.status_class == class_of_status(status)
            && declared_label(method, l.method),
{
    let m = match declared_method(method) {
        Some(m) => m,
        None => return None,
    };
    let r = match declared_route(route) {
        Some(r) => r,
        None => return None,
    };
    Some(RequestLabels { method: m, route: r, status_class: status_class(status) })
}

/// `label` is the metric label of `method`.
pub open spec fn declared_label(method: Method, label: &str) -> bool {
    match method {
        Method::Get => label == "GET",
        Method::Post => label == "POST",
        Method::Put => label == "PUT",
        Method::Patch => label == "PATCH",
        Method::Delete => label == "DELETE",
        Method::Head => label == "HEAD",
        Method::Options => label == "OPTIONS",
        Method::Other => false,
    }
}

/// An inbound request id is honoured when it is present, non-empty and at
/// most 128 bytes; it is used for correlation and nothing else.
pub open spec fn acceptable_id(raw: &str) -> bool {
    raw@.len() > 0 && raw.len() <= 128
}

/// The inbound id, if it is one the server honours.
pub fn accepted_request_id(header: Option<&str>) -> (r: Option<String>)
    ensures
        match header {
            Some(h) if acceptable_id(h) => r matches Some(s) && s@ == h@,
            _ => r is None,
        },
{
    match header {
        Some(h) => {
            if !h.is_empty() && h.len() <= 128 {
                Some(h.to_owned())
            } else {
                None
            }
        },
        None => None,
    }
}

/// The request id, carried so an error body holds the same value the
/// response header does.
#[derive(Debug, Clone, PartialEq, Eq)]
pub struct RequestId(pub String);

impl RequestId {
    /// The id put on the request, or `unknown` when none was.
    pub fn of(extension: Option<&RequestId>) -> (r: String)
        ensures
            match extension {
                Some(id) => r == id.0,
                None => r@ == "unknown"@,
            },
    {
        match extension {
            Some(id) => id.0.clone(),
            None => "unknown".to_owned(),
        }
    }

    /// The id a request is given as it arrives: the inbound one when it is
    /// honoured, so a trace spans a proxy, else a fresh one.
    pub fn assign(header: Option<&str>) -> (r: RequestId)
        ensures
            match header {
                Some(h) if acceptable_id(h) => r.0@ == h@,
                _ => exists|id: u128| is_v7(id) && r.0@ == hyphenated(id),
            },
    {
        match accepted_request_id(header) {
            Some(s) => RequestId(s),
            None => {
                let id = fresh_v7();
                RequestId(uuid_text(id))
            },
        }
    }

    /// The id from the request header alone: used when it is present,
    /// non-empty and at most 128 bytes, else `unknown`.
    pub fn of_parts(header: Option<&str>) -> (r: String)
        ensures
            match header {
                Some(h) if acceptable_id(h) => r@ == h@,
                _ => r@ == "unknown"@,
            },
    {
        match accepted_request_id(header) {
            Some(s) => s,
            None => "unknown".to_owned(),
        }
    }
}

/// What the browser-history fallback answers.
#[derive(Debug, Clone, Copy, PartialEq, Eq, Structural)]
pub enum Fallback {
    /// `404`: an API path, a missing asset, a non-HTML client or a
    /// non-reading method must not turn into a successful page.
    NotFound,
    /// `200` with the entry document; `with_body` is false for `HEAD`.
    Index { with_body: bool },
}

/// The start of the last `/`-separated segment of `s` below `j`.
pub open spec fn segment_start(s: Seq<char>, j: int) -> int
    decreases j,
{
    if 0 < j <= s.len() && s[j - 1] != '/' {
        segment_start(s, j - 1)
    } else {
        j
    }
}

/// The last `/`-separated segment of a path.
pub open spec fn last_segment(s: Seq<char>) -> Seq<char> {
    s.subrange(segment_start(s, s.len() as int), s.len() as int)
}

/// The index of the first comma in `s` at or after `i`, or `s.len()`.
pub open spec fn next_comma(s: Seq<char>, i: int) -> int
    decreases s.len() - i,
{
    if 0 <= i < s.len() && s[i] != ',' {
        next_comma(s, i + 1)
    } else {
        i
    }
}

/// Some comma-separated part of `s` from `i` on, once trimmed, starts with
/// `text/html`.
pub open spec fn html_from(s: Seq<char>, i: int) -> bool
    decreases s.len() - i, 0int,
{
    if i < 0 || i > s.len() {
        false
    } else {
        let c = next_comma(s, i);
        if c < i || c > s.len() {
            false
        } else {
            starts_with_spec(trimmed(s.subrange(i, c)), "text/html"@) || (c < s.len() && html_from(
                s,
                c + 1,
            ))
        }
    }
}

proof fn lemma_next_comma(s: Seq<char>, i: int)
    requires
        0 <= i <= s.len(),
    ensures
        i <= next_comma(s, i) <= s.len(),
    decreases s.len() - i,
{
    if i < s.len() && s[i] != ',' {
        lemma_next_comma(s, i + 1);
    }
}

/// Whether an `Accept` header admits HTML.
pub fn accepts_html(accept: &str) -> (r: bool)
    ensures
        r == html_from(accept@, 0),
{
    let v = chars_of(accept);
    let html = chars_of("text/html");
    let n = v.len();
    let mut i: usize = 0;
    loop
        invariant
            v@ == accept@,
            n == v.len(),
            html@ == "text/html"@,
            i <= n,
            html_from(accept@, 0) == html_from(accept@, i as int),
        decreases n - i,
    {
        let mut c: usize = i;
        while c < n && v[c] != ','
            invariant
                v@ == accept@,
                n == v.len(),
                i <= c <= n,
                next_comma(accept@, i as int) == next_comma(accept@, c as int),
            decreases n - c,
        {
            c = c + 1;
        }
        proof {
            lemma_next_comma(accept@, i as int);
        }
        let (a, b) = trim_range(&v, i, c);
        if range_starts_with(&v, a, b, &html) {
            return true;
        }
        if c == n {
            return false;
        }
        i = c + 1;
    }
}

/// Whether the last segment of a path names a file.
pub fn looks_like_asset(path: &str) -> (r: bool)
    ensures
        r == last_segment(path@).contains('.'),
{
    let v = chars_of(path);
    let n = v.len();
    let mut j: usize = n;
    while j > 0 && v[j - 1] != '/'
        invariant
            v@ == path@,
            n == v.len(),
            j <= n,
            segment_start(path@, n as int) == segment_start(path@, j as int),
        decreases j,
    {
        j = j - 1;
    }
    assert(segment_start(path@, j as int) == j);
    let ghost seg = path@.subrange(j as int, n as int);
    assert(seg == last_segment(path@));
    let mut k: usize = j;
    while k < n
        invariant
            v@ == path@,
            n == v.len(),
            j <= k <= n,
            seg == path@.subrange(j as int, n as int),
            seg == last_segment(path@),
            forall|m: int| j <= m < k ==> path@[m] != '.',
        decreases n - k,
    {
        if v[k] == '.' {
            assert(seg[k - j] == '.');
            assert(last_segment(path@)[k - j] == '.');
            return true;
        }
        k = k + 1;
    }
    proof {
        if seg.contains('.') {
            let m = choose|m: int| 0 <= m < seg.len() && seg[m] == '.';
            assert(path@[j + m] == '.');
        }
    }
    false
}

/// Paths the fallback must never answer: the API, health and metrics.
pub open spec fn is_reserved(path: Seq<char>) -> bool {
    path == "/metrics"@ || starts_with_spec(path, "/api/"@) || starts_with_spec(path, "/health/"@)
}

/// The `Accept` header is present and admits HTML.
pub open spec fn wants_html(accept: Option<&str>) -> bool {
    match accept {
        Some(a) => html_from(a@, 0),
        None => false,
    }
}

/// What the fallback answers: the entry document only to a browser
/// navigating (a `GET` or `HEAD` that accepts HTML) to a path that is
/// neither reserved nor an asset; a `404` to everything else.
pub open spec fn fallback_of(method: Method, path: Seq<char>, accept: Option<&str>) -> Fallback {
    if is_reserved(path) || last_segment(path).contains('.') || !wants_html(accept) || !(method
        == Method::Get || method == Method::Head) {
        Fallback::NotFound
    } else {
        Fallback::Index { with_body: method != Method::Head }
    }
}

/// The browser-history fallback for a request the router did not match.
pub fn spa_fallback(method: Method, path: &str, accept: Option<&str>) -> (f: Fallback)
    ensures
        f == fallback_of(method, path@, accept),
{
    let reserved = str_eq(path, "/metrics") || starts_with(path, "/api/") || starts_with(
        path,
        "/health/",
    );
    let asset = looks_like_asset(path);
    let html = match accept {
        Some(a) => accepts_html(a),
        None => false,
    };
    let reading = method == Method::Get || method == Method::Head;
    if reserved || asset || !html || !reading {
        Fallback::NotFound
    } else {
        Fallback::Index { with_body: method != Method::Head }
    }
}

/// A missing API, health or metrics route, or a missing asset, is never
/// answered with the entry document: whatever the method and the `Accept`
/// header, the answer is a `404`, so a client bug cannot turn into a
/// successful page of HTML.
pub proof fn law_no_api_route_or_asset_becomes_html(method: Method, path: Seq<char>, accept: Option<
    &str,
>)
    requires
        is_reserved(path) || last_segment(path).contains('.'),
    ensures
        fallback_of(method, path, accept) == Fallback::NotFound,
{
}

} // verus!
