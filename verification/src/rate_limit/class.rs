//! The published limits, and which class a request belongs to.
//!
//! Every number here is a row of the published rate-limit table. Times are
//! whole nanoseconds, never a rate in floating point: `6 s × (10/60)` in
//! floating point is `0.999999999999999`, and the token promised after six
//! seconds would not arrive.
use vstd::prelude::*;

use crate::text::{ends_with, ends_with_spec, str_eq};

verus! {

/// One second, in nanoseconds.
pub const SECOND: u128 = 1_000_000_000;

/// One rate-limit class.
#[derive(Debug, Clone, Copy, PartialEq, Eq, Structural)]
pub struct Class {
    /// The numerator of the "Sustained" column.
    pub sustained: u32,
    /// The window that rate is published over, in nanoseconds: a minute for
    /// most classes and an hour for invites, whose "50 / hour" is not a whole
    /// number of tokens per minute.
    pub window: u128,
    /// Bucket capacity: the "Burst" column.
    pub burst: u32,
}

/// The largest span a `Duration` can hold, in nanoseconds.
pub const MAX_SPAN: u128 = 18_446_744_073_709_551_615_999_999_999;

/// How much more a service account may spend than a person: "separate,
/// higher" buckets, so an integration cannot exhaust a human's quota.
pub const SERVICE_ACCOUNT_MULTIPLIER: u32 = 5;

/// "Auth (login, reset) | 10 / min per IP and per account | 5".
#[verifier::allow_in_spec]
pub fn auth_class() -> Class
    returns
        (Class { sustained: 10, window: 60_000_000_000, burst: 5 }),
{
    Class { sustained: 10, window: 60_000_000_000, burst: 5 }
}

/// "Reads | 1,000 / min | 100".
#[verifier::allow_in_spec]
pub fn read_class() -> Class
    returns
        (Class { sustained: 1_000, window: 60_000_000_000, burst: 100 }),
{
    Class { sustained: 1_000, window: 60_000_000_000, burst: 100 }
}

/// "Writes | 300 / min | 50".
#[verifier::allow_in_spec]
pub fn write_class() -> Class
    returns
        (Class { sustained: 300, window: 60_000_000_000, burst: 50 }),
{
    Class { sustained: 300, window: 60_000_000_000, burst: 50 }
}

/// "Search | 60 / min | 20".
#[verifier::allow_in_spec]
pub fn search_class() -> Class
    returns
        (Class { sustained: 60, window: 60_000_000_000, burst: 20 }),
{
    Class { sustained: 60, window: 60_000_000_000, burst: 20 }
}

/// "Bulk | 10 / min | 3".
#[verifier::allow_in_spec]
pub fn bulk_class() -> Class
    returns
        (Class { sustained: 10, window: 60_000_000_000, burst: 3 }),
{
    Class { sustained: 10, window: 60_000_000_000, burst: 3 }
}

/// "Invites | 50 / hour | 10": the one class published over an hour.
#[verifier::allow_in_spec]
pub fn invite_class() -> Class
    returns
        (Class { sustained: 50, window: 3_600_000_000_000, burst: 10 }),
{
    Class { sustained: 50, window: 3_600_000_000_000, burst: 10 }
}

impl Class {
    /// A class whose times fit in a `Duration`.
    pub open spec fn wf(self) -> bool {
        self.window <= MAX_SPAN
    }

    /// The gap between two tokens, `window / max(sustained, 1)`.
    pub open spec fn gap(self) -> nat {
        (self.window as int / (if self.sustained == 0 {
            1int
        } else {
            self.sustained as int
        })) as nat
    }

    /// The burst expressed as time: `gap × burst`.
    pub open spec fn refill(self) -> nat {
        self.gap() * (self.burst as nat)
    }

    /// The gap between two tokens: the window over the sustained rate. Six
    /// seconds for [`auth`].
    pub fn emission_interval(self) -> (d: u128)
        ensures
            d == self.gap(),
    {
        let divisor: u32 = if self.sustained == 0 {
            1
        } else {
            self.sustained
        };
        self.window / (divisor as u128)
    }

    /// The value of the `RateLimit-Limit` header: whole tokens per minute,
    /// rounded down so the number a client is told is one it can sustain.
    pub fn per_minute(self) -> (n: u32)
        ensures
            ({
                let seconds: int = if self.window / SECOND == 0 {
                    1
                } else {
                    (self.window / SECOND) as int
                };
                let exact: int = self.sustained * 60 / seconds;
                n as int == if exact > u32::MAX {
                    u32::MAX as int
                } else {
                    exact
                }
            }),
    {
        let whole: u128 = self.window / SECOND;
        let seconds: u128 = if whole == 0 {
            1
        } else {
            whole
        };
        let exact: u128 = (self.sustained as u128) * 60 / seconds;
        if exact > u32::MAX as u128 {
            u32::MAX
        } else {
            exact as u32
        }
    }

    /// How far ahead of real time the meter may run, and how long an emptied
    /// bucket takes to come all the way back: `gap × burst`.
    pub fn full_refill(self) -> (d: u128)
        requires
            self.gap() * self.burst <= MAX_SPAN,
        ensures
            d == self.refill(),
    {
        let gap = self.emission_interval();
        gap * (self.burst as u128)
    }

    /// The same class, scaled for a service account.
    pub fn for_service_account(self) -> (c: Class)
        requires
            self.sustained * SERVICE_ACCOUNT_MULTIPLIER <= u32::MAX,
            self.burst * SERVICE_ACCOUNT_MULTIPLIER <= u32::MAX,
        ensures
            c == (Class {
                sustained: (self.sustained * SERVICE_ACCOUNT_MULTIPLIER) as u32,
                window: self.window,
                burst: (self.burst * SERVICE_ACCOUNT_MULTIPLIER) as u32,
            }),
    {
        Class {
            sustained: self.sustained * SERVICE_ACCOUNT_MULTIPLIER,
            window: self.window,
            burst: self.burst * SERVICE_ACCOUNT_MULTIPLIER,
        }
    }
}

/// A request method, as far as the limiter and the metrics distinguish them.
#[derive(Debug, Clone, Copy, PartialEq, Eq, Structural)]
pub enum Method {
    Get,
    Head,
    Options,
    Post,
    Put,
    Patch,
    Delete,
    /// Any other verb, including extension methods.
    Other,
}

/// The routes the auth class governs: a closed list of router templates.
/// Health endpoints are absent on purpose: a liveness probe answered `429`
/// gets the container restarted.
pub const LIMITED_ROUTES: [&'static str; 1] = ["/api/v1/auth/login"];

pub open spec fn is_limited_route(route: Seq<char>) -> bool {
    route == "/api/v1/auth/login"@
}

/// Whether a route template is governed by the auth class.
pub fn limited(route: &str) -> (r: bool)
    ensures
        r == is_limited_route(route@),
{
    str_eq(route, "/api/v1/auth/login")
}

pub open spec fn is_read_method(m: Method) -> bool {
    m == Method::Get || m == Method::Head || m == Method::Options
}

/// Which published class a request falls in, by route template and method.
/// `None` is "not governed by a principal bucket".
pub open spec fn class_of(method: Method, route: Seq<char>) -> Option<Class> {
    if ends_with_spec(route, "/bulk"@) {
        Some(bulk_class())
    } else if route == "/api/v1/workspaces/{workspace_id}/invitations"@ && method == Method::Post {
        Some(invite_class())
    } else if route == "/api/v1/search"@ {
        Some(search_class())
    } else if route == "/health/live"@ || route == "/health/ready"@ || route == "/metrics"@ {
        None
    } else if is_limited_route(route) {
        None
    } else if route == "/api/v1/auth/logout"@ || route == "/api/v1/auth/session"@ {
        None
    } else if is_read_method(method) {
        Some(read_class())
    } else {
        Some(write_class())
    }
}

/// Which published class a request falls in.
///
/// Decided from the route template and the method, never from the request
/// path: a classifier that matched attacker-supplied strings would be
/// bypassable with a trailing slash. Most specific first: `/tasks/bulk` is a
/// write by method and a bulk operation by route, and the narrower limit
/// applies.
pub fn classify(method: Method, route: &str) -> (c: Option<Class>)
    ensures
        c == class_of(method, route@),
{
    if ends_with(route, "/bulk") {
        return Some(bulk_class());
    }
    if str_eq(route, "/api/v1/workspaces/{workspace_id}/invitations") && method == Method::Post {
        return Some(invite_class());
    }
    if str_eq(route, "/api/v1/search") {
        return Some(search_class());
    }
    if str_eq(route, "/health/live") || str_eq(route, "/health/ready") || str_eq(
        route,
        "/metrics",
    ) {
        return None;
    }
    if limited(route) {
        return None;
    }
    if str_eq(route, "/api/v1/auth/logout") || str_eq(route, "/api/v1/auth/session") {
        return None;
    }
    match method {
        Method::Get | Method::Head | Method::Options => Some(read_class()),
        _ => Some(write_class()),
    }
}

} // verus!
