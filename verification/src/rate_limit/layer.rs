//! Where the limiter meets a request: which bucket answers, and what the
//! response's `RateLimit-*` headers say.
//!
//! The bucket check sits after the one indexed read that identifies the
//! caller and before the body is parsed or any permission is resolved, so a
//! flood cannot make the server do expensive work to refuse it.
use vstd::prelude::*;

use super::class::{
    auth_class, bulk_class, class_of, classify, invite_class, is_limited_route, limited, read_class,
    search_class, write_class, Class, Method, SERVICE_ACCOUNT_MULTIPLIER,
};
use super::meter::{meterable, Decision, RateLimiter, Scope};
use crate::error::{ApiError, ErrorCode, TOO_MANY_REQUESTS};

verus! {

/// Who is calling, as far as the limiter distinguishes callers.
#[derive(Debug, Clone, Copy, PartialEq, Eq, Structural)]
pub enum ActorType {
    User,
    ServiceAccount,
    Plugin,
}

/// Which of the separate per-principal buckets a request spends from.
///
/// Separate buckets rather than one meter with a per-class cost: a caller
/// who exhausts the bulk budget must still be able to read.
#[derive(Debug, Clone, Copy, PartialEq, Eq, Structural)]
pub enum Limiter {
    Read,
    Write,
    Search,
    Bulk,
    Invite,
    /// Service accounts and plugins share their own, higher, bucket.
    Service,
}

pub open spec fn is_service(actor: ActorType) -> bool {
    actor == ActorType::ServiceAccount || actor == ActorType::Plugin
}

/// Plugins and service accounts are metered alike, from the service bucket
/// at the class scaled by [`SERVICE_ACCOUNT_MULTIPLIER`]; only a user spends
/// from the per-class human buckets. Whatever the class, a plugin's answer
/// is a service account's, and a user's never is.
pub proof fn law_a_plugin_is_metered_as_a_service_account(c: Class)
    ensures
        limiter_of(c, is_service(ActorType::Plugin)) == (Limiter::Service, scaled(c)),
        limiter_of(c, is_service(ActorType::ServiceAccount)) == (Limiter::Service, scaled(c)),
        limiter_of(c, is_service(ActorType::Plugin)) == limiter_of(
            c,
            is_service(ActorType::ServiceAccount),
        ),
        limiter_of(c, is_service(ActorType::User)).0 != Limiter::Service,
{
}

/// The request is governed by the auth limiter: it matched a route, and the
/// route is one of the limited ones. A request that matched no route is a
/// `404` and not this limiter's business.
pub fn governed(route: Option<&str>) -> (r: bool)
    ensures
        r == (route matches Some(t) && is_limited_route(t@)),
{
    match route {
        Some(t) => limited(t),
        None => false,
    }
}

/// Whether the caller spends from the service-account bucket.
pub fn service_account(actor: ActorType) -> (r: bool)
    ensures
        r == is_service(actor),
        r == (actor != ActorType::User),
{
    match actor {
        ActorType::ServiceAccount | ActorType::Plugin => true,
        ActorType::User => false,
    }
}

pub open spec fn scaled(c: Class) -> Class {
    Class {
        sustained: (c.sustained * SERVICE_ACCOUNT_MULTIPLIER) as u32,
        window: c.window,
        burst: (c.burst * SERVICE_ACCOUNT_MULTIPLIER) as u32,
    }
}

/// The bucket for a class, and the class the headers publish.
pub open spec fn limiter_of(class: Class, service_account: bool) -> (Limiter, Class) {
    if service_account {
        (Limiter::Service, scaled(class))
    } else if class == read_class() {
        (Limiter::Read, class)
    } else if class == write_class() {
        (Limiter::Write, class)
    } else if class == search_class() {
        (Limiter::Search, class)
    } else if class == bulk_class() {
        (Limiter::Bulk, class)
    } else {
        (Limiter::Invite, class)
    }
}

/// The bucket a request of `class` spends from, and the class it publishes.
pub fn limiter_for(class: Class, service_account: bool) -> (r: (Limiter, Class))
    requires
        class.sustained * SERVICE_ACCOUNT_MULTIPLIER <= u32::MAX,
        class.burst * SERVICE_ACCOUNT_MULTIPLIER <= u32::MAX,
    ensures
        r == limiter_of(class, service_account),
{
    if service_account {
        return (Limiter::Service, class.for_service_account());
    }
    let which = if class == read_class() {
        Limiter::Read
    } else if class == write_class() {
        Limiter::Write
    } else if class == search_class() {
        Limiter::Search
    } else if class == bulk_class() {
        Limiter::Bulk
    } else {
        Limiter::Invite
    };
    (which, class)
}

/// Which bucket and published class govern a request to `route` with
/// `method` by `actor`, or `None` when no principal bucket does.
pub fn principal_limiter(route: Option<&str>, method: Method, actor: ActorType) -> (r: Option<
    (Limiter, Class),
>)
    ensures
        r == (match route {
            None => None,
            Some(t) => match class_of(method, t@) {
                None => None,
                Some(c) => Some(limiter_of(c, is_service(actor))),
            },
        }),
        match route {
            Some(t) => match class_of(method, t@) {
                Some(c) => r == Some(
                    if actor == ActorType::User {
                        limiter_of(c, false)
                    } else {
                        (Limiter::Service, scaled(c))
                    },
                ),
                None => r is None,
            },
            None => r is None,
        },
{
    let t = match route {
        Some(t) => t,
        None => return None,
    };
    match classify(method, t) {
        None => None,
        Some(c) => Some(limiter_for(c, service_account(actor))),
    }
}

/// The three `RateLimit-*` header values.
#[derive(Debug, Clone, Copy, PartialEq, Eq, Structural)]
pub struct RateLimitHeaders {
    /// `RateLimit-Limit`: the published class, in whole tokens per minute.
    pub limit: u32,
    /// `RateLimit-Remaining`.
    pub remaining: u32,
    /// `RateLimit-Reset`: seconds until the bucket is full.
    pub reset: u64,
}

/// `RateLimit-Limit` for a class: its sustained rate in whole tokens per
/// minute, saturating.
pub open spec fn per_minute_of(class: Class) -> u32 {
    let seconds: int = if class.window / super::class::SECOND == 0 {
        1
    } else {
        (class.window / super::class::SECOND) as int
    };
    let exact: int = class.sustained * 60 / seconds;
    if exact > u32::MAX {
        u32::MAX
    } else {
        exact as u32
    }
}

/// The headers a response publishes for `class` after `decision`.
pub open spec fn published(class: Class, decision: Decision) -> RateLimitHeaders {
    RateLimitHeaders {
        limit: per_minute_of(class),
        remaining: decision.remaining,
        reset: decision.reset_seconds,
    }
}

/// The headers a response carries, on success as well as on refusal, so a
/// client can slow down before it is throttled.
pub fn headers_for(class: Class, decision: Decision) -> (h: RateLimitHeaders)
    ensures
        h == published(class, decision),
{
    RateLimitHeaders {
        limit: class.per_minute(),
        remaining: decision.remaining,
        reset: decision.reset_seconds,
    }
}

/// What a limiter's decision makes of the response: a `429` telling the
/// client when a token will be there, or nothing and the request goes on;
/// either way the headers of the class the caller is metered under.
pub fn limit_answer(class: Class, decision: Decision) -> (r: (Option<ApiError>, RateLimitHeaders))
    ensures
        r.1 == published(class, decision),
        r.0 == (match decision.retry_after_seconds {
            Some(seconds) => Some(
                ApiError { status: TOO_MANY_REQUESTS, code: ErrorCode::RateLimited, retry_after: Some(seconds) },
            ),
            None => None,
        }),
{
    let refusal = match decision.retry_after_seconds {
        Some(seconds) => Some(ApiError::too_many_requests(seconds)),
        None => None,
    };
    (refusal, headers_for(class, decision))
}

/// A service account's bucket is separate and never smaller: every class
/// scales up by the multiplier, in the same window, so an integration
/// cannot exhaust a person's quota and is not held to less than one.
pub proof fn law_a_service_account_bucket_is_never_smaller(class: Class)
    requires
        class.sustained * SERVICE_ACCOUNT_MULTIPLIER <= u32::MAX,
        class.burst * SERVICE_ACCOUNT_MULTIPLIER <= u32::MAX,
    ensures
        limiter_of(class, true).0 == Limiter::Service,
        limiter_of(class, false).0 != Limiter::Service,
        limiter_of(class, true).1.window == class.window,
        limiter_of(class, true).1.sustained >= class.sustained,
        limiter_of(class, true).1.burst >= class.burst,
        class.burst > 0 ==> limiter_of(class, true).1.burst > class.burst,
        class.sustained > 0 ==> limiter_of(class, true).1.sustained > class.sustained,
{
}

/// The limiter for the routes a caller reaches before anyone knows who it
/// is: the auth class, keyed by client address.
pub fn auth_limiter() -> (l: RateLimiter)
    ensures
        l.wf(),
        l.class_spec() == auth_class(),
        l.scope_spec() == Scope::Address,
{
    RateLimiter::per_ip(auth_class())
}

/// One limiter per class, keyed per workspace and actor, and one more for
/// service accounts. Separate buckets rather than one meter with a cost per
/// class: a caller who exhausts the bulk budget can still read.
#[derive(Debug)]
pub struct PrincipalLimits {
    read: RateLimiter,
    write: RateLimiter,
    search: RateLimiter,
    bulk: RateLimiter,
    invite: RateLimiter,
    service: RateLimiter,
}

impl PrincipalLimits {
    /// The limiter a bucket kind names.
    pub closed spec fn limiter(&self, which: Limiter) -> RateLimiter {
        match which {
            Limiter::Read => self.read,
            Limiter::Write => self.write,
            Limiter::Search => self.search,
            Limiter::Bulk => self.bulk,
            Limiter::Invite => self.invite,
            Limiter::Service => self.service,
        }
    }

    pub closed spec fn wf(&self) -> bool {
        &&& self.read.wf()
        &&& self.write.wf()
        &&& self.search.wf()
        &&& self.bulk.wf()
        &&& self.invite.wf()
        &&& self.service.wf()
    }

    /// Every bucket full, each class at its published numbers, and the
    /// service-account bucket at the write class scaled up.
    pub fn new() -> (p: Self)
        ensures
            p.wf(),
            p.limiter(Limiter::Read).class_spec() == read_class(),
            p.limiter(Limiter::Write).class_spec() == write_class(),
            p.limiter(Limiter::Search).class_spec() == search_class(),
            p.limiter(Limiter::Bulk).class_spec() == bulk_class(),
            p.limiter(Limiter::Invite).class_spec() == invite_class(),
            p.limiter(Limiter::Service).class_spec() == scaled(write_class()),
            forall|w: Limiter|
                (#[trigger] p.limiter(w)).scope_spec() == Scope::Principal && p.limiter(w).buckets()
                    == Map::<(u128, u128), super::meter::Bucket>::empty(),
    {
        let service = write_class().for_service_account();
        assert(service == (Class { sustained: 1500, window: 60_000_000_000, burst: 250 }));
        assert(60_000_000_000int / 1500int == 40_000_000) by (nonlinear_arith);
        assert(service.gap() == 40_000_000);
        assert(service.refill() == 10_000_000_000);
        PrincipalLimits {
            read: RateLimiter::per_principal(read_class()),
            write: RateLimiter::per_principal(write_class()),
            search: RateLimiter::per_principal(search_class()),
            bulk: RateLimiter::per_principal(bulk_class()),
            invite: RateLimiter::per_principal(invite_class()),
            service: RateLimiter::per_principal(service),
        }
    }

    /// Decide a request by `actor` in `workspace` against the bucket kind
    /// `which`; only that limiter changes.
    pub fn check_at(&mut self, which: Limiter, workspace: u128, actor: u128, now: u128) -> (d:
        Decision)
        requires
            old(self).wf(),
            now <= super::class::MAX_SPAN,
        ensures
            final(self).wf(),
            forall|w: Limiter| w != which ==> #[trigger] final(self).limiter(w) == old(self).limiter(w),
            final(self).limiter(which).class_spec() == old(self).limiter(which).class_spec(),
            final(self).limiter(which).buckets().len() <= super::meter::MAX_TRACKED_KEYS,
            ({
                let c = old(self).limiter(which).class_spec();
                let held = old(self).limiter(which).buckets();
                let k = (workspace, actor);
                held.contains_key(k) ==> {
                    &&& d == super::meter::decision_of(c, held[k].tat as int, now as int)
                    &&& final(self).limiter(which).buckets() == held.insert(
                        k,
                        super::meter::spent(c, held[k].tat as int, now as int),
                    )
                }
            }),
    {
        let key = Some((workspace, actor));
        match which {
            Limiter::Read => self.read.check_at(key, now),
            Limiter::Write => self.write.check_at(key, now),
            Limiter::Search => self.search.check_at(key, now),
            Limiter::Bulk => self.bulk.check_at(key, now),
            Limiter::Invite => self.invite.check_at(key, now),
            Limiter::Service => self.service.check_at(key, now),
        }
    }
}

} // verus!
