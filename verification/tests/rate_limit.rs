use casual_task_api::rate_limit::layer::limit_answer;
use std::time::Duration;

use casual_task_api::rate_limit::class::{
    auth_class, bulk_class, classify, invite_class, read_class, search_class, write_class, Class,
    Method, LIMITED_ROUTES, SERVICE_ACCOUNT_MULTIPLIER,
};
use casual_task_api::rate_limit::layer::{
    governed, headers_for, limiter_for, principal_limiter, ActorType, Limiter,
};
use casual_task_api::rate_limit::layer::PrincipalLimits;
use casual_task_api::rate_limit::meter::{first_hop, Bucket, RateLimiter, MAX_TRACKED_KEYS, SWEEP_INTERVAL};

fn nanos(d: Duration) -> u128 {
    d.as_nanos()
}

#[test]
fn every_class_matches_the_row_docs_21_publishes() {
    for (class, sustained, burst, row) in [
        (auth_class(), 10, 5, "Auth (login, reset)"),
        (read_class(), 1_000, 100, "Reads"),
        (write_class(), 300, 50, "Writes"),
        (search_class(), 60, 20, "Search"),
        (bulk_class(), 10, 3, "Bulk"),
    ] {
        assert_eq!(class.sustained, sustained, "{row} sustained");
        assert_eq!(class.window, nanos(Duration::from_secs(60)), "{row} window");
        assert_eq!(class.burst, burst, "{row} burst");
    }
}

#[test]
fn the_invite_class_is_the_published_hourly_rate() {
    let invite = invite_class();
    assert_eq!(invite.burst, 10);
    assert_eq!(invite.sustained, 50);
    assert_eq!(invite.window, nanos(Duration::from_secs(3_600)));
    assert_eq!(
        invite.emission_interval(),
        nanos(Duration::from_secs(72)),
        "50 an hour is one every 72 seconds"
    );
}

#[test]
fn a_token_arrives_after_exactly_the_published_gap() {
    assert_eq!(auth_class().emission_interval(), nanos(Duration::from_secs(6)));
    assert_eq!(read_class().emission_interval(), nanos(Duration::from_millis(60)));
    assert_eq!(bulk_class().emission_interval(), nanos(Duration::from_secs(6)));
}

#[test]
fn an_emptied_bucket_refills_in_burst_times_the_gap() {
    assert_eq!(auth_class().full_refill(), nanos(Duration::from_secs(30)));
    assert_eq!(bulk_class().full_refill(), nanos(Duration::from_secs(18)));
}

#[test]
fn a_service_account_gets_a_separate_higher_bucket() {
    let multiplier = SERVICE_ACCOUNT_MULTIPLIER;
    assert!(multiplier >= 1, "a multiplier below 1 inverts the sentence");
    let write = write_class();
    let theirs = write.for_service_account();
    assert!(theirs.sustained > write.sustained);
    assert!(theirs.burst > write.burst);
    assert_eq!(theirs.window, write.window, "scaling must not move the window");
}

#[test]
fn reads_and_writes_are_classified_by_method() {
    assert_eq!(classify(Method::Get, "/api/v1/tasks"), Some(read_class()), "a GET is a read");
    for method in [Method::Post, Method::Patch, Method::Delete, Method::Put] {
        assert_eq!(classify(method, "/api/v1/tasks/{id}"), Some(write_class()), "{method:?}");
    }
}

#[test]
fn the_narrower_class_wins_where_two_could_apply() {
    assert_eq!(classify(Method::Post, "/api/v1/tasks/bulk"), Some(bulk_class()));
    assert_eq!(classify(Method::Get, "/api/v1/search"), Some(search_class()));
}

#[test]
fn creating_an_invitation_is_governed_by_the_invite_class() {
    let route = "/api/v1/workspaces/{workspace_id}/invitations";
    assert_eq!(classify(Method::Post, route), Some(invite_class()));
    assert_eq!(classify(Method::Get, route), Some(read_class()));
}

#[test]
fn the_endpoints_an_orchestrator_polls_are_never_governed() {
    for route in ["/health/live", "/health/ready", "/metrics"] {
        assert_eq!(classify(Method::Get, route), None, "{route}");
    }
}

#[test]
fn the_auth_routes_are_not_governed_per_principal() {
    for route in LIMITED_ROUTES {
        assert_eq!(classify(Method::Post, route), None, "{route}");
    }
    assert_eq!(classify(Method::Post, "/api/v1/auth/logout"), None);
    assert_eq!(classify(Method::Get, "/api/v1/auth/session"), None);
}

#[test]
fn health_routes_are_not_in_the_governed_set() {
    assert!(!LIMITED_ROUTES.contains(&"/health/live"));
    assert!(!LIMITED_ROUTES.contains(&"/health/ready"));
    assert!(!LIMITED_ROUTES.contains(&"/metrics"));
    assert!(
        LIMITED_ROUTES.contains(&"/api/v1/auth/login"),
        "the endpoint this exists for is not governed"
    );
}

#[test]
fn no_route_outside_the_auth_class_is_governed_by_it() {
    for route in LIMITED_ROUTES {
        assert!(route.starts_with("/api/v1/auth/"), "{route} is under the auth class");
    }
}

#[test]
fn every_governed_route_is_one_the_router_serves() {
    for route in LIMITED_ROUTES {
        assert!(
            casual_task_api::server::ROUTES.contains(&route),
            "{route} is rate limited but is not a route this server serves"
        );
    }
}

const START: u128 = 1_000_000_000_000;

/// The client an `X-Forwarded-For` header names, as the HTTP edge keys it:
/// the first hop, read as an IPv4 address.
fn client(forwarded_for: Option<&str>) -> Option<(u128, u128)> {
    let hop = first_hop(forwarded_for?);
    let parts: Vec<&str> = hop.split('.').collect();
    if parts.len() != 4 {
        return None;
    }
    let mut bits: u128 = 0;
    for part in parts {
        let octet: u8 = part.parse().ok()?;
        bits = bits * 256 + u128::from(octet);
    }
    Some((4, bits))
}

fn dotted(n: u32) -> String {
    let b = n.to_be_bytes();
    format!("{}.{}.{}.{}", b[0], b[1], b[2], b[3])
}

#[test]
fn a_burst_is_spent_and_then_refused() {
    let auth = auth_class();
    let mut limiter = RateLimiter::per_ip(auth);
    let headers = client(Some("203.0.113.9"));
    for spent in 1..=auth.burst {
        let decision = limiter.check_at(headers, START);
        assert!(decision.allowed, "refused request {spent} of the burst");
        assert_eq!(decision.remaining, auth.burst - spent);
        assert_eq!(decision.retry_after_seconds, None);
    }
    let refused = limiter.check_at(headers, START);
    assert!(!refused.allowed, "the burst was not a limit");
    assert_eq!(refused.remaining, 0);
    assert_eq!(refused.retry_after_seconds, Some(6), "10/min is one token per six seconds");
}

#[test]
fn one_address_cannot_spend_anothers_tokens() {
    let auth = auth_class();
    let mut limiter = RateLimiter::per_ip(auth);
    let attacker = client(Some("203.0.113.9"));
    let ordinary = client(Some("198.51.100.4"));
    for _ in 0..auth.burst + 3 {
        let _ = limiter.check_at(attacker, START);
    }
    assert!(!limiter.check_at(attacker, START).allowed);
    let decision = limiter.check_at(ordinary, START);
    assert!(decision.allowed, "a second address was refused because the first exhausted its bucket");
    assert_eq!(decision.remaining, auth.burst - 1);
}

#[test]
fn the_bucket_refills_at_the_documented_rate() {
    let auth = auth_class();
    let mut limiter = RateLimiter::per_ip(auth);
    let headers = client(Some("203.0.113.9"));
    for _ in 0..auth.burst {
        assert!(limiter.check_at(headers, START).allowed);
    }
    assert!(!limiter.check_at(headers, START).allowed);
    assert!(
        !limiter.check_at(headers, START + nanos(Duration::from_secs(5))).allowed,
        "a token appeared before six seconds had passed"
    );
    assert!(
        limiter.check_at(headers, START + nanos(Duration::from_secs(6))).allowed,
        "the bucket never refilled: one refusal would be permanent"
    );
    let later = START + auth.full_refill() + nanos(Duration::from_secs(60));
    for spent in 1..=auth.burst {
        assert!(
            limiter.check_at(headers, later).allowed,
            "only {spent} of the burst came back after a full window"
        );
    }
}

#[test]
fn sustained_throughput_matches_the_documented_rate() {
    let auth = auth_class();
    let mut limiter = RateLimiter::per_ip(auth);
    let headers = client(Some("203.0.113.9"));
    for _ in 0..auth.burst {
        assert!(limiter.check_at(headers, START).allowed);
    }
    let mut allowed = 0;
    for second in 1..=60u128 {
        if limiter.check_at(headers, START + nanos(Duration::from_secs(1)) * second).allowed {
            allowed += 1;
        }
    }
    assert_eq!(allowed, auth.sustained, "a drained bucket admitted {allowed} requests");
}

#[test]
fn requests_without_a_usable_address_share_one_bucket() {
    let auth = auth_class();
    let mut limiter = RateLimiter::per_ip(auth);
    let none = client(None);
    let garbage = client(Some("not-an-address"));
    assert_eq!(none, None);
    assert_eq!(garbage, None);
    for _ in 0..auth.burst {
        assert!(limiter.check_at(none, START).allowed);
    }
    assert!(
        !limiter.check_at(garbage, START).allowed,
        "an unparseable address got its own bucket, so sending garbage is a bypass"
    );
}

#[test]
fn the_first_hop_is_what_is_keyed_on() {
    let auth = auth_class();
    let mut limiter = RateLimiter::per_ip(auth);
    let chained = client(Some("203.0.113.9, 198.51.100.4"));
    for _ in 0..auth.burst {
        assert!(limiter.check_at(chained, START).allowed);
    }
    assert!(!limiter.check_at(chained, START).allowed);
    let other_chain = client(Some("203.0.113.9, 192.0.2.7"));
    assert!(
        !limiter.check_at(other_chain, START).allowed,
        "changing a later hop created a new bucket, which any client can do"
    );
}

#[test]
fn the_tracked_map_never_exceeds_its_cap() {
    let mut limiter = RateLimiter::per_ip(auth_class());
    for n in 0..(MAX_TRACKED_KEYS as u32 + 5_000) {
        let header = dotted(n | 0x0100_0000);
        let _ = limiter.check_at(client(Some(&header)), START);
    }
    assert!(
        limiter.client_count() <= MAX_TRACKED_KEYS,
        "the limiter held {} clients; the cap is {MAX_TRACKED_KEYS}",
        limiter.client_count()
    );
    assert!(
        limiter.overflowed(),
        "the cap was reached but nothing was charged to the overflow bucket, so the excess went unlimited"
    );
}

#[test]
fn an_already_tracked_client_keeps_its_bucket_when_the_map_is_full() {
    let auth = auth_class();
    let mut limiter = RateLimiter::per_ip(auth);
    let known = client(Some("203.0.113.9"));
    for _ in 0..auth.burst {
        assert!(limiter.check_at(known, START).allowed);
    }
    for n in 0..(MAX_TRACKED_KEYS as u32 + 1_000) {
        let header = dotted(n | 0x0a00_0000);
        let _ = limiter.check_at(client(Some(&header)), START);
    }
    assert!(
        !limiter.check_at(known, START).allowed,
        "a flood of new addresses restored an exhausted client's bucket"
    );
}

#[test]
fn a_full_bucket_is_swept_because_it_carries_no_information() {
    let auth = auth_class();
    let mut limiter = RateLimiter::per_ip(auth);
    for n in 0..MAX_TRACKED_KEYS as u32 {
        let header = dotted(n | 0x0a00_0000);
        let _ = limiter.check_at(client(Some(&header)), START);
    }
    assert_eq!(limiter.client_count(), MAX_TRACKED_KEYS);
    let later = START + auth.full_refill() + SWEEP_INTERVAL + nanos(Duration::from_secs(1));
    let fresh = client(Some("203.0.113.9"));
    assert!(limiter.check_at(fresh, later).allowed);
    assert!(
        limiter.client_count() < MAX_TRACKED_KEYS,
        "the sweep freed nothing, so the map stays saturated forever after one flood"
    );
}

#[test]
fn one_workspace_cannot_spend_anothers_tokens() {
    let mut limits = PrincipalLimits::new();
    let actor = 7;
    for _ in 0..bulk_class().burst {
        assert!(limits.check_at(Limiter::Bulk, 1, actor, START).allowed);
    }
    assert!(!limits.check_at(Limiter::Bulk, 1, actor, START).allowed);
    assert!(limits.check_at(Limiter::Bulk, 2, actor, START).allowed, "another workspace was refused");
    assert!(limits.check_at(Limiter::Read, 1, actor, START).allowed, "an exhausted bulk budget stopped reads");
}

#[test]
fn a_retry_after_is_long_enough_to_succeed() {
    let auth = auth_class();
    let mut bucket = Bucket::new();
    for _ in 0..auth.burst {
        bucket.check_at(auth, START);
    }
    let refused = bucket.check_at(auth, START);
    let wait = refused.retry_after_seconds.expect("a refusal says when") as u128;
    assert!(bucket.check_at(auth, START + wait * 1_000_000_000).allowed);
}

#[test]
fn a_service_account_is_metered_apart_from_a_person() {
    let (limiter, class) = limiter_for(write_class(), true);
    assert_eq!(limiter, Limiter::Service);
    assert_eq!(class, write_class().for_service_account());
    let (limiter, class) = limiter_for(write_class(), false);
    assert_eq!(limiter, Limiter::Write);
    assert_eq!(class, write_class());
    assert_eq!(
        principal_limiter(Some("/api/v1/tasks"), Method::Get, ActorType::ServiceAccount),
        Some((Limiter::Service, read_class().for_service_account()))
    );
    assert_eq!(
        principal_limiter(Some("/api/v1/tasks"), Method::Get, ActorType::User),
        Some((Limiter::Read, read_class()))
    );
    assert_eq!(principal_limiter(None, Method::Get, ActorType::User), None);
    assert!(!governed(Some("/health/live")));
}

#[test]
fn the_headers_report_what_the_bucket_holds() {
    let auth: Class = auth_class();
    let mut bucket = Bucket::new();
    let decision = bucket.check_at(auth, START);
    let headers = headers_for(auth, decision);
    assert_eq!(headers.limit, 10, "the auth class publishes ten a minute");
    assert_eq!(headers.remaining, auth.burst - 1);
}

#[test]
fn the_first_hop_is_trimmed_and_stops_at_the_first_comma() {
    assert_eq!(first_hop(" 203.0.113.9 , 198.51.100.4"), "203.0.113.9");
    assert_eq!(first_hop("203.0.113.9"), "203.0.113.9");
    assert_eq!(first_hop(""), "");
    assert_eq!(first_hop(", 198.51.100.4"), "");
}

#[test]
fn a_refilled_bucket_answers_like_a_new_one() {
    let auth = auth_class();
    let mut used = Bucket::new();
    let _ = used.check_at(auth, START);
    let later = START + auth.full_refill();
    let mut fresh = Bucket::new();
    assert_eq!(used.check_at(auth, later), fresh.check_at(auth, later));
    assert_eq!(used, fresh);
}

#[test]
fn a_refusal_is_a_429_that_says_when_and_every_answer_carries_the_headers() {
    let auth = auth_class();
    let mut limiter = RateLimiter::per_ip(auth);
    let who = client(Some("203.0.113.9"));
    let first = limiter.check_at(who, START);
    let (refusal, headers) = limit_answer(auth, first);
    assert_eq!(refusal, None);
    assert_eq!((headers.limit, headers.remaining), (10, auth.burst - 1));
    for _ in 1..auth.burst {
        let _ = limiter.check_at(who, START);
    }
    let (refusal, headers) = limit_answer(auth, limiter.check_at(who, START));
    let refusal = refusal.expect("refused");
    assert_eq!((refusal.status, refusal.retry_after), (429, Some(6)));
    assert_eq!(headers.remaining, 0);
}
