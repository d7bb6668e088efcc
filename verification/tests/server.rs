use casual_task_api::server::{request_labels, StatusClass};
use std::time::Duration;

use casual_task_api::rate_limit::class::Method;
use casual_task_api::server::{
    declared_method, declared_route, looks_like_asset, spa_fallback, status_class, Fallback,
    RequestId, DRAIN, ROUTES,
};

/// The paths the router registers, in the order its table lists them.
const ROUTER_PATHS: [&str; 84] = [
    "/health/live",
    "/health/ready",
    "/metrics",
    "/api/v1/auth/login",
    "/api/v1/auth/logout",
    "/api/v1/auth/session",
    "/api/v1/auth/mfa",
    "/api/v1/auth/mfa/enrolment",
    "/api/v1/auth/mfa/enrolment/confirm",
    "/api/v1/auth/mfa/step-up",
    "/api/v1/auth/mfa/recovery",
    "/api/v1/workspaces/{workspace_id}/mfa-requirement",
    "/api/v1/auth/password-reset",
    "/api/v1/auth/password-reset/confirm",
    "/api/v1/projects",
    "/api/v1/projects/{id}",
    "/api/v1/projects/{id}/tasks",
    "/api/v1/tasks/{id}/attachments",
    "/api/v1/attachments/{id}/commit",
    "/api/v1/attachments/{id}/download",
    "/api/v1/tasks",
    "/api/v1/tasks/bulk",
    "/api/v1/workflows/{id}",
    "/api/v1/workflows/{id}/statuses",
    "/api/v1/workflows/{id}/statuses/order",
    "/api/v1/workflows/{id}/statuses/{sid}",
    "/api/v1/workflows/{id}/transitions",
    "/api/v1/workflows/{id}/transitions/{tid}",
    "/api/v1/projects/{id}/teams",
    "/api/v1/projects/{id}/teams/{team_id}",
    "/api/v1/projects/{id}/environments",
    "/api/v1/projects/{id}/environments/order",
    "/api/v1/environments/{id}",
    "/api/v1/tasks/{id}/environment",
    "/api/v1/projects/{id}/releases",
    "/api/v1/releases/{id}",
    "/api/v1/reports/run",
    "/api/v1/me",
    "/api/v1/me/queue",
    "/api/v1/me/teams",
    "/api/v1/me/password",
    "/api/v1/me/sessions",
    "/api/v1/me/sessions/{id}",
    "/api/v1/roles",
    "/api/v1/roles/{id}",
    "/api/v1/role-assignments",
    "/api/v1/role-assignments/{id}",
    "/api/v1/permissions/effective",
    "/api/v1/permissions/explain",
    "/api/v1/notifications",
    "/api/v1/notifications/read",
    "/api/v1/tasks/{id}",
    "/api/v1/tasks/{id}/transitions",
    "/api/v1/tasks/{id}/assignees",
    "/api/v1/tasks/{id}/assignees/{user_id}",
    "/api/v1/tasks/{id}/activity",
    "/api/v1/tasks/{id}/custody",
    "/api/v1/tasks/{id}/team",
    "/api/v1/tasks/{id}/promotions",
    "/api/v1/tasks/{id}/verifications",
    "/api/v1/tasks/{id}/dependencies",
    "/api/v1/tasks/{id}/dependencies/{other_id}",
    "/api/v1/tasks/{id}/comments",
    "/api/v1/comments/{id}",
    "/api/v1/tasks/{id}/tags",
    "/api/v1/tasks/{id}/tags/{tag_id}",
    "/api/v1/tags",
    "/api/v1/tasks/{id}/subtasks",
    "/api/v1/projects/{id}/milestones",
    "/api/v1/milestones/{id}",
    "/api/v1/stream",
    "/api/v1/exports",
    "/api/v1/exports/{id}",
    "/api/v1/exports/{id}/download",
    "/api/v1/workspaces",
    "/api/v1/workspaces/{workspace_id}",
    "/api/v1/workspaces/{workspace_id}/members",
    "/api/v1/workspaces/{workspace_id}/members/{user_id}",
    "/api/v1/workspaces/{workspace_id}/invitations",
    "/api/v1/workspaces/{workspace_id}/invitations/{id}",
    "/api/v1/auth/invitations/accept",
    "/api/v1/workspaces/{workspace_id}/teams",
    "/api/v1/teams/{team_id}/members",
    "/api/v1/teams/{team_id}/members/{user_id}",
];

#[test]
fn every_route_the_router_serves_is_interned() {
    for route in [
        "/health/live",
        "/health/ready",
        "/metrics",
        "/api/v1/auth/login",
        "/api/v1/auth/logout",
        "/api/v1/auth/session",
        "/api/v1/stream",
        "/api/v1/exports",
        "/api/v1/exports/{id}",
        "/api/v1/exports/{id}/download",
        "/api/v1/auth/password-reset",
        "/api/v1/auth/password-reset/confirm",
        "/api/v1/projects",
        "/api/v1/projects/{id}",
        "/api/v1/projects/{id}/tasks",
        "/api/v1/tasks",
        "/api/v1/tasks/bulk",
        "/api/v1/tasks/{id}",
        "/api/v1/tasks/{id}/transitions",
        "/api/v1/tasks/{id}/assignees",
        "/api/v1/tasks/{id}/assignees/{user_id}",
        "/api/v1/tasks/{id}/tags",
        "/api/v1/workspaces",
        "/api/v1/workspaces/{workspace_id}",
        "/api/v1/workspaces/{workspace_id}/members",
        "/api/v1/workspaces/{workspace_id}/members/{user_id}",
        "/api/v1/workspaces/{workspace_id}/invitations",
        "/api/v1/workspaces/{workspace_id}/invitations/{id}",
        "/api/v1/auth/invitations/accept",
        "/api/v1/workspaces/{workspace_id}/teams",
        "/api/v1/teams/{team_id}/members",
        "/api/v1/teams/{team_id}/members/{user_id}",
    ] {
        assert!(
            declared_route(route).is_some(),
            "{route} is served but not in ROUTES, so it records no metrics"
        );
    }
}

#[test]
fn interned_routes_are_unique() {
    let mut routes = ROUTES.to_vec();
    routes.sort_unstable();
    for pair in routes.windows(2) {
        assert_ne!(pair[0], pair[1], "{} appears twice in ROUTES", pair[0]);
    }
}

#[test]
fn every_route_in_the_source_of_router_is_interned() {
    let mut seen = 0;
    for literal in ROUTER_PATHS {
        if !literal.starts_with('/') {
            continue;
        }
        seen += 1;
        assert!(
            declared_route(literal).is_some(),
            "{literal} is registered in router() but missing from ROUTES"
        );
    }
    assert!(seen >= 8, "only found {seen} routes; the scan is broken");
}

#[test]
fn every_interned_route_is_actually_registered() {
    for route in ROUTES {
        if route == "unmatched" {
            continue;
        }
        assert!(
            ROUTER_PATHS.contains(&route),
            "{route} is interned in ROUTES but not registered in router()"
        );
    }
}

#[test]
fn an_unrouted_path_cannot_become_a_metric_series() {
    assert_eq!(declared_route("/../../etc/passwd"), None);
    assert_eq!(declared_route("/api/v1/tasks/018f2c"), None);
}

#[test]
fn the_drain_is_shorter_than_the_orchestrator_kill_grace() {
    assert!(DRAIN < Duration::from_secs(30).as_nanos());
}

#[test]
fn methods_map_to_bounded_labels() {
    assert_eq!(declared_method(Method::Get), Some("GET"));
    assert_eq!(declared_method(Method::Other), None, "an arbitrary verb would be an unbounded label");
}

#[test]
fn a_status_collapses_to_its_class_label() {
    assert_eq!(status_class(204).label(), "2xx");
    assert_eq!(status_class(404).label(), "4xx");
    assert_eq!(status_class(503).label(), "5xx");
    assert_eq!(status_class(101).label(), "1xx");
    assert_eq!(status_class(302).label(), "3xx");
}

#[test]
fn a_request_id_is_honoured_only_when_it_is_usable() {
    assert_eq!(RequestId::of_parts(Some("abc-123")), "abc-123");
    assert_eq!(RequestId::of_parts(Some("")), "unknown");
    assert_eq!(RequestId::of_parts(Some(&"x".repeat(129))), "unknown");
    assert_eq!(RequestId::of_parts(Some(&"x".repeat(128))), "x".repeat(128));
    assert_eq!(RequestId::of_parts(None), "unknown");
    assert_eq!(RequestId::of(Some(&RequestId("r-1".to_owned()))), "r-1");
    assert_eq!(RequestId::of(None), "unknown");
}

#[test]
fn the_fallback_serves_the_app_only_to_a_browser_reading_a_page() {
    let html = Some("text/html,application/xhtml+xml");
    assert_eq!(spa_fallback(Method::Get, "/board/42", html), Fallback::Index { with_body: true });
    assert_eq!(spa_fallback(Method::Head, "/board/42", html), Fallback::Index { with_body: false });
    assert_eq!(spa_fallback(Method::Get, "/api/v1/nothing", html), Fallback::NotFound);
    assert_eq!(spa_fallback(Method::Get, "/assets/app.js", html), Fallback::NotFound);
    assert_eq!(spa_fallback(Method::Get, "/board/42", Some("application/json")), Fallback::NotFound);
    assert_eq!(spa_fallback(Method::Post, "/board/42", html), Fallback::NotFound);
    assert!(looks_like_asset("/static/logo.png"));
    assert!(!looks_like_asset("/board/42"));
}

#[test]
fn an_inbound_request_id_is_honoured_and_a_missing_one_minted() {
    assert_eq!(RequestId::assign(Some("trace-42")).0, "trace-42");
    let long = "x".repeat(129);
    for refused in [None, Some(""), Some(long.as_str())] {
        let minted = RequestId::assign(refused).0;
        assert_eq!(minted.len(), 36, "{minted}");
        assert_eq!(&minted[14..15], "7", "a version 7 id: {minted}");
        assert_eq!(minted.matches('-').count(), 4);
    }
    assert_ne!(RequestId::assign(None), RequestId::assign(None));
}

#[test]
fn a_request_is_counted_under_bounded_labels_only() {
    let labels = request_labels(Method::Get, "/api/v1/tasks", 204).expect("declared");
    assert_eq!(labels.method, "GET");
    assert_eq!(labels.route, "/api/v1/tasks");
    assert_eq!(labels.status_class, StatusClass::Success);
    assert_eq!(labels.status_class.label(), "2xx");
    assert_eq!(request_labels(Method::Post, "unmatched", 404).expect("declared").route, "unmatched");
    assert_eq!(request_labels(Method::Get, "/api/v1/tasks/018f2c00", 200), None);
    assert_eq!(request_labels(Method::Other, "/api/v1/tasks", 200), None);
}
