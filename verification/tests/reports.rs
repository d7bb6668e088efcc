use casual_task_api::error::ErrorCode;
use casual_task_api::reports::{
    answer, bucket_of, count, dimension_of, measure_of, plan, state_for, BucketField,
    BucketRequest, Dimension, Interval, Measure, Reduce, ReportRow, RunRequest, MAX_GROUPS,
};

#[test]
fn time_in_state_needs_a_state_and_only_it_may_have_one() {
    let time_in_state = Measure::TimeInState(Reduce::P50);
    assert_eq!(state_for(time_in_state, Some("ACTIVE")).expect("a permanent state"), "ACTIVE",);
    assert!(state_for(time_in_state, None).is_err());
    assert!(state_for(time_in_state, Some("IN_REVIEW")).is_err());
    assert!(state_for(time_in_state, Some("active")).is_err());
    assert!(state_for(Measure::Count, Some("ACTIVE")).is_err());
    assert!(state_for(Measure::Count, None).is_ok());
}

#[test]
fn reports_the_dimension_set_is_closed() {
    assert!(dimension_of("team").is_ok());
    for bad in ["title", "", "t.project_id; DROP TABLE task", "cycle_time"] {
        assert!(dimension_of(bad).is_err(), "{bad:?}");
    }
}

#[test]
fn reports_tests_the_dimension_set_is_closed() {
    assert!(dimension_of("team").is_ok());
    for bad in ["title", "", "t.project_id; DROP TABLE task", "cycle_time"] {
        assert!(dimension_of(bad).is_err(), "{bad:?}");
    }
}

#[test]
fn an_unbuilt_measure_is_refused_by_name_rather_than_ignored() {
    assert!(measure_of("count").is_ok());
    for absent in ["cycle_time", "lead_time", "throughput", "time_in_state"] {
        assert!(measure_of(absent).is_err(), "{absent:?}");
    }
    assert!(measure_of("sum").is_err());
}

#[test]
fn an_unbuilt_measure_is_a_501_and_an_unknown_one_a_400() {
    let unbuilt = measure_of("cycle_time").unwrap_err();
    assert_eq!(unbuilt.status(), 501);
    assert_eq!(unbuilt.code(), ErrorCode::NotBuilt);
    let unknown = measure_of("sum").unwrap_err();
    assert_eq!(unknown.status(), 400);
    assert_eq!(unknown.code(), ErrorCode::OutOfRange);
}

#[test]
fn a_refused_report_names_the_field_and_echoes_its_value() {
    let unbuilt = measure_of("cycle_time").unwrap_err();
    assert_eq!((unbuilt.field, unbuilt.value.as_str()), ("measure", "cycle_time"));
    let dimension = dimension_of("title").unwrap_err();
    assert_eq!((dimension.field, dimension.value.as_str()), ("group_by", "title"));
    let bad_field = bucket_of(&BucketRequest { field: "closed_at".to_owned(), interval: "year".to_owned() })
        .unwrap_err();
    assert_eq!((bad_field.field, bad_field.value.as_str()), ("field", "closed_at"));
    let bad_interval = bucket_of(&BucketRequest { field: "due_at".to_owned(), interval: "year".to_owned() })
        .unwrap_err();
    assert_eq!((bad_interval.field, bad_interval.value.as_str()), ("interval", "year"));
}

#[test]
fn every_dimension_has_its_name() {
    for (name, dimension) in [
        ("status", Dimension::Status),
        ("state", Dimension::State),
        ("type", Dimension::Type),
        ("priority", Dimension::Priority),
        ("project", Dimension::Project),
        ("team", Dimension::Team),
        ("environment", Dimension::Environment),
        ("reporter", Dimension::Reporter),
        ("milestone", Dimension::Milestone),
        ("assignee", Dimension::Assignee),
    ] {
        assert_eq!(dimension_of(name).ok(), Some(dimension));
    }
}

#[test]
fn a_bucket_is_one_instant_and_one_interval() {
    let b = |f: &str, i: &str| BucketRequest { field: f.to_owned(), interval: i.to_owned() };
    let bucket = bucket_of(&b("due_at", "week")).expect("valid");
    assert_eq!(bucket.field, BucketField::DueAt);
    assert_eq!(bucket.interval, Interval::Week);
    assert!(bucket_of(&b("closed_at", "week")).is_err());
    assert!(bucket_of(&b("created_at", "year")).is_err());
}

#[test]
fn a_run_is_planned_with_a_bounded_group_count() {
    let run = |limit: Option<u32>| RunRequest {
        filter: vec![("state".to_owned(), "ACTIVE".to_owned())],
        measure: count(),
        group_by: "assignee".to_owned(),
        bucket: None,
        limit,
    };
    assert_eq!(plan(&run(None)).expect("valid").limit, MAX_GROUPS);
    assert_eq!(plan(&run(Some(0))).expect("valid").limit, 1);
    assert_eq!(plan(&run(Some(5000))).expect("valid").limit, MAX_GROUPS);
    assert_eq!(plan(&run(Some(20))).expect("valid").limit, 20);
    let mut bad = run(None);
    bad.group_by = "title".to_owned();
    assert_eq!(plan(&bad).err().map(|e| e.code()), Some(ErrorCode::OutOfRange));
}

#[test]
fn the_total_is_the_sum_of_the_groups() {
    let rows = vec![
        ReportRow { key: Some("a".to_owned()), bucket_start: None, total: 3 },
        ReportRow { key: None, bucket_start: None, total: 4 },
        ReportRow { key: Some("b".to_owned()), bucket_start: Some(0), total: 5 },
    ];
    let a = answer("assignee".to_owned(), &rows, 2);
    assert_eq!(a.total, 12);
    assert_eq!(a.measure, "count");
    assert_eq!(a.groups.len(), 3);
    assert_eq!(a.groups[1].key, None);
    assert_eq!(a.groups[2].bucket_start.as_deref(), Some("1970-01-01T00:00:00Z"));
    assert_eq!(a.scope_projects, 2);
}
