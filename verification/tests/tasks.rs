use casual_task_api::tasks::crud::task_page;
use casual_task_api::tasks::subtasks::child_views;
use casual_task_api::tasks::crud::{assignees_of, search_pairs};
use casual_task_api::error::ErrorCode;
use casual_task_api::tasks::bulk::{
    attempts, bulk_answer, expected_for, outcome, tally, unversioned, validated_envelope, BulkRequestBody,
    Undo, MULTI_STATUS,
};
use casual_task_api::tasks::crud::{
    authorize_retype, create_checks, create_request, new_task, write_checks, CreateStep,
};
use casual_task_api::unit::Claim;
use casual_task_api::tasks::relations::{already_there, conflict, transition_checks, TransitionStep};
use casual_task_api::unit::{Decision, DenyReason};
use casual_task_api::tasks::crud::{
    check_parent, check_search_term, create_digest, cursor_key, full_text_term, next_cursor,
    parse_limit, retypes, sort_for, validated_create, validated_patch, Clause, Direction, Field,
    Node, Sort, SortField, Value,
};
use casual_task_api::tasks::relations::{
    added_status, check_assignee, comment_to_write, provided_fields, rejected, transition_event,
    unchanged, Rejection, TransitionEvent, Transitioned,
};
use casual_task_api::tasks::subtasks::{parent_ref, rollup};
use casual_task_api::tasks::validate::{
    is_empty_value, one_of, task_type_of, validated_title, FieldValue, TaskState, TaskType,
    PRIORITIES, TASK_TYPES,
};
use casual_task_api::tasks::wire::{
    changed_fields, key_of, view, CreateRequest, PatchRequest, TaskRow,
};

fn row() -> TaskRow {
    TaskRow {
        id: 1,
        project_id: 2,
        number: 125,
        title: "t".to_owned(),
        description: None,
        task_type: "TASK".to_owned(),
        priority: "NONE".to_owned(),
        status_id: 3,
        state: "BACKLOG".to_owned(),
        reporter_id: 4,
        environment_id: None,
        milestone_id: None,
        parent_id: None,
        start_at: None,
        due_at: None,
        position: "11111111".to_owned(),
        created_at: 0,
        created_by: 5,
        updated_at: 0,
        updated_by: None,
        archived_at: None,
        version: 1,
        rank: None,
    }
}

#[test]
fn tasks_the_enums_match_the_ones_the_schema_declares() {
    for value in TASK_TYPES.iter().chain(PRIORITIES.iter()) {
        assert!(!value.is_empty() && value.chars().all(|c| c.is_ascii_uppercase()));
    }
    assert_eq!(TASK_TYPES.len(), 5);
    assert_eq!(PRIORITIES.len(), 5);
}

#[test]
fn tasks_a_title_is_bounded_at_the_schemas_bound() {
    assert!(validated_title("x").is_ok());
    assert!(validated_title(&"x".repeat(512)).is_ok());
    assert!(validated_title(&"x".repeat(513)).is_err());
    assert!(validated_title("   ").is_err());
}

#[test]
fn validate_the_enums_match_the_ones_the_schema_declares() {
    assert_eq!(TASK_TYPES, ["TASK", "BUG", "FEATURE", "INCIDENT", "REQUEST"]);
    assert_eq!(PRIORITIES, ["NONE", "LOW", "MEDIUM", "HIGH", "URGENT"]);
    assert_eq!(TASK_TYPES.len(), 5);
    assert_eq!(PRIORITIES.len(), 5);
}

#[test]
fn validate_a_title_is_bounded_at_the_schemas_bound() {
    assert!(validated_title("x").is_ok());
    assert!(validated_title(&"x".repeat(512)).is_ok());
    assert!(validated_title(&"x".repeat(513)).is_err());
    assert!(validated_title("   ").is_err());
}

#[test]
fn validate_every_state_has_a_stored_spelling_the_schema_knows() {
    for state in TaskState::all() {
        assert_eq!(TaskState::parse(state.as_str()), Some(state));
    }
}

#[test]
fn validate_a_key_reads_as_project_key_and_number() {
    assert_eq!(view(&row(), "WR").key, "WR-125");
}

#[test]
fn validate_an_unknown_enum_value_is_refused_rather_than_defaulted() {
    assert!(one_of(None, &TASK_TYPES, "TASK").is_ok());
    assert_eq!(
        one_of(Some("EPIC"), &TASK_TYPES, "TASK").err().map(|e| e.code()),
        Some(ErrorCode::InvalidEnum)
    );
}

#[test]
fn a_key_handles_negative_and_large_numbers() {
    assert_eq!(key_of("OPS", 0), "OPS-0");
    assert_eq!(key_of("OPS", -7), "OPS--7");
    assert_eq!(key_of("OPS", i64::MAX), format!("OPS-{}", i64::MAX));
}

#[test]
fn a_type_is_read_strictly() {
    assert_eq!(task_type_of("BUG"), Some(TaskType::Bug));
    assert_eq!(task_type_of("bug"), None);
    assert!(is_empty_value(&FieldValue::Text("  ".to_owned())));
    assert!(!is_empty_value(&FieldValue::Number));
    assert!(is_empty_value(&FieldValue::List(0)));
}

fn create(title: &str) -> CreateRequest {
    CreateRequest {
        title: title.to_owned(),
        description: None,
        task_type: None,
        priority: None,
        parent_id: None,
        due_at: None,
    }
}

#[test]
fn a_create_is_checked_in_order_and_defaults_its_enumerations() {
    let ok = validated_create(&create("  Fix login  ")).expect("valid");
    assert_eq!(ok.title, "Fix login");
    assert_eq!(ok.task_type, "TASK");
    assert_eq!(ok.priority, "NONE");
    assert_eq!(ok.due_at, None);

    let mut body = create("t");
    body.task_type = Some("EPIC".to_owned());
    assert_eq!(validated_create(&body).err().map(|e| e.code()), Some(ErrorCode::InvalidEnum));

    let mut body = create("t");
    body.due_at = Some("tomorrow".to_owned());
    assert_eq!(validated_create(&body).err().map(|e| e.code()), Some(ErrorCode::MalformedBody));

    let mut body = create("t");
    body.due_at = Some("1970-01-01T00:00:01Z".to_owned());
    assert_eq!(validated_create(&body).expect("valid").due_at, Some(1_000_000_000));

    let mut body = create("t");
    body.description = Some("x".repeat(65_537));
    assert_eq!(validated_create(&body).err().map(|e| e.code()), Some(ErrorCode::OutOfRange));

    let mut body = create("");
    body.task_type = Some("EPIC".to_owned());
    assert_eq!(
        validated_create(&body).err().map(|e| e.code()),
        Some(ErrorCode::OutOfRange),
        "the title is checked first"
    );
}

#[test]
fn the_create_digest_binds_every_field_that_defines_the_create() {
    let valid = validated_create(&create("t")).expect("valid");
    let a = create_digest(1, &valid, &None);
    assert_eq!(a.len(), 64);
    assert_eq!(a, create_digest(1, &valid, &None));
    assert_ne!(a, create_digest(2, &valid, &None));
    assert_ne!(a, create_digest(1, &valid, &Some("d".to_owned())));
    assert_eq!(a, create_digest(1, &valid, &Some(String::new())), "no description is an empty one");
}

#[test]
fn a_parent_is_in_the_project_and_one_level_deep() {
    assert!(check_parent(Some((2, None)), 2).is_ok());
    assert_eq!(check_parent(Some((9, None)), 2).err().map(|e| e.code()), Some(ErrorCode::ParentOutOfProject));
    assert_eq!(check_parent(Some((2, Some(7))), 2).err().map(|e| e.code()), Some(ErrorCode::ParentOutOfProject));
    assert_eq!(check_parent(None, 2).err().map(|e| e.code()), Some(ErrorCode::ReferenceNotFound));
    assert_eq!(check_parent(None, 2).err().map(|e| e.status()), Some(422));
}

fn patch() -> PatchRequest {
    PatchRequest {
        title: None,
        description: None,
        task_type: None,
        priority: None,
        start_at: None,
        due_at: None,
        status_id: None,
        state: None,
    }
}

#[test]
fn a_patch_never_writes_a_status() {
    let mut body = patch();
    body.status_id = Some(3);
    body.title = Some(String::new());
    assert_eq!(
        validated_patch(&body).err().map(|e| e.code()),
        Some(ErrorCode::StatusNotDirectlyWritable)
    );
    let mut body = patch();
    body.state = Some("DONE".to_owned());
    assert_eq!(
        validated_patch(&body).err().map(|e| e.code()),
        Some(ErrorCode::StatusNotDirectlyWritable)
    );
}

#[test]
fn a_patch_clears_with_null_and_leaves_what_is_absent() {
    let mut body = patch();
    body.due_at = Some(None);
    body.start_at = Some(Some("1970-01-01T00:00:02Z".to_owned()));
    body.title = Some(" New ".to_owned());
    let p = validated_patch(&body).expect("valid");
    assert_eq!(p.title.as_deref(), Some("New"));
    assert_eq!(p.due_at, Some(None));
    assert_eq!(p.start_at, Some(Some(2_000_000_000)));
    assert_eq!(p.priority, None);
    let mut body = patch();
    body.start_at = Some(Some("soon".to_owned()));
    assert_eq!(validated_patch(&body).err().map(|e| e.code()), Some(ErrorCode::MalformedBody));
    assert!(retypes(Some("BUG"), "TASK"));
    assert!(!retypes(Some("TASK"), "TASK"));
    assert!(!retypes(None, "TASK"));
}

#[test]
fn an_update_lists_only_what_changed() {
    let before = row();
    let mut after = row();
    after.title = "u".to_owned();
    after.description = Some("d".to_owned());
    let changes = changed_fields(&before, &after);
    assert_eq!(changes.len(), 2);
    assert_eq!(changes[0].name, "title");
    assert_eq!(changes[0].from.as_deref(), Some("t"));
    assert_eq!(changes[0].to.as_deref(), Some("u"));
    assert_eq!(changes[1].name, "description");
    assert_eq!(changes[1].from, None);
    assert!(changed_fields(&before, &before).is_empty());
}

fn q(term: &str) -> Node {
    Node::Clause(Clause { field: Field::Q, value: Value::Literal(term.to_owned()) })
}

#[test]
fn the_full_text_term_is_found_wherever_it_sits() {
    let other = Node::Clause(Clause { field: Field::Other, value: Value::Literal("x".to_owned()) });
    assert_eq!(full_text_term(&other), None);
    assert_eq!(full_text_term(&q("login")), Some("login"));
    let nested = Node::And(vec![
        other,
        Node::Not(Box::new(Node::Or(vec![q("first"), q("second")]))),
    ]);
    assert_eq!(full_text_term(&nested), Some("first"));
    assert!(check_search_term(&q(&"x".repeat(256))).is_ok());
    assert_eq!(
        check_search_term(&q(&"x".repeat(257))).err().map(|e| e.code()),
        Some(ErrorCode::SearchTooLong)
    );
}

#[test]
fn the_order_is_chosen_and_two_bad_combinations_refused() {
    let plain = Node::And(vec![]);
    assert_eq!(
        sort_for(&vec![], &plain).ok(),
        Some(Sort { field: SortField::UpdatedAt, direction: Direction::Desc })
    );
    assert_eq!(
        sort_for(&vec![], &q("x")).ok(),
        Some(Sort { field: SortField::Rank, direction: Direction::Desc })
    );
    let rank = Sort { field: SortField::Rank, direction: Direction::Desc };
    assert_eq!(sort_for(&vec![rank], &plain).err().map(|e| e.code()), Some(ErrorCode::UnsortableField));
    let due = Sort { field: SortField::DueAt, direction: Direction::Asc };
    assert_eq!(sort_for(&vec![due, due], &plain).err().map(|e| e.code()), Some(ErrorCode::UnsortableField));
    assert_eq!(sort_for(&vec![due], &plain).ok(), Some(due));
}

#[test]
fn a_cursor_carries_the_key_of_the_sort_used() {
    let mut r = row();
    r.priority = "HIGH".to_owned();
    assert_eq!(cursor_key(&r, SortField::Key), "125");
    assert_eq!(cursor_key(&r, SortField::Priority), "HIGH");
    assert_eq!(cursor_key(&r, SortField::DueAt), "");
    assert_eq!(cursor_key(&r, SortField::Rank), "0");
    assert_eq!(cursor_key(&r, SortField::CreatedAt), "1970-01-01T00:00:00Z");
    assert_eq!(next_cursor(&vec![r.clone()], false, SortField::Key), None);
    assert_eq!(next_cursor(&vec![r], true, SortField::Key), Some(("125".to_owned(), 1)));
    assert_eq!(parse_limit(None).ok(), Some(50));
    assert_eq!(parse_limit(Some("20")).ok(), Some(20));
    assert_eq!(parse_limit(Some("+20")).ok(), Some(20));
    assert_eq!(parse_limit(Some("-0")).err().map(|e| e.code()), Some(ErrorCode::PageTooLarge));
    assert_eq!(parse_limit(Some("ten")).err().map(|e| e.code()), Some(ErrorCode::PageTooLarge));
    assert_eq!(parse_limit(Some("101")).err().map(|e| e.code()), Some(ErrorCode::PageTooLarge));
}

#[test]
fn a_transition_maps_each_refusal_to_its_code() {
    assert_eq!(rejected(&Rejection::NoSuchTransition).code(), ErrorCode::NoSuchTransition);
    assert_eq!(rejected(&Rejection::MissingPermission("task.close".to_owned())).status(), 403);
    assert_eq!(rejected(&Rejection::MissingFields(vec!["note".to_owned()])).status(), 422);
    assert_eq!(rejected(&Rejection::BlockedBy(vec![9])).code(), ErrorCode::BlockedByDependencies);
}

#[test]
fn leaving_a_terminal_state_is_a_reopening() {
    assert_eq!(transition_event("COMPLETED", TaskState::Active), TransitionEvent::Reopened);
    assert_eq!(transition_event("CANCELED", TaskState::Backlog), TransitionEvent::Reopened);
    assert_eq!(transition_event("COMPLETED", TaskState::Canceled), TransitionEvent::StatusChanged);
    assert_eq!(transition_event("ACTIVE", TaskState::Completed), TransitionEvent::StatusChanged);
    assert_eq!(transition_event("ACTIVE", TaskState::Planned), TransitionEvent::StatusChanged);
}

#[test]
fn a_transition_counts_only_filled_fields_and_trims_its_note() {
    let fields = vec![
        ("resolution".to_owned(), FieldValue::Text("fixed".to_owned())),
        ("note".to_owned(), FieldValue::Text("  ".to_owned())),
        ("links".to_owned(), FieldValue::List(0)),
        ("ok".to_owned(), FieldValue::Bool(false)),
    ];
    assert_eq!(provided_fields(&fields), vec!["resolution".to_owned(), "ok".to_owned()]);
    assert_eq!(comment_to_write(Some("  shipped ")), Some("shipped"));
    assert_eq!(comment_to_write(Some("   ")), None);
    assert!(unchanged(3, 3));
    assert!(!unchanged(3, 4));
    assert_eq!(added_status(true), 201);
    assert_eq!(added_status(false), 200);
    assert_eq!(check_assignee(false).err().map(|e| e.code()), Some(ErrorCode::AssigneeNotProjectMember));
}

fn bulk_body() -> BulkRequestBody {
    BulkRequestBody {
        operation: "transition".to_owned(),
        task_ids: vec![1, 2, 3],
        to_status_id: Some(9),
        comment: None,
        if_match: vec![(1, 4), (2, 5)],
    }
}

#[test]
fn a_bulk_envelope_is_refused_whole_only_for_what_the_client_could_know() {
    assert_eq!(validated_envelope(&bulk_body()).ok(), Some(9));
    let mut b = bulk_body();
    b.operation = "assign".to_owned();
    assert_eq!(validated_envelope(&b).err().map(|e| e.code()), Some(ErrorCode::InvalidEnum));
    let mut b = bulk_body();
    b.to_status_id = None;
    assert_eq!(validated_envelope(&b).err().map(|e| e.code()), Some(ErrorCode::MissingField));
    let mut b = bulk_body();
    b.task_ids = vec![];
    assert_eq!(validated_envelope(&b).err().map(|e| e.code()), Some(ErrorCode::OutOfRange));
    let mut b = bulk_body();
    b.task_ids = (0..101).collect();
    b.if_match = vec![];
    assert_eq!(validated_envelope(&b).err().map(|e| e.code()), Some(ErrorCode::BulkTooLarge));
    let mut b = bulk_body();
    b.task_ids = vec![1, 2, 1];
    assert_eq!(validated_envelope(&b).err().map(|e| e.code()), Some(ErrorCode::OutOfRange));
    let mut b = bulk_body();
    b.if_match.push((77, 1));
    assert_eq!(validated_envelope(&b).err().map(|e| e.code()), Some(ErrorCode::OutOfRange));
    let mut b = bulk_body();
    b.comment = Some("x".repeat(65_537));
    assert_eq!(validated_envelope(&b).err().map(|e| e.code()), Some(ErrorCode::OutOfRange));
}

#[test]
fn every_task_in_a_batch_gets_one_counted_result() {
    let body = bulk_body();
    assert_eq!(expected_for(&body.if_match, 2), Some(5));
    assert_eq!(expected_for(&body.if_match, 3), None);
    let done = Transitioned { view: view(&row(), "WR"), version: 2, from_status_id: 3 };
    let results = vec![
        outcome(1, Ok(done)),
        outcome(2, Err(rejected(&Rejection::NoSuchTransition))),
        unversioned(3),
    ];
    assert_eq!(results[0].undo, Some(Undo { to_status_id: 3, if_match: 2 }));
    assert_eq!(results[1].status, 422);
    assert_eq!(results[2].status, 428);
    let answer = tally(results);
    assert_eq!(answer.succeeded, 1);
    assert_eq!(answer.failed, 2);
    assert_eq!(answer.results.len(), 3);
}

#[test]
fn a_batch_answers_207_with_one_row_per_named_task_in_order() {
    let moved = Transitioned { view: view(&row(), "WR"), version: 6, from_status_id: 3 };
    let task_ids = vec![9, 2, 7];
    let if_match = vec![(9, 1), (2, 5)];
    assert_eq!(attempts(&task_ids, &if_match), vec![(9, 1), (2, 5)], "7 has no version: never tried");
    let done = vec![Err(rejected(&Rejection::NoSuchTransition)), Ok(moved)];
    let (status, answer) = bulk_answer(&task_ids, &if_match, done);
    assert_eq!(status, MULTI_STATUS);
    assert_eq!(status, 207);
    let ids: Vec<u128> = answer.results.iter().map(|r| r.task_id).collect();
    assert_eq!(ids, vec![9, 2, 7]);
    assert_eq!(answer.results[0].status, 422);
    assert_eq!(answer.results[1].status, 200);
    assert_eq!(answer.results[1].undo, Some(Undo { to_status_id: 3, if_match: 6 }));
    assert_eq!(answer.results[2].status, 428, "no version: refused without a try");
    assert_eq!(answer.results[2].task, None);
    assert_eq!((answer.succeeded, answer.failed), (1, 2));
}

#[test]
fn only_the_tasks_with_a_version_are_tried_in_the_order_named() {
    assert_eq!(attempts(&vec![3, 1, 2], &vec![(2, 8), (3, 4)]), vec![(3, 4), (2, 8)]);
    assert_eq!(attempts(&vec![3, 1], &vec![]), vec![]);
}

#[test]
fn a_rollup_is_displayed_with_its_truncation() {
    let s = rollup(vec![view(&row(), "WR")], 1, 5);
    assert!(s.truncated);
    assert_eq!((s.done, s.total), (1, 5));
    assert!(!rollup(vec![], 0, 0).truncated);
    let p = parent_ref(&row(), "WR");
    assert_eq!(p.key, "WR-125");
    assert_eq!(p.state, "BACKLOG");
}

#[test]
fn the_project_alias_reaches_the_grammar_as_project() {
    let params = vec![
        ("project_id".to_owned(), "p".to_owned()),
        ("state".to_owned(), "!COMPLETED".to_owned()),
    ];
    assert_eq!(
        search_pairs(&params),
        vec![("project".to_owned(), "p".to_owned()), ("state".to_owned(), "!COMPLETED".to_owned())]
    );
    let pairs = vec![(1, 10), (2, 20), (1, 11)];
    assert_eq!(assignees_of(&pairs, 1), vec![10, 11]);
    assert_eq!(assignees_of(&pairs, 3), Vec::<u128>::new());
}

#[test]
fn a_write_answers_visibility_then_version_then_permission() {
    let deny = Decision::Deny(DenyReason::NoGrant);
    assert_eq!(write_checks(None, 3, deny).unwrap_err().code, ErrorCode::TaskNotFound);
    let stale = write_checks(Some(4), 3, deny).unwrap_err();
    assert_eq!((stale.status, stale.code), (409, ErrorCode::VersionConflict));
    let refused = write_checks(Some(3), 3, deny).unwrap_err();
    assert_eq!((refused.status, refused.code), (403, ErrorCode::NoGrant));
    assert!(write_checks(Some(3), 3, Decision::Allow).is_ok());
}

#[test]
fn changing_the_type_asks_for_the_new_one_too() {
    let deny = Decision::Deny(DenyReason::ConstraintUnsatisfied);
    assert!(authorize_retype(None, "TASK", false, deny).is_ok());
    assert!(authorize_retype(Some("TASK"), "TASK", false, deny).is_ok());
    assert_eq!(
        authorize_retype(Some("BUG"), "TASK", false, Decision::Allow).unwrap_err().code,
        ErrorCode::ProjectNotFound
    );
    assert_eq!(
        authorize_retype(Some("BUG"), "TASK", true, deny).unwrap_err().code,
        ErrorCode::ConstraintUnsatisfied
    );
    assert!(authorize_retype(Some("BUG"), "TASK", true, Decision::Allow).is_ok());
}

#[test]
fn a_conflict_names_the_version_it_lost_to_and_the_task_as_it_stands() {
    let mut current = row();
    current.version = 7;
    current.updated_by = Some(9);
    current.updated_at = 1_700_000_000_000_000_000;
    let (error, details) = conflict(&current, "WR", 6);
    assert_eq!((error.status, error.code), (409, ErrorCode::VersionConflict));
    assert_eq!(details.your_version, 6);
    assert_eq!(details.current_version, 7);
    assert_eq!(details.changed_by, Some(9));
    assert_eq!(details.changed_at, "2023-11-14T22:13:20Z");
    assert_eq!(details.current, view(&current, "WR"));
    assert_eq!(details.current.key, "WR-125");
}

#[test]
fn a_move_onto_the_current_status_answers_the_task_as_it_stands() {
    let mut current = row();
    current.version = 4;
    let answer = already_there(&current, "WR");
    assert_eq!(answer.view, view(&current, "WR"));
    assert_eq!(answer.version, 4);
    assert_eq!(answer.from_status_id, 3);
    assert_eq!(answer.view.key, "WR-125");
}

#[test]
fn a_transition_is_checked_in_order_before_the_workflow_is_asked() {
    let deny = Decision::Deny(DenyReason::NoGrant);
    let long = "x".repeat(65_537);
    assert_eq!(
        transition_checks(Some(&long), None, 1, false, deny, 3).unwrap_err().code,
        ErrorCode::OutOfRange
    );
    assert_eq!(
        transition_checks(Some("ok"), None, 1, true, Decision::Allow, 3).unwrap_err().code,
        ErrorCode::TaskNotFound
    );
    assert_eq!(
        transition_checks(None, Some((2, 3)), 1, false, deny, 3).unwrap_err().code,
        ErrorCode::VersionConflict
    );
    assert_eq!(
        transition_checks(None, Some((1, 3)), 1, false, deny, 3).unwrap_err().code,
        ErrorCode::TaskNotFound
    );
    assert_eq!(
        transition_checks(None, Some((1, 3)), 1, true, deny, 3).unwrap_err().code,
        ErrorCode::NoGrant
    );
    assert_eq!(
        transition_checks(Some(&"x".repeat(65_536)), Some((1, 3)), 1, true, Decision::Allow, 3),
        Ok(TransitionStep::AlreadyThere)
    );
    assert_eq!(
        transition_checks(None, Some((1, 3)), 1, true, Decision::Allow, 4),
        Ok(TransitionStep::AskWorkflow)
    );
}

#[test]
fn a_create_checks_its_body_before_its_key_and_binds_the_key_to_a_digest() {
    let mut bad = create("");
    bad.priority = Some("SOON".to_owned());
    assert_eq!(create_request(&bad, None, 1).unwrap_err().code, ErrorCode::OutOfRange);
    assert_eq!(
        create_request(&create("t"), None, 1).unwrap_err().code,
        ErrorCode::IdempotencyRequired
    );
    assert_eq!(
        create_request(&create("t"), Some("   "), 1).unwrap_err().code,
        ErrorCode::IdempotencyRequired
    );
    let checked = create_request(&create(" t "), Some(" key-1 "), 1).expect("valid");
    assert_eq!(checked.valid.title, "t");
    assert_eq!(checked.idempotency_key, "key-1");
    assert_eq!(checked.digest, create_digest(1, &checked.valid, &None));
    assert_ne!(
        checked.digest,
        create_request(&create(" t "), Some(" key-1 "), 2).expect("valid").digest
    );
}

#[test]
fn a_create_answers_visibility_permission_replay_then_parent() {
    let deny = Decision::Deny(DenyReason::NoGrant);
    assert_eq!(
        create_checks(false, deny, Claim::InProgress, None, 1).unwrap_err().code,
        ErrorCode::ProjectNotFound
    );
    assert_eq!(
        create_checks(true, deny, Claim::InProgress, None, 1).unwrap_err().code,
        ErrorCode::NoGrant
    );
    assert_eq!(
        create_checks(
            true,
            Decision::Allow,
            Claim::Replay { status_code: 201, response: "{\"id\":\"t-1\"}".to_owned() },
            Some(None),
            1
        ),
        Ok(CreateStep::Replay(201, "{\"id\":\"t-1\"}".to_owned()))
    );
    let busy = create_checks(true, Decision::Allow, Claim::InProgress, None, 1).unwrap_err();
    assert_eq!((busy.status, busy.code), (409, ErrorCode::IdempotencyInProgress));
    let changed = create_checks(true, Decision::Allow, Claim::BodyChanged, None, 1).unwrap_err();
    assert_eq!((changed.status, changed.code), (422, ErrorCode::IdempotencyBodyChanged));
    assert_eq!(
        create_checks(true, Decision::Allow, Claim::Fresh, Some(None), 1).unwrap_err().code,
        ErrorCode::ReferenceNotFound
    );
    assert_eq!(
        create_checks(true, Decision::Allow, Claim::Fresh, Some(Some((2, None))), 1).unwrap_err().code,
        ErrorCode::ParentOutOfProject
    );
    assert_eq!(create_checks(true, Decision::Allow, Claim::Fresh, Some(Some((1, None))), 1), Ok(CreateStep::Insert));
    assert_eq!(create_checks(true, Decision::Allow, Claim::Fresh, None, 1), Ok(CreateStep::Insert));
}

#[test]
fn a_new_task_gets_a_fresh_version_seven_id_at_the_entry_status() {
    let valid = validated_create(&create("Fix login")).expect("valid");
    let a = new_task(2, 125, &valid, &None, None, 3, TaskState::Backlog, "a0".to_owned(), 4);
    let b = new_task(2, 126, &valid, &None, None, 3, TaskState::Backlog, "a1".to_owned(), 4);
    assert_ne!(a.id, b.id);
    for id in [a.id, b.id] {
        assert_eq!((id >> 76) & 0xf, 7);
        assert_eq!((id >> 62) & 0x3, 2);
    }
    assert_eq!(a.state, "BACKLOG");
    assert_eq!((a.reporter_id, a.created_by), (4, 4));
    assert_eq!((a.project_id, a.number, a.status_id), (2, 125, 3));
    assert_eq!(a.title, "Fix login");
}

#[test]
fn children_are_written_each_with_its_own_project_key() {
    let mut other = row();
    other.id = 2;
    other.number = 7;
    let rows = vec![(row(), "WR".to_owned()), (other, "OPS".to_owned())];
    let views = child_views(&rows);
    assert_eq!(views.iter().map(|v| v.key.as_str()).collect::<Vec<_>>(), vec!["WR-125", "OPS-7"]);
}

#[test]
fn tasks_every_state_has_a_stored_spelling_the_schema_knows() {
    let declared = ["BACKLOG", "PLANNED", "ACTIVE", "COMPLETED", "CANCELED"];
    for state in TaskState::all() {
        assert!(declared.contains(&state.as_str()), "{state:?}");
        assert_eq!(TaskState::parse(state.as_str()), Some(state));
    }
}

#[test]
fn tasks_a_key_reads_as_project_key_and_number() {
    assert_eq!(view(&row(), "WR").key, "WR-125");
}

#[test]
fn tasks_an_unknown_enum_value_is_refused_rather_than_defaulted() {
    assert!(one_of(None, &TASK_TYPES, "TASK").is_ok());
    assert_eq!(
        one_of(Some("EPIC"), &TASK_TYPES, "TASK").err().map(|e| e.code()),
        Some(ErrorCode::InvalidEnum)
    );
}

#[test]
fn a_reopening_is_recorded_under_its_own_event_type() {
    assert_eq!(transition_event("COMPLETED", TaskState::Active).event_type(), "task.reopened");
    assert_eq!(transition_event("ACTIVE", TaskState::Completed).event_type(), "task.status.changed");
}

#[test]
fn a_page_drops_its_probe_row_and_carries_keys_assignees_and_the_cursor() {
    let mut rows = Vec::new();
    for (id, project) in [(10u128, 2u128), (11, 9), (12, 2)] {
        let mut r = row();
        r.id = id;
        r.project_id = project;
        r.number = id as i64;
        r.updated_at = id as i128 * 1_000_000_000;
        rows.push(r);
    }
    let keys = vec![(2u128, "WR".to_owned())];
    let assignees = vec![(10u128, 100u128), (11, 101), (10, 102), (12, 103)];
    let page = task_page(rows.clone(), 2, &keys, &assignees, SortField::UpdatedAt);
    assert!(page.has_more);
    assert_eq!(page.data.len(), 2);
    assert_eq!(page.data[0].key, "WR-10");
    assert_eq!(page.data[1].key, "-11", "a project the caller cannot reach has no key");
    assert_eq!(page.data[0].assignees, vec![100, 102]);
    assert_eq!(page.data[1].assignees, vec![101]);
    assert_eq!(page.next, Some((cursor_key(&rows[1], SortField::UpdatedAt), 11)));

    let last = task_page(rows, 3, &keys, &assignees, SortField::UpdatedAt);
    assert!(!last.has_more);
    assert_eq!(last.data.len(), 3);
    assert_eq!(last.next, None);
}
