use casual_task_api::workflows::wire::{usage_views, StatusRow, TransitionRow, WorkflowRow, WorkflowView};
use casual_task_api::error::ErrorCode;
use casual_task_api::tasks::validate::TaskState;
use casual_task_api::unit::{Decision, DenyReason};
use casual_task_api::workflows::guard::{authorize, claimed, current, may_author, visible};
use casual_task_api::workflows::statuses::{
    plan_deletion, remaps, status_deleted, status_event, status_remapped, validated_name, validated_order, validated_patch,
    validated_state, write_error, Migration, PatchStatusRequest, StatusEvent, WriteError,
    MIGRATION_LIMIT,
};
use casual_task_api::workflows::transitions::{
    edge_found, endpoint, source_label, validated_fields, validated_transition_patch,
    write_error as transition_write_error, PatchTransitionRequest,
};

#[test]
fn a_status_name_is_bounded_at_both_ends() {
    assert_eq!(validated_name("  Ready for QA  ").ok(), Some("Ready for QA"));
    for bad in ["", "   "] {
        assert!(validated_name(bad).is_err(), "{bad:?}");
    }
    assert!(validated_name(&"x".repeat(40)).is_ok());
    assert!(validated_name(&"x".repeat(41)).is_err());
}

#[test]
fn every_state_the_enum_declares_is_accepted_and_nothing_else_is() {
    for state in TaskState::all() {
        assert_eq!(validated_state(state.as_str()).ok(), Some(state));
    }
    for refused in ["BLOCKED", "IN_PROGRESS", "active", "", "DONE"] {
        assert_eq!(
            validated_state(refused).err().map(|e| e.code()),
            Some(ErrorCode::InvalidEnum),
            "{refused} should not be a state"
        );
    }
}

#[test]
fn the_migration_limit_is_the_one_docs_23_names() {
    assert_eq!(MIGRATION_LIMIT, 10_000);
}

#[test]
fn required_fields_are_bounded_deduplicated_and_ordered() {
    let fields = ["resolution".to_owned(), " resolution ".to_owned(), "note".to_owned()];
    assert_eq!(
        validated_fields(&fields).expect("valid"),
        vec!["note".to_owned(), "resolution".to_owned()]
    );
    assert!(validated_fields(&[String::new()]).is_err());
    assert!(validated_fields(&["x".repeat(65)]).is_err());
    let too_many: Vec<String> = (0..21).map(|n| format!("f{n}")).collect();
    assert!(validated_fields(&too_many).is_err());
}

#[test]
fn an_unknown_permission_is_the_callers_error_and_not_a_fault() {
    let error = transition_write_error(WriteError::UnknownReference);
    assert_eq!(error.code(), ErrorCode::ReferenceNotFound);
    assert_eq!(error.status(), 422);
    assert_eq!(transition_write_error(WriteError::Duplicate).code(), ErrorCode::TransitionExists);
    assert_eq!(transition_write_error(WriteError::Db).status(), 500);
}

#[test]
fn a_transition_patch_keeps_an_absent_permission_apart_from_a_cleared_one() {
    let absent = PatchTransitionRequest {
        required_permission: None,
        required_fields: None,
        ignore_dependencies: None,
    };
    assert_eq!(validated_transition_patch(absent).expect("valid").required_permission, None);
    let cleared = PatchTransitionRequest {
        required_permission: Some(None),
        required_fields: Some(vec!["b".to_owned(), "a".to_owned(), " a".to_owned()]),
        ignore_dependencies: Some(true),
    };
    let p = validated_transition_patch(cleared).expect("valid");
    assert_eq!(p.required_permission, Some(None));
    assert_eq!(p.required_fields, Some(vec!["a".to_owned(), "b".to_owned()]));
    assert_eq!(p.ignore_dependencies, Some(true));
}

#[test]
fn an_edge_joins_two_statuses_of_one_workflow() {
    assert_eq!(endpoint(Some(4)).ok(), Some(4));
    assert_eq!(endpoint::<u8>(None).err().map(|e| e.code()), Some(ErrorCode::StatusWrongWorkflow));
    assert_eq!(edge_found(false).err().map(|e| e.status()), Some(404));
    assert!(edge_found(true).is_ok());
    assert_eq!(source_label(None), "any status");
    assert_eq!(source_label(Some("Todo")), "Todo");
}

#[test]
fn a_status_patch_refuses_clearing_the_entry_point() {
    let p = PatchStatusRequest { name: Some(" QA ".to_owned()), state: Some("ACTIVE".to_owned()), is_initial: Some(true) };
    let v = validated_patch(&p).expect("valid");
    assert_eq!(v.name.as_deref(), Some("QA"));
    assert_eq!(v.state, Some(TaskState::Active));
    assert!(v.make_initial);
    let p = PatchStatusRequest { name: None, state: None, is_initial: Some(false) };
    assert_eq!(validated_patch(&p).err().map(|e| e.code()), Some(ErrorCode::InitialStatusRule));
    let p = PatchStatusRequest { name: None, state: Some("DONE".to_owned()), is_initial: None };
    assert_eq!(validated_patch(&p).err().map(|e| e.code()), Some(ErrorCode::InvalidEnum));
    let p = PatchStatusRequest { name: Some("  ".to_owned()), state: Some("DONE".to_owned()), is_initial: Some(false) };
    let first = validated_patch(&p).unwrap_err();
    assert_eq!((first.status, first.code), (400, ErrorCode::OutOfRange), "the name is checked first");
    let p = PatchStatusRequest { name: None, state: Some("DONE".to_owned()), is_initial: Some(false) };
    assert_eq!(validated_patch(&p).err().map(|e| e.code()), Some(ErrorCode::InvalidEnum), "then the state");
}

#[test]
fn a_remap_is_its_own_event() {
    assert!(remaps(Some(TaskState::Completed), "ACTIVE"));
    assert!(!remaps(Some(TaskState::Active), "ACTIVE"));
    assert!(!remaps(None, "ACTIVE"));
    assert_eq!(status_event(true), StatusEvent::Remapped);
    assert_eq!(status_event(false), StatusEvent::Updated);
    assert_eq!(write_error(WriteError::Duplicate).code(), ErrorCode::StatusNameTaken);
}

#[test]
fn a_reorder_is_a_whole_permutation() {
    let known = vec![1, 2, 3];
    assert!(validated_order(&vec![3, 1, 2], &known).is_ok());
    let short = validated_order(&vec![3, 1], &known).unwrap_err();
    assert_eq!((short.error.status, short.error.code), (422, ErrorCode::ReferenceNotFound));
    assert_eq!(short.expected, vec![1, 2, 3]);
    assert_eq!(short.received, vec![3, 1]);
    assert!(validated_order(&vec![3, 1, 1], &known).is_err());
    assert!(validated_order(&vec![3, 1, 9], &known).is_err());
    let unknown = validated_order(&vec![9], &vec![30, 10, 20]).unwrap_err();
    assert_eq!(unknown.expected, vec![10, 20, 30]);
    assert_eq!(unknown.received, vec![9]);
}

#[test]
fn a_deletion_never_strands_work() {
    assert_eq!(plan_deletion(true, 1, 0, None, false).err().map(|e| e.code()), Some(ErrorCode::InitialStatusRule));
    assert_eq!(plan_deletion(false, 1, 3, None, false).err().map(|e| e.code()), Some(ErrorCode::StatusHoldsTasks));
    let holds = plan_deletion(false, 1, 3, None, false).unwrap_err();
    assert_eq!((holds.status(), holds.task_count, holds.limit), (422, Some(3), None));
    assert_eq!(plan_deletion(false, 1, 0, None, false).ok(), Some(Migration::Nothing));
    assert_eq!(plan_deletion(false, 1, 3, Some(1), true).err().map(|e| e.code()), Some(ErrorCode::StatusWrongWorkflow));
    assert_eq!(plan_deletion(false, 1, 3, Some(2), false).err().map(|e| e.code()), Some(ErrorCode::StatusWrongWorkflow));
    assert_eq!(plan_deletion(false, 1, 10_001, Some(2), true).err().map(|e| e.code()), Some(ErrorCode::MigrationTooLarge));
    let large = plan_deletion(false, 1, 10_001, Some(2), true).unwrap_err();
    assert_eq!((large.task_count, large.limit), (Some(10_001), Some(10_000)));
    assert_eq!(plan_deletion(false, 1, 3, Some(1), true).unwrap_err().task_count, None);
    assert_eq!(plan_deletion(false, 1, 10_000, Some(2), true).ok(), Some(Migration::To(2)));
}

#[test]
fn authoring_needs_the_permission_in_every_project() {
    let deny = Decision::Deny(DenyReason::NoGrant);
    assert!(authorize(Decision::Allow, &vec![deny]).is_ok(), "a workspace grant covers them all");
    assert_eq!(authorize(deny, &vec![]).err().map(|e| e.code()), Some(ErrorCode::NoGrant));
    assert!(authorize(deny, &vec![Decision::Allow, Decision::Allow]).is_ok());
    assert_eq!(
        authorize(deny, &vec![Decision::Allow, Decision::Deny(DenyReason::ConstraintUnsatisfied)])
            .err()
            .map(|e| e.code()),
        Some(ErrorCode::ConstraintUnsatisfied)
    );
    assert_eq!(current(3, 4).err().map(|e| e.code()), Some(ErrorCode::VersionConflict));
    assert!(current(4, 4).is_ok());
    assert_eq!(claimed(None).err().map(|e| e.status()), Some(409));
    assert_eq!(claimed(Some(5)).ok(), Some(5));
    assert_eq!(visible::<u8>(None).err().map(|e| e.status()), Some(404));
}

#[test]
fn an_unused_status_holds_no_tasks() {
    use_task_count();
}

fn use_task_count() {
    let counts = vec![(1u128, 4i64), (2, 0), (1, 9)];
    assert_eq!(casual_task_api::workflows::statuses::task_count(&counts, 1), 4);
    assert_eq!(casual_task_api::workflows::statuses::task_count(&counts, 3), 0);
}

#[test]
fn the_same_required_fields_in_any_order_are_stored_alike() {
    let typed: Vec<String> = ["severity", " component", "component ", "due_date"]
        .iter()
        .map(|s| s.to_string())
        .collect();
    let reordered: Vec<String> = ["due_date", "severity", "component"]
        .iter()
        .map(|s| s.to_string())
        .collect();
    let first = validated_fields(&typed).expect("valid");
    let second = validated_fields(&reordered).expect("valid");
    assert_eq!(first, second);
    assert_eq!(first, vec!["component", "due_date", "severity"]);
}

#[test]
fn the_authoring_gate_answers_in_its_documented_order() {
    let deny = Decision::Deny(DenyReason::NoGrant);
    let none: Vec<Decision> = Vec::new();
    let missing_header = casual_task_api::workspaces::if_match(None);
    assert_eq!(
        may_author(None, missing_header, deny, &none, None).unwrap_err().code,
        ErrorCode::NotFound
    );
    assert_eq!(
        may_author(Some(4), missing_header, deny, &none, None).unwrap_err().status,
        428
    );
    assert_eq!(
        may_author(Some(4), Ok(3), deny, &none, None).unwrap_err().code,
        ErrorCode::VersionConflict
    );
    assert_eq!(
        may_author(Some(4), Ok(4), deny, &none, Some(5)).unwrap_err().code,
        ErrorCode::NoGrant
    );
    let projects = vec![Decision::Allow, Decision::Allow];
    assert_eq!(
        may_author(Some(4), Ok(4), deny, &projects, None).unwrap_err().code,
        ErrorCode::VersionConflict
    );
    assert_eq!(may_author(Some(4), Ok(4), deny, &projects, Some(5)), Ok(5));
    assert_eq!(may_author(Some(4), Ok(4), Decision::Allow, &none, Some(5)), Ok(5));
}

fn status(id: u128, name: &str, position: i32, is_initial: bool) -> StatusRow {
    StatusRow { id, name: name.to_owned(), state: "ACTIVE".to_owned(), position, is_initial }
}

#[test]
fn a_workflow_is_answered_whole_and_in_order() {
    let row = WorkflowRow { id: 1, name: "Default".to_owned(), is_default: true, version: 8 };
    let statuses = vec![status(10, "Todo", 0, true), status(11, "Doing", 1, false)];
    let transitions = vec![TransitionRow {
        id: 20,
        from: None,
        to: 11,
        required_permission: Some("task.close".to_owned()),
        required_fields: vec!["severity".to_owned()],
        ignore_dependencies: false,
    }];
    let view = WorkflowView::assemble(row, statuses, transitions);
    assert_eq!((view.id, view.version, view.is_default), (1, 8, true));
    assert_eq!(view.statuses.iter().map(|s| s.id).collect::<Vec<_>>(), vec![10, 11]);
    assert!(view.statuses[0].is_initial);
    assert_eq!(view.transitions[0].from, None);
    assert_eq!(view.transitions[0].required_fields, vec!["severity"]);
}

#[test]
fn every_status_is_listed_with_its_count_and_zero_when_none_stands_on_it() {
    let statuses = vec![status(10, "Todo", 0, true), status(11, "Doing", 1, false)];
    let counts = vec![(11, 4)];
    let views = usage_views(statuses, &counts);
    assert_eq!(views.iter().map(|v| (v.id, v.task_count)).collect::<Vec<_>>(), vec![(10, 0), (11, 4)]);
    assert_eq!(views[1].name, "Doing");
}

#[test]
fn a_remap_is_recorded_under_its_own_event_type() {
    assert_eq!(status_event(true).event_type(), "workflow.status.remapped");
    assert_eq!(status_event(false).event_type(), "workflow.status.updated");
}

fn small_workflow() -> WorkflowView {
    let row = WorkflowRow { id: 1, name: "Default".to_owned(), is_default: true, version: 9 };
    WorkflowView::assemble(row, vec![status(10, "Todo", 0, true)], vec![])
}

#[test]
fn only_a_remap_reports_recomputed_tasks() {
    let remapped = status_remapped(small_workflow(), true, 12);
    assert_eq!(remapped.recomputed_tasks, 12);
    assert_eq!(remapped.workflow, small_workflow());
    assert_eq!(status_remapped(small_workflow(), false, 12).recomputed_tasks, 0);
}

#[test]
fn a_deletion_reports_every_task_it_moved_and_the_edges_that_went() {
    let moved = status_deleted(small_workflow(), Migration::To(11), 37, 2);
    assert_eq!((moved.migrated_tasks, moved.removed_transitions), (37, 2));
    let empty = status_deleted(small_workflow(), Migration::Nothing, 0, 1);
    assert_eq!((empty.migrated_tasks, empty.removed_transitions), (0, 1));
}
