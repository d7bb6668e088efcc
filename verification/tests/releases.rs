use casual_task_api::releases::{ReleaseRow, ReleaseView, ReleasedTask, ReleasedTaskView};
use casual_task_api::error::ErrorCode;
use casual_task_api::releases::{
    refused, validated_batch, validated_cut, validated_name, CutRequest, ReleaseError, MAX_TASKS,
};

#[test]
fn a_release_name_is_bounded_at_both_ends() {
    assert_eq!(validated_name("  2.4.0  ").ok(), Some("2.4.0"));
    for bad in ["", "   "] {
        assert!(validated_name(bad).is_err(), "{bad:?}");
    }
    assert!(validated_name(&"x".repeat(60)).is_ok());
    assert!(validated_name(&"x".repeat(61)).is_err());
}

#[test]
fn a_batch_is_neither_empty_nor_unbounded() {
    assert!(validated_batch(&[]).is_err());
    assert!(validated_batch(&[7]).is_ok());
    let too_many: Vec<u128> = (0..=MAX_TASKS as u128).collect();
    assert!(validated_batch(&too_many).is_err());
}

#[test]
fn a_cut_checks_its_name_then_its_batch() {
    let cut = |name: &str, note: Option<&str>, tasks: Vec<u128>| CutRequest {
        name: name.to_owned(),
        note: note.map(str::to_owned),
        environment_id: 1,
        task_ids: tasks,
    };
    let ok = validated_cut(&cut(" 2.4.0 ", Some("  hotfix "), vec![1, 2])).expect("valid");
    assert_eq!(ok.name, "2.4.0");
    assert_eq!(ok.note.as_deref(), Some("hotfix"));
    assert_eq!(validated_cut(&cut("2.4.0", Some("   "), vec![1])).expect("valid").note, None);
    assert_eq!(
        validated_cut(&cut(" ", None, vec![])).err().map(|e| e.code()),
        Some(ErrorCode::OutOfRange)
    );
    let too_many: Vec<u128> = (0..201).collect();
    assert_eq!(
        validated_cut(&cut("2.4.0", None, too_many)).err().map(|e| e.code()),
        Some(ErrorCode::BulkTooLarge)
    );
}

#[test]
fn each_release_refusal_keeps_its_own_code() {
    assert_eq!(refused(ReleaseError::NameTaken).status(), 409);
    assert_eq!(refused(ReleaseError::NameTaken).code(), ErrorCode::ReleaseNameTaken);
    assert_eq!(refused(ReleaseError::EnvironmentNotOnProject).status(), 422);
    assert_eq!(refused(ReleaseError::TasksNotInProject).status(), 422);
}

#[test]
fn a_release_is_written_with_its_instant_at_utc() {
    let row = ReleaseRow {
        id: 1,
        project_id: 2,
        name: "2.4.0".to_owned(),
        note: Some("hotfix".to_owned()),
        created_by: 3,
        created_at: 1_767_225_600_000_000_000,
    };
    let view = ReleaseView::of(row);
    assert_eq!((view.id, view.project_id, view.created_by), (1, 2, 3));
    assert_eq!(view.name, "2.4.0");
    assert_eq!(view.note.as_deref(), Some("hotfix"));
    assert_eq!(view.created_at, "2026-01-01T00:00:00Z");

    let task = ReleasedTaskView::of(ReleasedTask {
        task_id: 9,
        task_key: "ONB-14".to_owned(),
        title: "Ship it".to_owned(),
        promoted_at: 1_500_000_000,
    });
    assert_eq!(task.task_id, 9);
    assert_eq!(task.key, "ONB-14");
    assert_eq!(task.promoted_at, "1970-01-01T00:00:01.5Z");
}
