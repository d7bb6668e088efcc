use casual_task_api::tags::{TagRow, TagView};
use casual_task_api::error::ErrorCode;
use casual_task_api::tags::{
    inserted, project_filter, validated_color, validated_name, within_tag_limit, MAX_NAME,
};

#[test]
fn a_name_is_trimmed_bounded_and_required() {
    assert_eq!(validated_name("  security  ").ok(), Some("security"));
    assert_eq!(validated_name(" ").err().map(|e| e.code()), Some(ErrorCode::MissingField));
    assert_eq!(
        validated_name(&"x".repeat(MAX_NAME + 1)).err().map(|e| e.code()),
        Some(ErrorCode::OutOfRange)
    );
}

#[test]
fn a_comma_in_a_name_is_refused_at_authoring_time() {
    assert_eq!(validated_name("needs,review").err().map(|e| e.code()), Some(ErrorCode::OutOfRange));
}

#[test]
fn a_colour_is_a_hex_triplet_or_a_400() {
    assert_eq!(validated_color(Some("#AABBCC")).ok(), Some(Some("#aabbcc".to_owned())));
    assert_eq!(validated_color(None).ok(), Some(None));
    assert_eq!(validated_color(Some("  ")).ok(), Some(None));
    for bad in ["red", "#abc", "#gggggg", "javascript:alert(1)", "#aabbccdd"] {
        assert_eq!(
            validated_color(Some(bad)).err().map(|e| e.code()),
            Some(ErrorCode::OutOfRange),
            "{bad} was accepted"
        );
    }
}

#[test]
fn the_vocabulary_is_bounded_and_names_are_unique() {
    assert!(within_tag_limit(199, 200).is_ok());
    assert_eq!(within_tag_limit(200, 200).err().map(|e| e.code()), Some(ErrorCode::TagLimit));
    assert_eq!(inserted::<u8>(None).err().map(|e| e.status()), Some(409));
    assert_eq!(inserted(Some(3)).ok(), Some(3));
}

#[test]
fn a_project_filter_is_a_uuid_or_a_400() {
    assert_eq!(project_filter(None).ok(), Some(None));
    assert_eq!(
        project_filter(Some("018f2c00-0000-7000-8000-000000000001")).ok(),
        Some(Some(0x018f2c00_0000_7000_8000_000000000001))
    );
    assert_eq!(
        project_filter(Some("not-a-uuid")).err().map(|e| e.code()),
        Some(ErrorCode::MalformedBody)
    );
}

#[test]
fn a_tag_is_written_as_stored() {
    let row = TagRow { id: 4, project_id: None, name: "security".to_owned(), color: Some("#aa0000".to_owned()) };
    let view = TagView::of(&row);
    assert_eq!(view.id, 4);
    assert_eq!(view.project_id, None);
    assert_eq!(view.name, "security");
    assert_eq!(view.color.as_deref(), Some("#aa0000"));
}
