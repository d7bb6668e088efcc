use casual_task_api::error::ErrorCode;
use casual_task_api::wire::{
    admit_body, limit, page, parse_failure, timestamp, to_zulu, Body, DEFAULT_LIMIT, MAX_BODY,
};

fn at(year: i32, month: time::Month, day: u8, h: u8, m: u8, s: u8, offset_hours: i8) -> i128 {
    time::Date::from_calendar_date(year, month, day)
        .expect("a date")
        .with_hms(h, m, s)
        .expect("a time")
        .assume_offset(time::UtcOffset::from_hms(offset_hours, 0, 0).expect("an offset"))
        .unix_timestamp_nanos()
}

#[test]
fn wire_timestamps_are_utc_with_a_z() {
    assert_eq!(
        timestamp(at(2026, time::Month::August, 8, 10, 14, 22, 0)),
        "2026-08-08T10:14:22Z"
    );
    assert_eq!(
        timestamp(at(2026, time::Month::August, 8, 12, 14, 22, 2)),
        "2026-08-08T10:14:22Z"
    );
}

#[test]
fn an_over_limit_page_is_refused_rather_than_clamped() {
    assert_eq!(limit(None).ok(), Some(DEFAULT_LIMIT));
    assert_eq!(limit(Some(100)).ok(), Some(100));
    assert_eq!(limit(Some(101)).err().map(|e| e.code()), Some(ErrorCode::PageTooLarge));
    assert_eq!(limit(Some(0)).err().map(|e| e.code()), Some(ErrorCode::PageTooLarge));
}

#[test]
fn a_body_must_be_json_and_bounded() {
    assert_eq!(
        admit_body(None, 10).err().map(|e| e.code()),
        Some(ErrorCode::MalformedBody)
    );
    assert_eq!(
        admit_body(Some("text/plain"), 10).err().map(|e| e.code()),
        Some(ErrorCode::MalformedBody)
    );
    assert!(admit_body(Some("application/json; charset=utf-8"), MAX_BODY).is_ok());
    let too_large = admit_body(Some("application/json"), MAX_BODY + 1).unwrap_err();
    assert_eq!(too_large.status(), 413);
    assert_eq!(too_large.code(), ErrorCode::OutOfRange);
}

#[test]
fn a_refused_body_names_why() {
    assert_eq!(parse_failure("unknown field `nmae`").code(), ErrorCode::UnknownField);
    assert_eq!(parse_failure("missing field `name`").code(), ErrorCode::MissingField);
    assert_eq!(parse_failure("expected value at line 1").code(), ErrorCode::MalformedBody);
    let accepted = Body::accept(Some("application/json"), 2, Ok::<u8, &str>(7)).expect("accepted");
    assert_eq!(accepted.0, 7);
    let refused = Body::<u8>::accept(Some("application/json"), 2, Err("unknown field `x`"));
    assert_eq!(refused.err().map(|e| e.code()), Some(ErrorCode::UnknownField));
}

#[test]
fn a_page_carries_a_cursor_only_when_there_is_more() {
    let more = page(true, Some("c".to_owned()));
    assert_eq!(more.next_cursor.as_deref(), Some("c"));
    let last = page(false, Some("c".to_owned()));
    assert_eq!(last.next_cursor, None);
    assert!(!last.has_more);
}

#[test]
fn an_offset_of_zero_is_written_as_z() {
    assert_eq!(to_zulu("2026-01-01T00:00:00+00:00"), "2026-01-01T00:00:00Z");
    assert_eq!(to_zulu("2026-01-01T00:00:00Z"), "2026-01-01T00:00:00Z");
}

#[test]
fn a_uuid_is_written_hyphenated_in_lowercase() {
    assert_eq!(
        casual_task_api::wire::uuid_text(0x018f2c00_0000_7000_8000_000000000001),
        "018f2c00-0000-7000-8000-000000000001"
    );
    assert_eq!(
        casual_task_api::wire::uuid_text(u128::MAX),
        "ffffffff-ffff-ffff-ffff-ffffffffffff"
    );
    assert_eq!(casual_task_api::wire::uuid_text(0), "00000000-0000-0000-0000-000000000000");
}
