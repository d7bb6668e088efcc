use casual_task_api::unit::{replay, Claim};
use casual_task_api::error::ErrorCode;
use casual_task_api::unit::{
    authorized, frame, hash, idempotency_key, reject_unknown, to_hex, Decision, DenyReason,
};

#[test]
fn the_two_denial_reasons_stay_distinct() {
    assert_eq!(
        authorized(Decision::Deny(DenyReason::NoGrant)).err().map(|e| e.code()),
        Some(ErrorCode::NoGrant)
    );
    assert_eq!(
        authorized(Decision::Deny(DenyReason::ConstraintUnsatisfied)).err().map(|e| e.code()),
        Some(ErrorCode::ConstraintUnsatisfied)
    );
    assert!(authorized(Decision::Allow).is_ok());
}

#[test]
fn a_denial_is_403_and_never_404() {
    let error = authorized(Decision::Deny(DenyReason::NoGrant)).expect_err("denied");
    assert_eq!(error.status(), 403);
}

#[test]
fn an_absent_idempotency_key_is_refused() {
    assert_eq!(idempotency_key(None).err().map(|e| e.code()), Some(ErrorCode::IdempotencyRequired));
    for bad in ["", "   "] {
        assert!(idempotency_key(Some(bad)).is_err(), "{bad:?}");
    }
    assert!(idempotency_key(Some(&"k".repeat(201))).is_err());
    assert_eq!(idempotency_key(Some(" abc ")).ok(), Some("abc".to_owned()));
}

#[test]
fn the_request_hash_separates_fields_that_would_otherwise_run_together() {
    assert_ne!(hash(&[b"ab", b"c"]), hash(&[b"a", b"bc"]), "field boundaries are not part of the digest");
    assert_eq!(hash(&[b"a", b"b"]), hash(&[b"a", b"b"]));
}

#[test]
fn the_digest_is_sha_256_of_the_framed_parts() {
    assert_eq!(frame(&[b"ab", b"c"]), vec![0, 0, 0, 2, b'a', b'b', 0, 0, 0, 1, b'c']);
    let none: [&[u8]; 0] = [];
    assert_eq!(
        hash(&none),
        "e3b0c44298fc1c149afbf4c8996fb92427ae41e4649b934ca495991b7852b855",
        "nothing framed is the empty message"
    );
    assert_eq!(to_hex(&vec![0, 15, 255]), "000fff");
}

#[test]
fn an_unknown_query_parameter_names_itself() {
    let params = vec!["limt".to_owned(), "cursor".to_owned()];
    let refused = reject_unknown(&params, &["limit", "cursor"]).expect_err("refused");
    assert_eq!(refused.error.code(), ErrorCode::UnknownField);
    assert_eq!(refused.unknown, vec!["limt".to_owned()]);
    assert_eq!(refused.known, vec!["limit".to_owned(), "cursor".to_owned()]);
    assert!(reject_unknown(&vec![], &["limit"]).is_ok());
    let several = vec!["zz".to_owned(), "aa".to_owned(), "zz".to_owned()];
    assert_eq!(
        reject_unknown(&several, &["limit"]).expect_err("refused").unknown,
        vec!["aa".to_owned(), "zz".to_owned()]
    );
}

#[test]
fn a_claimed_key_replays_or_refuses() {
    assert_eq!(replay(Claim::Fresh).ok(), Some(None));
    let stored = "{\"id\":\"t-1\",\"number\":7}".to_owned();
    assert_eq!(
        replay(Claim::Replay { status_code: 201, response: stored.clone() }).ok(),
        Some(Some((201, stored.clone())))
    );
    assert_eq!(
        replay(Claim::Replay { status_code: 7, response: stored.clone() }).ok(),
        Some(Some((200, stored)))
    );
    assert_eq!(replay(Claim::InProgress).err().map(|e| e.code()), Some(ErrorCode::IdempotencyInProgress));
    assert_eq!(replay(Claim::BodyChanged).err().map(|e| e.status()), Some(422));
}

#[test]
fn a_code_carries_the_registry_number_the_documentation_gives_it() {
    assert_eq!(ErrorCode::PageTooLarge.registry(), Some("TF-QRY-0007"));
    assert_eq!(ErrorCode::NoGrant.registry(), Some("TF-AZN-0001"));
    assert_eq!(ErrorCode::ConstraintUnsatisfied.registry(), Some("TF-AZN-0002"));
    assert_eq!(ErrorCode::IdempotencyBodyChanged.registry(), Some("TF-IDM-0002"));
    assert_eq!(ErrorCode::InitialStatusRule.registry(), Some("TF-WFL-0007"));
    assert_eq!(ErrorCode::Internal.registry(), None);
}
