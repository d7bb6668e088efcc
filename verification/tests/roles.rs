use casual_task_api::roles::handlers::assignment_proposal;
use casual_task_api::roles::wire::AssignRequest;
use casual_task_api::error::ErrorCode;
use casual_task_api::roles::handlers::{
    assign_failure, assignment_limit, authoring_proposal, ceiling_over, found, may_read_roles,
    parse_permissions, parse_principal, parse_scope, refused, revoke_failure, role_name,
    scope_id_of, scopes_for, write_error, Principal, Refusal, ResourceScopes, RoleError, Scope,
};
use casual_task_api::unit::{Decision, DenyReason};

const REGISTRY: [&str; 4] = ["task.read", "task.update", "workspace.owner", "workspace.delete"];

#[test]
fn handlers_tests_every_registered_permission_parses_and_a_typo_does_not() {
    for (i, p) in REGISTRY.iter().enumerate() {
        assert_eq!(parse_permissions(&vec![p.to_string()], &REGISTRY).expect("known"), vec![i]);
    }
    assert!(parse_permissions(&vec!["task.updat".to_owned()], &REGISTRY).is_err());
}

#[test]
fn handlers_tests_every_scope_type_the_model_has_parses_and_task_scope_does_not() {
    for scope_type in ["WORKSPACE", "TEAM", "PROJECT", "ENVIRONMENT"] {
        assert!(parse_scope(scope_type, 7).is_ok());
    }
    assert!(parse_scope("TASK", 7).is_err());
}

#[test]
fn handlers_tests_each_refusal_maps_to_the_code_that_names_its_rule() {
    let cases = [
        (Refusal::ExceedsGrantCeiling { missing: "workspace.delete".to_owned() }, ErrorCode::GrantCeiling),
        (Refusal::ExceedsScopeCeiling, ErrorCode::ScopeCeiling),
        (Refusal::RoleEditingIsWorkspaceScoped, ErrorCode::ScopeCeiling),
        (Refusal::SelfElevation { missing: "workspace.owner".to_owned() }, ErrorCode::SelfElevation),
    ];
    for (refusal, expected) in cases {
        assert_eq!(refused(&refusal).code(), expected);
        assert_eq!(refused(&refusal).status(), 422);
    }
}

#[test]
fn a_principal_is_one_of_three_kinds() {
    assert_eq!(parse_principal("USER", 1).ok(), Some(Principal::User(1)));
    assert_eq!(parse_principal("SERVICE_ACCOUNT", 1).ok(), Some(Principal::ServiceAccount(1)));
    assert_eq!(parse_principal("ROBOT", 1).err().map(|e| e.code()), Some(ErrorCode::InvalidEnum));
}

#[test]
fn a_ceiling_is_asked_in_the_scope_chain_of_the_grant() {
    assert_eq!(
        scopes_for(1, Scope::Team(5)),
        ResourceScopes { workspace: 1, team: Some(5), project: None, environment: None }
    );
    assert_eq!(
        scopes_for(1, Scope::Workspace(9)),
        ResourceScopes { workspace: 1, team: None, project: None, environment: None }
    );
    let (proposal, chain) = authoring_proposal(3, 1, vec![0, 2]);
    assert_eq!(proposal.principal, Principal::User(3));
    assert_eq!(proposal.scope, Scope::Workspace(1));
    assert_eq!(proposal.role_permissions, vec![0, 2]);
    assert_eq!(chain.workspace, 1);
    assert!(ceiling_over(&Ok(())).is_ok());
    assert_eq!(ceiling_over(&Err(Refusal::ExceedsScopeCeiling)).err().map(|e| e.code()), Some(ErrorCode::ScopeCeiling));
}

#[test]
fn role_writes_and_revokes_fail_with_named_codes() {
    assert_eq!(write_error(RoleError::NameTaken).code(), ErrorCode::RoleNameTaken);
    assert_eq!(write_error(RoleError::UnknownPermission).status(), 400);
    assert_eq!(write_error(RoleError::VersionMismatch).code(), ErrorCode::VersionConflict);
    assert_eq!(write_error(RoleError::Database).status(), 500);
    assert_eq!(revoke_failure(Some("23001")).code(), ErrorCode::LastOwner);
    assert_eq!(revoke_failure(Some("23503")).status(), 500);
    assert_eq!(assign_failure(true).code(), ErrorCode::ReferenceNotFound);
    assert_eq!(assign_failure(false).status(), 500);
}

#[test]
fn reading_roles_needs_assign_or_manage() {
    let deny = Decision::Deny(DenyReason::NoGrant);
    assert!(may_read_roles(Decision::Allow, deny).is_ok());
    assert!(may_read_roles(deny, Decision::Allow).is_ok());
    assert_eq!(may_read_roles(deny, deny).err().map(|e| e.status()), Some(403));
    assert_eq!(assignment_limit(None).ok(), Some(50));
    assert_eq!(assignment_limit(Some(101)).err().map(|e| e.code()), Some(ErrorCode::PageTooLarge));
    assert_eq!(role_name("  Lead ").ok(), Some("Lead".to_owned()));
    assert_eq!(role_name(" ").err().map(|e| e.code()), Some(ErrorCode::MissingField));
    assert_eq!(scope_id_of(None, 1), 1);
    assert_eq!(scope_id_of(Some(2), 1), 2);
    assert_eq!(found::<u8>(None).err().map(|e| e.status()), Some(404));
}

fn grant(scope_type: &str, scope_id: Option<u128>, principal_type: &str) -> AssignRequest {
    AssignRequest {
        principal_type: principal_type.to_owned(),
        principal_id: 7,
        role_id: 3,
        scope_type: scope_type.to_owned(),
        scope_id,
    }
}

#[test]
fn a_grant_request_is_read_role_scope_principal_then_permissions() {
    let keys = vec!["task.update".to_owned(), "task.read".to_owned()];
    assert_eq!(
        assignment_proposal(&grant("NOPE", None, "NOPE"), None, 1, &REGISTRY).unwrap_err().code,
        ErrorCode::NotFound
    );
    assert_eq!(
        assignment_proposal(&grant("TASK", None, "USER"), Some(&keys), 1, &REGISTRY).unwrap_err().code,
        ErrorCode::InvalidEnum
    );
    assert_eq!(
        assignment_proposal(&grant("TEAM", Some(5), "ROBOT"), Some(&keys), 1, &REGISTRY)
            .unwrap_err()
            .code,
        ErrorCode::InvalidEnum
    );
    let typo = vec!["task.updat".to_owned()];
    assert_eq!(
        assignment_proposal(&grant("TEAM", Some(5), "USER"), Some(&typo), 1, &REGISTRY)
            .unwrap_err()
            .code,
        ErrorCode::InvalidEnum
    );
    let (proposal, chain) =
        assignment_proposal(&grant("WORKSPACE", None, "USER"), Some(&keys), 1, &REGISTRY).expect("valid");
    assert_eq!(proposal.principal, Principal::User(7));
    assert_eq!(proposal.scope, Scope::Workspace(1));
    assert_eq!(proposal.role_permissions, vec![1, 0]);
    assert_eq!(chain, scopes_for(1, Scope::Workspace(1)));
    let (proposal, chain) =
        assignment_proposal(&grant("PROJECT", Some(9), "TEAM"), Some(&keys), 1, &REGISTRY).expect("valid");
    assert_eq!(proposal.scope, Scope::Project(9));
    assert_eq!(proposal.principal, Principal::Team(7));
    assert_eq!(chain.project, Some(9));
}

#[test]
fn handlers_every_registered_permission_parses_and_a_typo_does_not() {
    for (i, p) in REGISTRY.iter().enumerate() {
        assert_eq!(parse_permissions(&vec![p.to_string()], &REGISTRY).expect("known"), vec![i]);
    }
    assert!(parse_permissions(&vec!["task.updat".to_owned()], &REGISTRY).is_err());
}

#[test]
fn handlers_every_scope_type_the_model_has_parses_and_task_scope_does_not() {
    for scope_type in ["WORKSPACE", "TEAM", "PROJECT", "ENVIRONMENT"] {
        assert!(parse_scope(scope_type, 7).is_ok());
    }
    assert!(parse_scope("TASK", 7).is_err());
}

#[test]
fn handlers_each_refusal_maps_to_the_code_that_names_its_rule() {
    let cases = [
        (Refusal::ExceedsGrantCeiling { missing: "workspace.delete".to_owned() }, ErrorCode::GrantCeiling),
        (Refusal::ExceedsScopeCeiling, ErrorCode::ScopeCeiling),
        (Refusal::RoleEditingIsWorkspaceScoped, ErrorCode::ScopeCeiling),
        (Refusal::SelfElevation { missing: "workspace.owner".to_owned() }, ErrorCode::SelfElevation),
    ];
    for (refusal, expected) in cases {
        assert_eq!(refused(&refusal).code(), expected);
    }
}
