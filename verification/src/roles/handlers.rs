//! The decisions of the role handlers: parsing scopes, principals and
//! permission keys; the scope chain a ceiling is resolved in; and the one
//! code per refusal that tells an admin which rule they hit.
use vstd::prelude::*;

use crate::error::{bad, conflicting, missing, refused as unprocessable_with, with_status, ApiError, ErrorCode, INTERNAL};
use crate::text::{char_count, owned, str_eq, trim, trimmed};
use crate::roles::wire::{AssignRequest, AssignmentView, RoleView};
use crate::unit::{authorized, denial_of, Decision};
use crate::wire::{format_rfc3339_utc, rfc3339_utc};

verus! {

/// The default page of grants.
pub const DEFAULT_ASSIGNMENT_PAGE: u32 = 50;

/// The largest page of grants.
pub const MAX_ASSIGNMENT_PAGE: u32 = 100;

/// Where a role is granted. Task scope does not exist.
#[derive(Debug, Clone, Copy, PartialEq, Eq, Structural)]
pub enum Scope {
    Workspace(u128),
    Team(u128),
    Project(u128),
    Environment(u128),
}

/// Who a role is granted to.
#[derive(Debug, Clone, Copy, PartialEq, Eq, Structural)]
pub enum Principal {
    User(u128),
    Team(u128),
    ServiceAccount(u128),
}

pub open spec fn scope_named(scope_type: Seq<char>, id: u128) -> Option<Scope> {
    if scope_type == "WORKSPACE"@ {
        Some(Scope::Workspace(id))
    } else if scope_type == "TEAM"@ {
        Some(Scope::Team(id))
    } else if scope_type == "PROJECT"@ {
        Some(Scope::Project(id))
    } else if scope_type == "ENVIRONMENT"@ {
        Some(Scope::Environment(id))
    } else {
        None
    }
}

/// Each of the four scope spellings names its own kind of scope, at the id
/// given: an environment grant is recorded, and its ceiling resolved, as an
/// environment grant, never as one of the wider scopes. No other spelling
/// names a scope.
pub proof fn law_each_scope_spelling_names_its_own_kind(id: u128)
    ensures
        scope_named("WORKSPACE"@, id) == Some(Scope::Workspace(id)),
        scope_named("TEAM"@, id) == Some(Scope::Team(id)),
        scope_named("PROJECT"@, id) == Some(Scope::Project(id)),
        scope_named("ENVIRONMENT"@, id) == Some(Scope::Environment(id)),
        forall|t: Seq<char>|
            t != "WORKSPACE"@ && t != "TEAM"@ && t != "PROJECT"@ && t != "ENVIRONMENT"@
                ==> #[trigger] scope_named(t, id) is None,
{
    reveal_strlit("WORKSPACE");
    reveal_strlit("TEAM");
    reveal_strlit("PROJECT");
    reveal_strlit("ENVIRONMENT");
    assert("TEAM"@.len() != "WORKSPACE"@.len());
    assert("PROJECT"@.len() != "WORKSPACE"@.len());
    assert("PROJECT"@.len() != "TEAM"@.len());
    assert("ENVIRONMENT"@.len() != "WORKSPACE"@.len());
    assert("ENVIRONMENT"@.len() != "TEAM"@.len());
    assert("ENVIRONMENT"@.len() != "PROJECT"@.len());
}

/// A scope type and id, or `400`: an unrecognised type is a scope nothing
/// can reason about.
pub fn parse_scope(scope_type: &str, id: u128) -> (r: Result<Scope, ApiError>)
    ensures
        match scope_named(scope_type@, id) {
            Some(s) => r == Ok::<Scope, ApiError>(s),
            None => r == Err::<Scope, ApiError>(bad(ErrorCode::InvalidEnum)),
        },
        scope_type@ == "WORKSPACE"@ ==> r == Ok::<Scope, ApiError>(Scope::Workspace(id)),
        scope_type@ == "TEAM"@ ==> r == Ok::<Scope, ApiError>(Scope::Team(id)),
        scope_type@ == "PROJECT"@ ==> r == Ok::<Scope, ApiError>(Scope::Project(id)),
        scope_type@ == "ENVIRONMENT"@ ==> r == Ok::<Scope, ApiError>(Scope::Environment(id)),
{
    proof {
        law_each_scope_spelling_names_its_own_kind(id);
    }
    if str_eq(scope_type, "WORKSPACE") {
        Ok(Scope::Workspace(id))
    } else if str_eq(scope_type, "TEAM") {
        Ok(Scope::Team(id))
    } else if str_eq(scope_type, "PROJECT") {
        Ok(Scope::Project(id))
    } else if str_eq(scope_type, "ENVIRONMENT") {
        Ok(Scope::Environment(id))
    } else {
        Err(ApiError::bad_request(ErrorCode::InvalidEnum))
    }
}

pub open spec fn principal_named(principal_type: Seq<char>, id: u128) -> Option<Principal> {
    if principal_type == "USER"@ {
        Some(Principal::User(id))
    } else if principal_type == "TEAM"@ {
        Some(Principal::Team(id))
    } else if principal_type == "SERVICE_ACCOUNT"@ {
        Some(Principal::ServiceAccount(id))
    } else {
        None
    }
}

/// A principal type and id, or `400`.
pub fn parse_principal(principal_type: &str, id: u128) -> (r: Result<Principal, ApiError>)
    ensures
        match principal_named(principal_type@, id) {
            Some(p) => r == Ok::<Principal, ApiError>(p),
            None => r == Err::<Principal, ApiError>(bad(ErrorCode::InvalidEnum)),
        },
{
    if str_eq(principal_type, "USER") {
        Ok(Principal::User(id))
    } else if str_eq(principal_type, "TEAM") {
        Ok(Principal::Team(id))
    } else if str_eq(principal_type, "SERVICE_ACCOUNT") {
        Ok(Principal::ServiceAccount(id))
    } else {
        Err(ApiError::bad_request(ErrorCode::InvalidEnum))
    }
}

fn registry_position(registry: &[&str], key: &str) -> (r: Option<usize>)
    ensures
        match r {
            Some(a) => a < registry@.len() && registry@[a as int]@ == key@ && forall|i: int|
                0 <= i < a ==> registry@[i]@ != key@,
            None => forall|i: int| 0 <= i < registry@.len() ==> registry@[i]@ != key@,
        },
{
    let mut j: usize = 0;
    while j < registry.len()
        invariant
            j <= registry@.len(),
            forall|i: int| 0 <= i < j ==> registry@[i]@ != key@,
        decreases registry.len() - j,
    {
        if str_eq(registry[j], key) {
            return Some(j);
        }
        j = j + 1;
    }
    None
}

/// Permission keys, each found in the registry, as registry positions in
/// the order given. A key outside the registry is refused here rather than
/// by the schema, where it would reach the caller as a fault: "not a
/// permission" is the sentence an admin can act on.
pub fn parse_permissions(keys: &Vec<String>, registry: &[&str]) -> (r: Result<Vec<usize>, ApiError>)
    ensures
        match r {
            Ok(found) => found@.len() == keys@.len() && forall|k: int|
                0 <= k < keys@.len() ==> #[trigger] known_at(registry@, keys@[k]@, found@[k] as int),
            Err(e) => e == bad(ErrorCode::InvalidEnum) && exists|k: int|
                0 <= k < keys@.len() && forall|j: int|
                    0 <= j < registry@.len() ==> registry@[j]@ != (#[trigger] keys@[k])@,
        },
{
    let mut found: Vec<usize> = Vec::new();
    let mut k: usize = 0;
    while k < keys.len()
        invariant
            k <= keys@.len(),
            found@.len() == k,
            forall|m: int| 0 <= m < k ==> #[trigger] known_at(registry@, keys@[m]@, found@[m] as int),
        decreases keys.len() - k,
    {
        match registry_position(registry, keys[k].as_str()) {
            Some(a) => {
                found.push(a);
                assert(known_at(registry@, keys@[k as int]@, found@[k as int] as int));
            },
            None => {
                assert(forall|j: int| 0 <= j < registry@.len() ==> registry@[j]@ != keys@[k as int]@);
                return Err(ApiError::bad_request(ErrorCode::InvalidEnum));
            },
        }
        k = k + 1;
    }
    Ok(found)
}

/// `key` is the registry entry at position `a`, its first.
pub open spec fn known_at(registry: Seq<&str>, key: Seq<char>, a: int) -> bool {
    &&& 0 <= a < registry.len()
    &&& registry[a]@ == key
    &&& forall|i: int| 0 <= i < a ==> registry[i]@ != key
}

/// Why a ceiling refused an assignment, as the authority reports it; the
/// permission named is the one the actor lacks.
#[derive(Debug, Clone, PartialEq, Eq)]
pub enum Refusal {
    /// Control 1: you cannot grant what you do not hold at that scope.
    ExceedsGrantCeiling { missing: String },
    /// Control 2: you cannot assign at that scope.
    ExceedsScopeCeiling,
    /// Control 3: authoring roles exists only at workspace scope.
    RoleEditingIsWorkspaceScoped,
    /// Control 5: you cannot give yourself what you do not already hold.
    SelfElevation { missing: String },
}

/// One code per control.
pub open spec fn refusal_error(refusal: Refusal) -> ApiError {
    match refusal {
        Refusal::ExceedsGrantCeiling { .. } => unprocessable_with(ErrorCode::GrantCeiling),
        Refusal::ExceedsScopeCeiling => unprocessable_with(ErrorCode::ScopeCeiling),
        Refusal::RoleEditingIsWorkspaceScoped => unprocessable_with(ErrorCode::ScopeCeiling),
        Refusal::SelfElevation { .. } => unprocessable_with(ErrorCode::SelfElevation),
    }
}

/// Turn a ceiling refusal into the code that names its rule.
pub fn refused(refusal: &Refusal) -> (e: ApiError)
    ensures
        e == refusal_error(*refusal),
{
    match refusal {
        Refusal::ExceedsGrantCeiling { .. } => ApiError::unprocessable(ErrorCode::GrantCeiling),
        Refusal::ExceedsScopeCeiling => ApiError::unprocessable(ErrorCode::ScopeCeiling),
        Refusal::RoleEditingIsWorkspaceScoped => ApiError::unprocessable(ErrorCode::ScopeCeiling),
        Refusal::SelfElevation { .. } => ApiError::unprocessable(ErrorCode::SelfElevation),
    }
}

/// The scope chain a ceiling resolves the actor's own permissions in: the
/// workspace, and below it the team, project or environment the grant is
/// at.
#[derive(Debug, Clone, Copy, PartialEq, Eq, Structural)]
pub struct ResourceScopes {
    pub workspace: u128,
    pub team: Option<u128>,
    pub project: Option<u128>,
    pub environment: Option<u128>,
}

pub open spec fn scope_chain(workspace: u128, scope: Scope) -> ResourceScopes {
    match scope {
        Scope::Workspace(_) => ResourceScopes { workspace, team: None, project: None, environment: None },
        Scope::Team(t) => ResourceScopes { workspace, team: Some(t), project: None, environment: None },
        Scope::Project(p) => ResourceScopes { workspace, team: None, project: Some(p), environment: None },
        Scope::Environment(e) => ResourceScopes {
            workspace,
            team: None,
            project: None,
            environment: Some(e),
        },
    }
}

/// The scope chain for a grant at `scope` in `workspace`. A workspace
/// grant is asked at the workspace itself, whatever id it names.
pub fn scopes_for(workspace: u128, scope: Scope) -> (r: ResourceScopes)
    ensures
        r == scope_chain(workspace, scope),
{
    match scope {
        Scope::Workspace(_) => ResourceScopes { workspace, team: None, project: None, environment: None },
        Scope::Team(t) => ResourceScopes { workspace, team: Some(t), project: None, environment: None },
        Scope::Project(p) => ResourceScopes { workspace, team: None, project: Some(p), environment: None },
        Scope::Environment(e) => ResourceScopes {
            workspace,
            team: None,
            project: None,
            environment: Some(e),
        },
    }
}

/// An assignment as a ceiling is asked about it.
#[derive(Debug, Clone, PartialEq, Eq)]
pub struct ProposedAssignment {
    pub principal: Principal,
    pub scope: Scope,
    /// Registry positions of the role's permissions.
    pub role_permissions: Vec<usize>,
}

/// Control 1 at authoring time: the author is the principal, so authoring
/// a role you could not grant yourself reads as the self-elevation it is.
/// Authoring is workspace-scoped.
pub fn authoring_proposal(actor: u128, workspace: u128, wanted: Vec<usize>) -> (r: (
    ProposedAssignment,
    ResourceScopes,
))
    ensures
        r.0.principal == Principal::User(actor),
        r.0.scope == Scope::Workspace(workspace),
        r.0.role_permissions@ == wanted@,
        r.1 == scope_chain(workspace, Scope::Workspace(workspace)),
{
    let scope = Scope::Workspace(workspace);
    (ProposedAssignment { principal: Principal::User(actor), scope, role_permissions: wanted }, scopes_for(workspace, scope))
}

/// `key` names a permission in the registry.
pub open spec fn registered(registry: Seq<&str>, key: Seq<char>) -> bool {
    exists|j: int| 0 <= j < registry.len() && registry[j]@ == key
}

/// Every key names a permission in the registry.
pub open spec fn all_registered(registry: Seq<&str>, keys: Seq<String>) -> bool {
    forall|k: int| 0 <= k < keys.len() ==> registered(registry, #[trigger] keys[k]@)
}

/// The proposal a grant request makes, read in the order the handler reads
/// it: the role must be in this workspace (`404`); then the scope, defaulting
/// to the workspace itself; then the principal; then the role's permissions,
/// each of which must be in the registry. `role_permissions` is the role
/// found, or nothing.
pub fn assignment_proposal(
    request: &AssignRequest,
    role_permissions: Option<&Vec<String>>,
    workspace: u128,
    registry: &[&str],
) -> (r: Result<(ProposedAssignment, ResourceScopes), ApiError>)
    ensures
        role_permissions is None ==> r == Err::<(ProposedAssignment, ResourceScopes), ApiError>(
            missing(ErrorCode::NotFound),
        ),
        role_permissions is Some ==> {
            let id = match request.scope_id {
                Some(id) => id,
                None => workspace,
            };
            match scope_named(request.scope_type@, id) {
                None => r == Err::<(ProposedAssignment, ResourceScopes), ApiError>(
                    bad(ErrorCode::InvalidEnum),
                ),
                Some(scope) => match principal_named(request.principal_type@, request.principal_id) {
                    None => r == Err::<(ProposedAssignment, ResourceScopes), ApiError>(
                        bad(ErrorCode::InvalidEnum),
                    ),
                    Some(principal) => {
                        let keys = role_permissions.unwrap()@;
                        &&& r is Ok <==> all_registered(registry@, keys)
                        &&& r is Err ==> r == Err::<(ProposedAssignment, ResourceScopes), ApiError>(
                            bad(ErrorCode::InvalidEnum),
                        )
                        &&& r matches Ok((p, chain)) ==> {
                            &&& p.principal == principal
                            &&& p.scope == scope
                            &&& p.role_permissions@.len() == keys.len()
                            &&& (forall|k: int|
                                0 <= k < keys.len() ==> #[trigger] known_at(
                                    registry@,
                                    keys[k]@,
                                    p.role_permissions@[k] as int,
                                ))
                            &&& chain == scope_chain(workspace, scope)
                        }
                    },
                },
            }
        },
{
    let keys = match role_permissions {
        Some(keys) => keys,
        None => return Err(ApiError::missing(ErrorCode::NotFound)),
    };
    let scope = match parse_scope(request.scope_type.as_str(), scope_id_of(request.scope_id, workspace)) {
        Ok(s) => s,
        Err(e) => return Err(e),
    };
    let principal = match parse_principal(request.principal_type.as_str(), request.principal_id) {
        Ok(p) => p,
        Err(e) => return Err(e),
    };
    let positions = match parse_permissions(keys, registry) {
        Ok(found) => found,
        Err(e) => {
            proof {
                let k0 = choose|k: int|
                    0 <= k < keys@.len() && forall|j: int|
                        0 <= j < registry@.len() ==> registry@[j]@ != (#[trigger] keys@[k])@;
                assert(!registered(registry@, keys@[k0]@));
                assert(!all_registered(registry@, keys@));
            }
            return Err(e);
        },
    };
    assert(role_permissions.unwrap()@ == keys@);
    proof {
        assert forall|k: int| 0 <= k < keys@.len() implies registered(
            registry@,
            #[trigger] keys@[k]@,
        ) by {
            assert(known_at(registry@, keys@[k]@, positions@[k] as int));
        }
        assert(all_registered(registry@, keys@));
    }
    let chain = scopes_for(workspace, scope);
    Ok((ProposedAssignment { principal, scope, role_permissions: positions }, chain))
}

/// What the ceiling answered, as the handler's answer: carry on, or the
/// code of the rule it broke.
pub fn ceiling_over(verdict: &Result<(), Refusal>) -> (r: Result<(), ApiError>)
    ensures
        match *verdict {
            Ok(()) => r is Ok,
            Err(refusal) => r == Err::<(), ApiError>(refusal_error(refusal)),
        },
{
    match verdict {
        Ok(()) => Ok(()),
        Err(refusal) => Err(refused(refusal)),
    }
}

/// Why a role write failed.
#[derive(Debug, Clone, Copy, PartialEq, Eq, Structural)]
pub enum RoleError {
    NameTaken,
    UnknownPermission,
    VersionMismatch,
    Database,
}

/// A failed role write: a taken name and a stale version are `409`, an
/// unknown permission is `400`, anything else is a fault.
pub fn write_error(error: RoleError) -> (e: ApiError)
    ensures
        error == RoleError::NameTaken ==> e == conflicting(ErrorCode::RoleNameTaken),
        error == RoleError::UnknownPermission ==> e == bad(ErrorCode::InvalidEnum),
        error == RoleError::VersionMismatch ==> e == conflicting(ErrorCode::VersionConflict),
        error == RoleError::Database ==> e == with_status(INTERNAL, ErrorCode::Internal),
{
    match error {
        RoleError::NameTaken => ApiError::conflict(ErrorCode::RoleNameTaken),
        RoleError::UnknownPermission => ApiError::bad_request(ErrorCode::InvalidEnum),
        RoleError::VersionMismatch => ApiError::conflict(ErrorCode::VersionConflict),
        RoleError::Database => ApiError::internal(),
    }
}

/// A role's name, trimmed; an empty one is a missing field.
pub fn role_name(name: &str) -> (r: Result<String, ApiError>)
    ensures
        trimmed(name@).len() == 0 ==> r == Err::<String, ApiError>(bad(ErrorCode::MissingField)),
        trimmed(name@).len() > 0 ==> (r matches Ok(n) && n@ == trimmed(name@)),
{
    let t = trim(name);
    if char_count(t) == 0 {
        Err(ApiError::bad_request(ErrorCode::MissingField))
    } else {
        Ok(owned(t))
    }
}

/// Reading roles and grants: `role.assign` suffices, and otherwise the
/// answer is the one for `role.manage`. A picker that cannot list roles
/// cannot offer one, and an admin granting a role needs to see what is
/// already held.
pub fn may_read_roles(assign: Decision, manage: Decision) -> (r: Result<(), ApiError>)
    ensures
        assign == Decision::Allow ==> r is Ok,
        assign != Decision::Allow ==> match manage {
            Decision::Allow => r is Ok,
            Decision::Deny(reason) => r == Err::<(), ApiError>(denial_of(reason)),
        },
{
    match assign {
        Decision::Allow => Ok(()),
        Decision::Deny(_) => authorized(manage),
    }
}

/// The page size of a grant list: refused outside 1 to
/// [`MAX_ASSIGNMENT_PAGE`], never clamped.
pub fn assignment_limit(requested: Option<u32>) -> (r: Result<u32, ApiError>)
    ensures
        match requested {
            None => r == Ok::<u32, ApiError>(DEFAULT_ASSIGNMENT_PAGE),
            Some(n) => if 1 <= n <= MAX_ASSIGNMENT_PAGE {
                r == Ok::<u32, ApiError>(n)
            } else {
                r == Err::<u32, ApiError>(bad(ErrorCode::PageTooLarge))
            },
        },
{
    match requested {
        None => Ok(DEFAULT_ASSIGNMENT_PAGE),
        Some(n) => if n == 0 || n > MAX_ASSIGNMENT_PAGE {
            Err(ApiError::bad_request(ErrorCode::PageTooLarge))
        } else {
            Ok(n)
        },
    }
}

/// The scope a grant is at: the one named, or the workspace itself.
pub fn scope_id_of(scope_id: Option<u128>, workspace: u128) -> (r: u128)
    ensures
        r == match scope_id {
            Some(id) => id,
            None => workspace,
        },
{
    match scope_id {
        Some(id) => id,
        None => workspace,
    }
}

/// A role or grant that is not in this workspace is `404`.
pub fn found<T>(row: Option<T>) -> (r: Result<T, ApiError>)
    ensures
        match row {
            Some(t) => r == Ok::<T, ApiError>(t),
            None => r == Err::<T, ApiError>(missing(ErrorCode::NotFound)),
        },
{
    match row {
        Some(t) => Ok(t),
        None => Err(ApiError::missing(ErrorCode::NotFound)),
    }
}

/// SQLSTATE of the last-owner trigger's refusal.
pub open spec fn is_restrict_violation(state: Option<&str>) -> bool {
    state matches Some(s) && s@ == "23001"@
}

/// A failed revoke: the last grant carrying workspace ownership is refused
/// by the database, and that refusal is the caller's `422`, not a fault.
pub fn revoke_failure(sqlstate: Option<&str>) -> (e: ApiError)
    ensures
        is_restrict_violation(sqlstate) ==> e == unprocessable_with(ErrorCode::LastOwner),
        !is_restrict_violation(sqlstate) ==> e == with_status(INTERNAL, ErrorCode::Internal),
{
    let restrict = match sqlstate {
        Some(s) => str_eq(s, "23001"),
        None => false,
    };
    if restrict {
        ApiError::unprocessable(ErrorCode::LastOwner)
    } else {
        ApiError::internal()
    }
}

/// A failed grant insert: a principal or scope that names nothing in this
/// workspace is `422`; anything else is a fault.
pub fn assign_failure(foreign_key_violation: bool) -> (e: ApiError)
    ensures
        foreign_key_violation ==> e == unprocessable_with(ErrorCode::ReferenceNotFound),
        !foreign_key_violation ==> e == with_status(INTERNAL, ErrorCode::Internal),
{
    if foreign_key_violation {
        ApiError::unprocessable(ErrorCode::ReferenceNotFound)
    } else {
        ApiError::internal()
    }
}

/// How a role or grant writes an instant: RFC 3339 as `time` formats it,
/// empty when it cannot.
pub open spec fn written(nanos: int) -> Seq<char> {
    match rfc3339_utc(nanos) {
        Some(t) => t,
        None => Seq::empty(),
    }
}

fn written_at(nanos: i128) -> (s: String)
    ensures
        s@ == written(nanos as int),
{
    match format_rfc3339_utc(nanos) {
        Some(t) => t,
        None => String::new(),
    }
}

/// A role as stored; instants in nanoseconds after the epoch.
#[derive(Debug, Clone, PartialEq, Eq)]
pub struct RoleRow {
    pub id: u128,
    pub name: String,
    pub is_template: bool,
    pub permissions: Vec<String>,
    pub created_at: i128,
    pub updated_at: i128,
    pub version: i64,
}

/// A role's representation.
pub fn view(row: RoleRow) -> (v: RoleView)
    ensures
        v.id == row.id,
        v.name == row.name,
        v.is_template == row.is_template,
        v.permissions == row.permissions,
        v.created_at@ == written(row.created_at as int),
        v.updated_at@ == written(row.updated_at as int),
        v.version == row.version,
{
    RoleView {
        id: row.id,
        name: row.name,
        is_template: row.is_template,
        permissions: row.permissions,
        created_at: written_at(row.created_at),
        updated_at: written_at(row.updated_at),
        version: row.version,
    }
}

/// A grant as stored.
#[derive(Debug, Clone, PartialEq, Eq)]
pub struct AssignmentRow {
    pub id: u128,
    pub principal_type: String,
    pub principal_id: u128,
    pub role_id: u128,
    pub scope_type: String,
    pub scope_id: u128,
    pub granted_by: u128,
    pub granted_at: i128,
}

/// A grant's representation.
pub fn assignment_view(row: &AssignmentRow) -> (v: AssignmentView)
    ensures
        v.id == row.id,
        v.principal_type == row.principal_type,
        v.principal_id == row.principal_id,
        v.role_id == row.role_id,
        v.scope_type == row.scope_type,
        v.scope_id == row.scope_id,
        v.granted_by == row.granted_by,
        v.granted_at@ == written(row.granted_at as int),
{
    AssignmentView {
        id: row.id,
        principal_type: row.principal_type.clone(),
        principal_id: row.principal_id,
        role_id: row.role_id,
        scope_type: row.scope_type.clone(),
        scope_id: row.scope_id,
        granted_by: row.granted_by,
        granted_at: written_at(row.granted_at),
    }
}

} // verus!
