//! Request and response shapes for `/api/v1/roles` and
//! `/api/v1/role-assignments`.
use vstd::prelude::*;

verus! {

/// `POST /api/v1/roles`: a name and the registry keys it grants.
#[derive(Debug, Clone, PartialEq, Eq)]
pub struct CreateRoleRequest {
    pub name: String,
    pub permissions: Vec<String>,
}

/// `PATCH /api/v1/roles/{id}`. `permissions` is the whole set, not a
/// delta: a delta would be checked as a delta and land as a set, and the
/// difference is where a smuggled permission would live.
#[derive(Debug, Clone, PartialEq, Eq)]
pub struct PatchRoleRequest {
    pub name: Option<String>,
    pub permissions: Option<Vec<String>>,
}

/// `POST /api/v1/role-assignments`. The scope id is omitted at workspace
/// scope, where the scope is the workspace itself.
#[derive(Debug, Clone, PartialEq, Eq)]
pub struct AssignRequest {
    pub principal_type: String,
    pub principal_id: u128,
    pub role_id: u128,
    pub scope_type: String,
    pub scope_id: Option<u128>,
}

/// `GET /api/v1/role-assignments`: optional filters, a cursor and a page
/// size.
#[derive(Debug, Clone, Copy, PartialEq, Eq)]
pub struct AssignmentQuery {
    pub principal_id: Option<u128>,
    pub role_id: Option<u128>,
    pub scope_id: Option<u128>,
    pub cursor: Option<u128>,
    pub limit: Option<u32>,
}

/// A role. A template is a cloneable starting point, reported so a client
/// can label it, never special-cased.
#[derive(Debug, Clone, PartialEq, Eq)]
pub struct RoleView {
    pub id: u128,
    pub name: String,
    pub is_template: bool,
    pub permissions: Vec<String>,
    pub created_at: String,
    pub updated_at: String,
    pub version: i64,
}

/// A grant: who holds which role where, and who granted it when.
#[derive(Debug, Clone, PartialEq, Eq)]
pub struct AssignmentView {
    pub id: u128,
    pub principal_type: String,
    pub principal_id: u128,
    pub role_id: u128,
    pub scope_type: String,
    pub scope_id: u128,
    pub granted_by: u128,
    pub granted_at: String,
}

} // verus!
