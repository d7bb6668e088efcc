//! Roles and role assignments. The ceilings that stop role-based access
//! from being a self-service escalation are decided elsewhere; this module
//! reads a request, names the proposal, and turns a refusal into the code
//! that names the rule it broke.
pub mod handlers;
pub mod wire;
