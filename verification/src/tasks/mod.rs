//! Tasks: the checks every task endpoint makes before it writes, the
//! representation it answers with, and the decisions of a transition.
pub mod validate;
pub mod wire;
pub mod crud;
pub mod relations;
pub mod bulk;
pub mod subtasks;
