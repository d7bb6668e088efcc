//! Workflows: their statuses, the transitions between them, the guard that
//! decides who may change them, and the representation every change is
//! answered with.
pub mod statuses;
pub mod transitions;
pub mod guard;
pub mod wire;
