//! The task API's rules, proved: what every endpoint checks before it
//! writes, the answers it refuses with, the state it keeps between events,
//! and the laws those decisions obey.
//!
//! Each module holds the decisions of one part of the API: requests are
//! checked and turned into the values the handlers act on; the results the
//! store and the authority return are turned into the answers a client
//! sees. Nothing here reads a socket or a database: values come in, values
//! go out.
pub mod error;
pub mod order;
pub mod rate_limit;
pub mod releases;
pub mod reports;
pub mod roles;
pub mod server;
pub mod sse;
pub mod tags;
pub mod tasks;
pub mod text;
pub mod unit;
pub mod wire;
pub mod workflows;
pub mod workspaces;
