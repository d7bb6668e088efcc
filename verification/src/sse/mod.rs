//! Live updates: who may subscribe, what the stream holds and sends, and
//! what makes an open stream stop being allowed.
pub mod coalesce;
pub mod authorize;
pub mod revalidate;
pub mod endpoint;
