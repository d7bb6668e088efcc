//! Rate limiting at the edge.
pub mod class;
pub mod layer;
pub mod meter;
