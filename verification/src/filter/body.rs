//! Request bodies.
pub mod patch;
