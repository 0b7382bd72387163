//! Derive a value from a reference to some data and keep both together, in one
//! value with no lifetime parameter.

pub mod bound;

pub use crate::bound::Bound;
