//! Small helpers shared by the rest of the crate.

pub mod bytes;
pub mod strategy;
