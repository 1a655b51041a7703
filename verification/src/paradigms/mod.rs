//! Conventions that the rest of the crate follows.

pub mod strict_encoding;
