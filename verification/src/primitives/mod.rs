//! Scheme-independent building blocks.

pub mod commit_verify;
