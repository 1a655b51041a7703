//! Deterministic commitment-embedding schemes for Bitcoin-like transaction
//! data, together with the strict binary encoding they rest on.

pub mod bp;
pub mod common;
pub mod paradigms;
pub mod primitives;
pub mod rgb;
