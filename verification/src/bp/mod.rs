//! Bitcoin-level primitives: digests, keys, outpoint blinding and the
//! deterministic bitcoin commitments built on them.

pub mod blind;
pub mod dbc;
pub mod digests;
pub mod keys;
pub mod scripts;
