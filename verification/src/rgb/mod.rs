//! Data of client-validated contracts that is committed to.

pub mod contract;
pub mod schema;
