//! Contract data and how it is handed out.

mod field;

pub use field::FieldData;
