//! The schema of a contract and its identifier.

mod schema;

pub use schema::{
    lemma_schema_round_trip, schema_id_of, AssignmentsType, DataFormat, Extensions, FieldType,
    GenesisSchema, GenesisSchemaView, Schema, SchemaId, SchemaView, SimplicityScript, StateFormat,
    TransitionSchema, TransitionSchemaView, TransitionType, MIDSTATE_SCHEMA_ID,
};
