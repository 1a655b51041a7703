use std::collections::BTreeMap;

use bitcoin::hashes::{sha256, HashEngine};
use lnpbp::paradigms::strict_encoding::{strict_decode, strict_encode, Error, IoErrorKind};
use lnpbp::primitives::commit_verify::{Committable, StandaloneCommitment, Verifiable};
use lnpbp::rgb::schema::{
    DataFormat, Extensions, GenesisSchema, Schema, SchemaId, StateFormat, TransitionSchema,
    MIDSTATE_SCHEMA_ID,
};

fn indexed<T>(values: Vec<T>) -> BTreeMap<usize, T> {
    values.into_iter().enumerate().collect()
}

fn schema() -> Schema {
    Schema {
        field_types: indexed(vec![DataFormat::Unsigned, DataFormat::String]),
        assignment_types: indexed(vec![StateFormat::Homomorphic]),
        genesis: GenesisSchema { metadata: vec![0, 1], defines: vec![0] },
        transitions: indexed(vec![TransitionSchema {
            metadata: vec![1],
            closes: vec![0],
            defines: vec![0],
        }]),
        script_library: vec![0xDE, 0xAD],
        script_extensions: Extensions::ScriptsReplace,
    }
}

fn code() -> Vec<u8> {
    vec![
        2, 0, 0, 4, // field types
        1, 0, 1, // assignment types
        2, 0, 0, 0, 1, 0, // genesis metadata
        1, 0, 0, 0, // genesis defines
        1, 0, // one transition
        1, 0, 1, 0, // its metadata
        1, 0, 0, 0, // what it closes
        1, 0, 0, 0, // what it defines
        2, 0, 0xDE, 0xAD, // script library
        2, // script extensions
    ]
}

fn tagged(data: &[u8]) -> [u8; 32] {
    let midstate = sha256::Midstate::from_inner(MIDSTATE_SCHEMA_ID);
    let mut engine = sha256::HashEngine::from_midstate(midstate, 64);
    engine.input(data);
    let hash: sha256::Hash = bitcoin::hashes::Hash::from_engine(engine);
    bitcoin::hashes::Hash::into_inner(hash)
}

#[test]
fn schema_is_encoded_field_by_field() {
    assert_eq!(strict_encode(&schema()).unwrap(), code());
}

#[test]
fn schema_round_trips() {
    assert_eq!(strict_decode::<Schema>(&code()).unwrap(), schema());
    let empty = Schema {
        field_types: BTreeMap::new(),
        assignment_types: BTreeMap::new(),
        genesis: GenesisSchema { metadata: vec![], defines: vec![] },
        transitions: BTreeMap::new(),
        script_library: vec![],
        script_extensions: Extensions::ScriptsDenied,
    };
    let bytes = strict_encode(&empty).unwrap();
    assert_eq!(bytes, vec![0u8; 13]);
    assert_eq!(strict_decode::<Schema>(&bytes).unwrap(), empty);
}

#[test]
fn cut_or_overlong_schema_is_refused() {
    let mut bytes = code();
    bytes.pop();
    assert_eq!(
        strict_decode::<Schema>(&bytes).err(),
        Some(Error::Io(IoErrorKind::UnexpectedEof))
    );
    let mut bytes = code();
    bytes.push(0);
    assert_eq!(strict_decode::<Schema>(&bytes).err(), Some(Error::DataNotEntirelyConsumed));
}

#[test]
fn unknown_enum_byte_is_named() {
    let mut bytes = code();
    let last = bytes.len() - 1;
    bytes[last] = 3;
    assert_eq!(
        strict_decode::<Schema>(&bytes).err(),
        Some(Error::EnumValueNotKnown("Extensions".to_string(), 3))
    );
    assert_eq!(
        strict_decode::<DataFormat>(&[9]).err(),
        Some(Error::EnumValueNotKnown("DataFormat".to_string(), 9))
    );
    assert_eq!(
        strict_decode::<StateFormat>(&[3]).err(),
        Some(Error::EnumValueNotKnown("StateFormat".to_string(), 3))
    );
    assert_eq!(strict_decode::<DataFormat>(&[8]).unwrap(), DataFormat::Signature);
    assert_eq!(DataFormat::from_u8(DataFormat::Digest.to_u8()), Some(DataFormat::Digest));
}

#[test]
fn list_too_long_cannot_be_encoded() {
    let mut schema = schema();
    schema.script_library = vec![0; 0x10000];
    assert_eq!(strict_encode(&schema).err(), Some(Error::ExceedMaxItems(0x10000)));
}

#[test]
fn schema_id_is_the_tagged_hash_of_the_encoding() {
    let id = schema().schema_id();
    assert_eq!(id.into_inner(), tagged(&code()));
    let plain: sha256::Hash = bitcoin::hashes::Hash::hash(&code());
    assert_ne!(id.into_inner(), bitcoin::hashes::Hash::into_inner(plain));
    assert_eq!(id, SchemaId::commit_to(&code()));
    assert_eq!(id, code().commit());
}

#[test]
fn schema_id_verifies_its_encoding_only() {
    let id = schema().schema_id();
    assert!(code().verify(&id));
    let mut other = code();
    other[2] = 1;
    assert!(!other.verify(&id));
    assert_eq!(schema().schema_id(), schema().schema_id());
}

#[test]
fn schema_id_is_encoded_as_a_byte_string() {
    let id = schema().schema_id();
    let mut expected = vec![32u8, 0];
    expected.extend_from_slice(&id.into_inner());
    assert_eq!(strict_encode(&id).unwrap(), expected);
    assert_eq!(strict_decode::<SchemaId>(&expected).unwrap(), id);
    assert_eq!(
        strict_decode::<SchemaId>(&[3, 0, 1, 2, 3]).err(),
        Some(Error::DataIntegrityError("Wrong RIPEMD-160 hash data size".to_string()))
    );
    assert!(SchemaId::from_slice(&[0; 31]).is_none());
    assert_eq!(SchemaId::from_slice(&id.into_inner()), Some(id));
}

#[test]
fn schema_keys_are_not_encoded() {
    let mut sparse = schema();
    sparse.field_types = BTreeMap::new();
    sparse.field_types.insert(7, DataFormat::String);
    sparse.field_types.insert(3, DataFormat::Unsigned);
    assert_eq!(strict_encode(&sparse).unwrap(), code());
    assert_eq!(sparse.schema_id(), schema().schema_id());
    assert_eq!(strict_decode::<Schema>(&code()).unwrap(), schema());
}
