//! The schema of a contract and the identifier that commits to it.
//!
//! The identifier is the tagged hash of the strict encoding of the schema:
//! two schemata with the same encoding have the same identifier.

use crate::bp::digests::{sha256_tagged, sha256_tagged_digest};
use crate::common::bytes::bytes_equal;
use crate::paradigms::strict_encoding::{
    and_next, and_then, bytes_decoding, bytes_encoding, decode_field, encode_field, gap_free,
    lemma_and_then_ok, lemma_bytes_round_trip, lemma_concat_assoc, lemma_map_round_trip,
    lemma_next_round_trip, next_decoding, read_bytes, write_bytes, Decoding, Encoding, Error,
    ErrorView, IoErrorKind, Reader, StrictDecode, StrictEncode,
    StrictRoundTrip, MAX_ITEMS,
};
use crate::primitives::commit_verify::{
    CommitmentVerify, Committable, StandaloneCommitment, Verifiable,
};
use std::collections::BTreeMap;
use vstd::prelude::*;

verus! {

/// The number under which a schema knows a metadata field.
pub type FieldType = usize;

/// The number under which a schema knows a kind of state transition.
pub type TransitionType = usize;

/// The number under which a schema knows a kind of state assignment.
pub type AssignmentsType = usize;

/// The bytes of a script of the schema's script library.
pub type SimplicityScript = Vec<u8>;

/// The state of SHA-256 after the block of tag material of schema
/// identifiers.
pub const MIDSTATE_SCHEMA_ID: [u8; 32] = [
    25, 205, 224, 91, 171, 217, 131, 31, 140, 104, 5, 155, 127, 82, 14, 81, 58, 245, 79, 165, 114,
    243, 110, 60, 133, 174, 103, 187, 103, 230, 9, 106,
];

/// The form of the data of a metadata field.
#[derive(Clone, Copy, Debug, PartialEq, Eq, Structural)]
pub enum DataFormat {
    /// An unsigned integer.
    Unsigned,
    /// A signed integer.
    Integer,
    /// A floating-point number.
    Float,
    /// One of a fixed set of values.
    Enum,
    /// A text.
    String,
    /// A byte string.
    Bytes,
    /// The output of a hash function.
    Digest,
    /// A point of an elliptic curve.
    PublicKey,
    /// A signature.
    Signature,
}

impl DataFormat {
    /// The byte that stands for the value.
    pub open spec fn code(self) -> u8 {
        match self {
            DataFormat::Unsigned => 0,
            DataFormat::Integer => 1,
            DataFormat::Float => 2,
            DataFormat::Enum => 3,
            DataFormat::String => 4,
            DataFormat::Bytes => 5,
            DataFormat::Digest => 6,
            DataFormat::PublicKey => 7,
            DataFormat::Signature => 8,
        }
    }

    /// The value that `byte` stands for, if any.
    pub open spec fn of_code(byte: u8) -> Option<DataFormat> {
        if byte == 0 {
            Some(DataFormat::Unsigned)
        } else if byte == 1 {
            Some(DataFormat::Integer)
        } else if byte == 2 {
            Some(DataFormat::Float)
        } else if byte == 3 {
            Some(DataFormat::Enum)
        } else if byte == 4 {
            Some(DataFormat::String)
        } else if byte == 5 {
            Some(DataFormat::Bytes)
        } else if byte == 6 {
            Some(DataFormat::Digest)
        } else if byte == 7 {
            Some(DataFormat::PublicKey)
        } else if byte == 8 {
            Some(DataFormat::Signature)
        } else {
            None
        }
    }

    /// The byte that stands for the value.
    pub fn to_u8(&self) -> (byte: u8)
        ensures
            byte == self.code(),
            DataFormat::of_code(byte) == Some(*self),
    {
        match self {
            DataFormat::Unsigned => 0,
            DataFormat::Integer => 1,
            DataFormat::Float => 2,
            DataFormat::Enum => 3,
            DataFormat::String => 4,
            DataFormat::Bytes => 5,
            DataFormat::Digest => 6,
            DataFormat::PublicKey => 7,
            DataFormat::Signature => 8,
        }
    }

    /// The value that `byte` stands for, if any.
    pub fn from_u8(byte: u8) -> (value: Option<DataFormat>)
        ensures
            value == DataFormat::of_code(byte),
    {
        if byte == 0 {
            Some(DataFormat::Unsigned)
        } else if byte == 1 {
            Some(DataFormat::Integer)
        } else if byte == 2 {
            Some(DataFormat::Float)
        } else if byte == 3 {
            Some(DataFormat::Enum)
        } else if byte == 4 {
            Some(DataFormat::String)
        } else if byte == 5 {
            Some(DataFormat::Bytes)
        } else if byte == 6 {
            Some(DataFormat::Digest)
        } else if byte == 7 {
            Some(DataFormat::PublicKey)
        } else if byte == 8 {
            Some(DataFormat::Signature)
        } else {
            None
        }
    }
}

/// The value is its own view.
impl View for DataFormat {
    type V = DataFormat;

    open spec fn view(&self) -> DataFormat {
        *self
    }
}

/// The value is its own deep view.
impl DeepView for DataFormat {
    type V = DataFormat;

    open spec fn deep_view(&self) -> DataFormat {
        *self
    }
}

/// The value is encoded as the one byte that stands for it.
impl StrictEncode for DataFormat {
    open spec fn encoding(value: DataFormat) -> Encoding {
        Ok(seq![value.code()])
    }

    fn strict_encode(&self, e: &mut Vec<u8>) -> (written: Result<usize, Error>) {
        let ghost before = e@;
        e.push(self.to_u8());
        assert(e@ =~= before + seq![self.code()]);
        Ok(1)
    }
}

/// The value is decoded from the one byte that stands for it; a byte that
/// stands for no value is refused.
impl StrictDecode for DataFormat {
    open spec fn decoding(data: Seq<u8>) -> Decoding<DataFormat> {
        if data.len() == 0 {
            Err(ErrorView::Io(IoErrorKind::UnexpectedEof))
        } else {
            match DataFormat::of_code(data[0]) {
                Some(value) => Ok((value, 1)),
                None => Err(ErrorView::EnumValueNotKnown("DataFormat"@, data[0])),
            }
        }
    }

    fn strict_decode(d: &mut Reader) -> (read: Result<Self, Error>) {
        let byte = match d.read_byte() {
            Ok(byte) => byte,
            Err(error) => {
                return Err(error);
            },
        };
        match DataFormat::from_u8(byte) {
            Some(value) => Ok(value),
            None => Err(Error::EnumValueNotKnown(String::from_str("DataFormat"), byte)),
        }
    }
}

/// The form of the state that an assignment carries.
#[derive(Clone, Copy, Debug, PartialEq, Eq, Structural)]
pub enum StateFormat {
    /// No state.
    Void,
    /// An amount under a homomorphic commitment.
    Homomorphic,
    /// Data behind its hash.
    Hashed,
}

impl StateFormat {
    /// The byte that stands for the value.
    pub open spec fn code(self) -> u8 {
        match self {
            StateFormat::Void => 0,
            StateFormat::Homomorphic => 1,
            StateFormat::Hashed => 2,
        }
    }

    /// The value that `byte` stands for, if any.
    pub open spec fn of_code(byte: u8) -> Option<StateFormat> {
        if byte == 0 {
            Some(StateFormat::Void)
        } else if byte == 1 {
            Some(StateFormat::Homomorphic)
        } else if byte == 2 {
            Some(StateFormat::Hashed)
        } else {
            None
        }
    }

    /// The byte that stands for the value.
    pub fn to_u8(&self) -> (byte: u8)
        ensures
            byte == self.code(),
            StateFormat::of_code(byte) == Some(*self),
    {
        match self {
            StateFormat::Void => 0,
            StateFormat::Homomorphic => 1,
            StateFormat::Hashed => 2,
        }
    }

    /// The value that `byte` stands for, if any.
    pub fn from_u8(byte: u8) -> (value: Option<StateFormat>)
        ensures
            value == StateFormat::of_code(byte),
    {
        if byte == 0 {
            Some(StateFormat::Void)
        } else if byte == 1 {
            Some(StateFormat::Homomorphic)
        } else if byte == 2 {
            Some(StateFormat::Hashed)
        } else {
            None
        }
    }
}

/// The value is its own view.
impl View for StateFormat {
    type V = StateFormat;

    open spec fn view(&self) -> StateFormat {
        *self
    }
}

/// The value is its own deep view.
impl DeepView for StateFormat {
    type V = StateFormat;

    open spec fn deep_view(&self) -> StateFormat {
        *self
    }
}

/// The value is encoded as the one byte that stands for it.
impl StrictEncode for StateFormat {
    open spec fn encoding(value: StateFormat) -> Encoding {
        Ok(seq![value.code()])
    }

    fn strict_encode(&self, e: &mut Vec<u8>) -> (written: Result<usize, Error>) {
        let ghost before = e@;
        e.push(self.to_u8());
        assert(e@ =~= before + seq![self.code()]);
        Ok(1)
    }
}

/// The value is decoded from the one byte that stands for it; a byte that
/// stands for no value is refused.
impl StrictDecode for StateFormat {
    open spec fn decoding(data: Seq<u8>) -> Decoding<StateFormat> {
        if data.len() == 0 {
            Err(ErrorView::Io(IoErrorKind::UnexpectedEof))
        } else {
            match StateFormat::of_code(data[0]) {
                Some(value) => Ok((value, 1)),
                None => Err(ErrorView::EnumValueNotKnown("StateFormat"@, data[0])),
            }
        }
    }

    fn strict_decode(d: &mut Reader) -> (read: Result<Self, Error>) {
        let byte = match d.read_byte() {
            Ok(byte) => byte,
            Err(error) => {
                return Err(error);
            },
        };
        match StateFormat::from_u8(byte) {
            Some(value) => Ok(value),
            None => Err(Error::EnumValueNotKnown(String::from_str("StateFormat"), byte)),
        }
    }
}

/// What a contract may do to the scripts of its schema.
#[derive(Clone, Copy, Debug, PartialEq, Eq, Structural)]
pub enum Extensions {
    /// Nothing: the scripts of the schema stand.
    ScriptsDenied,
    /// Add scripts of its own.
    ScriptsExtend,
    /// Put scripts of its own in their place.
    ScriptsReplace,
}

impl Extensions {
    /// The byte that stands for the value.
    pub open spec fn code(self) -> u8 {
        match self {
            Extensions::ScriptsDenied => 0,
            Extensions::ScriptsExtend => 1,
            Extensions::ScriptsReplace => 2,
        }
    }

    /// The value that `byte` stands for, if any.
    pub open spec fn of_code(byte: u8) -> Option<Extensions> {
        if byte == 0 {
            Some(Extensions::ScriptsDenied)
        } else if byte == 1 {
            Some(Extensions::ScriptsExtend)
        } else if byte == 2 {
            Some(Extensions::ScriptsReplace)
        } else {
            None
        }
    }

    /// The byte that stands for the value.
    pub fn to_u8(&self) -> (byte: u8)
        ensures
            byte == self.code(),
            Extensions::of_code(byte) == Some(*self),
    {
        match self {
            Extensions::ScriptsDenied => 0,
            Extensions::ScriptsExtend => 1,
            Extensions::ScriptsReplace => 2,
        }
    }

    /// The value that `byte` stands for, if any.
    pub fn from_u8(byte: u8) -> (value: Option<Extensions>)
        ensures
            value == Extensions::of_code(byte),
    {
        if byte == 0 {
            Some(Extensions::ScriptsDenied)
        } else if byte == 1 {
            Some(Extensions::ScriptsExtend)
        } else if byte == 2 {
            Some(Extensions::ScriptsReplace)
        } else {
            None
        }
    }
}

/// The value is its own view.
impl View for Extensions {
    type V = Extensions;

    open spec fn view(&self) -> Extensions {
        *self
    }
}

/// The value is its own deep view.
impl DeepView for Extensions {
    type V = Extensions;

    open spec fn deep_view(&self) -> Extensions {
        *self
    }
}

/// The value is encoded as the one byte that stands for it.
impl StrictEncode for Extensions {
    open spec fn encoding(value: Extensions) -> Encoding {
        Ok(seq![value.code()])
    }

    fn strict_encode(&self, e: &mut Vec<u8>) -> (written: Result<usize, Error>) {
        let ghost before = e@;
        e.push(self.to_u8());
        assert(e@ =~= before + seq![self.code()]);
        Ok(1)
    }
}

/// The value is decoded from the one byte that stands for it; a byte that
/// stands for no value is refused.
impl StrictDecode for Extensions {
    open spec fn decoding(data: Seq<u8>) -> Decoding<Extensions> {
        if data.len() == 0 {
            Err(ErrorView::Io(IoErrorKind::UnexpectedEof))
        } else {
            match Extensions::of_code(data[0]) {
                Some(value) => Ok((value, 1)),
                None => Err(ErrorView::EnumValueNotKnown("Extensions"@, data[0])),
            }
        }
    }

    fn strict_decode(d: &mut Reader) -> (read: Result<Self, Error>) {
        let byte = match d.read_byte() {
            Ok(byte) => byte,
            Err(error) => {
                return Err(error);
            },
        };
        match Extensions::from_u8(byte) {
            Some(value) => Ok(value),
            None => Err(Error::EnumValueNotKnown(String::from_str("Extensions"), byte)),
        }
    }
}

/// What the genesis of a contract may hold.
#[derive(Clone, Debug, PartialEq, Eq)]
pub struct GenesisSchema {
    /// The metadata fields that the genesis carries.
    pub metadata: Vec<FieldType>,
    /// The kinds of state that the genesis assigns.
    pub defines: Vec<AssignmentsType>,
}

/// What a [`GenesisSchema`] holds.
pub struct GenesisSchemaView {
    /// The metadata fields that the genesis carries.
    pub metadata: Seq<FieldType>,
    /// The kinds of state that the genesis assigns.
    pub defines: Seq<AssignmentsType>,
}

/// The deep view holds the deep view of each field.
impl DeepView for GenesisSchema {
    type V = GenesisSchemaView;

    open spec fn deep_view(&self) -> GenesisSchemaView {
        GenesisSchemaView {
            metadata: self.metadata.deep_view(),
            defines: self.defines.deep_view(),
        }
    }
}

/// The fields are encoded one after the other, in their order.
impl StrictEncode for GenesisSchema {
    open spec fn encoding(value: GenesisSchemaView) -> Encoding {
        let code = <Vec<FieldType>>::encoding(value.metadata);
        let code = and_then(code, <Vec<AssignmentsType>>::encoding(value.defines));
        code
    }

    fn strict_encode(&self, e: &mut Vec<u8>) -> (written: Result<usize, Error>) {
        let ghost before = e@;
        let ghost value = self.deep_view();
        let count = match self.metadata.strict_encode(e) {
            Ok(count) => count,
            Err(error) => {
                return Err(error);
            },
        };
        let ghost done = <Vec<FieldType>>::encoding(value.metadata)->Ok_0;
        encode_field(&self.defines, e, count, Ghost(before), Ghost(done))
    }
}

/// The fields are decoded one after the other, in their order.
impl StrictDecode for GenesisSchema {
    open spec fn decoding(data: Seq<u8>) -> Decoding<GenesisSchemaView> {
        let fields = <Vec<FieldType>>::decoding(data);
        let fields = and_next(fields, next_decoding::<Vec<AssignmentsType>>(data));
        match fields {
            Err(error) => Err(error),
            Ok(((metadata, defines), used)) => Ok(
                (
                    GenesisSchemaView {
                        metadata,
                        defines,
                    },
                    used,
                ),
            ),
        }
    }

    fn strict_decode(d: &mut Reader) -> (read: Result<Self, Error>) {
        let ghost start = *d;
        let metadata = match <Vec<FieldType>>::strict_decode(d) {
            Ok(value) => value,
            Err(error) => {
                return Err(error);
            },
        };
        let ghost so_far = <Vec<FieldType>>::decoding(start.remaining());
        let defines = match decode_field::<Vec<AssignmentsType>>(
            d,
            Ghost(start),
            Ghost(so_far->Ok_0.1),
        ) {
            Ok(value) => value,
            Err(error) => {
                return Err(error);
            },
        };
        Ok(GenesisSchema { metadata, defines })
    }
}

/// The value comes back where its fields do.
impl StrictRoundTrip for GenesisSchema {
    proof fn round_trip(value: &Self, rest: Seq<u8>) {
        let model = value.deep_view();
        if Self::encoding(model) is Ok {
            let enc0 = <Vec<FieldType>>::encoding(model.metadata);
            let enc1 = and_then(enc0, <Vec<AssignmentsType>>::encoding(model.defines));
            lemma_and_then_ok(enc0, <Vec<AssignmentsType>>::encoding(model.defines));
            let code0 = <Vec<FieldType>>::encoding(model.metadata)->Ok_0;
            let code1 = <Vec<AssignmentsType>>::encoding(model.defines)->Ok_0;
            let tail1 = rest;
            let tail0 = code1 + tail1;
            let data = code0 + tail0;
            let front0 = code0;
            let front1 = front0 + code1;
            lemma_concat_assoc(front0, code1, tail1);
            assert(enc1->Ok_0 + rest == data);
            <Vec<FieldType>>::round_trip(&value.metadata, tail0);
            assert(data.skip(code0.len() as int) =~= tail0);
            let dec0 = <Vec<FieldType>>::decoding(data);
            <Vec<AssignmentsType>>::round_trip(&value.defines, tail1);
            lemma_next_round_trip::<_, Vec<AssignmentsType>>(&value.defines, data, dec0, tail1);
        }
    }
}

/// What a state transition of one kind may hold.
#[derive(Clone, Debug, PartialEq, Eq)]
pub struct TransitionSchema {
    /// The metadata fields that the transition carries.
    pub metadata: Vec<FieldType>,
    /// The kinds of state that the transition takes up.
    pub closes: Vec<AssignmentsType>,
    /// The kinds of state that the transition assigns.
    pub defines: Vec<AssignmentsType>,
}

/// What a [`TransitionSchema`] holds.
pub struct TransitionSchemaView {
    /// The metadata fields that the transition carries.
    pub metadata: Seq<FieldType>,
    /// The kinds of state that the transition takes up.
    pub closes: Seq<AssignmentsType>,
    /// The kinds of state that the transition assigns.
    pub defines: Seq<AssignmentsType>,
}

/// The deep view holds the deep view of each field.
impl DeepView for TransitionSchema {
    type V = TransitionSchemaView;

    open spec fn deep_view(&self) -> TransitionSchemaView {
        TransitionSchemaView {
            metadata: self.metadata.deep_view(),
            closes: self.closes.deep_view(),
            defines: self.defines.deep_view(),
        }
    }
}

/// The fields are encoded one after the other, in their order.
impl StrictEncode for TransitionSchema {
    open spec fn encoding(value: TransitionSchemaView) -> Encoding {
        let code = <Vec<FieldType>>::encoding(value.metadata);
        let code = and_then(code, <Vec<AssignmentsType>>::encoding(value.closes));
        let code = and_then(code, <Vec<AssignmentsType>>::encoding(value.defines));
        code
    }

    fn strict_encode(&self, e: &mut Vec<u8>) -> (written: Result<usize, Error>) {
        let ghost before = e@;
        let ghost value = self.deep_view();
        let count = match self.metadata.strict_encode(e) {
            Ok(count) => count,
            Err(error) => {
                return Err(error);
            },
        };
        let ghost done = <Vec<FieldType>>::encoding(value.metadata)->Ok_0;
        let count = match encode_field(&self.closes, e, count, Ghost(before), Ghost(done)) {
            Ok(count) => count,
            Err(error) => {
                return Err(error);
            },
        };
        let ghost done = done + <Vec<AssignmentsType>>::encoding(value.closes)->Ok_0;
        encode_field(&self.defines, e, count, Ghost(before), Ghost(done))
    }
}

/// The fields are decoded one after the other, in their order.
impl StrictDecode for TransitionSchema {
    open spec fn decoding(data: Seq<u8>) -> Decoding<TransitionSchemaView> {
        let fields = <Vec<FieldType>>::decoding(data);
        let fields = and_next(fields, next_decoding::<Vec<AssignmentsType>>(data));
        let fields = and_next(fields, next_decoding::<Vec<AssignmentsType>>(data));
        match fields {
            Err(error) => Err(error),
            Ok((((metadata, closes), defines), used)) => Ok(
                (
                    TransitionSchemaView {
                        metadata,
                        closes,
                        defines,
                    },
                    used,
                ),
            ),
        }
    }

    fn strict_decode(d: &mut Reader) -> (read: Result<Self, Error>) {
        let ghost start = *d;
        let metadata = match <Vec<FieldType>>::strict_decode(d) {
            Ok(value) => value,
            Err(error) => {
                return Err(error);
            },
        };
        let ghost so_far = <Vec<FieldType>>::decoding(start.remaining());
        let closes = match decode_field::<Vec<AssignmentsType>>(
            d,
            Ghost(start),
            Ghost(so_far->Ok_0.1),
        ) {
            Ok(value) => value,
            Err(error) => {
                return Err(error);
            },
        };
        let ghost so_far = and_next(
            so_far,
            next_decoding::<Vec<AssignmentsType>>(start.remaining()),
        );
        let defines = match decode_field::<Vec<AssignmentsType>>(
            d,
            Ghost(start),
            Ghost(so_far->Ok_0.1),
        ) {
            Ok(value) => value,
            Err(error) => {
                return Err(error);
            },
        };
        Ok(TransitionSchema { metadata, closes, defines })
    }
}

/// The value comes back where its fields do.
impl StrictRoundTrip for TransitionSchema {
    proof fn round_trip(value: &Self, rest: Seq<u8>) {
        let model = value.deep_view();
        if Self::encoding(model) is Ok {
            let enc0 = <Vec<FieldType>>::encoding(model.metadata);
            let enc1 = and_then(enc0, <Vec<AssignmentsType>>::encoding(model.closes));
            let enc2 = and_then(enc1, <Vec<AssignmentsType>>::encoding(model.defines));
            lemma_and_then_ok(enc1, <Vec<AssignmentsType>>::encoding(model.defines));
            lemma_and_then_ok(enc0, <Vec<AssignmentsType>>::encoding(model.closes));
            let code0 = <Vec<FieldType>>::encoding(model.metadata)->Ok_0;
            let code1 = <Vec<AssignmentsType>>::encoding(model.closes)->Ok_0;
            let code2 = <Vec<AssignmentsType>>::encoding(model.defines)->Ok_0;
            let tail2 = rest;
            let tail1 = code2 + tail2;
            let tail0 = code1 + tail1;
            let data = code0 + tail0;
            let front0 = code0;
            let front1 = front0 + code1;
            lemma_concat_assoc(front0, code1, tail1);
            let front2 = front1 + code2;
            lemma_concat_assoc(front1, code2, tail2);
            assert(enc2->Ok_0 + rest == data);
            <Vec<FieldType>>::round_trip(&value.metadata, tail0);
            assert(data.skip(code0.len() as int) =~= tail0);
            let dec0 = <Vec<FieldType>>::decoding(data);
            <Vec<AssignmentsType>>::round_trip(&value.closes, tail1);
            lemma_next_round_trip::<_, Vec<AssignmentsType>>(&value.closes, data, dec0, tail1);
            let dec1 = and_next(dec0, next_decoding::<Vec<AssignmentsType>>(data));
            <Vec<AssignmentsType>>::round_trip(&value.defines, tail2);
            lemma_next_round_trip::<_, Vec<AssignmentsType>>(&value.defines, data, dec1, tail2);
        }
    }
}

/// The schema of a contract: the types that its data and its state transitions
/// follow, each under the number that stands for it.
#[derive(Clone, Debug, PartialEq, Eq)]
pub struct Schema {
    /// The data format of each metadata field.
    pub field_types: BTreeMap<FieldType, DataFormat>,
    /// The state format of each kind of assignment.
    pub assignment_types: BTreeMap<AssignmentsType, StateFormat>,
    /// What the genesis may hold.
    pub genesis: GenesisSchema,
    /// What each kind of transition may hold.
    pub transitions: BTreeMap<TransitionType, TransitionSchema>,
    /// The script library of the schema.
    pub script_library: SimplicityScript,
    /// What a contract may do to the scripts.
    pub script_extensions: Extensions,
}

/// What a [`Schema`] holds.
pub struct SchemaView {
    /// The data format of each metadata field.
    pub field_types: Map<FieldType, DataFormat>,
    /// The state format of each kind of assignment.
    pub assignment_types: Map<AssignmentsType, StateFormat>,
    /// What the genesis may hold.
    pub genesis: GenesisSchemaView,
    /// What each kind of transition may hold.
    pub transitions: Map<TransitionType, TransitionSchemaView>,
    /// The script library of the schema.
    pub script_library: Seq<u8>,
    /// What a contract may do to the scripts.
    pub script_extensions: Extensions,
}

/// The deep view holds the deep view of each field.
impl DeepView for Schema {
    type V = SchemaView;

    open spec fn deep_view(&self) -> SchemaView {
        SchemaView {
            field_types: self.field_types.deep_view(),
            assignment_types: self.assignment_types.deep_view(),
            genesis: self.genesis.deep_view(),
            transitions: self.transitions.deep_view(),
            script_library: self.script_library.deep_view(),
            script_extensions: self.script_extensions.deep_view(),
        }
    }
}

/// The fields are encoded one after the other, in their order.
impl StrictEncode for Schema {
    open spec fn encoding(value: SchemaView) -> Encoding {
        let code = <BTreeMap<FieldType, DataFormat>>::encoding(value.field_types);
        let code = and_then(
            code,
            <BTreeMap<AssignmentsType, StateFormat>>::encoding(value.assignment_types),
        );
        let code = and_then(code, <GenesisSchema>::encoding(value.genesis));
        let code = and_then(
            code,
            <BTreeMap<TransitionType, TransitionSchema>>::encoding(value.transitions),
        );
        let code = and_then(code, <SimplicityScript>::encoding(value.script_library));
        let code = and_then(code, <Extensions>::encoding(value.script_extensions));
        code
    }

    fn strict_encode(&self, e: &mut Vec<u8>) -> (written: Result<usize, Error>) {
        let ghost before = e@;
        let ghost value = self.deep_view();
        let count = match self.field_types.strict_encode(e) {
            Ok(count) => count,
            Err(error) => {
                return Err(error);
            },
        };
        let ghost done = <BTreeMap<FieldType, DataFormat>>::encoding(value.field_types)->Ok_0;
        let count = match encode_field(
            &self.assignment_types,
            e,
            count,
            Ghost(before),
            Ghost(done),
        ) {
            Ok(count) => count,
            Err(error) => {
                return Err(error);
            },
        };
        let ghost done = done
            + <BTreeMap<AssignmentsType, StateFormat>>::encoding(value.assignment_types)->Ok_0;
        let count = match encode_field(&self.genesis, e, count, Ghost(before), Ghost(done)) {
            Ok(count) => count,
            Err(error) => {
                return Err(error);
            },
        };
        let ghost done = done + <GenesisSchema>::encoding(value.genesis)->Ok_0;
        let count = match encode_field(&self.transitions, e, count, Ghost(before), Ghost(done)) {
            Ok(count) => count,
            Err(error) => {
                return Err(error);
            },
        };
        let ghost done = done
            + <BTreeMap<TransitionType, TransitionSchema>>::encoding(value.transitions)->Ok_0;
        let count = match encode_field(&self.script_library, e, count, Ghost(before), Ghost(done)) {
            Ok(count) => count,
            Err(error) => {
                return Err(error);
            },
        };
        let ghost done = done + <SimplicityScript>::encoding(value.script_library)->Ok_0;
        encode_field(&self.script_extensions, e, count, Ghost(before), Ghost(done))
    }
}

/// The fields are decoded one after the other, in their order.
impl StrictDecode for Schema {
    open spec fn decoding(data: Seq<u8>) -> Decoding<SchemaView> {
        let fields = <BTreeMap<FieldType, DataFormat>>::decoding(data);
        let fields = and_next(
            fields,
            next_decoding::<BTreeMap<AssignmentsType, StateFormat>>(data),
        );
        let fields = and_next(fields, next_decoding::<GenesisSchema>(data));
        let fields = and_next(
            fields,
            next_decoding::<BTreeMap<TransitionType, TransitionSchema>>(data),
        );
        let fields = and_next(fields, next_decoding::<SimplicityScript>(data));
        let fields = and_next(fields, next_decoding::<Extensions>(data));
        match fields {
            Err(error) => Err(error),
            Ok(
                (
                    (((((field_types, assignment_types), genesis), transitions), script_library),
                    script_extensions),
                    used,
                ),
            ) => Ok(
                (
                    SchemaView {
                        field_types,
                        assignment_types,
                        genesis,
                        transitions,
                        script_library,
                        script_extensions,
                    },
                    used,
                ),
            ),
        }
    }

    fn strict_decode(d: &mut Reader) -> (read: Result<Self, Error>) {
        let ghost start = *d;
        let field_types = match <BTreeMap<FieldType, DataFormat>>::strict_decode(d) {
            Ok(value) => value,
            Err(error) => {
                return Err(error);
            },
        };
        let ghost so_far = <BTreeMap<FieldType, DataFormat>>::decoding(start.remaining());
        let assignment_types = match decode_field::<BTreeMap<AssignmentsType, StateFormat>>(
            d,
            Ghost(start),
            Ghost(so_far->Ok_0.1),
        ) {
            Ok(value) => value,
            Err(error) => {
                return Err(error);
            },
        };
        let ghost so_far = and_next(
            so_far,
            next_decoding::<BTreeMap<AssignmentsType, StateFormat>>(start.remaining()),
        );
        let genesis = match decode_field::<GenesisSchema>(d, Ghost(start), Ghost(so_far->Ok_0.1)) {
            Ok(value) => value,
            Err(error) => {
                return Err(error);
            },
        };
        let ghost so_far = and_next(so_far, next_decoding::<GenesisSchema>(start.remaining()));
        let transitions = match decode_field::<BTreeMap<TransitionType, TransitionSchema>>(
            d,
            Ghost(start),
            Ghost(so_far->Ok_0.1),
        ) {
            Ok(value) => value,
            Err(error) => {
                return Err(error);
            },
        };
        let ghost so_far = and_next(
            so_far,
            next_decoding::<BTreeMap<TransitionType, TransitionSchema>>(start.remaining()),
        );
        let script_library = match decode_field::<SimplicityScript>(
            d,
            Ghost(start),
            Ghost(so_far->Ok_0.1),
        ) {
            Ok(value) => value,
            Err(error) => {
                return Err(error);
            },
        };
        let ghost so_far = and_next(so_far, next_decoding::<SimplicityScript>(start.remaining()));
        let script_extensions = match decode_field::<Extensions>(
            d,
            Ghost(start),
            Ghost(so_far->Ok_0.1),
        ) {
            Ok(value) => value,
            Err(error) => {
                return Err(error);
            },
        };
        Ok(Schema {
            field_types,
            assignment_types,
            genesis,
            transitions,
            script_library,
            script_extensions,
        })
    }
}

/// For a schema whose maps are keyed by the positions from zero up without
/// a gap, decoding undoes encoding: the encoding of the schema, whatever
/// follows it, decodes to the schema and takes exactly the encoding.
pub proof fn lemma_schema_round_trip(value: &Schema, rest: Seq<u8>)
    requires
        gap_free(value.field_types@.dom()),
        gap_free(value.assignment_types@.dom()),
        gap_free(value.transitions@.dom()),
    ensures
        Schema::encoding(value.deep_view()) matches Ok(code) ==> Schema::decoding(code + rest)
            == Ok::<(SchemaView, nat), ErrorView>((value.deep_view(), code.len())),
{
    let model = value.deep_view();
    if Schema::encoding(model) is Ok {
        let enc0 = <BTreeMap<FieldType, DataFormat>>::encoding(model.field_types);
        let enc1 = and_then(
            enc0,
            <BTreeMap<AssignmentsType, StateFormat>>::encoding(model.assignment_types),
        );
        let enc2 = and_then(enc1, <GenesisSchema>::encoding(model.genesis));
        let enc3 = and_then(
            enc2,
            <BTreeMap<TransitionType, TransitionSchema>>::encoding(model.transitions),
        );
        let enc4 = and_then(enc3, <SimplicityScript>::encoding(model.script_library));
        let enc5 = and_then(enc4, <Extensions>::encoding(model.script_extensions));
        lemma_and_then_ok(enc4, <Extensions>::encoding(model.script_extensions));
        lemma_and_then_ok(enc3, <SimplicityScript>::encoding(model.script_library));
        lemma_and_then_ok(
            enc2,
            <BTreeMap<TransitionType, TransitionSchema>>::encoding(model.transitions),
        );
        lemma_and_then_ok(enc1, <GenesisSchema>::encoding(model.genesis));
        lemma_and_then_ok(
            enc0,
            <BTreeMap<AssignmentsType, StateFormat>>::encoding(model.assignment_types),
        );
        let code0 = <BTreeMap<FieldType, DataFormat>>::encoding(model.field_types)->Ok_0;
        let code1 = <BTreeMap<AssignmentsType, StateFormat>>::encoding(
            model.assignment_types,
        )->Ok_0;
        let code2 = <GenesisSchema>::encoding(model.genesis)->Ok_0;
        let code3 = <BTreeMap<TransitionType, TransitionSchema>>::encoding(model.transitions)->Ok_0;
        let code4 = <SimplicityScript>::encoding(model.script_library)->Ok_0;
        let code5 = <Extensions>::encoding(model.script_extensions)->Ok_0;
        let tail5 = rest;
        let tail4 = code5 + tail5;
        let tail3 = code4 + tail4;
        let tail2 = code3 + tail3;
        let tail1 = code2 + tail2;
        let tail0 = code1 + tail1;
        let data = code0 + tail0;
        let front0 = code0;
        let front1 = front0 + code1;
        lemma_concat_assoc(front0, code1, tail1);
        let front2 = front1 + code2;
        lemma_concat_assoc(front1, code2, tail2);
        let front3 = front2 + code3;
        lemma_concat_assoc(front2, code3, tail3);
        let front4 = front3 + code4;
        lemma_concat_assoc(front3, code4, tail4);
        let front5 = front4 + code5;
        lemma_concat_assoc(front4, code5, tail5);
        assert(enc5->Ok_0 + rest == data);
        lemma_map_round_trip(&value.field_types, tail0);
        assert(data.skip(code0.len() as int) =~= tail0);
        let dec0 = <BTreeMap<FieldType, DataFormat>>::decoding(data);
        lemma_map_round_trip(&value.assignment_types, tail1);
        lemma_next_round_trip::<_, BTreeMap<AssignmentsType, StateFormat>>(
            &value.assignment_types,
            data,
            dec0,
            tail1,
        );
        let dec1 = and_next(dec0, next_decoding::<BTreeMap<AssignmentsType, StateFormat>>(data));
        <GenesisSchema>::round_trip(&value.genesis, tail2);
        lemma_next_round_trip::<_, GenesisSchema>(&value.genesis, data, dec1, tail2);
        let dec2 = and_next(dec1, next_decoding::<GenesisSchema>(data));
        lemma_map_round_trip(&value.transitions, tail3);
        lemma_next_round_trip::<_, BTreeMap<TransitionType, TransitionSchema>>(
            &value.transitions,
            data,
            dec2,
            tail3,
        );
        let dec3 = and_next(
            dec2,
            next_decoding::<BTreeMap<TransitionType, TransitionSchema>>(data),
        );
        <SimplicityScript>::round_trip(&value.script_library, tail4);
        lemma_next_round_trip::<_, SimplicityScript>(&value.script_library, data, dec3, tail4);
        let dec4 = and_next(dec3, next_decoding::<SimplicityScript>(data));
        <Extensions>::round_trip(&value.script_extensions, tail5);
        lemma_next_round_trip::<_, Extensions>(&value.script_extensions, data, dec4, tail5);
    }
}

/// The identifier of a schema: a commitment to its strict encoding.
#[derive(Clone, Copy, Debug, PartialEq, Eq)]
pub struct SchemaId {
    bytes: [u8; 32],
}

/// An identifier is viewed as its bytes.
impl View for SchemaId {
    type V = Seq<u8>;

    closed spec fn view(&self) -> Seq<u8> {
        self.bytes@
    }
}

/// The deep view of an identifier is its bytes.
impl DeepView for SchemaId {
    type V = Seq<u8>;

    open spec fn deep_view(&self) -> Seq<u8> {
        self@
    }
}

/// The identifier of the schema with the strict encoding `code`: the
/// SHA-256 of the encoding, started from the state that the tag of schema
/// identifiers leaves.
pub open spec fn schema_id_of(code: Seq<u8>) -> Seq<u8> {
    sha256_tagged(MIDSTATE_SCHEMA_ID@, code)
}

impl SchemaId {
    /// The identifier with the given bytes; `None` unless there are 32.
    pub fn from_slice(data: &[u8]) -> (id: Option<SchemaId>)
        ensures
            match id {
                Some(id) => data@.len() == 32 && id@ == data@,
                None => data@.len() != 32,
            },
    {
        if data.len() != 32 {
            return None;
        }
        let mut bytes = [0u8; 32];
        let mut i: usize = 0;
        while i < 32
            invariant
                i <= 32,
                data@.len() == 32,
                forall|j: int| 0 <= j < i ==> bytes@[j] == data@[j],
            decreases 32 - i,
        {
            bytes[i] = data[i];
            i += 1;
        }
        assert(bytes@ =~= data@);
        Some(SchemaId { bytes })
    }

    /// The 32 bytes of the identifier.
    pub fn into_inner(self) -> (bytes: [u8; 32])
        ensures
            bytes@ == self@,
    {
        self.bytes
    }
}

/// An identifier commits to the encoding of a schema on its own, without a
/// container.
impl StandaloneCommitment<Vec<u8>> for SchemaId {
    open spec fn commitment(msg: &Vec<u8>) -> Seq<u8> {
        schema_id_of(msg@)
    }

    fn equals(&self, other: &Self) -> (same: bool) {
        bytes_equal(&self.bytes, &other.bytes)
    }

    /// Hashes the message with the tag of schema identifiers.
    fn commit_to(msg: &Vec<u8>) -> (made: Self) {
        SchemaId { bytes: sha256_tagged_digest(&MIDSTATE_SCHEMA_ID, msg.as_slice()) }
    }
}

/// An identifier verifies the encodings that hash to it.
impl CommitmentVerify<Vec<u8>> for SchemaId {
    open spec fn verifies(&self, msg: &Vec<u8>) -> bool {
        schema_id_of(msg@) == self@
    }

    fn reveal_verify(&self, msg: &Vec<u8>) -> (ok: bool) {
        <Self as StandaloneCommitment<Vec<u8>>>::reveal_verify(self, msg)
    }
}

/// An encoding can be checked against an identifier.
impl Verifiable<SchemaId> for Vec<u8> {
}

/// An identifier can be made from an encoding.
impl Committable<SchemaId> for Vec<u8> {
}

/// An identifier is encoded as the byte string of its 32 bytes.
impl StrictEncode for SchemaId {
    open spec fn encoding(value: Seq<u8>) -> Encoding {
        bytes_encoding(value)
    }

    fn strict_encode(&self, e: &mut Vec<u8>) -> (written: Result<usize, Error>) {
        write_bytes(&self.bytes, e)
    }
}

/// An identifier is decoded from a byte string of 32 bytes.
impl StrictDecode for SchemaId {
    open spec fn decoding(data: Seq<u8>) -> Decoding<Seq<u8>> {
        match bytes_decoding(data) {
            Err(error) => Err(error),
            Ok((bytes, count)) => if bytes.len() == 32 {
                Ok((bytes, count))
            } else {
                Err(ErrorView::DataIntegrityError("Wrong RIPEMD-160 hash data size"@))
            },
        }
    }

    fn strict_decode(d: &mut Reader) -> (read: Result<Self, Error>) {
        let bytes = match read_bytes(d) {
            Ok(bytes) => bytes,
            Err(error) => {
                return Err(error);
            },
        };
        match SchemaId::from_slice(bytes.as_slice()) {
            Some(id) => Ok(id),
            None => Err(
                Error::DataIntegrityError(String::from_str("Wrong RIPEMD-160 hash data size")),
            ),
        }
    }
}

impl Schema {
    /// The identifier of the schema: the commitment to its strict encoding.
    /// A schema with a list too long to be encoded has no identifier.
    pub fn schema_id(&self) -> (id: SchemaId)
        requires
            Schema::encoding(self.deep_view()) is Ok,
        ensures
            id@ == schema_id_of(Schema::encoding(self.deep_view())->Ok_0),
    {
        let mut code: Vec<u8> = Vec::new();
        let written = self.strict_encode(&mut code);
        assert(written is Ok);
        proof {
            assert(code@ =~= Schema::encoding(self.deep_view())->Ok_0);
        }
        SchemaId::commit_to(&code)
    }
}

/// The value comes back from its byte.
impl StrictRoundTrip for DataFormat {
    proof fn round_trip(value: &Self, rest: Seq<u8>) {
        let code = seq![value.code()];
        assert((code + rest)[0] == value.code());
        assert(DataFormat::of_code(value.code()) == Some(*value));
    }
}

/// The value comes back from its byte.
impl StrictRoundTrip for StateFormat {
    proof fn round_trip(value: &Self, rest: Seq<u8>) {
        let code = seq![value.code()];
        assert((code + rest)[0] == value.code());
        assert(StateFormat::of_code(value.code()) == Some(*value));
    }
}

/// The value comes back from its byte.
impl StrictRoundTrip for Extensions {
    proof fn round_trip(value: &Self, rest: Seq<u8>) {
        let code = seq![value.code()];
        assert((code + rest)[0] == value.code());
        assert(Extensions::of_code(value.code()) == Some(*value));
    }
}

/// An identifier comes back.
impl StrictRoundTrip for SchemaId {
    proof fn round_trip(value: &Self, rest: Seq<u8>) {
        broadcast use vstd::array::group_array_axioms;

        lemma_bytes_round_trip(value@, rest);
    }
}

} // verus!
