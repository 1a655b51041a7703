use lnpbp::common::strategy::Holder;
use lnpbp::paradigms::strict_encoding::{decimal, Error, IoErrorKind};
use lnpbp::rgb::contract::FieldData;

struct Marker;

#[test]
fn holder_gives_back_what_it_holds() {
    let holder: Holder<u32, Marker> = Holder::new(7);
    assert_eq!(*holder.as_inner(), 7);
    assert_eq!(holder.into_inner(), 7);
    let holder: Holder<Vec<u8>, Marker> = Holder::new(vec![1, 2]);
    assert_eq!(holder.as_inner(), &vec![1u8, 2]);
}

#[test]
fn field_data_hands_out_its_values() {
    let item = FieldData::Item(5u8);
    assert_eq!(*item.deref(), 5);
    assert_eq!(item.to_vec(), vec![5u8]);
    assert_eq!(item.into_vec(), vec![5u8]);
    let many = FieldData::Many(vec![3u8, 4, 5]);
    assert_eq!(*many.deref(), 3);
    assert_eq!(many.to_vec(), vec![3u8, 4, 5]);
    assert_eq!(many.into_vec(), vec![3u8, 4, 5]);
}

#[test]
fn numbers_are_written_in_decimal() {
    assert_eq!(decimal(0), "0");
    assert_eq!(decimal(7), "7");
    assert_eq!(decimal(10), "10");
    assert_eq!(decimal(65_536), "65536");
    assert_eq!(decimal(u64::MAX), "18446744073709551615");
}

#[test]
fn errors_describe_themselves() {
    assert_eq!(
        Error::Io(IoErrorKind::UnexpectedEof).to_string(),
        "I/O error: unexpected end of file"
    );
    assert_eq!(
        Error::Utf8Conversion.to_string(),
        "String data are not in valid UTF-8 encoding"
    );
    assert_eq!(
        Error::ExceedMaxItems(70_000).to_string(),
        "A collection (slice, vector or other type) has 70000 items, which exceeds maximum \
         allowed value for `u16` type representing collection size according to the LNPBP-6 \
         standard)"
    );
    assert_eq!(
        Error::WrongOptionalEncoding(2).to_string(),
        "Invalid value 2 met as a significator byte, which must be equal to either 0 (no value) \
         or 1"
    );
    assert_eq!(
        Error::EnumValueOverflow("Kind".to_string()).to_string(),
        "Enums are encoded as a `u8`-based values; the provided enum Kind has underlying \
         primitive type that does not fit into `u8` value"
    );
    assert_eq!(
        Error::EnumValueNotKnown("Kind".to_string(), 9).to_string(),
        "An unsupported value 9 for enum Kind encountered during decode operation"
    );
    assert_eq!(
        Error::ValueOutOfRange("u8".to_string(), 0, 10, 12).to_string(),
        "Decoding resulted in value 12 for type u8 that exceeds the supported range 0..10"
    );
    assert_eq!(
        Error::DataNotEntirelyConsumed.to_string(),
        "Data were not consumed entirely during strict decoding procedure"
    );
    assert_eq!(
        Error::DataIntegrityError("broken".to_string()).to_string(),
        "Data integrity error: broken"
    );
}
