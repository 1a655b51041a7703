use std::collections::{BTreeMap, HashMap};

use lnpbp::paradigms::strict_encoding::{
    strict_decode, strict_encode, Error, IoErrorKind, Reader, StrictDecode, StrictEncode,
};

fn gen_strings() -> Vec<&'static str> {
    vec![
        "",
        "0",
        " ",
        "A string slice (&str) is made of bytes (u8), and a byte slice \
        (&[u8]) is made of bytes, so this function converts between the two.\
         Not all byte slices are valid string slices, however: &str requires \
         that it is valid UTF-8. from_utf8() checks to ensure that the bytes \
         are valid UTF-8, and then does the conversion.",
    ]
}

fn decode_front<T: StrictDecode>(data: &[u8]) -> Result<T, Error> {
    T::strict_decode(&mut Reader::new(data))
}

#[test]
fn test_encode_decode() {
    gen_strings().into_iter().for_each(|s| {
        let r = strict_encode(&s).unwrap();
        let p: String = strict_decode(&r).unwrap();
        assert_eq!(s, p);
    })
}

#[test]
#[should_panic(expected = "DataNotEntirelyConsumed")]
fn test_consumation() {
    gen_strings().into_iter().for_each(|s| {
        let mut r = strict_encode(&s).unwrap();
        r.extend_from_slice("data".as_ref());
        let _: String = strict_decode(&r).unwrap();
    })
}

#[test]
fn test_error_propagation() {
    gen_strings().into_iter().for_each(|s| {
        let r = strict_encode(&s).unwrap();
        let p: Result<String, _> = strict_decode(&r[..1].to_vec());
        assert!(p.is_err());
    })
}

/// Checking that byte encoding and decoding works correctly for the most common
/// marginal and middle-probability cases
#[test]
fn test_u8_encode() {
    let zero: u8 = 0;
    let one: u8 = 1;
    let thirteen: u8 = 13;
    let confusing: u8 = 0xEF;
    let nearly_full: u8 = 0xFE;
    let full: u8 = 0xFF;

    let byte_0 = &[0u8][..];
    let byte_1 = &[1u8][..];
    let byte_13 = &[13u8][..];
    let byte_ef = &[0xEFu8][..];
    let byte_fe = &[0xFEu8][..];
    let byte_ff = &[0xFFu8][..];

    assert_eq!(strict_encode(&zero).unwrap(), byte_0);
    assert_eq!(strict_encode(&one).unwrap(), byte_1);
    assert_eq!(strict_encode(&thirteen).unwrap(), byte_13);
    assert_eq!(strict_encode(&confusing).unwrap(), byte_ef);
    assert_eq!(strict_encode(&nearly_full).unwrap(), byte_fe);
    assert_eq!(strict_encode(&full).unwrap(), byte_ff);

    assert_eq!(decode_front::<u8>(byte_0).unwrap(), zero);
    assert_eq!(decode_front::<u8>(byte_1).unwrap(), one);
    assert_eq!(decode_front::<u8>(byte_13).unwrap(), thirteen);
    assert_eq!(decode_front::<u8>(byte_ef).unwrap(), confusing);
    assert_eq!(decode_front::<u8>(byte_fe).unwrap(), nearly_full);
    assert_eq!(decode_front::<u8>(byte_ff).unwrap(), full);
}

/// An absent optional value of any type encodes as the single byte 0, and
/// that byte decodes to an absent value of any type.
#[test]
fn test_option_encode_none() {
    let o1: Option<u8> = None;
    let o2: Option<u64> = None;

    let two_zero_bytes = &vec![0u8][..];

    assert_eq!(strict_encode(&o1).unwrap(), two_zero_bytes);
    assert_eq!(strict_encode(&o2).unwrap(), two_zero_bytes);

    assert_eq!(decode_front::<Option<u8>>(two_zero_bytes).unwrap(), None);
    assert_eq!(decode_front::<Option<u64>>(two_zero_bytes).unwrap(), None);
}

/// A present optional value encodes as the byte 1 followed by the value.
#[test]
fn test_option_encode_some() {
    let o1: Option<u8> = Some(0);
    let o2: Option<u8> = Some(13);
    let o3: Option<u8> = Some(0xFF);
    let o4: Option<u64> = Some(13);
    let o5: Option<u64> = Some(0x1FF);
    let o6: Option<u64> = Some(0xFFFFFFFFFFFFFFFF);
    let o7: Option<usize> = Some(13);
    let o8: Option<usize> = Some(0xFFFFFFFFFFFFFFFF);

    let byte_0 = &[1u8, 0u8][..];
    let byte_13 = &[1u8, 13u8][..];
    let byte_255 = &[1u8, 0xFFu8][..];
    let word_13 = &[1u8, 13u8, 0u8][..];
    let qword_13 = &[1u8, 13u8, 0u8, 0u8, 0u8, 0u8, 0u8, 0u8, 0u8][..];
    let qword_256 = &[1u8, 0xFFu8, 0x01u8, 0u8, 0u8, 0u8, 0u8, 0u8, 0u8][..];
    let qword_max = &[1u8, 0xFFu8, 0xFFu8, 0xFFu8, 0xFFu8, 0xFFu8, 0xFFu8, 0xFFu8, 0xFFu8][..];

    assert_eq!(strict_encode(&o1).unwrap(), byte_0);
    assert_eq!(strict_encode(&o2).unwrap(), byte_13);
    assert_eq!(strict_encode(&o3).unwrap(), byte_255);
    assert_eq!(strict_encode(&o4).unwrap(), qword_13);
    assert_eq!(strict_encode(&o5).unwrap(), qword_256);
    assert_eq!(strict_encode(&o6).unwrap(), qword_max);
    assert_eq!(strict_encode(&o7).unwrap(), word_13);
    assert!(strict_encode(&o8).err().is_some());

    assert_eq!(decode_front::<Option<u8>>(byte_0).unwrap(), Some(0));
    assert_eq!(decode_front::<Option<u8>>(byte_13).unwrap(), Some(13));
    assert_eq!(decode_front::<Option<u8>>(byte_255).unwrap(), Some(0xFF));
    assert_eq!(decode_front::<Option<u64>>(qword_13).unwrap(), Some(13));
    assert_eq!(decode_front::<Option<u64>>(qword_256).unwrap(), Some(0x1FF));
    assert_eq!(
        decode_front::<Option<u64>>(qword_max).unwrap(),
        Some(0xFFFFFFFFFFFFFFFF)
    );
    assert_eq!(decode_front::<Option<usize>>(word_13).unwrap(), Some(13));
    assert_eq!(decode_front::<Option<usize>>(qword_max).unwrap(), Some(0xFFFF));
}

/// A presence byte other than 0 and 1 is refused.
#[test]
fn test_option_decode_vec() {
    assert!(decode_front::<Option<u8>>(&[2u8, 0u8, 0u8, 0u8])
        .err()
        .is_some());
    assert!(decode_front::<Option<u8>>(&[3u8, 0u8, 0u8, 0u8])
        .err()
        .is_some());
    assert!(decode_front::<Option<u8>>(&[0xFFu8, 0u8, 0u8, 0u8])
        .err()
        .is_some());
}

/// A vector must hold fewer than 0x10000 items and encodes as a 16-bit
/// little-endian count followed by the encoding of each item.
#[test]
fn test_vec_encode() {
    let v1: Vec<u8> = vec![0, 13, 0xFF];
    let v2: Vec<u8> = vec![13];
    let v3: Vec<u64> = vec![0, 13, 13, 0x1FF, 0xFFFFFFFFFFFFFFFF];
    let v4: Vec<u8> = (0..0x1FFFF).map(|item| (item % 0xFF) as u8).collect();

    let s1 = &[3u8, 0u8, 0u8, 13u8, 0xFFu8][..];
    let s2 = &[1u8, 0u8, 13u8][..];
    let s3 = &[
        5u8, 0u8, 0, 0, 0, 0, 0, 0, 0, 0, 13, 0, 0, 0, 0, 0, 0, 0, 13, 0, 0, 0, 0, 0, 0, 0, 0xFF,
        1, 0, 0, 0, 0, 0, 0, 0xFF, 0xFF, 0xFF, 0xFF, 0xFF, 0xFF, 0xFF, 0xFF,
    ][..];

    assert_eq!(strict_encode(&v1).unwrap(), s1);
    assert_eq!(strict_encode(&v2).unwrap(), s2);
    assert_eq!(strict_encode(&v3).unwrap(), s3);
    assert!(strict_encode(&v4).err().is_some());

    assert_eq!(decode_front::<Vec<u8>>(s1).unwrap(), v1);
    assert_eq!(decode_front::<Vec<u8>>(s2).unwrap(), v2);
    assert_eq!(decode_front::<Vec<u64>>(s3).unwrap(), v3);
}

#[test]
fn decoding_a_cut_value_reports_the_end_of_the_data() {
    assert_eq!(
        decode_front::<u32>(&[1u8, 2, 3]).err(),
        Some(Error::Io(IoErrorKind::UnexpectedEof))
    );
    assert_eq!(strict_decode::<u16>(&[1u8]).err(), Some(Error::Io(IoErrorKind::UnexpectedEof)));
}

#[test]
fn signed_integers_are_written_in_twos_complement() {
    assert_eq!(strict_encode(&-1i8).unwrap(), vec![0xFFu8]);
    assert_eq!(strict_encode(&-2i16).unwrap(), vec![0xFEu8, 0xFF]);
    assert_eq!(strict_encode(&i32::MIN).unwrap(), vec![0u8, 0, 0, 0x80]);
    assert_eq!(strict_encode(&i64::MAX).unwrap(), vec![0xFFu8, 0xFF, 0xFF, 0xFF, 0xFF, 0xFF, 0xFF, 0x7F]);
    assert_eq!(strict_decode::<i8>(&[0x80u8]).unwrap(), i8::MIN);
    assert_eq!(strict_decode::<i16>(&[0xFEu8, 0xFF]).unwrap(), -2);
    assert_eq!(strict_decode::<i32>(&[0u8, 0, 0, 0x80]).unwrap(), i32::MIN);
    assert_eq!(strict_decode::<i64>(&[0xFFu8; 8]).unwrap(), -1);
    assert_eq!(strict_encode(&0x1234u16).unwrap(), vec![0x34u8, 0x12]);
    assert_eq!(strict_encode(&0x1234_5678u32).unwrap(), vec![0x78u8, 0x56, 0x34, 0x12]);
}

#[test]
fn one_trailing_byte_is_not_entirely_consumed() {
    let mut code = strict_encode(&vec![7u16, 8, 9]).unwrap();
    assert_eq!(strict_decode::<Vec<u16>>(&code).unwrap(), vec![7u16, 8, 9]);
    code.push(0);
    assert_eq!(strict_decode::<Vec<u16>>(&code).err(), Some(Error::DataNotEntirelyConsumed));
}

#[test]
fn wrong_presence_byte_is_named_in_the_error() {
    assert_eq!(
        strict_decode::<Option<u8>>(&[2u8, 0]).err(),
        Some(Error::WrongOptionalEncoding(2))
    );
}

#[test]
fn oversized_collection_names_its_length() {
    let v: Vec<u8> = vec![0; 0x10000];
    assert_eq!(strict_encode(&v).err(), Some(Error::ExceedMaxItems(0x10000)));
    let v: Vec<u8> = vec![0; 0xFFFF];
    assert_eq!(strict_encode(&v).unwrap().len(), 0xFFFF + 2);
    assert_eq!(strict_encode(&&v[..]).unwrap(), strict_encode(&v).unwrap());
}

#[test]
fn invalid_utf8_is_refused() {
    assert_eq!(strict_decode::<String>(&[2u8, 0, 0xC3, 0x28]).err(), Some(Error::Utf8Conversion));
    assert_eq!(strict_decode::<String>(&[2u8, 0, 0xC3, 0xA9]).unwrap(), "é");
}

#[test]
fn encoding_appends_and_counts() {
    let mut out = vec![9u8];
    assert_eq!(Some(5u32).strict_encode(&mut out).unwrap(), 5);
    assert_eq!(out, vec![9u8, 1, 5, 0, 0, 0]);
}

#[test]
fn ordered_map_is_encoded_as_its_values_in_key_order() {
    let mut map: BTreeMap<usize, u16> = BTreeMap::new();
    map.insert(9, 0x0102);
    map.insert(2, 0x0304);
    map.insert(5, 0x0506);
    assert_eq!(strict_encode(&map).unwrap(), vec![3u8, 0, 4, 3, 6, 5, 2, 1]);
    assert_eq!(strict_encode(&map).unwrap(), strict_encode(&vec![0x0304u16, 0x0506, 0x0102]).unwrap());
    let empty: BTreeMap<usize, u16> = BTreeMap::new();
    assert_eq!(strict_encode(&empty).unwrap(), vec![0u8, 0]);
}

#[test]
fn ordered_map_is_decoded_with_positions_as_keys() {
    let map: BTreeMap<usize, u16> = strict_decode(&[3u8, 0, 4, 3, 6, 5, 2, 1]).unwrap();
    let expected: BTreeMap<usize, u16> =
        vec![0x0304u16, 0x0506, 0x0102].into_iter().enumerate().collect();
    assert_eq!(map, expected);
    assert_eq!(strict_decode::<BTreeMap<usize, u16>>(&strict_encode(&map).unwrap()).unwrap(), map);
    assert_eq!(
        strict_decode::<BTreeMap<usize, u16>>(&[2u8, 0, 1, 1, 2]).err(),
        Some(Error::Io(IoErrorKind::UnexpectedEof))
    );
    assert_eq!(
        strict_decode::<BTreeMap<usize, u8>>(&[1u8, 0, 1, 1]).err(),
        Some(Error::DataNotEntirelyConsumed)
    );
}

#[test]
fn hash_map_is_encoded_as_the_ordered_map_with_its_entries() {
    let mut map: HashMap<usize, u8> = HashMap::new();
    for key in [40usize, 3, 17, 0, 25, 99, 1000, 8] {
        map.insert(key, (key % 251) as u8);
    }
    let ordered: BTreeMap<usize, u8> = map.iter().map(|(key, val)| (*key, *val)).collect();
    assert_eq!(strict_encode(&map).unwrap(), strict_encode(&ordered).unwrap());
    assert_eq!(strict_encode(&map).unwrap(), vec![8u8, 0, 0, 3, 8, 17, 25, 40, 99, 247]);
    let decoded: HashMap<usize, u8> = strict_decode(&[2u8, 0, 7, 9]).unwrap();
    assert_eq!(decoded.len(), 2);
    assert_eq!(decoded[&0], 7);
    assert_eq!(decoded[&1], 9);
}

#[test]
fn map_with_failing_item_fails_with_its_error() {
    let mut map: BTreeMap<usize, Vec<u8>> = BTreeMap::new();
    map.insert(0, vec![1]);
    map.insert(1, vec![0; 0x10000]);
    assert_eq!(strict_encode(&map).err(), Some(Error::ExceedMaxItems(0x10000)));
}

#[test]
fn boxed_byte_string_round_trips() {
    let boxed: Box<[u8]> = vec![1u8, 2, 3].into_boxed_slice();
    assert_eq!(strict_encode(&boxed).unwrap(), vec![3u8, 0, 1, 2, 3]);
    assert_eq!(strict_decode::<Box<[u8]>>(&[3u8, 0, 1, 2, 3]).unwrap(), boxed);
    assert_eq!(
        strict_decode::<Box<[u8]>>(&[3u8, 0, 1, 2]).err(),
        Some(Error::Io(IoErrorKind::UnexpectedEof))
    );
}
