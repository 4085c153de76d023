use ignite_client::error::ErrorKind;
use ignite_client::scalar::{Timestamp, Uuid};
use ignite_client::value::{
    decode, decode_nullable, encode, encode_nullable, BinaryObject, CollectionKind, MapKind, Value,
};

fn round_trip(v: &Value) -> Value {
    let mut out = Vec::new();
    encode(v, &mut out).expect("encodable");
    out.extend_from_slice(&[0xAA, 0xBB]);
    let (back, n) = decode(&out, 0).expect("decodes");
    assert_eq!(n, out.len() - 2);
    back
}

fn bytes_of(v: &Value) -> Vec<u8> {
    let mut out = Vec::new();
    encode(v, &mut out).expect("encodable");
    out
}

#[test]
fn scalars_round_trip() {
    assert!(matches!(round_trip(&Value::I8(-5)), Value::I8(-5)));
    assert!(matches!(round_trip(&Value::I16(-300)), Value::I16(-300)));
    assert!(matches!(round_trip(&Value::I32(42)), Value::I32(42)));
    assert!(matches!(round_trip(&Value::I64(i64::MIN)), Value::I64(i64::MIN)));
    assert!(matches!(round_trip(&Value::Bool(true)), Value::Bool(true)));
    assert!(matches!(round_trip(&Value::Char('é')), Value::Char('é')));
    let f = 3.25f32.to_bits();
    match round_trip(&Value::F32(f)) {
        Value::F32(b) => assert_eq!(f32::from_bits(b), 3.25f32),
        other => panic!("{:?}", other),
    }
    let d = (-0.0f64).to_bits();
    match round_trip(&Value::F64(d)) {
        Value::F64(b) => assert_eq!(b, d),
        other => panic!("{:?}", other),
    }
}

#[test]
fn strings_and_uuids_round_trip() {
    match round_trip(&Value::String("héllo, wörld".to_string())) {
        Value::String(s) => assert_eq!(s, "héllo, wörld"),
        other => panic!("{:?}", other),
    }
    let u = Uuid::from_u128(0x0011_2233_4455_6677_8899_aabb_ccdd_eeff);
    match round_trip(&Value::Uuid(u)) {
        Value::Uuid(b) => assert_eq!(b, u),
        other => panic!("{:?}", other),
    }
    let t = Timestamp { millis: 1_600_000_000_123, nanos: 456 };
    match round_trip(&Value::Timestamp(t)) {
        Value::Timestamp(b) => assert_eq!(b, t),
        other => panic!("{:?}", other),
    }
}

#[test]
fn arrays_round_trip() {
    match round_trip(&Value::I32Vec(vec![1, -2, 3])) {
        Value::I32Vec(v) => assert_eq!(v, vec![1, -2, 3]),
        other => panic!("{:?}", other),
    }
    match round_trip(&Value::StringVec(vec!["a".to_string(), "".to_string()])) {
        Value::StringVec(v) => assert_eq!(v, vec!["a".to_string(), "".to_string()]),
        other => panic!("{:?}", other),
    }
    match round_trip(&Value::BoolVec(vec![true, false])) {
        Value::BoolVec(v) => assert_eq!(v, vec![true, false]),
        other => panic!("{:?}", other),
    }
    match round_trip(&Value::CharVec(vec!['x', 'ÿ'])) {
        Value::CharVec(v) => assert_eq!(v, vec!['x', 'ÿ']),
        other => panic!("{:?}", other),
    }
}

#[test]
fn collections_and_maps_round_trip() {
    let v = Value::Collection(
        CollectionKind::LinkedHashSet,
        vec![Value::I32(1), Value::String("two".to_string())],
    );
    match round_trip(&v) {
        Value::Collection(CollectionKind::LinkedHashSet, items) => {
            assert_eq!(items.len(), 2);
            assert!(matches!(items[0], Value::I32(1)));
            assert!(matches!(&items[1], Value::String(s) if s == "two"));
        },
        other => panic!("{:?}", other),
    }
    let m = Value::Mapping(
        MapKind::LinkedHashMap,
        vec![(Value::I8(1), Value::Collection(CollectionKind::Vec, vec![Value::Bool(false)]))],
    );
    match round_trip(&m) {
        Value::Mapping(MapKind::LinkedHashMap, entries) => {
            assert_eq!(entries.len(), 1);
            assert!(matches!(entries[0].0, Value::I8(1)));
            assert!(matches!(&entries[0].1, Value::Collection(CollectionKind::Vec, x) if x.len() == 1));
        },
        other => panic!("{:?}", other),
    }
}

#[test]
fn binary_object_round_trip() {
    let b = BinaryObject { flags: 3, type_id: 77, hash_code: -9, body: vec![1, 2, 3] };
    let bytes = bytes_of(&Value::BinaryObject(b));
    assert_eq!(bytes[0], 103);
    assert_eq!(bytes[1], 1);
    assert_eq!(&bytes[12..16], &19i32.to_le_bytes());
    match round_trip(&Value::BinaryObject(BinaryObject { flags: 3, type_id: 77, hash_code: -9, body: vec![1, 2, 3] })) {
        Value::BinaryObject(o) => {
            assert_eq!((o.flags, o.type_id, o.hash_code), (3, 77, -9));
            assert_eq!(o.body, vec![1, 2, 3]);
        },
        other => panic!("{:?}", other),
    }
}

#[test]
fn null_is_one_byte() {
    let mut out = Vec::new();
    encode_nullable(&None, &mut out).unwrap();
    assert_eq!(out, vec![0x65]);
    let (v, n) = decode_nullable(&out, 0).unwrap();
    assert!(v.is_none());
    assert_eq!(n, 1);
}

#[test]
fn present_nullable_decodes_to_value() {
    let mut out = Vec::new();
    encode_nullable(&Some(Value::I32(7)), &mut out).unwrap();
    let (v, n) = decode_nullable(&out, 0).unwrap();
    assert!(matches!(v, Some(Value::I32(7))));
    assert_eq!(n, 5);
}

#[test]
fn scalar_type_codes_lead() {
    assert_eq!(bytes_of(&Value::I8(1))[0], 1);
    assert_eq!(bytes_of(&Value::I16(1))[0], 2);
    assert_eq!(bytes_of(&Value::I32(1))[0], 3);
    assert_eq!(bytes_of(&Value::I64(1))[0], 4);
    assert_eq!(bytes_of(&Value::F32(0))[0], 5);
    assert_eq!(bytes_of(&Value::F64(0))[0], 6);
    assert_eq!(bytes_of(&Value::Char('a'))[0], 7);
    assert_eq!(bytes_of(&Value::Bool(true))[0], 8);
    assert_eq!(bytes_of(&Value::String("s".to_string()))[0], 9);
    assert_eq!(bytes_of(&Value::Uuid(Uuid::from_u128(1)))[0], 10);
    assert_eq!(bytes_of(&Value::Timestamp(Timestamp { millis: 0, nanos: 0 }))[0], 33);
    assert_eq!(bytes_of(&Value::I64Vec(vec![]))[0], 15);
    assert_eq!(bytes_of(&Value::Collection(CollectionKind::Vec, vec![]))[0], 24);
    assert_eq!(bytes_of(&Value::Mapping(MapKind::HashMap, vec![]))[0], 25);
}

#[test]
fn exact_layouts() {
    assert_eq!(bytes_of(&Value::I32(42)), vec![3, 42, 0, 0, 0]);
    assert_eq!(bytes_of(&Value::I16(-2)), vec![2, 0xfe, 0xff]);
    assert_eq!(bytes_of(&Value::Bool(true)), vec![8, 1]);
    assert_eq!(bytes_of(&Value::Char('A')), vec![7, 0x00, 0x41]);
    assert_eq!(bytes_of(&Value::String("ab".to_string())), vec![9, 2, 0, 0, 0, b'a', b'b']);
    assert_eq!(
        bytes_of(&Value::Timestamp(Timestamp { millis: 1, nanos: 2 })),
        vec![33, 1, 0, 0, 0, 0, 0, 0, 0, 2, 0, 0, 0]
    );
    assert_eq!(
        bytes_of(&Value::Collection(CollectionKind::HashSet, vec![Value::I8(5)])),
        vec![24, 1, 0, 0, 0, 3, 1, 5]
    );
    assert_eq!(bytes_of(&Value::I8Vec(vec![1, -1])), vec![12, 2, 0, 0, 0, 1, 0xff]);
}

#[test]
fn uuid_layout_swaps_halves_to_little_endian() {
    let u = Uuid::from_u128(0x0102_0304_0506_0708_090a_0b0c_0d0e_0f10);
    assert_eq!(u.most, 0x0102_0304_0506_0708);
    assert_eq!(u.least, 0x090a_0b0c_0d0e_0f10);
    assert_eq!(u.as_u128(), 0x0102_0304_0506_0708_090a_0b0c_0d0e_0f10);
    let bytes = bytes_of(&Value::Uuid(u));
    assert_eq!(bytes, vec![10, 8, 7, 6, 5, 4, 3, 2, 1, 16, 15, 14, 13, 12, 11, 10, 9]);
    let from_crate = uuid::Uuid::from_u128(0x0102_0304_0506_0708_090a_0b0c_0d0e_0f10);
    let (hi, lo) = from_crate.as_u64_pair();
    assert_eq!((hi, lo), (u.most, u.least));
}

#[test]
fn supplementary_char_is_refused_without_output() {
    let mut out = vec![0xEE];
    let r = encode(&Value::Char('😀'), &mut out);
    assert_eq!(r.unwrap_err().kind, ErrorKind::Codec);
    assert_eq!(out, vec![0xEE]);
    let nested = Value::Collection(CollectionKind::Vec, vec![Value::I32(1), Value::CharVec(vec!['a', '𝄞'])]);
    let r = encode(&nested, &mut out);
    assert_eq!(r.unwrap_err().kind, ErrorKind::Codec);
    assert_eq!(out, vec![0xEE]);
}

#[test]
fn decode_errors_are_codec() {
    assert_eq!(decode(&vec![], 0).unwrap_err().kind, ErrorKind::Codec);
    assert_eq!(decode(&vec![11], 0).unwrap_err().kind, ErrorKind::Codec);
    assert_eq!(decode(&vec![101], 0).unwrap_err().kind, ErrorKind::Codec);
    assert_eq!(decode(&vec![3, 1, 2], 0).unwrap_err().kind, ErrorKind::Codec);
    assert_eq!(decode(&vec![9, 5, 0, 0, 0, b'a'], 0).unwrap_err().kind, ErrorKind::Codec);
    assert_eq!(decode(&vec![9, 1, 0, 0, 0, 0xff], 0).unwrap_err().kind, ErrorKind::Codec);
    assert_eq!(decode(&vec![7, 0xd8, 0x00], 0).unwrap_err().kind, ErrorKind::Codec);
    assert_eq!(decode(&vec![24, 0, 0, 0, 0, 9], 0).unwrap_err().kind, ErrorKind::Codec);
    assert_eq!(decode(&vec![25, 0, 0, 0, 0, 3], 0).unwrap_err().kind, ErrorKind::Codec);
    assert_eq!(decode(&vec![103, 2, 0, 0, 0, 0, 0, 0, 0, 0, 0, 0, 16, 0, 0, 0], 0).unwrap_err().kind, ErrorKind::Codec);
}

#[test]
fn ordered_collection_sub_kinds_decode_as_vec() {
    for kind in [0xffu8, 0, 1, 5] {
        let bytes = vec![24, 1, 0, 0, 0, kind, 3, 9, 0, 0, 0];
        match decode(&bytes, 0).unwrap() {
            (Value::Collection(CollectionKind::Vec, items), n) => {
                assert_eq!(n, 11);
                assert!(matches!(items[0], Value::I32(9)));
            },
            other => panic!("{:?}", other),
        }
    }
    match decode(&vec![24, 0, 0, 0, 0, 2], 0).unwrap() {
        (Value::Collection(CollectionKind::LinkedList, items), 6) => assert!(items.is_empty()),
        other => panic!("{:?}", other),
    }
}

#[test]
fn decode_reads_at_an_offset() {
    let mut out = vec![0, 0];
    encode(&Value::I64(-1), &mut out).unwrap();
    let (v, n) = decode(&out, 2).unwrap();
    assert!(matches!(v, Value::I64(-1)));
    assert_eq!(n, 9);
}
