use ignite_client::binary::{
    get_type_request, put_type_request, read_get_type_reply, read_type_name_reply,
    register_type_name_request, type_name_request, Field, Schema, Type,
};
use ignite_client::cache::{
    cache_id_of, cache_names_request, create_cache_request, read_bool_reply, read_cache_names_reply,
    read_get_all_reply, read_size_reply, read_unit_reply, read_value_reply, Cache, PeekMode,
};
use ignite_client::error::ErrorKind;
use ignite_client::scalar::Uuid;
use ignite_client::value::{encode, encode_nullable, Value};

fn ok_reply(body: &[u8]) -> Vec<u8> {
    let mut r = vec![0u8; 12];
    r.extend_from_slice(body);
    r
}

fn value_bytes(v: &Value) -> Vec<u8> {
    let mut out = Vec::new();
    encode(v, &mut out).unwrap();
    out
}

fn header(op: i16, cache: &str) -> Vec<u8> {
    let mut h = op.to_le_bytes().to_vec();
    h.extend_from_slice(&[0u8; 8]);
    h.extend_from_slice(&cache_id_of(cache).to_le_bytes());
    h.push(0);
    h
}

#[test]
fn cache_ids_follow_the_string_hash() {
    assert_eq!(cache_id_of(""), 0);
    assert_eq!(cache_id_of("a"), 97);
    assert_eq!(cache_id_of("abc"), 31 * (31 * 97 + 98) + 99);
    assert_eq!(cache_id_of("abc"), 96354);
    assert_eq!(Cache::new("abc").id(), cache_id_of("abc"));
    let long = "a-rather-long-cache-name-that-overflows";
    let mut h: i64 = 0;
    for c in long.chars() {
        h = h.wrapping_mul(31).wrapping_add(c as i64);
    }
    assert_eq!(cache_id_of(long), h as i32);
    assert_eq!(cache_id_of("é"), 0xe9);
}

#[test]
fn get_request_layout() {
    let c = Cache::new("test-cache");
    let r = c.get_request(&Value::I32(42)).unwrap();
    let mut expected = header(1000, "test-cache");
    expected.extend_from_slice(&[3, 42, 0, 0, 0]);
    assert_eq!(r, expected);
}

#[test]
fn put_and_replace_request_layouts() {
    let c = Cache::new("test-cache");
    let r = c.put_request(&Value::I32(42), &Value::I32(1)).unwrap();
    let mut expected = header(1001, "test-cache");
    expected.extend_from_slice(&[3, 42, 0, 0, 0, 3, 1, 0, 0, 0]);
    assert_eq!(r, expected);
    let r = c.replace_if_equals_request(&Value::I32(42), &Value::I32(0), &Value::I32(3)).unwrap();
    let mut expected = header(1010, "test-cache");
    expected.extend_from_slice(&[3, 42, 0, 0, 0, 3, 0, 0, 0, 0, 3, 3, 0, 0, 0]);
    assert_eq!(r, expected);
    assert_eq!(
        c.put_request(&Value::Char('😀'), &Value::I32(1)).unwrap_err().kind,
        ErrorKind::Codec
    );
}

#[test]
fn bulk_request_layouts() {
    let c = Cache::new("x");
    let r = c.get_all_request(&vec![Value::I32(1), Value::I32(2)]).unwrap();
    let mut expected = header(1003, "x");
    expected.extend_from_slice(&[2, 0, 0, 0, 3, 1, 0, 0, 0, 3, 2, 0, 0, 0]);
    assert_eq!(r, expected);
    let r = c.put_all_request(&vec![(Value::I8(1), Value::Bool(true))]).unwrap();
    let mut expected = header(1004, "x");
    expected.extend_from_slice(&[1, 0, 0, 0, 1, 1, 8, 1]);
    assert_eq!(r, expected);
    let r = c.contains_keys_request(&vec![]).unwrap();
    let mut expected = header(1012, "x");
    expected.extend_from_slice(&[0, 0, 0, 0]);
    assert_eq!(r, expected);
}

#[test]
fn size_and_destroy_layouts() {
    let c = Cache::new("x");
    let r = c.size_request(&vec![PeekMode::All, PeekMode::Backup]).unwrap();
    let mut expected = header(1020, "x");
    expected.extend_from_slice(&[2, 0, 0, 0, 0, 3]);
    assert_eq!(r, expected);
    let mut expected = 1056i16.to_le_bytes().to_vec();
    expected.extend_from_slice(&[0u8; 8]);
    expected.extend_from_slice(&120i32.to_le_bytes());
    assert_eq!(c.destroy_request(), expected);
    assert_eq!(c.clear_request(), header(1013, "x"));
}

#[test]
fn scalar_put_get_scenario() {
    let c = Cache::new("test-cache");
    assert!(c.get_request(&Value::I32(42)).is_ok());
    assert!(read_value_reply(&ok_reply(&[101])).unwrap().is_none());
    assert!(c.put_request(&Value::I32(42), &Value::I32(1)).is_ok());
    assert!(read_unit_reply(&ok_reply(&[])).is_ok());
    let present = read_value_reply(&ok_reply(&value_bytes(&Value::I32(1)))).unwrap();
    assert!(matches!(present, Some(Value::I32(1))));
}

#[test]
fn bulk_round_trip_scenario() {
    let mut body = 3i32.to_le_bytes().to_vec();
    for k in 1..=3 {
        body.extend(value_bytes(&Value::I32(k)));
        body.extend(value_bytes(&Value::I32(k)));
    }
    let entries = read_get_all_reply(&ok_reply(&body)).unwrap();
    assert_eq!(entries.len(), 3);
    for (i, (k, v)) in entries.iter().enumerate() {
        let expected = i as i32 + 1;
        assert!(matches!(k, Value::I32(x) if *x == expected));
        assert!(matches!(v, Some(Value::I32(x)) if *x == expected));
    }
}

#[test]
fn bulk_reply_drops_null_keys() {
    let mut body = 2i32.to_le_bytes().to_vec();
    body.push(101);
    body.extend(value_bytes(&Value::I32(5)));
    body.extend(value_bytes(&Value::I32(6)));
    body.push(101);
    let entries = read_get_all_reply(&ok_reply(&body)).unwrap();
    assert_eq!(entries.len(), 1);
    assert!(matches!(entries[0].0, Value::I32(6)));
    assert!(entries[0].1.is_none());
}

#[test]
fn conditional_replace_scenario() {
    assert_eq!(read_bool_reply(&ok_reply(&[0])).unwrap(), false);
    assert_eq!(read_bool_reply(&ok_reply(&[1])).unwrap(), true);
    assert_eq!(read_bool_reply(&ok_reply(&[])).unwrap_err().kind, ErrorKind::Codec);
}

#[test]
fn string_and_uuid_keys() {
    let c = Cache::new("test-cache");
    let r = c.get_request(&Value::String("42".to_string())).unwrap();
    assert_eq!(&r[15..], &[9, 2, 0, 0, 0, b'4', b'2']);
    let r = c.put_request(&Value::Uuid(Uuid::from_u128(1234)), &Value::I32(7)).unwrap();
    assert_eq!(r[15], 10);
    assert_eq!(&r[16..24], &[0u8; 8]);
    assert_eq!(&r[24..32], &1234u64.to_le_bytes());
    let v = read_value_reply(&ok_reply(&value_bytes(&Value::String("v".to_string())))).unwrap();
    assert!(matches!(v, Some(Value::String(s)) if s == "v"));
}

#[test]
fn size_reply() {
    assert_eq!(read_size_reply(&ok_reply(&5i64.to_le_bytes())).unwrap(), 5);
    assert_eq!(read_size_reply(&ok_reply(&[1, 2])).unwrap_err().kind, ErrorKind::Codec);
}

#[test]
fn cache_lifecycle_requests() {
    let mut expected = 1050i16.to_le_bytes().to_vec();
    expected.extend_from_slice(&[0u8; 8]);
    assert_eq!(cache_names_request(), expected);
    let r = create_cache_request("k").unwrap();
    let mut expected = 1051i16.to_le_bytes().to_vec();
    expected.extend_from_slice(&[0u8; 8]);
    expected.extend_from_slice(&[9, 1, 0, 0, 0, b'k']);
    assert_eq!(r, expected);
    let mut failed = vec![0u8; 8];
    failed.extend_from_slice(&1000i32.to_le_bytes());
    failed.extend_from_slice(b"exists");
    assert!(matches!(read_unit_reply(&failed).unwrap_err().kind, ErrorKind::ServerStatus(_)));
}

#[test]
fn cache_names_keep_strings() {
    let mut body = 3i32.to_le_bytes().to_vec();
    body.extend(value_bytes(&Value::String("test-cache".to_string())));
    body.push(101);
    body.extend(value_bytes(&Value::String("another-cache".to_string())));
    let names = read_cache_names_reply(&ok_reply(&body)).unwrap();
    assert_eq!(names, vec!["test-cache".to_string(), "another-cache".to_string()]);
}

#[test]
fn type_metadata_requests() {
    let mut expected = 3000i16.to_le_bytes().to_vec();
    expected.extend_from_slice(&[0u8; 8]);
    expected.push(0);
    expected.extend_from_slice(&5i32.to_le_bytes());
    assert_eq!(type_name_request(5), expected);
    let r = register_type_name_request(5, "T").unwrap();
    assert_eq!(&r[15..], &[9, 1, 0, 0, 0, b'T']);
    let r = get_type_request(7);
    assert_eq!(&r[10..], &7i32.to_le_bytes());
    let mut reply = vec![0u8; 12];
    encode_nullable(&Some(Value::String("Person".to_string())), &mut reply).unwrap();
    assert_eq!(read_type_name_reply(&reply).unwrap().as_deref(), Some("Person"));
    assert_eq!(read_type_name_reply(&ok_reply(&[101])).unwrap(), None);
}

#[test]
fn type_descriptions_round_trip() {
    let t = Type {
        id: 1,
        name: "P".to_string(),
        affinity_key_field_name: "id".to_string(),
        fields: vec![Field { name: "id".to_string(), type_id: 3, field_id: 11 }],
        enum_fields: Some(vec![("A".to_string(), 0)]),
        schemas: vec![Schema { id: 9, fields: vec![(11, 0)] }],
    };
    let r = put_type_request(&t).unwrap();
    let body = &r[10..];
    let mut reply = ok_reply(&[1]);
    reply.extend_from_slice(body);
    let back = read_get_type_reply(&reply).unwrap().unwrap();
    assert_eq!(back.id, 1);
    assert_eq!(back.name, "P");
    assert_eq!(back.affinity_key_field_name, "id");
    assert_eq!(back.fields.len(), 1);
    assert_eq!((back.fields[0].type_id, back.fields[0].field_id), (3, 11));
    assert_eq!(back.enum_fields, Some(vec![("A".to_string(), 0)]));
    assert_eq!(back.schemas[0].fields, vec![(11, 0)]);
    assert!(read_get_type_reply(&ok_reply(&[0])).unwrap().is_none());
}
