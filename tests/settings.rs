use ignite_client::configuration::{
    AtomicityMode, CacheConfiguration, CacheKeyConfiguration, CacheMode, IndexType,
    PartitionLossPolicy, QueryEntity, QueryField, QueryIndex, RebalanceMode,
    WriteSynchronizationMode,
};
use ignite_client::record::WireRecord;
use ignite_client::value::Value;

#[test]
fn default_cache_configuration() {
    let c = CacheConfiguration::default("test-cache");
    assert_eq!(c.name, "test-cache");
    assert_eq!(c.atomicity_mode, AtomicityMode::Atomic);
    assert_eq!(c.mode, CacheMode::Partitioned);
    assert_eq!(c.max_concurrent_async_operations, 500);
    assert_eq!(c.max_query_iterators, 1024);
    assert_eq!(c.partition_loss_policy, PartitionLossPolicy::Ignore);
    assert_eq!(c.rebalance_batch_size, 512 * 1024);
    assert_eq!(c.rebalance_mode, RebalanceMode::Async);
    assert_eq!(c.rebalance_timeout, 10000);
    assert_eq!(c.sql_index_inline_max_size, -1);
    assert_eq!(c.write_synchronization_mode, WriteSynchronizationMode::PrimarySync);
}

#[test]
fn configuration_builders_set_one_field() {
    let c = CacheConfiguration::default("c").backups(2).sql_schema("PUBLIC").eager_ttl(false);
    assert_eq!(c.backups, 2);
    assert_eq!(c.sql_schema.as_deref(), Some("PUBLIC"));
    assert!(!c.eager_ttl);
    assert_eq!(c.name, "c");
}

#[test]
fn enum_ordinals() {
    assert_eq!(AtomicityMode::TransactionalSnapshot.ordinal(), 2);
    assert_eq!(PartitionLossPolicy::from_ordinal(3), Some(PartitionLossPolicy::ReadWriteAll));
    assert_eq!(CacheMode::from_ordinal(7), None);
    assert_eq!(IndexType::Geospatial.ordinal(), 2);
}

#[test]
fn configuration_write_layout() {
    let c = CacheConfiguration::default("ab");
    let mut out = Vec::new();
    c.write(&mut out).unwrap();
    let declared = i32::from_le_bytes([out[0], out[1], out[2], out[3]]);
    assert_eq!(declared as usize, out.len() - 4);
    assert_eq!(&out[4..6], &30i16.to_le_bytes());
    assert_eq!(&out[6..8], &2i16.to_le_bytes());
    assert_eq!(&out[8..12], &1i32.to_le_bytes());
    assert_eq!(&out[12..14], &3i16.to_le_bytes());
    assert_eq!(&out[14..18], &0i32.to_le_bytes());
}

#[test]
fn query_records() {
    let i = QueryIndex::new("idx", IndexType::Sorted).field("a", true);
    assert_eq!(i.inline_size, 10);
    assert_eq!(i.fields, vec![("a".to_string(), true)]);
    let f = QueryField::new("a", "java.lang.Integer", true, false).default_value(Value::I32(0));
    assert!(matches!(f.default_value, Some(Value::I32(0))));
    let e = QueryEntity::new("K", "V", "T").key_field_name("k").alias("a", "b").field(f).index(i);
    assert_eq!(e.key_field_name.as_deref(), Some("k"));
    assert_eq!(e.aliases, vec![("a".to_string(), "b".to_string())]);
    assert_eq!(e.fields.len(), 1);
    assert_eq!(e.indexes.len(), 1);
    let k = CacheKeyConfiguration::new("T", "id");
    assert_eq!((k.key_type.as_str(), k.affinity_key_field_name.as_str()), ("T", "id"));
    let c = CacheConfiguration::default("c").query_entity(e).cache_key_configuration(k);
    let mut out = Vec::new();
    c.write(&mut out).unwrap();
    assert_eq!(i32::from_le_bytes([out[0], out[1], out[2], out[3]]) as usize, out.len() - 4);
}

fn push_i32(b: &mut Vec<u8>, x: i32) {
    b.extend_from_slice(&x.to_le_bytes());
}

fn push_i64(b: &mut Vec<u8>, x: i64) {
    b.extend_from_slice(&x.to_le_bytes());
}

fn default_fields(name: &str) -> Vec<u8> {
    let mut b = Vec::new();
    push_i32(&mut b, 1);
    push_i32(&mut b, 0);
    push_i32(&mut b, 2);
    b.push(1);
    b.push(101);
    b.push(1);
    b.push(0);
    b.push(101);
    push_i64(&mut b, 0);
    push_i32(&mut b, 500);
    push_i32(&mut b, 1024);
    b.push(9);
    push_i32(&mut b, name.len() as i32);
    b.extend_from_slice(name.as_bytes());
    b.push(0);
    push_i32(&mut b, 4);
    push_i32(&mut b, 0);
    push_i32(&mut b, 1);
    b.push(1);
    push_i32(&mut b, 524288);
    push_i64(&mut b, 3);
    push_i64(&mut b, 0);
    push_i32(&mut b, 1);
    push_i32(&mut b, 0);
    push_i64(&mut b, 0);
    push_i64(&mut b, 10000);
    b.push(0);
    push_i32(&mut b, -1);
    b.push(101);
    push_i32(&mut b, 2);
    push_i32(&mut b, 0);
    push_i32(&mut b, 0);
    b
}

#[test]
fn configuration_reply_reads_fields_in_order() {
    let fields = default_fields("test-cache");
    let mut reply = vec![0u8; 12];
    push_i32(&mut reply, fields.len() as i32);
    reply.extend_from_slice(&fields);
    let c = ignite_client::cache::read_configuration_reply(&reply).unwrap();
    assert_eq!(c.name, "test-cache");
    assert_eq!(c.atomicity_mode, AtomicityMode::Atomic);
    assert_eq!(c.mode, CacheMode::Partitioned);
    assert!(c.copy_on_read && c.eager_ttl && !c.statistics_enabled);
    assert!(c.data_region_name.is_none() && c.group_name.is_none() && c.sql_schema.is_none());
    assert_eq!(c.max_concurrent_async_operations, 500);
    assert_eq!(c.partition_loss_policy, PartitionLossPolicy::Ignore);
    assert_eq!(c.rebalance_batch_prefetch_count, 3);
    assert_eq!(c.rebalance_mode, RebalanceMode::Async);
    assert_eq!(c.rebalance_timeout, 10000);
    assert_eq!(c.sql_index_inline_max_size, -1);
    assert_eq!(c.write_synchronization_mode, WriteSynchronizationMode::PrimarySync);
    assert!(c.cache_key_configurations.is_empty() && c.query_entities.is_empty());
    let (again, end) = CacheConfiguration::read_fields(&fields, 0).unwrap();
    assert_eq!(end, fields.len());
    assert_eq!(again.max_query_iterators, 1024);
}

#[test]
fn configuration_reply_refuses_bad_flags_and_ordinals() {
    let mut fields = default_fields("c");
    fields[12] = 2;
    assert_eq!(
        CacheConfiguration::read_fields(&fields, 0).unwrap_err().kind,
        ignite_client::error::ErrorKind::Codec
    );
    let mut fields = default_fields("c");
    fields[0] = 9;
    assert_eq!(
        CacheConfiguration::read_fields(&fields, 0).unwrap_err().kind,
        ignite_client::error::ErrorKind::Codec
    );
    let fields = default_fields("c");
    assert!(CacheConfiguration::read_fields(&fields[..fields.len() - 1].to_vec(), 0).is_err());
}

#[test]
fn query_field_reads_back_and_refuses_other_forms() {
    let f = QueryField::new("a", "T", true, false).default_value(Value::Bool(true));
    let mut out = Vec::new();
    f.write_wire(&mut out);
    let (g, end) = QueryField::read_wire(&out, 0).unwrap();
    assert_eq!(end, out.len());
    assert_eq!((g.name.as_str(), g.field_type.as_str(), g.key_field, g.not_null), ("a", "T", true, false));
    assert!(matches!(g.default_value, Some(Value::Bool(true))));
    let n = out.len();
    out[n - 1] = 2;
    assert!(QueryField::read_wire(&out, 0).is_err());
}
