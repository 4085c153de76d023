//! Client settings, and the configuration of a cache as the server keeps it.
use vstd::prelude::*;

use crate::buffer::{le_i16, le_i32, le_i64, put_i16_le, put_i32_le, put_i64_le, put_slice};
use crate::error::{Error, ErrorKind};
use crate::record::{
    lemma_le_i32_injective, bool_wire, check_opt_str, check_records, check_str, counted_ok, counted_wire, opt_chars,
    opt_str_ok, opt_str_wire,
    str_ok, str_wire, write_bool, write_opt_str, write_records, write_str, WireRecord,
};
use crate::value::Value;

verus! {

/// Where to connect and with which credentials.
#[derive(Debug)]
pub struct Configuration {
    pub address: String,
    pub username: Option<String>,
    pub password: Option<String>,
}

impl Configuration {
    /// The local default endpoint, without credentials.
    pub fn default() -> (c: Configuration)
        ensures
            c.address@ == "127.0.0.1:10800"@,
            c.username is None,
            c.password is None,
    {
        Configuration { address: "127.0.0.1:10800".to_string(), username: None, password: None }
    }

    pub fn address(self, address: &str) -> (c: Configuration)
        ensures
            c.address@ == address@,
            c == (Configuration { address: c.address, ..self }),
    {
        Configuration { address: address.to_string(), ..self }
    }

    pub fn username(self, username: &str) -> (c: Configuration)
        ensures
            opt_chars(c.username) == Some(username@),
            c == (Configuration { username: c.username, ..self }),
    {
        Configuration { username: Some(username.to_string()), ..self }
    }

    pub fn password(self, password: &str) -> (c: Configuration)
        ensures
            opt_chars(c.password) == Some(password@),
            c == (Configuration { password: c.password, ..self }),
    {
        Configuration { password: Some(password.to_string()), ..self }
    }
}

/// Whether cache operations are transactional. On the wire it is its ordinal, a 32-bit integer.
#[derive(PartialEq, Eq, Structural, Debug, Clone, Copy)]
pub enum AtomicityMode {
    Transactional,
    Atomic,
    TransactionalSnapshot,
}

impl AtomicityMode {
    pub open spec fn spec_ordinal(self) -> i32 {
        match self {
            AtomicityMode::Transactional => 0,
            AtomicityMode::Atomic => 1,
            AtomicityMode::TransactionalSnapshot => 2,
        }
    }

    pub fn ordinal(&self) -> (r: i32)
        ensures
            r == self.spec_ordinal(),
    {
        match self {
            AtomicityMode::Transactional => 0,
            AtomicityMode::Atomic => 1,
            AtomicityMode::TransactionalSnapshot => 2,
        }
    }

    pub open spec fn spec_from_ordinal(n: i32) -> Option<AtomicityMode> {
        if n == 0 {
            Some(AtomicityMode::Transactional)
        } else if n == 1 {
            Some(AtomicityMode::Atomic)
        } else if n == 2 {
            Some(AtomicityMode::TransactionalSnapshot)
        } else {
            None
        }
    }

    pub fn from_ordinal(n: i32) -> (r: Option<AtomicityMode>)
        ensures
            r == Self::spec_from_ordinal(n),
            r matches Some(m) ==> m.spec_ordinal() == n,
    {
        if n == 0 {
            Some(AtomicityMode::Transactional)
        } else if n == 1 {
            Some(AtomicityMode::Atomic)
        } else if n == 2 {
            Some(AtomicityMode::TransactionalSnapshot)
        } else {
            None
        }
    }
}

impl WireRecord for AtomicityMode {
    open spec fn wire(&self) -> Seq<u8> {
        self.spec_ordinal().wire()
    }

    open spec fn wire_ok(&self) -> bool {
        true
    }

    fn check_wire(&self) -> (b: bool) {
        true
    }

    fn write_wire(&self, out: &mut Vec<u8>) {
        put_i32_le(out, self.ordinal());
    }

    fn read_wire(buf: &Vec<u8>, pos: usize) -> (r: Result<(AtomicityMode, usize), Error>) {
        let (n, end) = i32::read_wire(buf, pos)?;
        match AtomicityMode::from_ordinal(n) {
            Some(m) => Ok((m, end)),
            None => {
                proof {
                    assert forall|v: AtomicityMode, e: int|
                        #![trigger v.wire(), buf@.subrange(pos as int, e)]
                        pos <= e <= buf@.len() && v.wire_ok() && buf@.subrange(pos as int, e)
                            == v.wire() implies false by {
                        lemma_le_i32_injective(n, v.spec_ordinal());
                        match v {
                            _ => {},
                        }
                    }
                }
                Err(Error::codec("unknown ordinal"))
            },
        }
    }
}

/// How a cache is spread over the cluster. On the wire it is its ordinal, a 32-bit integer.
#[derive(PartialEq, Eq, Structural, Debug, Clone, Copy)]
pub enum CacheMode {
    Local,
    Replicated,
    Partitioned,
}

impl CacheMode {
    pub open spec fn spec_ordinal(self) -> i32 {
        match self {
            CacheMode::Local => 0,
            CacheMode::Replicated => 1,
            CacheMode::Partitioned => 2,
        }
    }

    pub fn ordinal(&self) -> (r: i32)
        ensures
            r == self.spec_ordinal(),
    {
        match self {
            CacheMode::Local => 0,
            CacheMode::Replicated => 1,
            CacheMode::Partitioned => 2,
        }
    }

    pub open spec fn spec_from_ordinal(n: i32) -> Option<CacheMode> {
        if n == 0 {
            Some(CacheMode::Local)
        } else if n == 1 {
            Some(CacheMode::Replicated)
        } else if n == 2 {
            Some(CacheMode::Partitioned)
        } else {
            None
        }
    }

    pub fn from_ordinal(n: i32) -> (r: Option<CacheMode>)
        ensures
            r == Self::spec_from_ordinal(n),
            r matches Some(m) ==> m.spec_ordinal() == n,
    {
        if n == 0 {
            Some(CacheMode::Local)
        } else if n == 1 {
            Some(CacheMode::Replicated)
        } else if n == 2 {
            Some(CacheMode::Partitioned)
        } else {
            None
        }
    }
}

impl WireRecord for CacheMode {
    open spec fn wire(&self) -> Seq<u8> {
        self.spec_ordinal().wire()
    }

    open spec fn wire_ok(&self) -> bool {
        true
    }

    fn check_wire(&self) -> (b: bool) {
        true
    }

    fn write_wire(&self, out: &mut Vec<u8>) {
        put_i32_le(out, self.ordinal());
    }

    fn read_wire(buf: &Vec<u8>, pos: usize) -> (r: Result<(CacheMode, usize), Error>) {
        let (n, end) = i32::read_wire(buf, pos)?;
        match CacheMode::from_ordinal(n) {
            Some(m) => Ok((m, end)),
            None => {
                proof {
                    assert forall|v: CacheMode, e: int|
                        #![trigger v.wire(), buf@.subrange(pos as int, e)]
                        pos <= e <= buf@.len() && v.wire_ok() && buf@.subrange(pos as int, e)
                            == v.wire() implies false by {
                        lemma_le_i32_injective(n, v.spec_ordinal());
                        match v {
                            _ => {},
                        }
                    }
                }
                Err(Error::codec("unknown ordinal"))
            },
        }
    }
}

/// What a cache allows once partitions are lost. On the wire it is its ordinal, a 32-bit integer.
#[derive(PartialEq, Eq, Structural, Debug, Clone, Copy)]
pub enum PartitionLossPolicy {
    ReadOnlySafe,
    ReadOnlyAll,
    ReadWriteSafe,
    ReadWriteAll,
    Ignore,
}

impl PartitionLossPolicy {
    pub open spec fn spec_ordinal(self) -> i32 {
        match self {
            PartitionLossPolicy::ReadOnlySafe => 0,
            PartitionLossPolicy::ReadOnlyAll => 1,
            PartitionLossPolicy::ReadWriteSafe => 2,
            PartitionLossPolicy::ReadWriteAll => 3,
            PartitionLossPolicy::Ignore => 4,
        }
    }

    pub fn ordinal(&self) -> (r: i32)
        ensures
            r == self.spec_ordinal(),
    {
        match self {
            PartitionLossPolicy::ReadOnlySafe => 0,
            PartitionLossPolicy::ReadOnlyAll => 1,
            PartitionLossPolicy::ReadWriteSafe => 2,
            PartitionLossPolicy::ReadWriteAll => 3,
            PartitionLossPolicy::Ignore => 4,
        }
    }

    pub open spec fn spec_from_ordinal(n: i32) -> Option<PartitionLossPolicy> {
        if n == 0 {
            Some(PartitionLossPolicy::ReadOnlySafe)
        } else if n == 1 {
            Some(PartitionLossPolicy::ReadOnlyAll)
        } else if n == 2 {
            Some(PartitionLossPolicy::ReadWriteSafe)
        } else if n == 3 {
            Some(PartitionLossPolicy::ReadWriteAll)
        } else if n == 4 {
            Some(PartitionLossPolicy::Ignore)
        } else {
            None
        }
    }

    pub fn from_ordinal(n: i32) -> (r: Option<PartitionLossPolicy>)
        ensures
            r == Self::spec_from_ordinal(n),
            r matches Some(m) ==> m.spec_ordinal() == n,
    {
        if n == 0 {
            Some(PartitionLossPolicy::ReadOnlySafe)
        } else if n == 1 {
            Some(PartitionLossPolicy::ReadOnlyAll)
        } else if n == 2 {
            Some(PartitionLossPolicy::ReadWriteSafe)
        } else if n == 3 {
            Some(PartitionLossPolicy::ReadWriteAll)
        } else if n == 4 {
            Some(PartitionLossPolicy::Ignore)
        } else {
            None
        }
    }
}

impl WireRecord for PartitionLossPolicy {
    open spec fn wire(&self) -> Seq<u8> {
        self.spec_ordinal().wire()
    }

    open spec fn wire_ok(&self) -> bool {
        true
    }

    fn check_wire(&self) -> (b: bool) {
        true
    }

    fn write_wire(&self, out: &mut Vec<u8>) {
        put_i32_le(out, self.ordinal());
    }

    fn read_wire(buf: &Vec<u8>, pos: usize) -> (r: Result<(PartitionLossPolicy, usize), Error>) {
        let (n, end) = i32::read_wire(buf, pos)?;
        match PartitionLossPolicy::from_ordinal(n) {
            Some(m) => Ok((m, end)),
            None => {
                proof {
                    assert forall|v: PartitionLossPolicy, e: int|
                        #![trigger v.wire(), buf@.subrange(pos as int, e)]
                        pos <= e <= buf@.len() && v.wire_ok() && buf@.subrange(pos as int, e)
                            == v.wire() implies false by {
                        lemma_le_i32_injective(n, v.spec_ordinal());
                        match v {
                            _ => {},
                        }
                    }
                }
                Err(Error::codec("unknown ordinal"))
            },
        }
    }
}

/// How entries move when the topology changes. On the wire it is its ordinal, a 32-bit integer.
#[derive(PartialEq, Eq, Structural, Debug, Clone, Copy)]
pub enum RebalanceMode {
    Sync,
    Async,
    Disabled,
}

impl RebalanceMode {
    pub open spec fn spec_ordinal(self) -> i32 {
        match self {
            RebalanceMode::Sync => 0,
            RebalanceMode::Async => 1,
            RebalanceMode::Disabled => 2,
        }
    }

    pub fn ordinal(&self) -> (r: i32)
        ensures
            r == self.spec_ordinal(),
    {
        match self {
            RebalanceMode::Sync => 0,
            RebalanceMode::Async => 1,
            RebalanceMode::Disabled => 2,
        }
    }

    pub open spec fn spec_from_ordinal(n: i32) -> Option<RebalanceMode> {
        if n == 0 {
            Some(RebalanceMode::Sync)
        } else if n == 1 {
            Some(RebalanceMode::Async)
        } else if n == 2 {
            Some(RebalanceMode::Disabled)
        } else {
            None
        }
    }

    pub fn from_ordinal(n: i32) -> (r: Option<RebalanceMode>)
        ensures
            r == Self::spec_from_ordinal(n),
            r matches Some(m) ==> m.spec_ordinal() == n,
    {
        if n == 0 {
            Some(RebalanceMode::Sync)
        } else if n == 1 {
            Some(RebalanceMode::Async)
        } else if n == 2 {
            Some(RebalanceMode::Disabled)
        } else {
            None
        }
    }
}

impl WireRecord for RebalanceMode {
    open spec fn wire(&self) -> Seq<u8> {
        self.spec_ordinal().wire()
    }

    open spec fn wire_ok(&self) -> bool {
        true
    }

    fn check_wire(&self) -> (b: bool) {
        true
    }

    fn write_wire(&self, out: &mut Vec<u8>) {
        put_i32_le(out, self.ordinal());
    }

    fn read_wire(buf: &Vec<u8>, pos: usize) -> (r: Result<(RebalanceMode, usize), Error>) {
        let (n, end) = i32::read_wire(buf, pos)?;
        match RebalanceMode::from_ordinal(n) {
            Some(m) => Ok((m, end)),
            None => {
                proof {
                    assert forall|v: RebalanceMode, e: int|
                        #![trigger v.wire(), buf@.subrange(pos as int, e)]
                        pos <= e <= buf@.len() && v.wire_ok() && buf@.subrange(pos as int, e)
                            == v.wire() implies false by {
                        lemma_le_i32_injective(n, v.spec_ordinal());
                        match v {
                            _ => {},
                        }
                    }
                }
                Err(Error::codec("unknown ordinal"))
            },
        }
    }
}

/// Which copies a write waits for. On the wire it is its ordinal, a 32-bit integer.
#[derive(PartialEq, Eq, Structural, Debug, Clone, Copy)]
pub enum WriteSynchronizationMode {
    FullSync,
    FullAsync,
    PrimarySync,
}

impl WriteSynchronizationMode {
    pub open spec fn spec_ordinal(self) -> i32 {
        match self {
            WriteSynchronizationMode::FullSync => 0,
            WriteSynchronizationMode::FullAsync => 1,
            WriteSynchronizationMode::PrimarySync => 2,
        }
    }

    pub fn ordinal(&self) -> (r: i32)
        ensures
            r == self.spec_ordinal(),
    {
        match self {
            WriteSynchronizationMode::FullSync => 0,
            WriteSynchronizationMode::FullAsync => 1,
            WriteSynchronizationMode::PrimarySync => 2,
        }
    }

    pub open spec fn spec_from_ordinal(n: i32) -> Option<WriteSynchronizationMode> {
        if n == 0 {
            Some(WriteSynchronizationMode::FullSync)
        } else if n == 1 {
            Some(WriteSynchronizationMode::FullAsync)
        } else if n == 2 {
            Some(WriteSynchronizationMode::PrimarySync)
        } else {
            None
        }
    }

    pub fn from_ordinal(n: i32) -> (r: Option<WriteSynchronizationMode>)
        ensures
            r == Self::spec_from_ordinal(n),
            r matches Some(m) ==> m.spec_ordinal() == n,
    {
        if n == 0 {
            Some(WriteSynchronizationMode::FullSync)
        } else if n == 1 {
            Some(WriteSynchronizationMode::FullAsync)
        } else if n == 2 {
            Some(WriteSynchronizationMode::PrimarySync)
        } else {
            None
        }
    }
}

impl WireRecord for WriteSynchronizationMode {
    open spec fn wire(&self) -> Seq<u8> {
        self.spec_ordinal().wire()
    }

    open spec fn wire_ok(&self) -> bool {
        true
    }

    fn check_wire(&self) -> (b: bool) {
        true
    }

    fn write_wire(&self, out: &mut Vec<u8>) {
        put_i32_le(out, self.ordinal());
    }

    fn read_wire(buf: &Vec<u8>, pos: usize) -> (r: Result<(WriteSynchronizationMode, usize), Error>) {
        let (n, end) = i32::read_wire(buf, pos)?;
        match WriteSynchronizationMode::from_ordinal(n) {
            Some(m) => Ok((m, end)),
            None => {
                proof {
                    assert forall|v: WriteSynchronizationMode, e: int|
                        #![trigger v.wire(), buf@.subrange(pos as int, e)]
                        pos <= e <= buf@.len() && v.wire_ok() && buf@.subrange(pos as int, e)
                            == v.wire() implies false by {
                        lemma_le_i32_injective(n, v.spec_ordinal());
                        match v {
                            _ => {},
                        }
                    }
                }
                Err(Error::codec("unknown ordinal"))
            },
        }
    }
}

/// The kind of a query index. On the wire it is its ordinal, a 32-bit integer.
#[derive(PartialEq, Eq, Structural, Debug, Clone, Copy)]
pub enum IndexType {
    Sorted,
    FullText,
    Geospatial,
}

impl IndexType {
    pub open spec fn spec_ordinal(self) -> i32 {
        match self {
            IndexType::Sorted => 0,
            IndexType::FullText => 1,
            IndexType::Geospatial => 2,
        }
    }

    pub fn ordinal(&self) -> (r: i32)
        ensures
            r == self.spec_ordinal(),
    {
        match self {
            IndexType::Sorted => 0,
            IndexType::FullText => 1,
            IndexType::Geospatial => 2,
        }
    }

    pub open spec fn spec_from_ordinal(n: i32) -> Option<IndexType> {
        if n == 0 {
            Some(IndexType::Sorted)
        } else if n == 1 {
            Some(IndexType::FullText)
        } else if n == 2 {
            Some(IndexType::Geospatial)
        } else {
            None
        }
    }

    pub fn from_ordinal(n: i32) -> (r: Option<IndexType>)
        ensures
            r == Self::spec_from_ordinal(n),
            r matches Some(m) ==> m.spec_ordinal() == n,
    {
        if n == 0 {
            Some(IndexType::Sorted)
        } else if n == 1 {
            Some(IndexType::FullText)
        } else if n == 2 {
            Some(IndexType::Geospatial)
        } else {
            None
        }
    }
}

impl WireRecord for IndexType {
    open spec fn wire(&self) -> Seq<u8> {
        self.spec_ordinal().wire()
    }

    open spec fn wire_ok(&self) -> bool {
        true
    }

    fn check_wire(&self) -> (b: bool) {
        true
    }

    fn write_wire(&self, out: &mut Vec<u8>) {
        put_i32_le(out, self.ordinal());
    }

    fn read_wire(buf: &Vec<u8>, pos: usize) -> (r: Result<(IndexType, usize), Error>) {
        let (n, end) = i32::read_wire(buf, pos)?;
        match IndexType::from_ordinal(n) {
            Some(m) => Ok((m, end)),
            None => {
                proof {
                    assert forall|v: IndexType, e: int|
                        #![trigger v.wire(), buf@.subrange(pos as int, e)]
                        pos <= e <= buf@.len() && v.wire_ok() && buf@.subrange(pos as int, e)
                            == v.wire() implies false by {
                        lemma_le_i32_injective(n, v.spec_ordinal());
                        match v {
                            _ => {},
                        }
                    }
                }
                Err(Error::codec("unknown ordinal"))
            },
        }
    }
}

/// Which field of a type carries the affinity key.
#[derive(Debug)]
pub struct CacheKeyConfiguration {
    pub key_type: String,
    pub affinity_key_field_name: String,
}

impl CacheKeyConfiguration {
    pub fn new(key_type: &str, affinity_key_field_name: &str) -> (c: CacheKeyConfiguration)
        ensures
            c.key_type@ == key_type@,
            c.affinity_key_field_name@ == affinity_key_field_name@,
    {
        CacheKeyConfiguration {
            key_type: key_type.to_string(),
            affinity_key_field_name: affinity_key_field_name.to_string(),
        }
    }
}

impl WireRecord for CacheKeyConfiguration {
    open spec fn wire(&self) -> Seq<u8> {
        (self.key_type, self.affinity_key_field_name).wire()
    }

    open spec fn wire_ok(&self) -> bool {
        (self.key_type, self.affinity_key_field_name).wire_ok()
    }

    fn check_wire(&self) -> (b: bool) {
        self.key_type.check_wire() && self.affinity_key_field_name.check_wire()
    }

    fn write_wire(&self, out: &mut Vec<u8>) {
        self.key_type.write_wire(out);
        self.affinity_key_field_name.write_wire(out);
        assert(out@ =~= old(out)@ + self.wire());
    }

    fn read_wire(buf: &Vec<u8>, pos: usize) -> (r: Result<(CacheKeyConfiguration, usize), Error>) {
        let ((key_type, affinity_key_field_name), end) = <(String, String)>::read_wire(buf, pos)?;
        Ok((CacheKeyConfiguration { key_type, affinity_key_field_name }, end))
    }
}

/// A field of a query entity.
#[derive(Debug)]
pub struct QueryField {
    pub name: String,
    pub field_type: String,
    pub key_field: bool,
    pub not_null: bool,
    pub default_value: Option<Value>,
}

impl QueryField {
    pub fn new(name: &str, field_type: &str, key_field: bool, not_null: bool) -> (f: QueryField)
        ensures
            f.name@ == name@,
            f.field_type@ == field_type@,
            f.key_field == key_field,
            f.not_null == not_null,
            f.default_value is None,
    {
        QueryField {
            name: name.to_string(),
            field_type: field_type.to_string(),
            key_field,
            not_null,
            default_value: None,
        }
    }

    pub fn default_value(self, default_value: Value) -> (f: QueryField)
        ensures
            f.default_value == Some(default_value),
            f == (QueryField { default_value: f.default_value, ..self }),
    {
        QueryField { default_value: Some(default_value), ..self }
    }
}

impl WireRecord for QueryField {
    open spec fn wire(&self) -> Seq<u8> {
        (self.name, (self.field_type, (self.key_field, (self.not_null, self.default_value)))).wire()
    }

    open spec fn wire_ok(&self) -> bool {
        (self.name, (self.field_type, (self.key_field, (self.not_null, self.default_value)))).wire_ok()
    }

    fn check_wire(&self) -> (b: bool) {
        self.name.check_wire() && self.field_type.check_wire() && self.key_field.check_wire() && self.not_null.check_wire() && self.default_value.check_wire()
    }

    fn write_wire(&self, out: &mut Vec<u8>) {
        self.name.write_wire(out);
        self.field_type.write_wire(out);
        self.key_field.write_wire(out);
        self.not_null.write_wire(out);
        self.default_value.write_wire(out);
        assert(out@ =~= old(out)@ + self.wire());
    }

    fn read_wire(buf: &Vec<u8>, pos: usize) -> (r: Result<(QueryField, usize), Error>) {
        let ((name, (field_type, (key_field, (not_null, default_value)))), end) = <(String, (String, (bool, (bool, Option<Value>))))>::read_wire(buf, pos)?;
        Ok((QueryField { name, field_type, key_field, not_null, default_value }, end))
    }
}

/// An index over fields of a query entity.
#[derive(Debug)]
pub struct QueryIndex {
    pub index_name: String,
    pub index_type: IndexType,
    pub inline_size: i32,
    pub fields: Vec<(String, bool)>,
}

/// The inline size a new index starts with.
pub const DEFAULT_INLINE_SIZE: i32 = 10;

impl QueryIndex {
    pub fn new(index_name: &str, index_type: IndexType) -> (i: QueryIndex)
        ensures
            i.index_name@ == index_name@,
            i.index_type == index_type,
            i.inline_size == DEFAULT_INLINE_SIZE,
            i.fields@.len() == 0,
    {
        QueryIndex {
            index_name: index_name.to_string(),
            index_type,
            inline_size: DEFAULT_INLINE_SIZE,
            fields: Vec::new(),
        }
    }

    /// Adds a field to the index, sorted descending when `desc` holds.
    pub fn field(self, name: &str, desc: bool) -> (i: QueryIndex)
        ensures
            i.fields@.len() == self.fields@.len() + 1,
            i.fields@.take(self.fields@.len() as int) == self.fields@,
            i.fields@.last().0@ == name@,
            i.fields@.last().1 == desc,
            i == (QueryIndex { fields: i.fields, ..self }),
    {
        let mut i = self;
        i.fields.push((name.to_string(), desc));
        assert(i.fields@.take(self.fields@.len() as int) =~= self.fields@);
        i
    }
}

impl WireRecord for QueryIndex {
    open spec fn wire(&self) -> Seq<u8> {
        (self.index_name, (self.index_type, (self.inline_size, self.fields))).wire()
    }

    open spec fn wire_ok(&self) -> bool {
        (self.index_name, (self.index_type, (self.inline_size, self.fields))).wire_ok()
    }

    fn check_wire(&self) -> (b: bool) {
        self.index_name.check_wire() && self.index_type.check_wire() && self.inline_size.check_wire() && self.fields.check_wire()
    }

    fn write_wire(&self, out: &mut Vec<u8>) {
        self.index_name.write_wire(out);
        self.index_type.write_wire(out);
        self.inline_size.write_wire(out);
        self.fields.write_wire(out);
        assert(out@ =~= old(out)@ + self.wire());
    }

    fn read_wire(buf: &Vec<u8>, pos: usize) -> (r: Result<(QueryIndex, usize), Error>) {
        let ((index_name, (index_type, (inline_size, fields))), end) = <(String, (IndexType, (i32, Vec<(String, bool)>)))>::read_wire(buf, pos)?;
        Ok((QueryIndex { index_name, index_type, inline_size, fields }, end))
    }
}

/// A type that queries can see as a table.
#[derive(Debug)]
pub struct QueryEntity {
    pub key_type_name: String,
    pub value_type_name: String,
    pub table_name: String,
    pub key_field_name: Option<String>,
    pub value_field_name: Option<String>,
    pub fields: Vec<QueryField>,
    pub aliases: Vec<(String, String)>,
    pub indexes: Vec<QueryIndex>,
}

impl QueryEntity {
    pub fn new(key_type_name: &str, value_type_name: &str, table_name: &str) -> (e: QueryEntity)
        ensures
            e.key_type_name@ == key_type_name@,
            e.value_type_name@ == value_type_name@,
            e.table_name@ == table_name@,
            e.key_field_name is None,
            e.value_field_name is None,
            e.fields@.len() == 0,
            e.aliases@.len() == 0,
            e.indexes@.len() == 0,
    {
        QueryEntity {
            key_type_name: key_type_name.to_string(),
            value_type_name: value_type_name.to_string(),
            table_name: table_name.to_string(),
            key_field_name: None,
            value_field_name: None,
            fields: Vec::new(),
            aliases: Vec::new(),
            indexes: Vec::new(),
        }
    }

    pub fn key_field_name(self, key_field_name: &str) -> (e: QueryEntity)
        ensures
            opt_chars(e.key_field_name) == Some(key_field_name@),
            e == (QueryEntity { key_field_name: e.key_field_name, ..self }),
    {
        QueryEntity { key_field_name: Some(key_field_name.to_string()), ..self }
    }

    pub fn value_field_name(self, value_field_name: &str) -> (e: QueryEntity)
        ensures
            opt_chars(e.value_field_name) == Some(value_field_name@),
            e == (QueryEntity { value_field_name: e.value_field_name, ..self }),
    {
        QueryEntity { value_field_name: Some(value_field_name.to_string()), ..self }
    }

    pub fn field(self, field: QueryField) -> (e: QueryEntity)
        ensures
            e.fields@ == self.fields@.push(field),
            e == (QueryEntity { fields: e.fields, ..self }),
    {
        let mut e = self;
        e.fields.push(field);
        e
    }

    pub fn alias(self, field_name: &str, alias: &str) -> (e: QueryEntity)
        ensures
            e.aliases@.len() == self.aliases@.len() + 1,
            e.aliases@.take(self.aliases@.len() as int) == self.aliases@,
            e.aliases@.last().0@ == field_name@,
            e.aliases@.last().1@ == alias@,
            e == (QueryEntity { aliases: e.aliases, ..self }),
    {
        let mut e = self;
        e.aliases.push((field_name.to_string(), alias.to_string()));
        assert(e.aliases@.take(self.aliases@.len() as int) =~= self.aliases@);
        e
    }

    pub fn index(self, index: QueryIndex) -> (e: QueryEntity)
        ensures
            e.indexes@ == self.indexes@.push(index),
            e == (QueryEntity { indexes: e.indexes, ..self }),
    {
        let mut e = self;
        e.indexes.push(index);
        e
    }
}

impl WireRecord for QueryEntity {
    open spec fn wire(&self) -> Seq<u8> {
        (self.key_type_name, (self.value_type_name, (self.table_name, (self.key_field_name, (self.value_field_name, (self.fields, (self.aliases, self.indexes))))))).wire()
    }

    open spec fn wire_ok(&self) -> bool {
        (self.key_type_name, (self.value_type_name, (self.table_name, (self.key_field_name, (self.value_field_name, (self.fields, (self.aliases, self.indexes))))))).wire_ok()
    }

    fn check_wire(&self) -> (b: bool) {
        self.key_type_name.check_wire() && self.value_type_name.check_wire() && self.table_name.check_wire() && self.key_field_name.check_wire() && self.value_field_name.check_wire() && self.fields.check_wire() && self.aliases.check_wire() && self.indexes.check_wire()
    }

    fn write_wire(&self, out: &mut Vec<u8>) {
        self.key_type_name.write_wire(out);
        self.value_type_name.write_wire(out);
        self.table_name.write_wire(out);
        self.key_field_name.write_wire(out);
        self.value_field_name.write_wire(out);
        self.fields.write_wire(out);
        self.aliases.write_wire(out);
        self.indexes.write_wire(out);
        assert(out@ =~= old(out)@ + self.wire());
    }

    fn read_wire(buf: &Vec<u8>, pos: usize) -> (r: Result<(QueryEntity, usize), Error>) {
        let ((key_type_name, (value_type_name, (table_name, (key_field_name, (value_field_name, (fields, (aliases, indexes))))))), end) = <(String, (String, (String, (Option<String>, (Option<String>, (Vec<QueryField>, (Vec<(String, String)>, Vec<QueryIndex>)))))))>::read_wire(buf, pos)?;
        Ok((QueryEntity { key_type_name, value_type_name, table_name, key_field_name, value_field_name, fields, aliases, indexes }, end))
    }
}

/// How the server keeps one cache.
#[derive(Debug)]
pub struct CacheConfiguration {
    pub atomicity_mode: AtomicityMode,
    pub backups: i32,
    pub mode: CacheMode,
    pub copy_on_read: bool,
    pub data_region_name: Option<String>,
    pub eager_ttl: bool,
    pub statistics_enabled: bool,
    pub group_name: Option<String>,
    pub default_lock_timeout: i64,
    pub max_concurrent_async_operations: i32,
    pub max_query_iterators: i32,
    pub name: String,
    pub on_heap_cache_enabled: bool,
    pub partition_loss_policy: PartitionLossPolicy,
    pub query_detail_metrics_size: i32,
    pub query_parallelism: i32,
    pub read_from_backup: bool,
    pub rebalance_batch_size: i32,
    pub rebalance_batch_prefetch_count: i64,
    pub rebalance_delay: i64,
    pub rebalance_mode: RebalanceMode,
    pub rebalance_order: i32,
    pub rebalance_throttle: i64,
    pub rebalance_timeout: i64,
    pub sql_escape_all: bool,
    pub sql_index_inline_max_size: i32,
    pub sql_schema: Option<String>,
    pub write_synchronization_mode: WriteSynchronizationMode,
    pub cache_key_configurations: Vec<CacheKeyConfiguration>,
    pub query_entities: Vec<QueryEntity>,
}

/// How many properties a written configuration carries.
pub const PROPERTY_COUNT: i16 = 30;

pub open spec fn config_properties_first_head(c: CacheConfiguration) -> Seq<u8> {
    le_i16(2) + le_i32(c.atomicity_mode.spec_ordinal())
        + le_i16(3) + le_i32(c.backups)
        + le_i16(1) + le_i32(c.mode.spec_ordinal())
        + le_i16(5) + bool_wire(c.copy_on_read)
        + le_i16(100) + opt_str_wire(opt_chars(c.data_region_name))
}

pub open spec fn config_properties_first_tail(c: CacheConfiguration) -> Seq<u8> {
    le_i16(405) + bool_wire(c.eager_ttl)
        + le_i16(406) + bool_wire(c.statistics_enabled)
        + le_i16(400) + opt_str_wire(opt_chars(c.group_name))
        + le_i16(402) + le_i64(c.default_lock_timeout)
        + le_i16(403) + le_i32(c.max_concurrent_async_operations)
}

pub open spec fn config_properties_first(c: CacheConfiguration) -> Seq<u8> {
    config_properties_first_head(c) + config_properties_first_tail(c)
}

pub open spec fn config_properties_middle(c: CacheConfiguration) -> Seq<u8> {
    le_i16(206) + le_i32(c.max_query_iterators)
        + le_i16(0) + str_wire(c.name@)
        + le_i16(101) + bool_wire(c.on_heap_cache_enabled)
        + le_i16(404) + le_i32(c.partition_loss_policy.spec_ordinal())
        + le_i16(202) + le_i32(c.query_detail_metrics_size)
        + le_i16(201) + le_i32(c.query_parallelism)
        + le_i16(6) + bool_wire(c.read_from_backup)
        + le_i16(303) + le_i32(c.rebalance_batch_size)
        + le_i16(304) + le_i64(c.rebalance_batch_prefetch_count)
        + le_i16(301) + le_i64(c.rebalance_delay)
}

pub open spec fn config_properties_last(c: CacheConfiguration) -> Seq<u8> {
    le_i16(300) + le_i32(c.rebalance_mode.spec_ordinal())
        + le_i16(305) + le_i32(c.rebalance_order)
        + le_i16(306) + le_i64(c.rebalance_throttle)
        + le_i16(302) + le_i64(c.rebalance_timeout)
        + le_i16(205) + bool_wire(c.sql_escape_all)
        + le_i16(204) + le_i32(c.sql_index_inline_max_size)
        + le_i16(203) + opt_str_wire(opt_chars(c.sql_schema))
        + le_i16(4) + le_i32(c.write_synchronization_mode.spec_ordinal())
        + le_i16(401) + counted_wire(c.cache_key_configurations@)
        + le_i16(200) + counted_wire(c.query_entities@)
}

/// The properties of a configuration, each its property code and then its
/// value: scalars raw, strings and lists in their own wire forms.
pub open spec fn config_properties(c: CacheConfiguration) -> Seq<u8> {
    config_properties_first(c) + config_properties_middle(c) + config_properties_last(c)
}

/// Whether every property of `c` has a wire form.
pub open spec fn config_ok(c: CacheConfiguration) -> bool {
    opt_str_ok(opt_chars(c.data_region_name))
        && opt_str_ok(opt_chars(c.group_name))
        && str_ok(c.name@)
        && opt_str_ok(opt_chars(c.sql_schema))
        && counted_ok(c.cache_key_configurations@)
        && counted_ok(c.query_entities@)
}

/// A written configuration: the length of what follows, the property
/// count, then the properties.
pub open spec fn config_wire(c: CacheConfiguration) -> Seq<u8> {
    le_i32((2 + config_properties(c).len()) as i32) + le_i16(PROPERTY_COUNT) + config_properties(c)
}

/// The fields of a configuration, in declaration order, as pairs, in
/// groups.
pub type SettingFields = (AtomicityMode, (i32, (CacheMode, (bool, (Option<String>, (bool, bool))))));

pub type LimitFields = (Option<String>, (i64, (i32, (i32, (String, (bool, PartitionLossPolicy))))));

pub type RebalanceFields = (i32, (i32, (bool, (i32, (i64, (i64, RebalanceMode))))));

pub type SqlFields = (i32, (i64, (i64, (bool, (i32, (Option<String>, WriteSynchronizationMode))))));

pub type ConfigurationFields = (SettingFields, (LimitFields, (RebalanceFields, (SqlFields, (Vec<CacheKeyConfiguration>, Vec<QueryEntity>)))));

pub open spec fn config_fields(c: CacheConfiguration) -> ConfigurationFields {
    ((c.atomicity_mode, (c.backups, (c.mode, (c.copy_on_read, (c.data_region_name, (c.eager_ttl, c.statistics_enabled)))))), ((c.group_name, (c.default_lock_timeout, (c.max_concurrent_async_operations, (c.max_query_iterators, (c.name, (c.on_heap_cache_enabled, c.partition_loss_policy)))))), ((c.query_detail_metrics_size, (c.query_parallelism, (c.read_from_backup, (c.rebalance_batch_size, (c.rebalance_batch_prefetch_count, (c.rebalance_delay, c.rebalance_mode)))))), ((c.rebalance_order, (c.rebalance_throttle, (c.rebalance_timeout, (c.sql_escape_all, (c.sql_index_inline_max_size, (c.sql_schema, c.write_synchronization_mode)))))), (c.cache_key_configurations, c.query_entities)))))
}

/// A configuration as the server sends it: its fields one after another,
/// in declaration order.
pub open spec fn config_fields_wire(c: CacheConfiguration) -> Seq<u8> {
    config_fields(c).wire()
}

pub open spec fn config_fields_ok(c: CacheConfiguration) -> bool {
    config_fields(c).wire_ok()
}

impl CacheConfiguration {
    /// The configuration the server gives a new cache of this name.
    pub fn default(name: &str) -> (c: CacheConfiguration)
        ensures
            c.atomicity_mode == AtomicityMode::Atomic,
            c.backups == 0,
            c.mode == CacheMode::Partitioned,
            c.copy_on_read == true,
            c.data_region_name is None,
            c.eager_ttl == true,
            c.statistics_enabled == false,
            c.group_name is None,
            c.default_lock_timeout == 0,
            c.max_concurrent_async_operations == 500,
            c.max_query_iterators == 1024,
            c.name@ == name@,
            c.on_heap_cache_enabled == false,
            c.partition_loss_policy == PartitionLossPolicy::Ignore,
            c.query_detail_metrics_size == 0,
            c.query_parallelism == 1,
            c.read_from_backup == true,
            c.rebalance_batch_size == 524288,
            c.rebalance_batch_prefetch_count == 3,
            c.rebalance_delay == 0,
            c.rebalance_mode == RebalanceMode::Async,
            c.rebalance_order == 0,
            c.rebalance_throttle == 0,
            c.rebalance_timeout == 10000,
            c.sql_escape_all == false,
            c.sql_index_inline_max_size == -1,
            c.sql_schema is None,
            c.write_synchronization_mode == WriteSynchronizationMode::PrimarySync,
            c.cache_key_configurations@.len() == 0,
            c.query_entities@.len() == 0,
    {
        CacheConfiguration {
            atomicity_mode: AtomicityMode::Atomic,
            backups: 0,
            mode: CacheMode::Partitioned,
            copy_on_read: true,
            data_region_name: None,
            eager_ttl: true,
            statistics_enabled: false,
            group_name: None,
            default_lock_timeout: 0,
            max_concurrent_async_operations: 500,
            max_query_iterators: 1024,
            name: name.to_string(),
            on_heap_cache_enabled: false,
            partition_loss_policy: PartitionLossPolicy::Ignore,
            query_detail_metrics_size: 0,
            query_parallelism: 1,
            read_from_backup: true,
            rebalance_batch_size: 524288,
            rebalance_batch_prefetch_count: 3,
            rebalance_delay: 0,
            rebalance_mode: RebalanceMode::Async,
            rebalance_order: 0,
            rebalance_throttle: 0,
            rebalance_timeout: 10000,
            sql_escape_all: false,
            sql_index_inline_max_size: -1,
            sql_schema: None,
            write_synchronization_mode: WriteSynchronizationMode::PrimarySync,
            cache_key_configurations: Vec::new(),
            query_entities: Vec::new(),
        }
    }

    pub fn atomicity_mode(self, atomicity_mode: AtomicityMode) -> (c: CacheConfiguration)
        ensures
            c == (CacheConfiguration { atomicity_mode, ..self }),
    {
        CacheConfiguration { atomicity_mode, ..self }
    }
    pub fn backups(self, backups: i32) -> (c: CacheConfiguration)
        ensures
            c == (CacheConfiguration { backups, ..self }),
    {
        CacheConfiguration { backups, ..self }
    }
    pub fn mode(self, mode: CacheMode) -> (c: CacheConfiguration)
        ensures
            c == (CacheConfiguration { mode, ..self }),
    {
        CacheConfiguration { mode, ..self }
    }
    pub fn copy_on_read(self, copy_on_read: bool) -> (c: CacheConfiguration)
        ensures
            c == (CacheConfiguration { copy_on_read, ..self }),
    {
        CacheConfiguration { copy_on_read, ..self }
    }
    pub fn data_region_name(self, data_region_name: &str) -> (c: CacheConfiguration)
        ensures
            opt_chars(c.data_region_name) == Some(data_region_name@),
            c == (CacheConfiguration { data_region_name: c.data_region_name, ..self }),
    {
        CacheConfiguration { data_region_name: Some(data_region_name.to_string()), ..self }
    }
    pub fn eager_ttl(self, eager_ttl: bool) -> (c: CacheConfiguration)
        ensures
            c == (CacheConfiguration { eager_ttl, ..self }),
    {
        CacheConfiguration { eager_ttl, ..self }
    }
    pub fn statistics_enabled(self, statistics_enabled: bool) -> (c: CacheConfiguration)
        ensures
            c == (CacheConfiguration { statistics_enabled, ..self }),
    {
        CacheConfiguration { statistics_enabled, ..self }
    }
    pub fn group_name(self, group_name: &str) -> (c: CacheConfiguration)
        ensures
            opt_chars(c.group_name) == Some(group_name@),
            c == (CacheConfiguration { group_name: c.group_name, ..self }),
    {
        CacheConfiguration { group_name: Some(group_name.to_string()), ..self }
    }
    pub fn default_lock_timeout(self, default_lock_timeout: i64) -> (c: CacheConfiguration)
        ensures
            c == (CacheConfiguration { default_lock_timeout, ..self }),
    {
        CacheConfiguration { default_lock_timeout, ..self }
    }
    pub fn max_concurrent_async_operations(self, max_concurrent_async_operations: i32) -> (c: CacheConfiguration)
        ensures
            c == (CacheConfiguration { max_concurrent_async_operations, ..self }),
    {
        CacheConfiguration { max_concurrent_async_operations, ..self }
    }
    pub fn max_query_iterators(self, max_query_iterators: i32) -> (c: CacheConfiguration)
        ensures
            c == (CacheConfiguration { max_query_iterators, ..self }),
    {
        CacheConfiguration { max_query_iterators, ..self }
    }
    pub fn on_heap_cache_enabled(self, on_heap_cache_enabled: bool) -> (c: CacheConfiguration)
        ensures
            c == (CacheConfiguration { on_heap_cache_enabled, ..self }),
    {
        CacheConfiguration { on_heap_cache_enabled, ..self }
    }
    pub fn partition_loss_policy(self, partition_loss_policy: PartitionLossPolicy) -> (c: CacheConfiguration)
        ensures
            c == (CacheConfiguration { partition_loss_policy, ..self }),
    {
        CacheConfiguration { partition_loss_policy, ..self }
    }
    pub fn query_detail_metrics_size(self, query_detail_metrics_size: i32) -> (c: CacheConfiguration)
        ensures
            c == (CacheConfiguration { query_detail_metrics_size, ..self }),
    {
        CacheConfiguration { query_detail_metrics_size, ..self }
    }
    pub fn query_parallelism(self, query_parallelism: i32) -> (c: CacheConfiguration)
        ensures
            c == (CacheConfiguration { query_parallelism, ..self }),
    {
        CacheConfiguration { query_parallelism, ..self }
    }
    pub fn read_from_backup(self, read_from_backup: bool) -> (c: CacheConfiguration)
        ensures
            c == (CacheConfiguration { read_from_backup, ..self }),
    {
        CacheConfiguration { read_from_backup, ..self }
    }
    pub fn rebalance_batch_size(self, rebalance_batch_size: i32) -> (c: CacheConfiguration)
        ensures
            c == (CacheConfiguration { rebalance_batch_size, ..self }),
    {
        CacheConfiguration { rebalance_batch_size, ..self }
    }
    pub fn rebalance_batch_prefetch_count(self, rebalance_batch_prefetch_count: i64) -> (c: CacheConfiguration)
        ensures
            c == (CacheConfiguration { rebalance_batch_prefetch_count, ..self }),
    {
        CacheConfiguration { rebalance_batch_prefetch_count, ..self }
    }
    pub fn rebalance_delay(self, rebalance_delay: i64) -> (c: CacheConfiguration)
        ensures
            c == (CacheConfiguration { rebalance_delay, ..self }),
    {
        CacheConfiguration { rebalance_delay, ..self }
    }
    pub fn rebalance_mode(self, rebalance_mode: RebalanceMode) -> (c: CacheConfiguration)
        ensures
            c == (CacheConfiguration { rebalance_mode, ..self }),
    {
        CacheConfiguration { rebalance_mode, ..self }
    }
    pub fn rebalance_order(self, rebalance_order: i32) -> (c: CacheConfiguration)
        ensures
            c == (CacheConfiguration { rebalance_order, ..self }),
    {
        CacheConfiguration { rebalance_order, ..self }
    }
    pub fn rebalance_throttle(self, rebalance_throttle: i64) -> (c: CacheConfiguration)
        ensures
            c == (CacheConfiguration { rebalance_throttle, ..self }),
    {
        CacheConfiguration { rebalance_throttle, ..self }
    }
    pub fn rebalance_timeout(self, rebalance_timeout: i64) -> (c: CacheConfiguration)
        ensures
            c == (CacheConfiguration { rebalance_timeout, ..self }),
    {
        CacheConfiguration { rebalance_timeout, ..self }
    }
    pub fn sql_escape_all(self, sql_escape_all: bool) -> (c: CacheConfiguration)
        ensures
            c == (CacheConfiguration { sql_escape_all, ..self }),
    {
        CacheConfiguration { sql_escape_all, ..self }
    }
    pub fn sql_index_inline_max_size(self, sql_index_inline_max_size: i32) -> (c: CacheConfiguration)
        ensures
            c == (CacheConfiguration { sql_index_inline_max_size, ..self }),
    {
        CacheConfiguration { sql_index_inline_max_size, ..self }
    }
    pub fn sql_schema(self, sql_schema: &str) -> (c: CacheConfiguration)
        ensures
            opt_chars(c.sql_schema) == Some(sql_schema@),
            c == (CacheConfiguration { sql_schema: c.sql_schema, ..self }),
    {
        CacheConfiguration { sql_schema: Some(sql_schema.to_string()), ..self }
    }
    pub fn write_synchronization_mode(self, write_synchronization_mode: WriteSynchronizationMode) -> (c: CacheConfiguration)
        ensures
            c == (CacheConfiguration { write_synchronization_mode, ..self }),
    {
        CacheConfiguration { write_synchronization_mode, ..self }
    }
    /// Adds a key configuration.
    pub fn cache_key_configuration(self, cache_key_configuration: CacheKeyConfiguration) -> (c:
        CacheConfiguration)
        ensures
            c.cache_key_configurations@ == self.cache_key_configurations@.push(
                cache_key_configuration,
            ),
            c == (CacheConfiguration { cache_key_configurations: c.cache_key_configurations, ..self }),
    {
        let mut c = self;
        c.cache_key_configurations.push(cache_key_configuration);
        c
    }

    /// Adds a query entity.
    pub fn query_entity(self, query_entity: QueryEntity) -> (c: CacheConfiguration)
        ensures
            c.query_entities@ == self.query_entities@.push(query_entity),
            c == (CacheConfiguration { query_entities: c.query_entities, ..self }),
    {
        let mut c = self;
        c.query_entities.push(query_entity);
        c
    }

    fn write_properties_first_head(&self, props: &mut Vec<u8>)
        requires
            config_ok(*self),
        ensures
            final(props)@ == old(props)@ + config_properties_first_head(*self),
    {
        put_i16_le(props, 2);
        put_i32_le(props, self.atomicity_mode.ordinal());
        put_i16_le(props, 3);
        put_i32_le(props, self.backups);
        put_i16_le(props, 1);
        put_i32_le(props, self.mode.ordinal());
        put_i16_le(props, 5);
        write_bool(props, self.copy_on_read);
        put_i16_le(props, 100);
        write_opt_str(props, &self.data_region_name);
        assert(props@ =~= old(props)@ + config_properties_first_head(*self));
    }

    fn write_properties_first_tail(&self, props: &mut Vec<u8>)
        requires
            config_ok(*self),
        ensures
            final(props)@ == old(props)@ + config_properties_first_tail(*self),
    {
        put_i16_le(props, 405);
        write_bool(props, self.eager_ttl);
        put_i16_le(props, 406);
        write_bool(props, self.statistics_enabled);
        put_i16_le(props, 400);
        write_opt_str(props, &self.group_name);
        put_i16_le(props, 402);
        put_i64_le(props, self.default_lock_timeout);
        put_i16_le(props, 403);
        put_i32_le(props, self.max_concurrent_async_operations);
        assert(props@ =~= old(props)@ + config_properties_first_tail(*self));
    }

    fn write_properties_first(&self, props: &mut Vec<u8>)
        requires
            config_ok(*self),
        ensures
            final(props)@ == old(props)@ + config_properties_first(*self),
    {
        self.write_properties_first_head(props);
        self.write_properties_first_tail(props);
        assert(props@ =~= old(props)@ + config_properties_first(*self));
    }

    #[verifier::rlimit(100)]
    #[verifier::spinoff_prover]
    fn write_properties_middle(&self, props: &mut Vec<u8>)
        requires
            config_ok(*self),
        ensures
            final(props)@ == old(props)@ + config_properties_middle(*self),
    {
        let ghost start = props@;
        put_i16_le(props, 206);
        put_i32_le(props, self.max_query_iterators);
        assert(props@ =~= start + ((le_i16(206) + le_i32(self.max_query_iterators))));
        put_i16_le(props, 0);
        write_str(props, &self.name);
        assert(props@ =~= start + ((le_i16(206) + le_i32(self.max_query_iterators)) + (le_i16(0) + str_wire(self.name@))));
        put_i16_le(props, 101);
        write_bool(props, self.on_heap_cache_enabled);
        assert(props@ =~= start + ((le_i16(206) + le_i32(self.max_query_iterators)) + (le_i16(0) + str_wire(self.name@)) + (le_i16(101) + bool_wire(self.on_heap_cache_enabled))));
        put_i16_le(props, 404);
        put_i32_le(props, self.partition_loss_policy.ordinal());
        assert(props@ =~= start + ((le_i16(206) + le_i32(self.max_query_iterators)) + (le_i16(0) + str_wire(self.name@)) + (le_i16(101) + bool_wire(self.on_heap_cache_enabled)) + (le_i16(404) + le_i32(self.partition_loss_policy.spec_ordinal()))));
        put_i16_le(props, 202);
        put_i32_le(props, self.query_detail_metrics_size);
        assert(props@ =~= start + ((le_i16(206) + le_i32(self.max_query_iterators)) + (le_i16(0) + str_wire(self.name@)) + (le_i16(101) + bool_wire(self.on_heap_cache_enabled)) + (le_i16(404) + le_i32(self.partition_loss_policy.spec_ordinal())) + (le_i16(202) + le_i32(self.query_detail_metrics_size))));
        put_i16_le(props, 201);
        put_i32_le(props, self.query_parallelism);
        assert(props@ =~= start + ((le_i16(206) + le_i32(self.max_query_iterators)) + (le_i16(0) + str_wire(self.name@)) + (le_i16(101) + bool_wire(self.on_heap_cache_enabled)) + (le_i16(404) + le_i32(self.partition_loss_policy.spec_ordinal())) + (le_i16(202) + le_i32(self.query_detail_metrics_size)) + (le_i16(201) + le_i32(self.query_parallelism))));
        put_i16_le(props, 6);
        write_bool(props, self.read_from_backup);
        assert(props@ =~= start + ((le_i16(206) + le_i32(self.max_query_iterators)) + (le_i16(0) + str_wire(self.name@)) + (le_i16(101) + bool_wire(self.on_heap_cache_enabled)) + (le_i16(404) + le_i32(self.partition_loss_policy.spec_ordinal())) + (le_i16(202) + le_i32(self.query_detail_metrics_size)) + (le_i16(201) + le_i32(self.query_parallelism)) + (le_i16(6) + bool_wire(self.read_from_backup))));
        put_i16_le(props, 303);
        put_i32_le(props, self.rebalance_batch_size);
        assert(props@ =~= start + ((le_i16(206) + le_i32(self.max_query_iterators)) + (le_i16(0) + str_wire(self.name@)) + (le_i16(101) + bool_wire(self.on_heap_cache_enabled)) + (le_i16(404) + le_i32(self.partition_loss_policy.spec_ordinal())) + (le_i16(202) + le_i32(self.query_detail_metrics_size)) + (le_i16(201) + le_i32(self.query_parallelism)) + (le_i16(6) + bool_wire(self.read_from_backup)) + (le_i16(303) + le_i32(self.rebalance_batch_size))));
        put_i16_le(props, 304);
        put_i64_le(props, self.rebalance_batch_prefetch_count);
        assert(props@ =~= start + ((le_i16(206) + le_i32(self.max_query_iterators)) + (le_i16(0) + str_wire(self.name@)) + (le_i16(101) + bool_wire(self.on_heap_cache_enabled)) + (le_i16(404) + le_i32(self.partition_loss_policy.spec_ordinal())) + (le_i16(202) + le_i32(self.query_detail_metrics_size)) + (le_i16(201) + le_i32(self.query_parallelism)) + (le_i16(6) + bool_wire(self.read_from_backup)) + (le_i16(303) + le_i32(self.rebalance_batch_size)) + (le_i16(304) + le_i64(self.rebalance_batch_prefetch_count))));
        put_i16_le(props, 301);
        put_i64_le(props, self.rebalance_delay);
        assert(props@ =~= start + ((le_i16(206) + le_i32(self.max_query_iterators)) + (le_i16(0) + str_wire(self.name@)) + (le_i16(101) + bool_wire(self.on_heap_cache_enabled)) + (le_i16(404) + le_i32(self.partition_loss_policy.spec_ordinal())) + (le_i16(202) + le_i32(self.query_detail_metrics_size)) + (le_i16(201) + le_i32(self.query_parallelism)) + (le_i16(6) + bool_wire(self.read_from_backup)) + (le_i16(303) + le_i32(self.rebalance_batch_size)) + (le_i16(304) + le_i64(self.rebalance_batch_prefetch_count)) + (le_i16(301) + le_i64(self.rebalance_delay))));
        assert(props@ =~= old(props)@ + config_properties_middle(*self));
    }

    #[verifier::rlimit(100)]
    #[verifier::spinoff_prover]
    fn write_properties_last(&self, props: &mut Vec<u8>)
        requires
            config_ok(*self),
        ensures
            final(props)@ == old(props)@ + config_properties_last(*self),
    {
        let ghost start = props@;
        put_i16_le(props, 300);
        put_i32_le(props, self.rebalance_mode.ordinal());
        assert(props@ =~= start + ((le_i16(300) + le_i32(self.rebalance_mode.spec_ordinal()))));
        put_i16_le(props, 305);
        put_i32_le(props, self.rebalance_order);
        assert(props@ =~= start + ((le_i16(300) + le_i32(self.rebalance_mode.spec_ordinal())) + (le_i16(305) + le_i32(self.rebalance_order))));
        put_i16_le(props, 306);
        put_i64_le(props, self.rebalance_throttle);
        assert(props@ =~= start + ((le_i16(300) + le_i32(self.rebalance_mode.spec_ordinal())) + (le_i16(305) + le_i32(self.rebalance_order)) + (le_i16(306) + le_i64(self.rebalance_throttle))));
        put_i16_le(props, 302);
        put_i64_le(props, self.rebalance_timeout);
        assert(props@ =~= start + ((le_i16(300) + le_i32(self.rebalance_mode.spec_ordinal())) + (le_i16(305) + le_i32(self.rebalance_order)) + (le_i16(306) + le_i64(self.rebalance_throttle)) + (le_i16(302) + le_i64(self.rebalance_timeout))));
        put_i16_le(props, 205);
        write_bool(props, self.sql_escape_all);
        assert(props@ =~= start + ((le_i16(300) + le_i32(self.rebalance_mode.spec_ordinal())) + (le_i16(305) + le_i32(self.rebalance_order)) + (le_i16(306) + le_i64(self.rebalance_throttle)) + (le_i16(302) + le_i64(self.rebalance_timeout)) + (le_i16(205) + bool_wire(self.sql_escape_all))));
        put_i16_le(props, 204);
        put_i32_le(props, self.sql_index_inline_max_size);
        assert(props@ =~= start + ((le_i16(300) + le_i32(self.rebalance_mode.spec_ordinal())) + (le_i16(305) + le_i32(self.rebalance_order)) + (le_i16(306) + le_i64(self.rebalance_throttle)) + (le_i16(302) + le_i64(self.rebalance_timeout)) + (le_i16(205) + bool_wire(self.sql_escape_all)) + (le_i16(204) + le_i32(self.sql_index_inline_max_size))));
        put_i16_le(props, 203);
        write_opt_str(props, &self.sql_schema);
        assert(props@ =~= start + ((le_i16(300) + le_i32(self.rebalance_mode.spec_ordinal())) + (le_i16(305) + le_i32(self.rebalance_order)) + (le_i16(306) + le_i64(self.rebalance_throttle)) + (le_i16(302) + le_i64(self.rebalance_timeout)) + (le_i16(205) + bool_wire(self.sql_escape_all)) + (le_i16(204) + le_i32(self.sql_index_inline_max_size)) + (le_i16(203) + opt_str_wire(opt_chars(self.sql_schema)))));
        put_i16_le(props, 4);
        put_i32_le(props, self.write_synchronization_mode.ordinal());
        assert(props@ =~= start + ((le_i16(300) + le_i32(self.rebalance_mode.spec_ordinal())) + (le_i16(305) + le_i32(self.rebalance_order)) + (le_i16(306) + le_i64(self.rebalance_throttle)) + (le_i16(302) + le_i64(self.rebalance_timeout)) + (le_i16(205) + bool_wire(self.sql_escape_all)) + (le_i16(204) + le_i32(self.sql_index_inline_max_size)) + (le_i16(203) + opt_str_wire(opt_chars(self.sql_schema))) + (le_i16(4) + le_i32(self.write_synchronization_mode.spec_ordinal()))));
        put_i16_le(props, 401);
        write_records(&self.cache_key_configurations, props);
        assert(props@ =~= start + ((le_i16(300) + le_i32(self.rebalance_mode.spec_ordinal())) + (le_i16(305) + le_i32(self.rebalance_order)) + (le_i16(306) + le_i64(self.rebalance_throttle)) + (le_i16(302) + le_i64(self.rebalance_timeout)) + (le_i16(205) + bool_wire(self.sql_escape_all)) + (le_i16(204) + le_i32(self.sql_index_inline_max_size)) + (le_i16(203) + opt_str_wire(opt_chars(self.sql_schema))) + (le_i16(4) + le_i32(self.write_synchronization_mode.spec_ordinal())) + (le_i16(401) + counted_wire(self.cache_key_configurations@))));
        put_i16_le(props, 200);
        write_records(&self.query_entities, props);
        assert(props@ =~= start + ((le_i16(300) + le_i32(self.rebalance_mode.spec_ordinal())) + (le_i16(305) + le_i32(self.rebalance_order)) + (le_i16(306) + le_i64(self.rebalance_throttle)) + (le_i16(302) + le_i64(self.rebalance_timeout)) + (le_i16(205) + bool_wire(self.sql_escape_all)) + (le_i16(204) + le_i32(self.sql_index_inline_max_size)) + (le_i16(203) + opt_str_wire(opt_chars(self.sql_schema))) + (le_i16(4) + le_i32(self.write_synchronization_mode.spec_ordinal())) + (le_i16(401) + counted_wire(self.cache_key_configurations@)) + (le_i16(200) + counted_wire(self.query_entities@))));
        assert(props@ =~= old(props)@ + config_properties_last(*self));
    }

    /// Appends the configuration in its property-coded form. A
    /// configuration without one is refused before anything is written.
    #[verifier::rlimit(100)]
    #[verifier::spinoff_prover]
    pub fn write(&self, out: &mut Vec<u8>) -> (r: Result<(), Error>)
        ensures
            r is Ok <==> config_ok(*self) && 2 + config_properties(*self).len() <= i32::MAX,
            r is Ok ==> final(out)@ == old(out)@ + config_wire(*self),
            r matches Err(e) ==> final(out)@ == old(out)@ && e.kind == ErrorKind::Codec,
    {
        if !(check_opt_str(&self.data_region_name)
            && check_opt_str(&self.group_name)
            && check_str(&self.name)
            && check_opt_str(&self.sql_schema)
            && check_records(&self.cache_key_configurations)
            && check_records(&self.query_entities)) {
            return Err(Error::codec("configuration has no wire form"));
        }
        let mut props: Vec<u8> = Vec::new();
        self.write_properties_first(&mut props);
        self.write_properties_middle(&mut props);
        self.write_properties_last(&mut props);
        assert(props@ =~= config_properties(*self));
        if props.len() > 0x7fff_ffff - 2 {
            return Err(Error::codec("configuration too long"));
        }
        put_i32_le(out, (2 + props.len()) as i32);
        put_i16_le(out, PROPERTY_COUNT);
        put_slice(out, props.as_slice());
        assert(out@ =~= old(out)@ + config_wire(*self));
        Ok(())
    }

    /// Reads a configuration whose fields stand one after another in
    /// declaration order, as the server sends them; returns where they end.
    pub fn read_fields(buf: &Vec<u8>, pos: usize) -> (r: Result<(CacheConfiguration, usize), Error>)
        requires
            pos <= buf@.len(),
        ensures
            r matches Ok((c, end)) ==> pos <= end <= buf@.len() && config_fields_ok(c)
                && buf@.subrange(pos as int, end as int) == config_fields_wire(c),
            forall|c: CacheConfiguration, end: int|
                #![trigger config_fields_wire(c), buf@.subrange(pos as int, end)]
                pos <= end <= buf@.len() && config_fields_ok(c) && buf@.subrange(pos as int, end)
                    == config_fields_wire(c) ==> r is Ok && r->Ok_0.1 == end,
            r matches Err(e) ==> e.kind == ErrorKind::Codec,
    {
        let (((atomicity_mode, (backups, (mode, (copy_on_read, (data_region_name, (eager_ttl, statistics_enabled)))))), ((group_name, (default_lock_timeout, (max_concurrent_async_operations, (max_query_iterators, (name, (on_heap_cache_enabled, partition_loss_policy)))))), ((query_detail_metrics_size, (query_parallelism, (read_from_backup, (rebalance_batch_size, (rebalance_batch_prefetch_count, (rebalance_delay, rebalance_mode)))))), ((rebalance_order, (rebalance_throttle, (rebalance_timeout, (sql_escape_all, (sql_index_inline_max_size, (sql_schema, write_synchronization_mode)))))), (cache_key_configurations, query_entities))))), end) = ConfigurationFields::read_wire(buf, pos)?;
        Ok(
            (
                CacheConfiguration {
                    atomicity_mode,
                    backups,
                    mode,
                    copy_on_read,
                    data_region_name,
                    eager_ttl,
                    statistics_enabled,
                    group_name,
                    default_lock_timeout,
                    max_concurrent_async_operations,
                    max_query_iterators,
                    name,
                    on_heap_cache_enabled,
                    partition_loss_policy,
                    query_detail_metrics_size,
                    query_parallelism,
                    read_from_backup,
                    rebalance_batch_size,
                    rebalance_batch_prefetch_count,
                    rebalance_delay,
                    rebalance_mode,
                    rebalance_order,
                    rebalance_throttle,
                    rebalance_timeout,
                    sql_escape_all,
                    sql_index_inline_max_size,
                    sql_schema,
                    write_synchronization_mode,
                    cache_key_configurations,
                    query_entities,
                },
                end,
            ),
        )
    }
}

} // verus!
