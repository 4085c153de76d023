//! Typed values and their self-describing wire form: a one-byte type code,
//! then a payload whose shape the code fixes.
use vstd::prelude::*;

use crate::buffer::{
    copy_range, from_le16, from_le32, get_u16_le, get_u32_le, le16, le32, le_i16, le_i32,
    lemma_le16, lemma_le32, lemma_signed_casts, put_i16_le, put_i32_le, put_slice, put_u8,
};
use crate::error::{Error, ErrorKind};
use crate::scalar::{
    array_bytes, array_ok, check_array, lemma_parse_array, parse_array, prepend, read_array,
    write_array, RawCodec, Timestamp, Uuid, views,
};

verus! {

broadcast use vstd::seq_lib::group_seq_properties;

pub const TYPE_I8: u8 = 1;
pub const TYPE_I16: u8 = 2;
pub const TYPE_I32: u8 = 3;
pub const TYPE_I64: u8 = 4;
pub const TYPE_F32: u8 = 5;
pub const TYPE_F64: u8 = 6;
pub const TYPE_CHAR: u8 = 7;
pub const TYPE_BOOL: u8 = 8;
pub const TYPE_STRING: u8 = 9;
pub const TYPE_UUID: u8 = 10;
pub const TYPE_I8_ARRAY: u8 = 12;
pub const TYPE_I16_ARRAY: u8 = 13;
pub const TYPE_I32_ARRAY: u8 = 14;
pub const TYPE_I64_ARRAY: u8 = 15;
pub const TYPE_F32_ARRAY: u8 = 16;
pub const TYPE_F64_ARRAY: u8 = 17;
pub const TYPE_CHAR_ARRAY: u8 = 18;
pub const TYPE_BOOL_ARRAY: u8 = 19;
pub const TYPE_STRING_ARRAY: u8 = 20;
pub const TYPE_UUID_ARRAY: u8 = 21;
pub const TYPE_COLLECTION: u8 = 24;
pub const TYPE_MAP: u8 = 25;
pub const TYPE_TIMESTAMP: u8 = 33;
pub const TYPE_TIMESTAMP_ARRAY: u8 = 34;
/// The byte that stands for an absent value.
pub const NULL: u8 = 101;
pub const TYPE_BINARY_OBJECT: u8 = 103;
/// The binary-object layout this client reads and writes.
pub const BINARY_OBJECT_VERSION: u8 = 1;

/// How a general collection behaves; the wire carries it as a sub-kind byte.
#[derive(PartialEq, Eq, Structural, Debug, Clone, Copy)]
pub enum CollectionKind {
    Vec,
    LinkedList,
    HashSet,
    LinkedHashSet,
}

/// How a map behaves; the wire carries it as a sub-kind byte.
#[derive(PartialEq, Eq, Structural, Debug, Clone, Copy)]
pub enum MapKind {
    HashMap,
    LinkedHashMap,
}

/// A server-defined record carried as an opaque body.
#[derive(Debug, Clone)]
pub struct BinaryObject {
    pub flags: i16,
    pub type_id: i32,
    pub hash_code: i32,
    pub body: Vec<u8>,
}

/// A typed value. Floats are held as their IEEE-754 bit patterns.
/// Collections and maps keep their items in wire order; the kind says how
/// the server treats them.
#[derive(Debug)]
pub enum Value {
    I8(i8),
    I16(i16),
    I32(i32),
    I64(i64),
    F32(u32),
    F64(u64),
    Char(char),
    Bool(bool),
    String(String),
    Uuid(Uuid),
    Timestamp(Timestamp),
    I8Vec(Vec<i8>),
    I16Vec(Vec<i16>),
    I32Vec(Vec<i32>),
    I64Vec(Vec<i64>),
    F32Vec(Vec<u32>),
    F64Vec(Vec<u64>),
    CharVec(Vec<char>),
    BoolVec(Vec<bool>),
    StringVec(Vec<String>),
    UuidVec(Vec<Uuid>),
    TimestampVec(Vec<Timestamp>),
    Collection(CollectionKind, Vec<Value>),
    Mapping(MapKind, Vec<(Value, Value)>),
    BinaryObject(BinaryObject),
}

/// The mathematical content of a `Value`.
pub enum ValueModel {
    I8(i8),
    I16(i16),
    I32(i32),
    I64(i64),
    F32(u32),
    F64(u64),
    Char(char),
    Bool(bool),
    String(Seq<char>),
    Uuid(Uuid),
    Timestamp(Timestamp),
    I8Vec(Seq<i8>),
    I16Vec(Seq<i16>),
    I32Vec(Seq<i32>),
    I64Vec(Seq<i64>),
    F32Vec(Seq<u32>),
    F64Vec(Seq<u64>),
    CharVec(Seq<char>),
    BoolVec(Seq<bool>),
    StringVec(Seq<Seq<char>>),
    UuidVec(Seq<Uuid>),
    TimestampVec(Seq<Timestamp>),
    Collection(CollectionKind, Seq<ValueModel>),
    Mapping(MapKind, Seq<(ValueModel, ValueModel)>),
    BinaryObject(i16, i32, i32, Seq<u8>),
}

pub open spec fn value_model(v: Value) -> ValueModel
    decreases v,
{
    match v {
        Value::I8(x) => ValueModel::I8(x),
        Value::I16(x) => ValueModel::I16(x),
        Value::I32(x) => ValueModel::I32(x),
        Value::I64(x) => ValueModel::I64(x),
        Value::F32(x) => ValueModel::F32(x),
        Value::F64(x) => ValueModel::F64(x),
        Value::Char(x) => ValueModel::Char(x),
        Value::Bool(x) => ValueModel::Bool(x),
        Value::String(x) => ValueModel::String(x@),
        Value::Uuid(x) => ValueModel::Uuid(x),
        Value::Timestamp(x) => ValueModel::Timestamp(x),
        Value::I8Vec(x) => ValueModel::I8Vec(views(x@)),
        Value::I16Vec(x) => ValueModel::I16Vec(views(x@)),
        Value::I32Vec(x) => ValueModel::I32Vec(views(x@)),
        Value::I64Vec(x) => ValueModel::I64Vec(views(x@)),
        Value::F32Vec(x) => ValueModel::F32Vec(views(x@)),
        Value::F64Vec(x) => ValueModel::F64Vec(views(x@)),
        Value::CharVec(x) => ValueModel::CharVec(views(x@)),
        Value::BoolVec(x) => ValueModel::BoolVec(views(x@)),
        Value::StringVec(x) => ValueModel::StringVec(views(x@)),
        Value::UuidVec(x) => ValueModel::UuidVec(views(x@)),
        Value::TimestampVec(x) => ValueModel::TimestampVec(views(x@)),
        Value::Collection(k, items) => ValueModel::Collection(k, models(items@)),
        Value::Mapping(k, entries) => ValueModel::Mapping(k, pair_models(entries@)),
        Value::BinaryObject(b) => ValueModel::BinaryObject(b.flags, b.type_id, b.hash_code, b.body@),
    }
}

pub open spec fn models(s: Seq<Value>) -> Seq<ValueModel>
    decreases s,
{
    if s.len() == 0 {
        Seq::empty()
    } else {
        models(s.drop_last()).push(value_model(s.last()))
    }
}

pub open spec fn pair_models(s: Seq<(Value, Value)>) -> Seq<(ValueModel, ValueModel)>
    decreases s,
{
    if s.len() == 0 {
        Seq::empty()
    } else {
        pair_models(s.drop_last()).push((value_model(s.last().0), value_model(s.last().1)))
    }
}

impl View for Value {
    type V = ValueModel;

    open spec fn view(&self) -> ValueModel {
        value_model(*self)
    }
}

pub open spec fn collection_kind_code(k: CollectionKind) -> u8 {
    match k {
        CollectionKind::Vec => 1,
        CollectionKind::LinkedList => 2,
        CollectionKind::HashSet => 3,
        CollectionKind::LinkedHashSet => 4,
    }
}

/// The kind a sub-kind byte names; the bytes of -1, 0 and 5 all name an
/// ordered collection.
pub open spec fn collection_kind_of(b: u8) -> Option<CollectionKind> {
    if b == 0xff || b == 0 || b == 1 || b == 5 {
        Some(CollectionKind::Vec)
    } else if b == 2 {
        Some(CollectionKind::LinkedList)
    } else if b == 3 {
        Some(CollectionKind::HashSet)
    } else if b == 4 {
        Some(CollectionKind::LinkedHashSet)
    } else {
        None
    }
}

pub open spec fn map_kind_code(k: MapKind) -> u8 {
    match k {
        MapKind::HashMap => 1,
        MapKind::LinkedHashMap => 2,
    }
}

pub open spec fn map_kind_of(b: u8) -> Option<MapKind> {
    if b == 1 {
        Some(MapKind::HashMap)
    } else if b == 2 {
        Some(MapKind::LinkedHashMap)
    } else {
        None
    }
}

/// The type code that leads the encoding of `m`.
pub open spec fn type_code(m: ValueModel) -> u8 {
    match m {
        ValueModel::I8(_) => TYPE_I8,
        ValueModel::I16(_) => TYPE_I16,
        ValueModel::I32(_) => TYPE_I32,
        ValueModel::I64(_) => TYPE_I64,
        ValueModel::F32(_) => TYPE_F32,
        ValueModel::F64(_) => TYPE_F64,
        ValueModel::Char(_) => TYPE_CHAR,
        ValueModel::Bool(_) => TYPE_BOOL,
        ValueModel::String(_) => TYPE_STRING,
        ValueModel::Uuid(_) => TYPE_UUID,
        ValueModel::Timestamp(_) => TYPE_TIMESTAMP,
        ValueModel::I8Vec(_) => TYPE_I8_ARRAY,
        ValueModel::I16Vec(_) => TYPE_I16_ARRAY,
        ValueModel::I32Vec(_) => TYPE_I32_ARRAY,
        ValueModel::I64Vec(_) => TYPE_I64_ARRAY,
        ValueModel::F32Vec(_) => TYPE_F32_ARRAY,
        ValueModel::F64Vec(_) => TYPE_F64_ARRAY,
        ValueModel::CharVec(_) => TYPE_CHAR_ARRAY,
        ValueModel::BoolVec(_) => TYPE_BOOL_ARRAY,
        ValueModel::StringVec(_) => TYPE_STRING_ARRAY,
        ValueModel::UuidVec(_) => TYPE_UUID_ARRAY,
        ValueModel::TimestampVec(_) => TYPE_TIMESTAMP_ARRAY,
        ValueModel::Collection(..) => TYPE_COLLECTION,
        ValueModel::Mapping(..) => TYPE_MAP,
        ValueModel::BinaryObject(..) => TYPE_BINARY_OBJECT,
    }
}

/// The payload that follows the type code.
pub open spec fn payload(m: ValueModel) -> Seq<u8>
    decreases m, 0int,
{
    match m {
        ValueModel::I8(x) => <i8 as RawCodec>::raw(x),
        ValueModel::I16(x) => <i16 as RawCodec>::raw(x),
        ValueModel::I32(x) => <i32 as RawCodec>::raw(x),
        ValueModel::I64(x) => <i64 as RawCodec>::raw(x),
        ValueModel::F32(x) => <u32 as RawCodec>::raw(x),
        ValueModel::F64(x) => <u64 as RawCodec>::raw(x),
        ValueModel::Char(x) => <char as RawCodec>::raw(x),
        ValueModel::Bool(x) => <bool as RawCodec>::raw(x),
        ValueModel::String(x) => <String as RawCodec>::raw(x),
        ValueModel::Uuid(x) => <Uuid as RawCodec>::raw(x),
        ValueModel::Timestamp(x) => <Timestamp as RawCodec>::raw(x),
        ValueModel::I8Vec(x) => array_bytes::<i8>(x),
        ValueModel::I16Vec(x) => array_bytes::<i16>(x),
        ValueModel::I32Vec(x) => array_bytes::<i32>(x),
        ValueModel::I64Vec(x) => array_bytes::<i64>(x),
        ValueModel::F32Vec(x) => array_bytes::<u32>(x),
        ValueModel::F64Vec(x) => array_bytes::<u64>(x),
        ValueModel::CharVec(x) => array_bytes::<char>(x),
        ValueModel::BoolVec(x) => array_bytes::<bool>(x),
        ValueModel::StringVec(x) => array_bytes::<String>(x),
        ValueModel::UuidVec(x) => array_bytes::<Uuid>(x),
        ValueModel::TimestampVec(x) => array_bytes::<Timestamp>(x),
        ValueModel::Collection(k, items) => le_i32(items.len() as i32) + seq![
            collection_kind_code(k),
        ] + enc_list(items),
        ValueModel::Mapping(k, entries) => le_i32(entries.len() as i32) + seq![map_kind_code(k)]
            + enc_pairs(entries),
        ValueModel::BinaryObject(flags, type_id, hash_code, body) => seq![BINARY_OBJECT_VERSION]
            + le_i16(flags) + le_i32(type_id) + le_i32(hash_code) + le_i32((body.len() + 16) as i32)
            + body,
    }
}

/// The wire form of a value: its type code, then its payload.
pub open spec fn enc(m: ValueModel) -> Seq<u8>
    decreases m, 1int,
{
    seq![type_code(m)] + payload(m)
}

pub open spec fn enc_list(ms: Seq<ValueModel>) -> Seq<u8>
    decreases ms, 0int,
{
    if ms.len() == 0 {
        Seq::empty()
    } else {
        enc(ms[0]) + enc_list(ms.drop_first())
    }
}

pub open spec fn enc_pairs(ps: Seq<(ValueModel, ValueModel)>) -> Seq<u8>
    decreases ps, 0int,
{
    if ps.len() == 0 {
        Seq::empty()
    } else {
        enc(ps[0].0) + enc(ps[0].1) + enc_pairs(ps.drop_first())
    }
}

/// Whether `m` has a wire form: characters in the basic multilingual plane,
/// lengths that fit in an `i32`.
pub open spec fn encodable(m: ValueModel) -> bool
    decreases m,
{
    match m {
        ValueModel::Char(x) => <char as RawCodec>::raw_ok(x),
        ValueModel::String(x) => <String as RawCodec>::raw_ok(x),
        ValueModel::I8Vec(x) => array_ok::<i8>(x),
        ValueModel::I16Vec(x) => array_ok::<i16>(x),
        ValueModel::I32Vec(x) => array_ok::<i32>(x),
        ValueModel::I64Vec(x) => array_ok::<i64>(x),
        ValueModel::F32Vec(x) => array_ok::<u32>(x),
        ValueModel::F64Vec(x) => array_ok::<u64>(x),
        ValueModel::CharVec(x) => array_ok::<char>(x),
        ValueModel::BoolVec(x) => array_ok::<bool>(x),
        ValueModel::StringVec(x) => array_ok::<String>(x),
        ValueModel::UuidVec(x) => array_ok::<Uuid>(x),
        ValueModel::TimestampVec(x) => array_ok::<Timestamp>(x),
        ValueModel::Collection(_, items) => items.len() <= i32::MAX && forall|i: int|
            0 <= i < items.len() ==> encodable(#[trigger] items[i]),
        ValueModel::Mapping(_, entries) => entries.len() <= i32::MAX && forall|i: int|
            0 <= i < entries.len() ==> encodable(#[trigger] entries[i].0) && encodable(
                entries[i].1,
            ),
        ValueModel::BinaryObject(_, _, _, body) => body.len() + 16 <= i32::MAX,
        _ => true,
    }
}

/// A parse result for the payload, shifted past the type code.
pub open spec fn after_code<A>(r: Option<(A, nat)>, f: spec_fn(A) -> ValueModel) -> Option<
    (ValueModel, nat),
> {
    match r {
        Some((a, n)) => Some((f(a), n + 1)),
        None => None,
    }
}

/// The scalar or homogeneous array whose payload starts `t`, for the type
/// code `code`.
#[verifier::opaque]
pub open spec fn parse_flat(code: u8, t: Seq<u8>) -> Option<(ValueModel, nat)> {
    if code == TYPE_I8 {
        after_code(<i8 as RawCodec>::parse_raw(t), |x: i8| ValueModel::I8(x))
    } else if code == TYPE_I16 {
        after_code(<i16 as RawCodec>::parse_raw(t), |x: i16| ValueModel::I16(x))
    } else if code == TYPE_I32 {
        after_code(<i32 as RawCodec>::parse_raw(t), |x: i32| ValueModel::I32(x))
    } else if code == TYPE_I64 {
        after_code(<i64 as RawCodec>::parse_raw(t), |x: i64| ValueModel::I64(x))
    } else if code == TYPE_F32 {
        after_code(<u32 as RawCodec>::parse_raw(t), |x: u32| ValueModel::F32(x))
    } else if code == TYPE_F64 {
        after_code(<u64 as RawCodec>::parse_raw(t), |x: u64| ValueModel::F64(x))
    } else if code == TYPE_CHAR {
        after_code(<char as RawCodec>::parse_raw(t), |x: char| ValueModel::Char(x))
    } else if code == TYPE_BOOL {
        after_code(<bool as RawCodec>::parse_raw(t), |x: bool| ValueModel::Bool(x))
    } else if code == TYPE_STRING {
        after_code(<String as RawCodec>::parse_raw(t), |x: Seq<char>| ValueModel::String(x))
    } else if code == TYPE_UUID {
        after_code(<Uuid as RawCodec>::parse_raw(t), |x: Uuid| ValueModel::Uuid(x))
    } else if code == TYPE_TIMESTAMP {
        after_code(<Timestamp as RawCodec>::parse_raw(t), |x: Timestamp| ValueModel::Timestamp(x))
    } else if code == TYPE_I8_ARRAY {
        after_code(parse_array::<i8>(t), |x: Seq<i8>| ValueModel::I8Vec(x))
    } else if code == TYPE_I16_ARRAY {
        after_code(parse_array::<i16>(t), |x: Seq<i16>| ValueModel::I16Vec(x))
    } else if code == TYPE_I32_ARRAY {
        after_code(parse_array::<i32>(t), |x: Seq<i32>| ValueModel::I32Vec(x))
    } else if code == TYPE_I64_ARRAY {
        after_code(parse_array::<i64>(t), |x: Seq<i64>| ValueModel::I64Vec(x))
    } else if code == TYPE_F32_ARRAY {
        after_code(parse_array::<u32>(t), |x: Seq<u32>| ValueModel::F32Vec(x))
    } else if code == TYPE_F64_ARRAY {
        after_code(parse_array::<u64>(t), |x: Seq<u64>| ValueModel::F64Vec(x))
    } else if code == TYPE_CHAR_ARRAY {
        after_code(parse_array::<char>(t), |x: Seq<char>| ValueModel::CharVec(x))
    } else if code == TYPE_BOOL_ARRAY {
        after_code(parse_array::<bool>(t), |x: Seq<bool>| ValueModel::BoolVec(x))
    } else if code == TYPE_STRING_ARRAY {
        after_code(parse_array::<String>(t), |x: Seq<Seq<char>>| ValueModel::StringVec(x))
    } else if code == TYPE_UUID_ARRAY {
        after_code(parse_array::<Uuid>(t), |x: Seq<Uuid>| ValueModel::UuidVec(x))
    } else if code == TYPE_TIMESTAMP_ARRAY {
        after_code(parse_array::<Timestamp>(t), |x: Seq<Timestamp>| ValueModel::TimestampVec(x))
    } else {
        None
    }
}

/// The binary object whose layout, after its type code, starts `t`.
pub open spec fn parse_binary_object(t: Seq<u8>) -> Option<(ValueModel, nat)> {
    if t.len() < 15 || t[0] != BINARY_OBJECT_VERSION {
        None
    } else {
        let declared = from_le32(t.skip(11)) as i32;
        if declared < 16 || t.len() < declared - 1 {
            None
        } else {
            Some(
                (
                    ValueModel::BinaryObject(
                        from_le16(t.skip(1)) as i16,
                        from_le32(t.skip(3)) as i32,
                        from_le32(t.skip(7)) as i32,
                        t.subrange(15, declared - 1),
                    ),
                    declared as nat,
                ),
            )
        }
    }
}

/// The value whose wire form starts `s`, and the length of that form.
pub open spec fn parse(s: Seq<u8>) -> Option<(ValueModel, nat)>
    decreases s.len(), 0int,
{
    if s.len() < 1 {
        None
    } else {
        let code = s[0];
        let t = s.skip(1);
        if code == TYPE_COLLECTION {
            if t.len() < 5 {
                None
            } else {
                let c = from_le32(t) as i32;
                match collection_kind_of(t[4]) {
                    Some(k) => if c < 0 {
                        None
                    } else {
                        match parse_list(t.skip(5), c as nat) {
                            Some((items, n)) => Some((ValueModel::Collection(k, items), n + 6)),
                            None => None,
                        }
                    },
                    None => None,
                }
            }
        } else if code == TYPE_MAP {
            if t.len() < 5 {
                None
            } else {
                let c = from_le32(t) as i32;
                match map_kind_of(t[4]) {
                    Some(k) => if c < 0 {
                        None
                    } else {
                        match parse_pairs(t.skip(5), c as nat) {
                            Some((entries, n)) => Some((ValueModel::Mapping(k, entries), n + 6)),
                            None => None,
                        }
                    },
                    None => None,
                }
            }
        } else if code == TYPE_BINARY_OBJECT {
            parse_binary_object(t)
        } else {
            parse_flat(code, t)
        }
    }
}

/// `count` values one after another at the front of `s`.
pub open spec fn parse_list(s: Seq<u8>, count: nat) -> Option<(Seq<ValueModel>, nat)>
    decreases s.len(), count + 1,
{
    if count == 0 {
        Some((Seq::empty(), 0))
    } else {
        match parse(s) {
            Some((m, n)) => if n <= s.len() {
                match parse_list(s.skip(n as int), (count - 1) as nat) {
                    Some((ms, k)) => Some((seq![m] + ms, n + k)),
                    None => None,
                }
            } else {
                None
            },
            None => None,
        }
    }
}

/// `count` key-value pairs one after another at the front of `s`.
pub open spec fn parse_pairs(s: Seq<u8>, count: nat) -> Option<(Seq<(ValueModel, ValueModel)>, nat)>
    decreases s.len(), count + 1,
{
    if count == 0 {
        Some((Seq::empty(), 0))
    } else {
        match parse(s) {
            Some((a, n1)) => if n1 <= s.len() {
                match parse(s.skip(n1 as int)) {
                    Some((b, n2)) => if n1 + n2 <= s.len() {
                        match parse_pairs(s.skip((n1 + n2) as int), (count - 1) as nat) {
                            Some((ps, k)) => Some((seq![(a, b)] + ps, n1 + n2 + k)),
                            None => None,
                        }
                    } else {
                        None
                    },
                    None => None,
                }
            } else {
                None
            },
            None => None,
        }
    }
}

/// The scalar and homogeneous-array cases of `lemma_parse_enc`.
#[verifier::rlimit(100)]
#[verifier::spinoff_prover]
pub proof fn lemma_parse_flat(m: ValueModel, rest: Seq<u8>)
    requires
        encodable(m),
        !(m is Collection || m is Mapping || m is BinaryObject),
    ensures
        parse_flat(type_code(m), payload(m) + rest) == Some((m, enc(m).len())),
{
    reveal(parse_flat);
    match m {
        ValueModel::I8(x) => {
            <i8 as RawCodec>::lemma_parse_raw(x, rest);
        },
        ValueModel::I16(x) => {
            <i16 as RawCodec>::lemma_parse_raw(x, rest);
        },
        ValueModel::I32(x) => {
            <i32 as RawCodec>::lemma_parse_raw(x, rest);
        },
        ValueModel::I64(x) => {
            <i64 as RawCodec>::lemma_parse_raw(x, rest);
        },
        ValueModel::F32(x) => {
            <u32 as RawCodec>::lemma_parse_raw(x, rest);
        },
        ValueModel::F64(x) => {
            <u64 as RawCodec>::lemma_parse_raw(x, rest);
        },
        ValueModel::Char(x) => {
            <char as RawCodec>::lemma_parse_raw(x, rest);
        },
        ValueModel::Bool(x) => {
            <bool as RawCodec>::lemma_parse_raw(x, rest);
        },
        ValueModel::String(x) => {
            <String as RawCodec>::lemma_parse_raw(x, rest);
        },
        ValueModel::Uuid(x) => {
            <Uuid as RawCodec>::lemma_parse_raw(x, rest);
        },
        ValueModel::Timestamp(x) => {
            <Timestamp as RawCodec>::lemma_parse_raw(x, rest);
        },
        ValueModel::I8Vec(x) => {
            lemma_parse_array::<i8>(x, rest);
        },
        ValueModel::I16Vec(x) => {
            lemma_parse_array::<i16>(x, rest);
        },
        ValueModel::I32Vec(x) => {
            lemma_parse_array::<i32>(x, rest);
        },
        ValueModel::I64Vec(x) => {
            lemma_parse_array::<i64>(x, rest);
        },
        ValueModel::F32Vec(x) => {
            lemma_parse_array::<u32>(x, rest);
        },
        ValueModel::F64Vec(x) => {
            lemma_parse_array::<u64>(x, rest);
        },
        ValueModel::CharVec(x) => {
            lemma_parse_array::<char>(x, rest);
        },
        ValueModel::BoolVec(x) => {
            lemma_parse_array::<bool>(x, rest);
        },
        ValueModel::StringVec(x) => {
            lemma_parse_array::<String>(x, rest);
        },
        ValueModel::UuidVec(x) => {
            lemma_parse_array::<Uuid>(x, rest);
        },
        ValueModel::TimestampVec(x) => {
            lemma_parse_array::<Timestamp>(x, rest);
        },
        _ => {},
    }
}

/// Decoding the encoding of any encodable value gives back that value and
/// consumes exactly its encoding, whatever bytes follow.
#[verifier::rlimit(100)]
#[verifier::spinoff_prover]
pub proof fn lemma_parse_enc(m: ValueModel, rest: Seq<u8>)
    requires
        encodable(m),
    ensures
        parse(enc(m) + rest) == Some((m, enc(m).len())),
    decreases m, 1int,
{
    let s = enc(m) + rest;
    let t = s.skip(1);
    assert(t =~= payload(m) + rest);
    match m {
        ValueModel::Collection(k, items) => {
            let c = items.len() as i32;
            lemma_le32(c as u32);
            lemma_signed_casts(0, 0, c, 0);
            assert(from_le32(t) == from_le32(le32(c as u32)));
            assert(t[4] == collection_kind_code(k));
            assert(t.skip(5) =~= enc_list(items) + rest);
            lemma_parse_list(items, rest);
        },
        ValueModel::Mapping(k, entries) => {
            let c = entries.len() as i32;
            lemma_le32(c as u32);
            lemma_signed_casts(0, 0, c, 0);
            assert(from_le32(t) == from_le32(le32(c as u32)));
            assert(t[4] == map_kind_code(k));
            assert(t.skip(5) =~= enc_pairs(entries) + rest);
            assert forall|i: int| 0 <= i < entries.len() implies encodable(#[trigger] entries[i].0)
                && encodable(entries[i].1) by {
                assert(encodable(m));
            }
            lemma_parse_pairs(entries, rest);
        },
        ValueModel::BinaryObject(flags, type_id, hash_code, body) => {
            let d = (body.len() + 16) as i32;
            lemma_le16(flags as u16);
            lemma_le32(type_id as u32);
            lemma_le32(hash_code as u32);
            lemma_le32(d as u32);
            lemma_signed_casts(0, flags, type_id, 0);
            lemma_signed_casts(0, 0, hash_code, 0);
            lemma_signed_casts(0, 0, d, 0);
            assert(t.skip(1) =~= le16(flags as u16) + t.skip(3));
            assert(t.skip(3) =~= le32(type_id as u32) + t.skip(7));
            assert(t.skip(7) =~= le32(hash_code as u32) + t.skip(11));
            assert(t.skip(11) =~= le32(d as u32) + (body + rest));
            assert(from_le16(t.skip(1)) == from_le16(le16(flags as u16)));
            assert(from_le32(t.skip(3)) == from_le32(le32(type_id as u32)));
            assert(from_le32(t.skip(7)) == from_le32(le32(hash_code as u32)));
            assert(from_le32(t.skip(11)) == from_le32(le32(d as u32)));
            assert(t.subrange(15, d - 1) =~= body);
        },
        _ => {
            lemma_parse_flat(m, rest);
        },
    }
}

#[verifier::rlimit(100)]
#[verifier::spinoff_prover]
pub proof fn lemma_parse_list(ms: Seq<ValueModel>, rest: Seq<u8>)
    requires
        forall|i: int| 0 <= i < ms.len() ==> encodable(#[trigger] ms[i]),
    ensures
        parse_list(enc_list(ms) + rest, ms.len()) == Some((ms, enc_list(ms).len())),
    decreases ms, 0int,
{
    if ms.len() == 0 {
        assert(ms =~= Seq::<ValueModel>::empty());
        assert(enc_list(ms) + rest =~= rest);
    } else {
        let tail = ms.drop_first();
        assert(encodable(ms[0]));
        assert forall|i: int| 0 <= i < tail.len() implies encodable(#[trigger] tail[i]) by {
            assert(tail[i] == ms[i + 1]);
        }
        lemma_parse_enc(ms[0], enc_list(tail) + rest);
        lemma_parse_list(tail, rest);
        let s = enc_list(ms) + rest;
        assert(s =~= enc(ms[0]) + (enc_list(tail) + rest));
        assert(s.skip(enc(ms[0]).len() as int) =~= enc_list(tail) + rest);
        assert(seq![ms[0]] + tail =~= ms);
    }
}

#[verifier::rlimit(100)]
#[verifier::spinoff_prover]
pub proof fn lemma_parse_pairs(ps: Seq<(ValueModel, ValueModel)>, rest: Seq<u8>)
    requires
        forall|i: int|
            0 <= i < ps.len() ==> encodable(#[trigger] ps[i].0) && encodable(ps[i].1),
    ensures
        parse_pairs(enc_pairs(ps) + rest, ps.len()) == Some((ps, enc_pairs(ps).len())),
    decreases ps, 0int,
{
    if ps.len() == 0 {
        assert(ps =~= Seq::<(ValueModel, ValueModel)>::empty());
        assert(enc_pairs(ps) + rest =~= rest);
    } else {
        let tail = ps.drop_first();
        let (a, b) = ps[0];
        assert(encodable(ps[0].0));
        assert forall|i: int| 0 <= i < tail.len() implies encodable(#[trigger] tail[i].0)
            && encodable(tail[i].1) by {
            assert(tail[i] == ps[i + 1]);
        }
        lemma_parse_enc(b, enc_pairs(tail) + rest);
        lemma_parse_enc(a, enc(b) + enc_pairs(tail) + rest);
        lemma_parse_pairs(tail, rest);
        let s = enc_pairs(ps) + rest;
        assert(s =~= enc(a) + (enc(b) + enc_pairs(tail) + rest));
        assert(s.skip(enc(a).len() as int) =~= enc(b) + (enc_pairs(tail) + rest));
        assert(s.skip((enc(a).len() + enc(b).len()) as int) =~= enc_pairs(tail) + rest);
        assert(seq![(a, b)] + tail =~= ps);
    }
}

/// One step of `parse_list`: the first value, then the others.
pub proof fn lemma_list_step(s: Seq<u8>, c: nat)
    requires
        c > 0,
    ensures
        parse(s) is None ==> parse_list(s, c) is None,
        parse(s) matches Some((m, n)) ==> n <= s.len() ==> parse_list(s, c) == prepend(
            seq![m],
            n,
            parse_list(s.skip(n as int), (c - 1) as nat),
        ),
{
}

/// One step of `parse_pairs`: the first key and value, then the others.
pub proof fn lemma_pairs_step(s: Seq<u8>, c: nat)
    requires
        c > 0,
    ensures
        parse(s) is None ==> parse_pairs(s, c) is None,
        parse(s) matches Some((a, n1)) ==> n1 <= s.len() ==> {
            &&& parse(s.skip(n1 as int)) is None ==> parse_pairs(s, c) is None
            &&& parse(s.skip(n1 as int)) matches Some((b, n2)) ==> n1 + n2 <= s.len()
                ==> parse_pairs(s, c) == prepend(
                seq![(a, b)],
                n1 + n2,
                parse_pairs(s.skip((n1 + n2) as int), (c - 1) as nat),
            )
        },
{
}

pub proof fn lemma_prepend_push<A>(done: Seq<A>, used: nat, x: A, n: nat, r: Option<(Seq<A>, nat)>)
    ensures
        prepend(done, used, prepend(seq![x], n, r)) == prepend(done.push(x), used + n, r),
{
    match r {
        Some((ms, k)) => {
            assert(done + (seq![x] + ms) =~= done.push(x) + ms);
        },
        None => {},
    }
}

pub proof fn lemma_models(s: Seq<Value>)
    ensures
        models(s).len() == s.len(),
        forall|i: int| 0 <= i < s.len() ==> #[trigger] models(s)[i] == value_model(s[i]),
    decreases s.len(),
{
    if s.len() > 0 {
        lemma_models(s.drop_last());
    }
}

pub proof fn lemma_pair_models(s: Seq<(Value, Value)>)
    ensures
        pair_models(s).len() == s.len(),
        forall|i: int|
            0 <= i < s.len() ==> #[trigger] pair_models(s)[i] == (
                value_model(s[i].0),
                value_model(s[i].1),
            ),
    decreases s.len(),
{
    if s.len() > 0 {
        lemma_pair_models(s.drop_last());
    }
}

pub proof fn lemma_enc_list_push(ms: Seq<ValueModel>, m: ValueModel)
    ensures
        enc_list(ms.push(m)) == enc_list(ms) + enc(m),
    decreases ms.len(),
{
    if ms.len() == 0 {
        assert(ms.push(m).drop_first() =~= Seq::<ValueModel>::empty());
        assert(enc_list(ms.push(m).drop_first()) == Seq::<u8>::empty());
        assert(enc_list(ms.push(m)) =~= enc(m));
        assert(enc_list(ms) + enc(m) =~= enc(m));
    } else {
        assert(ms.push(m).drop_first() =~= ms.drop_first().push(m));
        lemma_enc_list_push(ms.drop_first(), m);
        assert(enc_list(ms.push(m)) =~= enc_list(ms) + enc(m));
    }
}

pub proof fn lemma_enc_pairs_push(ps: Seq<(ValueModel, ValueModel)>, p: (ValueModel, ValueModel))
    ensures
        enc_pairs(ps.push(p)) == enc_pairs(ps) + enc(p.0) + enc(p.1),
    decreases ps.len(),
{
    if ps.len() == 0 {
        assert(ps.push(p).drop_first() =~= Seq::<(ValueModel, ValueModel)>::empty());
        assert(enc_pairs(ps.push(p).drop_first()) == Seq::<u8>::empty());
        assert(enc_pairs(ps.push(p)) =~= enc(p.0) + enc(p.1));
        assert(enc_pairs(ps) + enc(p.0) + enc(p.1) =~= enc(p.0) + enc(p.1));
    } else {
        assert(ps.push(p).drop_first() =~= ps.drop_first().push(p));
        lemma_enc_pairs_push(ps.drop_first(), p);
        assert(enc_pairs(ps.push(p)) =~= enc_pairs(ps) + enc(p.0) + enc(p.1));
    }
}

pub fn collection_kind_byte(k: CollectionKind) -> (b: u8)
    ensures
        b == collection_kind_code(k),
        collection_kind_of(b) == Some(k),
{
    match k {
        CollectionKind::Vec => 1,
        CollectionKind::LinkedList => 2,
        CollectionKind::HashSet => 3,
        CollectionKind::LinkedHashSet => 4,
    }
}

pub fn collection_kind_from_byte(b: u8) -> (r: Option<CollectionKind>)
    ensures
        r == collection_kind_of(b),
{
    if b == 0xff || b == 0 || b == 1 || b == 5 {
        Some(CollectionKind::Vec)
    } else if b == 2 {
        Some(CollectionKind::LinkedList)
    } else if b == 3 {
        Some(CollectionKind::HashSet)
    } else if b == 4 {
        Some(CollectionKind::LinkedHashSet)
    } else {
        None
    }
}

pub fn map_kind_byte(k: MapKind) -> (b: u8)
    ensures
        b == map_kind_code(k),
        map_kind_of(b) == Some(k),
{
    match k {
        MapKind::HashMap => 1,
        MapKind::LinkedHashMap => 2,
    }
}

pub fn map_kind_from_byte(b: u8) -> (r: Option<MapKind>)
    ensures
        r == map_kind_of(b),
{
    if b == 1 {
        Some(MapKind::HashMap)
    } else if b == 2 {
        Some(MapKind::LinkedHashMap)
    } else {
        None
    }
}

/// Whether `v` has a wire form.
pub fn is_encodable(v: &Value) -> (b: bool)
    ensures
        b == encodable(v@),
    decreases v,
{
    match v {
        Value::Char(x) => x.check_raw(),
        Value::String(x) => x.check_raw(),
        Value::I8Vec(x) => check_array(x),
        Value::I16Vec(x) => check_array(x),
        Value::I32Vec(x) => check_array(x),
        Value::I64Vec(x) => check_array(x),
        Value::F32Vec(x) => check_array(x),
        Value::F64Vec(x) => check_array(x),
        Value::CharVec(x) => check_array(x),
        Value::BoolVec(x) => check_array(x),
        Value::StringVec(x) => check_array(x),
        Value::UuidVec(x) => check_array(x),
        Value::TimestampVec(x) => check_array(x),
        Value::Collection(k, items) => {
            proof {
                lemma_models(items@);
            }
            if items.len() > 0x7fff_ffff {
                return false;
            }
            let mut i: usize = 0;
            while i < items.len()
                invariant
                    *v == Value::Collection(*k, *items),
                    i <= items@.len() <= i32::MAX,
                    models(items@).len() == items@.len(),
                    forall|j: int|
                        0 <= j < items@.len() ==> #[trigger] models(items@)[j] == value_model(
                            items@[j],
                        ),
                    forall|j: int| 0 <= j < i ==> encodable(#[trigger] models(items@)[j]),
                decreases items@.len() - i,
            {
                proof {
                    assert(models(items@)[i as int] == value_model(items@[i as int]));
                }
                proof {
                    assert(decreases_to!(*v => (*v)->Collection_1));
                    assert(decreases_to!(*items => items[i as int]));
                }
                let ok = is_encodable(&items[i]);
                if !ok {
                    assert(!encodable(models(items@)[i as int]));
                    return false;
                }
                i = i + 1;
            }
            true
        },
        Value::Mapping(k, entries) => {
            proof {
                lemma_pair_models(entries@);
            }
            if entries.len() > 0x7fff_ffff {
                return false;
            }
            let mut i: usize = 0;
            while i < entries.len()
                invariant
                    *v == Value::Mapping(*k, *entries),
                    i <= entries@.len() <= i32::MAX,
                    pair_models(entries@).len() == entries@.len(),
                    forall|j: int|
                        0 <= j < entries@.len() ==> #[trigger] pair_models(entries@)[j] == (
                            value_model(entries@[j].0),
                            value_model(entries@[j].1),
                        ),
                    forall|j: int|
                        0 <= j < i ==> encodable(#[trigger] pair_models(entries@)[j].0)
                            && encodable(pair_models(entries@)[j].1),
                decreases entries@.len() - i,
            {
                proof {
                    assert(pair_models(entries@)[i as int] == (
                        value_model(entries@[i as int].0),
                        value_model(entries@[i as int].1),
                    ));
                }
                proof {
                    assert(decreases_to!(*v => (*v)->Mapping_1));
                    assert(decreases_to!(*entries => entries[i as int]));
                    assert(decreases_to!(entries[i as int] => entries[i as int].0));
                    assert(decreases_to!(entries[i as int] => entries[i as int].1));
                }
                let key_ok = is_encodable(&entries[i].0);
                let value_ok = is_encodable(&entries[i].1);
                if !key_ok || !value_ok {
                    proof {
                        let ps = pair_models(entries@);
                        assert(!(encodable(ps[i as int].0) && encodable(ps[i as int].1)));
                        if encodable(v@) {
                            assert(encodable(ps[i as int].0));
                        }
                    }
                    return false;
                }
                i = i + 1;
            }
            true
        },
        Value::BinaryObject(b) => b.body.len() <= 0x7fff_ffff - 16,
        _ => true,
    }
}

#[verifier::rlimit(100)]
#[verifier::spinoff_prover]
fn write_value(v: &Value, out: &mut Vec<u8>)
    requires
        encodable(v@),
    ensures
        final(out)@ == old(out)@ + enc(v@),
    decreases v,
{
    let ghost start = out@;
    match v {
        Value::I8(x) => {
            put_u8(out, TYPE_I8);
            x.write_raw(out);
            assert(out@ =~= start + enc(v@));
        },
        Value::I16(x) => {
            put_u8(out, TYPE_I16);
            x.write_raw(out);
            assert(out@ =~= start + enc(v@));
        },
        Value::I32(x) => {
            put_u8(out, TYPE_I32);
            x.write_raw(out);
            assert(out@ =~= start + enc(v@));
        },
        Value::I64(x) => {
            put_u8(out, TYPE_I64);
            x.write_raw(out);
            assert(out@ =~= start + enc(v@));
        },
        Value::F32(x) => {
            put_u8(out, TYPE_F32);
            x.write_raw(out);
            assert(out@ =~= start + enc(v@));
        },
        Value::F64(x) => {
            put_u8(out, TYPE_F64);
            x.write_raw(out);
            assert(out@ =~= start + enc(v@));
        },
        Value::Char(x) => {
            put_u8(out, TYPE_CHAR);
            x.write_raw(out);
            assert(out@ =~= start + enc(v@));
        },
        Value::Bool(x) => {
            put_u8(out, TYPE_BOOL);
            x.write_raw(out);
            assert(out@ =~= start + enc(v@));
        },
        Value::String(x) => {
            put_u8(out, TYPE_STRING);
            x.write_raw(out);
            assert(out@ =~= start + enc(v@));
        },
        Value::Uuid(x) => {
            put_u8(out, TYPE_UUID);
            x.write_raw(out);
            assert(out@ =~= start + enc(v@));
        },
        Value::Timestamp(x) => {
            put_u8(out, TYPE_TIMESTAMP);
            x.write_raw(out);
            assert(out@ =~= start + enc(v@));
        },
        Value::I8Vec(x) => {
            put_u8(out, TYPE_I8_ARRAY);
            write_array(x, out);
            assert(out@ =~= start + enc(v@));
        },
        Value::I16Vec(x) => {
            put_u8(out, TYPE_I16_ARRAY);
            write_array(x, out);
            assert(out@ =~= start + enc(v@));
        },
        Value::I32Vec(x) => {
            put_u8(out, TYPE_I32_ARRAY);
            write_array(x, out);
            assert(out@ =~= start + enc(v@));
        },
        Value::I64Vec(x) => {
            put_u8(out, TYPE_I64_ARRAY);
            write_array(x, out);
            assert(out@ =~= start + enc(v@));
        },
        Value::F32Vec(x) => {
            put_u8(out, TYPE_F32_ARRAY);
            write_array(x, out);
            assert(out@ =~= start + enc(v@));
        },
        Value::F64Vec(x) => {
            put_u8(out, TYPE_F64_ARRAY);
            write_array(x, out);
            assert(out@ =~= start + enc(v@));
        },
        Value::CharVec(x) => {
            put_u8(out, TYPE_CHAR_ARRAY);
            write_array(x, out);
            assert(out@ =~= start + enc(v@));
        },
        Value::BoolVec(x) => {
            put_u8(out, TYPE_BOOL_ARRAY);
            write_array(x, out);
            assert(out@ =~= start + enc(v@));
        },
        Value::StringVec(x) => {
            put_u8(out, TYPE_STRING_ARRAY);
            write_array(x, out);
            assert(out@ =~= start + enc(v@));
        },
        Value::UuidVec(x) => {
            put_u8(out, TYPE_UUID_ARRAY);
            write_array(x, out);
            assert(out@ =~= start + enc(v@));
        },
        Value::TimestampVec(x) => {
            put_u8(out, TYPE_TIMESTAMP_ARRAY);
            write_array(x, out);
            assert(out@ =~= start + enc(v@));
        },
        Value::Collection(k, items) => {
            put_u8(out, TYPE_COLLECTION);
            put_i32_le(out, items.len() as i32);
            put_u8(out, collection_kind_byte(*k));
            let ghost head = out@;
            proof {
                lemma_models(items@);
                assert(items@.take(0) =~= Seq::<Value>::empty());
                assert(out@ =~= head + enc_list(models(items@.take(0))));
            }
            let mut i: usize = 0;
            while i < items.len()
                invariant
                    *v == Value::Collection(*k, *items),
                    i <= items@.len(),
                    encodable(v@),
                    v@ == ValueModel::Collection(*k, models(items@)),
                    models(items@).len() == items@.len(),
                    forall|j: int|
                        0 <= j < items@.len() ==> #[trigger] models(items@)[j] == value_model(
                            items@[j],
                        ),
                    out@ == head + enc_list(models(items@.take(i as int))),
                decreases items@.len() - i,
            {
                proof {
                    assert(encodable(models(items@)[i as int]));
                }
                write_value(&items[i], out);
                proof {
                    let done = items@.take(i as int);
                    assert(items@.take(i + 1) =~= done.push(items@[i as int]));
                    assert(done.push(items@[i as int]).drop_last() =~= done);
                    lemma_enc_list_push(models(done), value_model(items@[i as int]));
                    assert(out@ =~= head + enc_list(models(items@.take(i + 1))));
                }
                i = i + 1;
            }
            proof {
                assert(items@.take(i as int) =~= items@);
            }
        },
        Value::Mapping(k, entries) => {
            put_u8(out, TYPE_MAP);
            put_i32_le(out, entries.len() as i32);
            put_u8(out, map_kind_byte(*k));
            let ghost head = out@;
            proof {
                lemma_pair_models(entries@);
                assert(entries@.take(0) =~= Seq::<(Value, Value)>::empty());
                assert(out@ =~= head + enc_pairs(pair_models(entries@.take(0))));
            }
            let mut i: usize = 0;
            while i < entries.len()
                invariant
                    *v == Value::Mapping(*k, *entries),
                    i <= entries@.len(),
                    encodable(v@),
                    v@ == ValueModel::Mapping(*k, pair_models(entries@)),
                    pair_models(entries@).len() == entries@.len(),
                    forall|j: int|
                        0 <= j < entries@.len() ==> #[trigger] pair_models(entries@)[j] == (
                            value_model(entries@[j].0),
                            value_model(entries@[j].1),
                        ),
                    out@ == head + enc_pairs(pair_models(entries@.take(i as int))),
                decreases entries@.len() - i,
            {
                proof {
                    assert(encodable(pair_models(entries@)[i as int].0));
                }
                write_value(&entries[i].0, out);
                write_value(&entries[i].1, out);
                proof {
                    let done = entries@.take(i as int);
                    let e = entries@[i as int];
                    assert(entries@.take(i + 1) =~= done.push(e));
                    assert(done.push(e).drop_last() =~= done);
                    lemma_enc_pairs_push(pair_models(done), (value_model(e.0), value_model(e.1)));
                    assert(out@ =~= head + enc_pairs(pair_models(entries@.take(i + 1))));
                }
                i = i + 1;
            }
            proof {
                assert(entries@.take(i as int) =~= entries@);
            }
        },
        Value::BinaryObject(b) => {
            put_u8(out, TYPE_BINARY_OBJECT);
            put_u8(out, BINARY_OBJECT_VERSION);
            put_i16_le(out, b.flags);
            put_i32_le(out, b.type_id);
            put_i32_le(out, b.hash_code);
            put_i32_le(out, (b.body.len() + 16) as i32);
            put_slice(out, b.body.as_slice());
        },
    }
    proof {
        assert(out@ =~= start + enc(v@));
    }
}

/// Appends the wire form of `v`. A value without one is refused before
/// anything is written.
pub fn encode(v: &Value, out: &mut Vec<u8>) -> (r: Result<(), Error>)
    ensures
        r is Ok <==> encodable(v@),
        r is Ok ==> final(out)@ == old(out)@ + enc(v@),
        r matches Err(e) ==> final(out)@ == old(out)@ && e.kind == ErrorKind::Codec,
{
    if !is_encodable(v) {
        return Err(Error::codec("value has no wire form"));
    }
    write_value(v, out);
    Ok(())
}

/// Reads the value whose wire form starts at `buf[pos]`, and the length of
/// that form.
#[verifier::rlimit(100)]
#[verifier::spinoff_prover]
pub fn decode(buf: &Vec<u8>, pos: usize) -> (r: Result<(Value, usize), Error>)
    requires
        pos <= buf@.len(),
    ensures
        match r {
            Ok((v, n)) => pos + n <= buf@.len() && parse(buf@.skip(pos as int)) == Some(
                (v@, n as nat),
            ),
            Err(e) => parse(buf@.skip(pos as int)) is None && e.kind == ErrorKind::Codec,
        },
    decreases buf@.len() - pos, 1int,
{
    proof {
        reveal(parse_flat);
    }
    let len = buf.len();
    if pos >= len {
        return Err(Error::codec("unexpected end of input"));
    }
    let code = buf[pos];
    let p = pos + 1;
    let ghost s = buf@.skip(pos as int);
    proof {
        assert(buf@.skip(p as int) =~= s.skip(1));
    }
    if code == TYPE_I8 {
        return match i8::read_raw(buf, p) {
            Some((x, n)) => Ok((Value::I8(x), n + 1)),
            None => Err(Error::codec("malformed value")),
        };
    }
    if code == TYPE_I16 {
        return match i16::read_raw(buf, p) {
            Some((x, n)) => Ok((Value::I16(x), n + 1)),
            None => Err(Error::codec("malformed value")),
        };
    }
    if code == TYPE_I32 {
        return match i32::read_raw(buf, p) {
            Some((x, n)) => Ok((Value::I32(x), n + 1)),
            None => Err(Error::codec("malformed value")),
        };
    }
    if code == TYPE_I64 {
        return match i64::read_raw(buf, p) {
            Some((x, n)) => Ok((Value::I64(x), n + 1)),
            None => Err(Error::codec("malformed value")),
        };
    }
    if code == TYPE_F32 {
        return match u32::read_raw(buf, p) {
            Some((x, n)) => Ok((Value::F32(x), n + 1)),
            None => Err(Error::codec("malformed value")),
        };
    }
    if code == TYPE_F64 {
        return match u64::read_raw(buf, p) {
            Some((x, n)) => Ok((Value::F64(x), n + 1)),
            None => Err(Error::codec("malformed value")),
        };
    }
    if code == TYPE_CHAR {
        return match char::read_raw(buf, p) {
            Some((x, n)) => Ok((Value::Char(x), n + 1)),
            None => Err(Error::codec("malformed value")),
        };
    }
    if code == TYPE_BOOL {
        return match bool::read_raw(buf, p) {
            Some((x, n)) => Ok((Value::Bool(x), n + 1)),
            None => Err(Error::codec("malformed value")),
        };
    }
    if code == TYPE_STRING {
        return match String::read_raw(buf, p) {
            Some((x, n)) => Ok((Value::String(x), n + 1)),
            None => Err(Error::codec("malformed value")),
        };
    }
    if code == TYPE_UUID {
        return match Uuid::read_raw(buf, p) {
            Some((x, n)) => Ok((Value::Uuid(x), n + 1)),
            None => Err(Error::codec("malformed value")),
        };
    }
    if code == TYPE_TIMESTAMP {
        return match Timestamp::read_raw(buf, p) {
            Some((x, n)) => Ok((Value::Timestamp(x), n + 1)),
            None => Err(Error::codec("malformed value")),
        };
    }
    if code == TYPE_I8_ARRAY {
        return match read_array::<i8>(buf, p) {
            Some((x, n)) => Ok((Value::I8Vec(x), n + 1)),
            None => Err(Error::codec("malformed array")),
        };
    }
    if code == TYPE_I16_ARRAY {
        return match read_array::<i16>(buf, p) {
            Some((x, n)) => Ok((Value::I16Vec(x), n + 1)),
            None => Err(Error::codec("malformed array")),
        };
    }
    if code == TYPE_I32_ARRAY {
        return match read_array::<i32>(buf, p) {
            Some((x, n)) => Ok((Value::I32Vec(x), n + 1)),
            None => Err(Error::codec("malformed array")),
        };
    }
    if code == TYPE_I64_ARRAY {
        return match read_array::<i64>(buf, p) {
            Some((x, n)) => Ok((Value::I64Vec(x), n + 1)),
            None => Err(Error::codec("malformed array")),
        };
    }
    if code == TYPE_F32_ARRAY {
        return match read_array::<u32>(buf, p) {
            Some((x, n)) => Ok((Value::F32Vec(x), n + 1)),
            None => Err(Error::codec("malformed array")),
        };
    }
    if code == TYPE_F64_ARRAY {
        return match read_array::<u64>(buf, p) {
            Some((x, n)) => Ok((Value::F64Vec(x), n + 1)),
            None => Err(Error::codec("malformed array")),
        };
    }
    if code == TYPE_CHAR_ARRAY {
        return match read_array::<char>(buf, p) {
            Some((x, n)) => Ok((Value::CharVec(x), n + 1)),
            None => Err(Error::codec("malformed array")),
        };
    }
    if code == TYPE_BOOL_ARRAY {
        return match read_array::<bool>(buf, p) {
            Some((x, n)) => Ok((Value::BoolVec(x), n + 1)),
            None => Err(Error::codec("malformed array")),
        };
    }
    if code == TYPE_STRING_ARRAY {
        return match read_array::<String>(buf, p) {
            Some((x, n)) => Ok((Value::StringVec(x), n + 1)),
            None => Err(Error::codec("malformed array")),
        };
    }
    if code == TYPE_UUID_ARRAY {
        return match read_array::<Uuid>(buf, p) {
            Some((x, n)) => Ok((Value::UuidVec(x), n + 1)),
            None => Err(Error::codec("malformed array")),
        };
    }
    if code == TYPE_TIMESTAMP_ARRAY {
        return match read_array::<Timestamp>(buf, p) {
            Some((x, n)) => Ok((Value::TimestampVec(x), n + 1)),
            None => Err(Error::codec("malformed array")),
        };
    }
    if code == TYPE_COLLECTION {
        return decode_collection(buf, pos);
    }
    if code == TYPE_MAP {
        return decode_mapping(buf, pos);
    }
    if code == TYPE_BINARY_OBJECT {
        return decode_binary_object(buf, pos);
    }
    Err(Error::codec("unknown type code"))
}

#[verifier::rlimit(100)]
#[verifier::spinoff_prover]
fn decode_collection(buf: &Vec<u8>, pos: usize) -> (r: Result<(Value, usize), Error>)
    requires
        pos < buf@.len(),
        buf@[pos as int] == TYPE_COLLECTION,
    ensures
        match r {
            Ok((v, n)) => pos + n <= buf@.len() && parse(buf@.skip(pos as int)) == Some(
                (v@, n as nat),
            ),
            Err(e) => parse(buf@.skip(pos as int)) is None && e.kind == ErrorKind::Codec,
        },
    decreases buf@.len() - pos, 0int,
{
    let len = buf.len();
    let p = pos + 1;
    let ghost s = buf@.skip(pos as int);
    let ghost t = s.skip(1);
    proof {
        assert(buf@.skip(p as int) =~= t);
    }
    if len - p < 5 {
        assert(parse(s) is None);
        return Err(Error::codec("truncated collection"));
    }
    let c = get_u32_le(buf, p) as i32;
    let kind = match collection_kind_from_byte(buf[p + 4]) {
        Some(k) => k,
        None => {
            assert(parse(s) is None);
            return Err(Error::codec("unknown collection kind"));
        },
    };
    if c < 0 {
        assert(parse(s) is None);
        return Err(Error::codec("negative collection length"));
    }
    let count = c as usize;
    let ghost s0 = buf@.skip(p + 5);
    proof {
        assert(s0 =~= t.skip(5));
    }
    assert(parse(s) == (match parse_list(s0, count as nat) {
        Some((ms, n)) => Some((ValueModel::Collection(kind, ms), n + 6)),
        None => None,
    }));
    let mut items: Vec<Value> = Vec::new();
    let mut off = p + 5;
    let mut i: usize = 0;
    proof {
        assert(buf@.skip(off as int) =~= s0);
        assert(models(items@) =~= Seq::<ValueModel>::empty());
    }
    while i < count
        invariant
            pos < p,
            p + 5 <= off <= buf@.len(),
            len == buf@.len(),
            i <= count,
            count == c,
            parse(s) == (match parse_list(s0, count as nat) {
                Some((ms, n)) => Some((ValueModel::Collection(kind, ms), n + 6)),
                None => None,
            }),
            parse_list(s0, count as nat) == prepend(
                models(items@),
                (off - p - 5) as nat,
                parse_list(buf@.skip(off as int), (count - i) as nat),
            ),
            s == buf@.skip(pos as int),
            p == pos + 1,
        decreases count - i,
    {
        let ghost rest = buf@.skip(off as int);
        proof {
            lemma_list_step(rest, (count - i) as nat);
        }
        match decode(buf, off) {
            Err(e) => {
                return Err(e);
            },
            Ok((v, n)) => {
                proof {
                    assert(rest.skip(n as int) =~= buf@.skip(off + n));
                    assert(items@.push(v).drop_last() =~= items@);
                    lemma_prepend_push(
                        models(items@),
                        (off - p - 5) as nat,
                        v@,
                        n as nat,
                        parse_list(buf@.skip(off + n), (count - i - 1) as nat),
                    );
                }
                items.push(v);
                off = off + n;
                i = i + 1;
            },
        }
    }
    proof {
        assert(models(items@) + Seq::<ValueModel>::empty() =~= models(items@));
    }
    Ok((Value::Collection(kind, items), off - pos))
}

#[verifier::rlimit(100)]
#[verifier::spinoff_prover]
fn decode_mapping(buf: &Vec<u8>, pos: usize) -> (r: Result<(Value, usize), Error>)
    requires
        pos < buf@.len(),
        buf@[pos as int] == TYPE_MAP,
    ensures
        match r {
            Ok((v, n)) => pos + n <= buf@.len() && parse(buf@.skip(pos as int)) == Some(
                (v@, n as nat),
            ),
            Err(e) => parse(buf@.skip(pos as int)) is None && e.kind == ErrorKind::Codec,
        },
    decreases buf@.len() - pos, 0int,
{
    let len = buf.len();
    let p = pos + 1;
    let ghost s = buf@.skip(pos as int);
    let ghost t = s.skip(1);
    proof {
        assert(buf@.skip(p as int) =~= t);
    }
    if len - p < 5 {
        assert(parse(s) is None);
        return Err(Error::codec("truncated map"));
    }
    let c = get_u32_le(buf, p) as i32;
    let kind = match map_kind_from_byte(buf[p + 4]) {
        Some(k) => k,
        None => {
            assert(parse(s) is None);
            return Err(Error::codec("unknown map kind"));
        },
    };
    if c < 0 {
        assert(parse(s) is None);
        return Err(Error::codec("negative map length"));
    }
    let count = c as usize;
    let ghost s0 = buf@.skip(p + 5);
    proof {
        assert(s0 =~= t.skip(5));
    }
    assert(parse(s) == (match parse_pairs(s0, count as nat) {
        Some((ps, n)) => Some((ValueModel::Mapping(kind, ps), n + 6)),
        None => None,
    }));
    let mut entries: Vec<(Value, Value)> = Vec::new();
    let mut off = p + 5;
    let mut i: usize = 0;
    proof {
        assert(buf@.skip(off as int) =~= s0);
        assert(pair_models(entries@) =~= Seq::<(ValueModel, ValueModel)>::empty());
    }
    while i < count
        invariant
            pos < p,
            p + 5 <= off <= buf@.len(),
            len == buf@.len(),
            i <= count,
            count == c,
            parse(s) == (match parse_pairs(s0, count as nat) {
                Some((ps, n)) => Some((ValueModel::Mapping(kind, ps), n + 6)),
                None => None,
            }),
            parse_pairs(s0, count as nat) == prepend(
                pair_models(entries@),
                (off - p - 5) as nat,
                parse_pairs(buf@.skip(off as int), (count - i) as nat),
            ),
            s == buf@.skip(pos as int),
            p == pos + 1,
        decreases count - i,
    {
        let ghost rest = buf@.skip(off as int);
        proof {
            lemma_pairs_step(rest, (count - i) as nat);
        }
        let (key, n1) = match decode(buf, off) {
            Err(e) => {
                return Err(e);
            },
            Ok(x) => x,
        };
        proof {
            assert(rest.skip(n1 as int) =~= buf@.skip(off + n1));
        }
        let (val, n2) = match decode(buf, off + n1) {
            Err(e) => {
                return Err(e);
            },
            Ok(x) => x,
        };
        proof {
            assert(rest.skip(n1 + n2) =~= buf@.skip(off + n1 + n2));
            assert(entries@.push((key, val)).drop_last() =~= entries@);
            lemma_prepend_push(
                pair_models(entries@),
                (off - p - 5) as nat,
                (key@, val@),
                (n1 + n2) as nat,
                parse_pairs(buf@.skip(off + n1 + n2), (count - i - 1) as nat),
            );
        }
        entries.push((key, val));
        off = off + n1 + n2;
        i = i + 1;
    }
    proof {
        assert(pair_models(entries@) + Seq::<(ValueModel, ValueModel)>::empty() =~= pair_models(
            entries@,
        ));
    }
    Ok((Value::Mapping(kind, entries), off - pos))
}

#[verifier::rlimit(100)]
#[verifier::spinoff_prover]
fn decode_binary_object(buf: &Vec<u8>, pos: usize) -> (r: Result<(Value, usize), Error>)
    requires
        pos < buf@.len(),
        buf@[pos as int] == TYPE_BINARY_OBJECT,
    ensures
        match r {
            Ok((v, n)) => pos + n <= buf@.len() && parse(buf@.skip(pos as int)) == Some(
                (v@, n as nat),
            ),
            Err(e) => parse(buf@.skip(pos as int)) is None && e.kind == ErrorKind::Codec,
        },
{
    let len = buf.len();
    let p = pos + 1;
    let ghost t = buf@.skip(pos as int).skip(1);
    proof {
        assert(buf@.skip(p as int) =~= t);
    }
    if len - p < 15 || buf[p] != BINARY_OBJECT_VERSION {
        return Err(Error::codec("unsupported binary object"));
    }
    proof {
        assert(buf@.skip(p + 1) =~= t.skip(1));
        assert(buf@.skip(p + 3) =~= t.skip(3));
        assert(buf@.skip(p + 7) =~= t.skip(7));
        assert(buf@.skip(p + 11) =~= t.skip(11));
    }
    let flags = get_u16_le(buf, p + 1) as i16;
    let type_id = get_u32_le(buf, p + 3) as i32;
    let hash_code = get_u32_le(buf, p + 7) as i32;
    let declared = get_u32_le(buf, p + 11) as i32;
    if declared < 16 || len - p < (declared - 1) as usize {
        return Err(Error::codec("truncated binary object"));
    }
    let body = copy_range(buf, p + 15, p + (declared - 1) as usize);
    proof {
        assert(body@ =~= t.subrange(15, declared - 1));
    }
    Ok((Value::BinaryObject(BinaryObject { flags, type_id, hash_code, body }), declared as usize))
}

pub open spec fn opt_model(v: Option<Value>) -> Option<ValueModel> {
    match v {
        Some(x) => Some(x@),
        None => None,
    }
}

/// The wire form of a value that may be absent: the null byte alone, or the
/// value's own wire form.
pub open spec fn enc_nullable(m: Option<ValueModel>) -> Seq<u8> {
    match m {
        Some(x) => enc(x),
        None => seq![NULL],
    }
}

pub open spec fn nullable_encodable(m: Option<ValueModel>) -> bool {
    match m {
        Some(x) => encodable(x),
        None => true,
    }
}

pub open spec fn parse_nullable(s: Seq<u8>) -> Option<(Option<ValueModel>, nat)> {
    if s.len() < 1 {
        None
    } else if s[0] == NULL {
        Some((None, 1))
    } else {
        match parse(s) {
            Some((m, n)) => Some((Some(m), n)),
            None => None,
        }
    }
}

/// Appends the wire form of a value that may be absent.
pub fn encode_nullable(v: &Option<Value>, out: &mut Vec<u8>) -> (r: Result<(), Error>)
    ensures
        r is Ok <==> nullable_encodable(opt_model(*v)),
        r is Ok ==> final(out)@ == old(out)@ + enc_nullable(opt_model(*v)),
        r matches Err(e) ==> final(out)@ == old(out)@ && e.kind == ErrorKind::Codec,
{
    match v {
        Some(x) => encode(x, out),
        None => {
            put_u8(out, NULL);
            assert(out@ =~= old(out)@ + enc_nullable(opt_model(*v)));
            Ok(())
        },
    }
}

/// Reads a value that may be absent: the null byte yields `None` and takes
/// one byte.
pub fn decode_nullable(buf: &Vec<u8>, pos: usize) -> (r: Result<(Option<Value>, usize), Error>)
    requires
        pos <= buf@.len(),
    ensures
        match r {
            Ok((v, n)) => pos + n <= buf@.len() && parse_nullable(buf@.skip(pos as int)) == Some(
                (opt_model(v), n as nat),
            ),
            Err(e) => parse_nullable(buf@.skip(pos as int)) is None && e.kind == ErrorKind::Codec,
        },
{
    if pos >= buf.len() {
        return Err(Error::codec("unexpected end of input"));
    }
    if buf[pos] == NULL {
        return Ok((None, 1));
    }
    match decode(buf, pos) {
        Ok((v, n)) => Ok((Some(v), n)),
        Err(e) => Err(e),
    }
}

/// The first byte of every wire form is the type code of the value's kind.
pub proof fn lemma_type_code_prefix(m: ValueModel)
    ensures
        enc(m).len() >= 1,
        enc(m)[0] == type_code(m),
        type_code(m) != NULL,
{
}

/// The null byte alone stands for an absent value, and decodes to one,
/// taking exactly that byte.
pub proof fn lemma_null(rest: Seq<u8>)
    ensures
        enc_nullable(None) == seq![NULL],
        parse_nullable(enc_nullable(None) + rest) == Some((None::<ValueModel>, 1nat)),
{
    assert((seq![NULL] + rest)[0] == NULL);
}

/// A value that may be absent decodes to itself, whatever bytes follow.
pub proof fn lemma_parse_nullable(m: Option<ValueModel>, rest: Seq<u8>)
    requires
        nullable_encodable(m),
    ensures
        parse_nullable(enc_nullable(m) + rest) == Some((m, enc_nullable(m).len())),
{
    match m {
        Some(x) => {
            lemma_parse_enc(x, rest);
            assert((enc(x) + rest)[0] == type_code(x));
        },
        None => {
            lemma_null(rest);
        },
    }
}

/// A character outside the basic multilingual plane needs a UTF-16
/// surrogate pair, so it has no wire form: `encode` refuses it and writes
/// nothing.
pub proof fn lemma_supplementary_char_rejected(c: char)
    requires
        c as u32 >= 0x10000,
    ensures
        !encodable(ValueModel::Char(c)),
{
}

} // verus!
