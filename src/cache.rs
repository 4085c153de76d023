//! Requests on one cache, named by a hash of its name, and the replies
//! they get.
use vstd::prelude::*;
use vstd::string::StrSliceExecFns;

use crate::buffer::{from_le64, get_u32_le, get_u64_le, le_i32, put_i32_le, put_u8};
use crate::configuration::{config_fields_ok, config_fields_wire, CacheConfiguration};
use crate::error::{Error, ErrorKind};
use crate::network::{
    begin_cache_request, begin_request, cache_request_header, check_reply, reply_error, reply_ok,
    request_header,
};
use crate::value::{
    decode_nullable, enc, enc_list, enc_pairs, encodable, encode, lemma_enc_list_push,
    lemma_enc_pairs_push, lemma_models, lemma_pair_models, models, opt_model, pair_models,
    parse_nullable, value_model, Value, ValueModel,
};

verus! {

broadcast use vstd::seq_lib::group_seq_properties;

pub const OP_GET: i16 = 1000;
pub const OP_PUT: i16 = 1001;
pub const OP_PUT_IF_ABSENT: i16 = 1002;
pub const OP_GET_ALL: i16 = 1003;
pub const OP_PUT_ALL: i16 = 1004;
pub const OP_GET_AND_PUT: i16 = 1005;
pub const OP_GET_AND_REPLACE: i16 = 1006;
pub const OP_GET_AND_REMOVE: i16 = 1007;
pub const OP_GET_AND_PUT_IF_ABSENT: i16 = 1008;
pub const OP_REPLACE: i16 = 1009;
pub const OP_REPLACE_IF_EQUALS: i16 = 1010;
pub const OP_CONTAINS_KEY: i16 = 1011;
pub const OP_CONTAINS_KEYS: i16 = 1012;
pub const OP_CLEAR: i16 = 1013;
pub const OP_CLEAR_KEY: i16 = 1014;
pub const OP_CLEAR_KEYS: i16 = 1015;
pub const OP_REMOVE_KEY: i16 = 1016;
pub const OP_REMOVE_IF_EQUALS: i16 = 1017;
pub const OP_REMOVE_KEYS: i16 = 1018;
pub const OP_REMOVE_ALL: i16 = 1019;
pub const OP_SIZE: i16 = 1020;
pub const OP_CACHE_NAMES: i16 = 1050;
pub const OP_CREATE_CACHE: i16 = 1051;
pub const OP_GET_OR_CREATE_CACHE: i16 = 1052;
pub const OP_GET_CONFIGURATION: i16 = 1055;
pub const OP_DESTROY_CACHE: i16 = 1056;

/// The running hash of a name: `h <- 31 * h + c` over its characters, in a
/// 64-bit accumulator that wraps around.
pub open spec fn name_hash(cs: Seq<char>) -> i64
    decreases cs.len(),
{
    if cs.len() == 0 {
        0
    } else {
        name_hash(cs.drop_last()).wrapping_mul(31).wrapping_add(cs.last() as i64)
    }
}

/// The id by which the server knows the cache of this name: the low 32
/// bits of its hash.
pub open spec fn cache_id(name: Seq<char>) -> i32 {
    name_hash(name) as i32
}

pub fn cache_id_of(name: &str) -> (r: i32)
    ensures
        r == cache_id(name@),
{
    let n = name.unicode_len();
    let mut h: i64 = 0;
    let mut i: usize = 0;
    assert(name@.take(0) =~= Seq::<char>::empty());
    while i < n
        invariant
            i <= n,
            n == name@.len(),
            h == name_hash(name@.take(i as int)),
        decreases n - i,
    {
        let c = name.get_char(i);
        h = h.wrapping_mul(31).wrapping_add(c as i64);
        proof {
            assert(name@.take(i + 1).drop_last() =~= name@.take(i as int));
        }
        i = i + 1;
    }
    assert(name@.take(n as int) =~= name@);
    h as i32
}

/// Which copies of the entries a size count takes in.
#[derive(PartialEq, Eq, Structural, Debug, Clone, Copy)]
pub enum PeekMode {
    All,
    Near,
    Primary,
    Backup,
}

pub open spec fn peek_mode_code(m: PeekMode) -> u8 {
    match m {
        PeekMode::All => 0,
        PeekMode::Near => 1,
        PeekMode::Primary => 2,
        PeekMode::Backup => 3,
    }
}

pub open spec fn peek_mode_bytes(ms: Seq<PeekMode>) -> Seq<u8>
    decreases ms.len(),
{
    if ms.len() == 0 {
        Seq::empty()
    } else {
        peek_mode_bytes(ms.drop_last()).push(peek_mode_code(ms.last()))
    }
}

/// Values one after another, led by their count.
pub open spec fn list_bytes(ms: Seq<ValueModel>) -> Seq<u8> {
    le_i32(ms.len() as i32) + enc_list(ms)
}

pub open spec fn list_encodable(ms: Seq<ValueModel>) -> bool {
    ms.len() <= i32::MAX && forall|i: int| 0 <= i < ms.len() ==> encodable(#[trigger] ms[i])
}

/// Key-value pairs one after another, led by their count.
pub open spec fn pairs_bytes(ps: Seq<(ValueModel, ValueModel)>) -> Seq<u8> {
    le_i32(ps.len() as i32) + enc_pairs(ps)
}

pub open spec fn pairs_encodable(ps: Seq<(ValueModel, ValueModel)>) -> bool {
    ps.len() <= i32::MAX && forall|i: int|
        0 <= i < ps.len() ==> encodable(#[trigger] ps[i].0) && encodable(ps[i].1)
}

/// A handle on the cache of one name; making one does not contact the
/// server.
#[derive(Debug)]
pub struct Cache {
    pub name: String,
}

impl Cache {
    pub fn new(name: &str) -> (c: Cache)
        ensures
            c.name@ == name@,
    {
        Cache { name: name.to_string() }
    }

    /// The id the server knows this cache by.
    pub fn id(&self) -> (r: i32)
        ensures
            r == cache_id(self.name@),
    {
        cache_id_of(self.name.as_str())
    }

    /// Clear the cache.
    pub fn clear_request(&self) -> (r: Vec<u8>)
        ensures
            r@ == cache_request_header(OP_CLEAR, cache_id(self.name@)),
    {
        self.plain_request(OP_CLEAR)
    }
    /// Remove every entry.
    pub fn remove_all_request(&self) -> (r: Vec<u8>)
        ensures
            r@ == cache_request_header(OP_REMOVE_ALL, cache_id(self.name@)),
    {
        self.plain_request(OP_REMOVE_ALL)
    }
    /// Ask for the configuration of the cache.
    pub fn configuration_request(&self) -> (r: Vec<u8>)
        ensures
            r@ == cache_request_header(OP_GET_CONFIGURATION, cache_id(self.name@)),
    {
        self.plain_request(OP_GET_CONFIGURATION)
    }
    /// Get the value of `key`.
    pub fn get_request(&self, key: &Value) -> (r: Result<Vec<u8>, Error>)
        ensures
            r is Ok <==> encodable(key@),
            r matches Ok(b) ==> b@ == cache_request_header(OP_GET, cache_id(self.name@)) + enc(
                key@,
            ),
            r matches Err(e) ==> e.kind == ErrorKind::Codec,
    {
        self.one_value_request(OP_GET, key)
    }
    /// Remove `key`, answering with its old value.
    pub fn get_and_remove_request(&self, key: &Value) -> (r: Result<Vec<u8>, Error>)
        ensures
            r is Ok <==> encodable(key@),
            r matches Ok(b) ==> b@ == cache_request_header(OP_GET_AND_REMOVE, cache_id(self.name@)) + enc(
                key@,
            ),
            r matches Err(e) ==> e.kind == ErrorKind::Codec,
    {
        self.one_value_request(OP_GET_AND_REMOVE, key)
    }
    /// Whether `key` has a value.
    pub fn contains_key_request(&self, key: &Value) -> (r: Result<Vec<u8>, Error>)
        ensures
            r is Ok <==> encodable(key@),
            r matches Ok(b) ==> b@ == cache_request_header(OP_CONTAINS_KEY, cache_id(self.name@)) + enc(
                key@,
            ),
            r matches Err(e) ==> e.kind == ErrorKind::Codec,
    {
        self.one_value_request(OP_CONTAINS_KEY, key)
    }
    /// Clear `key`.
    pub fn clear_key_request(&self, key: &Value) -> (r: Result<Vec<u8>, Error>)
        ensures
            r is Ok <==> encodable(key@),
            r matches Ok(b) ==> b@ == cache_request_header(OP_CLEAR_KEY, cache_id(self.name@)) + enc(
                key@,
            ),
            r matches Err(e) ==> e.kind == ErrorKind::Codec,
    {
        self.one_value_request(OP_CLEAR_KEY, key)
    }
    /// Remove `key`, answering whether it was there.
    pub fn remove_key_request(&self, key: &Value) -> (r: Result<Vec<u8>, Error>)
        ensures
            r is Ok <==> encodable(key@),
            r matches Ok(b) ==> b@ == cache_request_header(OP_REMOVE_KEY, cache_id(self.name@)) + enc(
                key@,
            ),
            r matches Err(e) ==> e.kind == ErrorKind::Codec,
    {
        self.one_value_request(OP_REMOVE_KEY, key)
    }
    /// Set `key` to `value`.
    pub fn put_request(&self, key: &Value, value: &Value) -> (r: Result<Vec<u8>, Error>)
        ensures
            r is Ok <==> encodable(key@) && encodable(value@),
            r matches Ok(x) ==> x@ == cache_request_header(OP_PUT, cache_id(self.name@)) + enc(
                key@,
            ) + enc(value@),
            r matches Err(e) ==> e.kind == ErrorKind::Codec,
    {
        self.two_value_request(OP_PUT, key, value)
    }
    /// Set `key` to `value` unless it has one.
    pub fn put_if_absent_request(&self, key: &Value, value: &Value) -> (r: Result<Vec<u8>, Error>)
        ensures
            r is Ok <==> encodable(key@) && encodable(value@),
            r matches Ok(x) ==> x@ == cache_request_header(OP_PUT_IF_ABSENT, cache_id(self.name@)) + enc(
                key@,
            ) + enc(value@),
            r matches Err(e) ==> e.kind == ErrorKind::Codec,
    {
        self.two_value_request(OP_PUT_IF_ABSENT, key, value)
    }
    /// Set `key`, answering with its old value.
    pub fn get_and_put_request(&self, key: &Value, value: &Value) -> (r: Result<Vec<u8>, Error>)
        ensures
            r is Ok <==> encodable(key@) && encodable(value@),
            r matches Ok(x) ==> x@ == cache_request_header(OP_GET_AND_PUT, cache_id(self.name@)) + enc(
                key@,
            ) + enc(value@),
            r matches Err(e) ==> e.kind == ErrorKind::Codec,
    {
        self.two_value_request(OP_GET_AND_PUT, key, value)
    }
    /// Replace the value of `key`, answering with its old value.
    pub fn get_and_replace_request(&self, key: &Value, value: &Value) -> (r: Result<Vec<u8>, Error>)
        ensures
            r is Ok <==> encodable(key@) && encodable(value@),
            r matches Ok(x) ==> x@ == cache_request_header(OP_GET_AND_REPLACE, cache_id(self.name@)) + enc(
                key@,
            ) + enc(value@),
            r matches Err(e) ==> e.kind == ErrorKind::Codec,
    {
        self.two_value_request(OP_GET_AND_REPLACE, key, value)
    }
    /// Set `key` unless it has a value, answering with the value it had.
    pub fn get_and_put_if_absent_request(&self, key: &Value, value: &Value) -> (r: Result<Vec<u8>, Error>)
        ensures
            r is Ok <==> encodable(key@) && encodable(value@),
            r matches Ok(x) ==> x@ == cache_request_header(OP_GET_AND_PUT_IF_ABSENT, cache_id(self.name@)) + enc(
                key@,
            ) + enc(value@),
            r matches Err(e) ==> e.kind == ErrorKind::Codec,
    {
        self.two_value_request(OP_GET_AND_PUT_IF_ABSENT, key, value)
    }
    /// Replace the value of `key` if it has one.
    pub fn replace_request(&self, key: &Value, value: &Value) -> (r: Result<Vec<u8>, Error>)
        ensures
            r is Ok <==> encodable(key@) && encodable(value@),
            r matches Ok(x) ==> x@ == cache_request_header(OP_REPLACE, cache_id(self.name@)) + enc(
                key@,
            ) + enc(value@),
            r matches Err(e) ==> e.kind == ErrorKind::Codec,
    {
        self.two_value_request(OP_REPLACE, key, value)
    }
    /// Remove `key` if its value is `old_value`.
    pub fn remove_if_equals_request(&self, key: &Value, old_value: &Value) -> (r: Result<Vec<u8>, Error>)
        ensures
            r is Ok <==> encodable(key@) && encodable(old_value@),
            r matches Ok(x) ==> x@ == cache_request_header(OP_REMOVE_IF_EQUALS, cache_id(self.name@)) + enc(
                key@,
            ) + enc(old_value@),
            r matches Err(e) ==> e.kind == ErrorKind::Codec,
    {
        self.two_value_request(OP_REMOVE_IF_EQUALS, key, old_value)
    }
    /// Replace the value of `key` with `new_value` if it is `old_value`.
    pub fn replace_if_equals_request(&self, key: &Value, old_value: &Value, new_value: &Value) -> (r:
        Result<Vec<u8>, Error>)
        ensures
            r is Ok <==> encodable(key@) && encodable(old_value@) && encodable(new_value@),
            r matches Ok(x) ==> x@ == cache_request_header(
                OP_REPLACE_IF_EQUALS,
                cache_id(self.name@),
            ) + enc(key@) + enc(old_value@) + enc(new_value@),
            r matches Err(e) ==> e.kind == ErrorKind::Codec,
    {
        self.three_value_request(OP_REPLACE_IF_EQUALS, key, old_value, new_value)
    }
    /// Get the values of `keys`.
    pub fn get_all_request(&self, keys: &Vec<Value>) -> (r: Result<Vec<u8>, Error>)
        ensures
            r is Ok <==> list_encodable(models(keys@)),
            r matches Ok(x) ==> x@ == cache_request_header(OP_GET_ALL, cache_id(self.name@))
                + list_bytes(models(keys@)),
            r matches Err(e) ==> e.kind == ErrorKind::Codec,
    {
        self.list_request(OP_GET_ALL, keys)
    }
    /// Whether all of `keys` have values.
    pub fn contains_keys_request(&self, keys: &Vec<Value>) -> (r: Result<Vec<u8>, Error>)
        ensures
            r is Ok <==> list_encodable(models(keys@)),
            r matches Ok(x) ==> x@ == cache_request_header(OP_CONTAINS_KEYS, cache_id(self.name@))
                + list_bytes(models(keys@)),
            r matches Err(e) ==> e.kind == ErrorKind::Codec,
    {
        self.list_request(OP_CONTAINS_KEYS, keys)
    }
    /// Clear `keys`.
    pub fn clear_keys_request(&self, keys: &Vec<Value>) -> (r: Result<Vec<u8>, Error>)
        ensures
            r is Ok <==> list_encodable(models(keys@)),
            r matches Ok(x) ==> x@ == cache_request_header(OP_CLEAR_KEYS, cache_id(self.name@))
                + list_bytes(models(keys@)),
            r matches Err(e) ==> e.kind == ErrorKind::Codec,
    {
        self.list_request(OP_CLEAR_KEYS, keys)
    }
    /// Remove `keys`.
    pub fn remove_keys_request(&self, keys: &Vec<Value>) -> (r: Result<Vec<u8>, Error>)
        ensures
            r is Ok <==> list_encodable(models(keys@)),
            r matches Ok(x) ==> x@ == cache_request_header(OP_REMOVE_KEYS, cache_id(self.name@))
                + list_bytes(models(keys@)),
            r matches Err(e) ==> e.kind == ErrorKind::Codec,
    {
        self.list_request(OP_REMOVE_KEYS, keys)
    }
    /// Set each key of `entries` to its value.
    pub fn put_all_request(&self, entries: &Vec<(Value, Value)>) -> (r: Result<Vec<u8>, Error>)
        ensures
            r is Ok <==> pairs_encodable(pair_models(entries@)),
            r matches Ok(x) ==> x@ == cache_request_header(OP_PUT_ALL, cache_id(self.name@))
                + pairs_bytes(pair_models(entries@)),
            r matches Err(e) ==> e.kind == ErrorKind::Codec,
    {
        self.pairs_request(OP_PUT_ALL, entries)
    }

    /// Count the entries, as the peek modes select them.
    pub fn size_request(&self, peek_modes: &Vec<PeekMode>) -> (r: Result<Vec<u8>, Error>)
        ensures
            r is Ok <==> peek_modes@.len() <= i32::MAX,
            r matches Ok(x) ==> x@ == cache_request_header(OP_SIZE, cache_id(self.name@)) + le_i32(
                peek_modes@.len() as i32,
            ) + peek_mode_bytes(peek_modes@),
            r matches Err(e) ==> e.kind == ErrorKind::Codec,
    {
        if peek_modes.len() > 0x7fff_ffff {
            return Err(Error::codec("too many peek modes"));
        }
        let mut out = begin_cache_request(OP_SIZE, self.id());
        put_i32_le(&mut out, peek_modes.len() as i32);
        let ghost head = out@;
        let mut i: usize = 0;
        assert(peek_modes@.take(0) =~= Seq::<PeekMode>::empty());
        assert(out@ =~= head + peek_mode_bytes(peek_modes@.take(0)));
        while i < peek_modes.len()
            invariant
                i <= peek_modes@.len(),
                out@ == head + peek_mode_bytes(peek_modes@.take(i as int)),
            decreases peek_modes@.len() - i,
        {
            let code: u8 = match peek_modes[i] {
                PeekMode::All => 0,
                PeekMode::Near => 1,
                PeekMode::Primary => 2,
                PeekMode::Backup => 3,
            };
            put_u8(&mut out, code);
            assert(peek_modes@.take(i + 1).drop_last() =~= peek_modes@.take(i as int));
            assert(out@ =~= head + peek_mode_bytes(peek_modes@.take(i + 1)));
            i = i + 1;
        }
        assert(peek_modes@.take(i as int) =~= peek_modes@);
        Ok(out)
    }

    /// Destroy the cache. This request carries the cache id without a
    /// flags byte.
    pub fn destroy_request(&self) -> (r: Vec<u8>)
        ensures
            r@ == request_header(OP_DESTROY_CACHE) + le_i32(cache_id(self.name@)),
    {
        let mut out = begin_request(OP_DESTROY_CACHE);
        put_i32_le(&mut out, self.id());
        out
    }

    /// A request whose body is empty.
    fn plain_request(&self, opcode: i16) -> (r: Vec<u8>)
        ensures
            r@ == cache_request_header(opcode, cache_id(self.name@)),
    {
        begin_cache_request(opcode, self.id())
    }

    /// A request whose body is one value.
    fn one_value_request(&self, opcode: i16, a: &Value) -> (r: Result<Vec<u8>, Error>)
        ensures
            r is Ok <==> encodable(a@),
            r matches Ok(b) ==> b@ == cache_request_header(opcode, cache_id(self.name@)) + enc(
                a@,
            ),
            r matches Err(e) ==> e.kind == ErrorKind::Codec,
    {
        let mut out = begin_cache_request(opcode, self.id());
        encode(a, &mut out)?;
        Ok(out)
    }

    /// A request whose body is two values.
    fn two_value_request(&self, opcode: i16, a: &Value, b: &Value) -> (r: Result<Vec<u8>, Error>)
        ensures
            r is Ok <==> encodable(a@) && encodable(b@),
            r matches Ok(x) ==> x@ == cache_request_header(opcode, cache_id(self.name@)) + enc(
                a@,
            ) + enc(b@),
            r matches Err(e) ==> e.kind == ErrorKind::Codec,
    {
        let mut out = begin_cache_request(opcode, self.id());
        encode(a, &mut out)?;
        encode(b, &mut out)?;
        Ok(out)
    }

    /// A request whose body is three values.
    fn three_value_request(&self, opcode: i16, a: &Value, b: &Value, c: &Value) -> (r: Result<
        Vec<u8>,
        Error,
    >)
        ensures
            r is Ok <==> encodable(a@) && encodable(b@) && encodable(c@),
            r matches Ok(x) ==> x@ == cache_request_header(opcode, cache_id(self.name@)) + enc(
                a@,
            ) + enc(b@) + enc(c@),
            r matches Err(e) ==> e.kind == ErrorKind::Codec,
    {
        let mut out = begin_cache_request(opcode, self.id());
        encode(a, &mut out)?;
        encode(b, &mut out)?;
        encode(c, &mut out)?;
        Ok(out)
    }

    /// A request whose body is a counted list of values.
    fn list_request(&self, opcode: i16, keys: &Vec<Value>) -> (r: Result<Vec<u8>, Error>)
        ensures
            r is Ok <==> list_encodable(models(keys@)),
            r matches Ok(x) ==> x@ == cache_request_header(opcode, cache_id(self.name@))
                + list_bytes(models(keys@)),
            r matches Err(e) ==> e.kind == ErrorKind::Codec,
    {
        proof {
            lemma_models(keys@);
        }
        if keys.len() > 0x7fff_ffff {
            return Err(Error::codec("too many values"));
        }
        let mut out = begin_cache_request(opcode, self.id());
        put_i32_le(&mut out, keys.len() as i32);
        let ghost head = out@;
        proof {
            assert(keys@.take(0) =~= Seq::<Value>::empty());
            assert(out@ =~= head + enc_list(models(keys@.take(0))));
        }
        let mut i: usize = 0;
        while i < keys.len()
            invariant
                i <= keys@.len() <= i32::MAX,
                models(keys@).len() == keys@.len(),
                forall|j: int|
                    0 <= j < keys@.len() ==> #[trigger] models(keys@)[j] == value_model(keys@[j]),
                forall|j: int| 0 <= j < i ==> encodable(#[trigger] models(keys@)[j]),
                out@ == head + enc_list(models(keys@.take(i as int))),
                head == cache_request_header(opcode, cache_id(self.name@)) + le_i32(
                    keys@.len() as i32,
                ),
            decreases keys@.len() - i,
        {
            proof {
                assert(models(keys@)[i as int] == value_model(keys@[i as int]));
            }
            match encode(&keys[i], &mut out) {
                Err(e) => {
                    return Err(e);
                },
                Ok(()) => {},
            }
            proof {
                let done = keys@.take(i as int);
                assert(keys@.take(i + 1) =~= done.push(keys@[i as int]));
                assert(done.push(keys@[i as int]).drop_last() =~= done);
                lemma_enc_list_push(models(done), value_model(keys@[i as int]));
                assert(out@ =~= head + enc_list(models(keys@.take(i + 1))));
            }
            i = i + 1;
        }
        proof {
            assert(keys@.take(i as int) =~= keys@);
            assert(out@ =~= cache_request_header(opcode, cache_id(self.name@)) + list_bytes(
                models(keys@),
            ));
        }
        Ok(out)
    }

    /// A request whose body is a counted list of key-value pairs.
    fn pairs_request(&self, opcode: i16, entries: &Vec<(Value, Value)>) -> (r: Result<
        Vec<u8>,
        Error,
    >)
        ensures
            r is Ok <==> pairs_encodable(pair_models(entries@)),
            r matches Ok(x) ==> x@ == cache_request_header(opcode, cache_id(self.name@))
                + pairs_bytes(pair_models(entries@)),
            r matches Err(e) ==> e.kind == ErrorKind::Codec,
    {
        proof {
            lemma_pair_models(entries@);
        }
        if entries.len() > 0x7fff_ffff {
            return Err(Error::codec("too many entries"));
        }
        let mut out = begin_cache_request(opcode, self.id());
        put_i32_le(&mut out, entries.len() as i32);
        let ghost head = out@;
        proof {
            assert(entries@.take(0) =~= Seq::<(Value, Value)>::empty());
            assert(out@ =~= head + enc_pairs(pair_models(entries@.take(0))));
        }
        let mut i: usize = 0;
        while i < entries.len()
            invariant
                i <= entries@.len() <= i32::MAX,
                pair_models(entries@).len() == entries@.len(),
                forall|j: int|
                    0 <= j < entries@.len() ==> #[trigger] pair_models(entries@)[j] == (
                        value_model(entries@[j].0),
                        value_model(entries@[j].1),
                    ),
                forall|j: int|
                    0 <= j < i ==> encodable(#[trigger] pair_models(entries@)[j].0) && encodable(
                        pair_models(entries@)[j].1,
                    ),
                out@ == head + enc_pairs(pair_models(entries@.take(i as int))),
                head == cache_request_header(opcode, cache_id(self.name@)) + le_i32(
                    entries@.len() as i32,
                ),
            decreases entries@.len() - i,
        {
            proof {
                assert(pair_models(entries@)[i as int] == (
                    value_model(entries@[i as int].0),
                    value_model(entries@[i as int].1),
                ));
            }
            match encode(&entries[i].0, &mut out) {
                Err(e) => {
                    proof {
                        if pairs_encodable(pair_models(entries@)) {
                            assert(encodable(pair_models(entries@)[i as int].0));
                        }
                    }
                    return Err(e);
                },
                Ok(()) => {},
            }
            match encode(&entries[i].1, &mut out) {
                Err(e) => {
                    proof {
                        if pairs_encodable(pair_models(entries@)) {
                            assert(encodable(pair_models(entries@)[i as int].0));
                        }
                    }
                    return Err(e);
                },
                Ok(()) => {},
            }
            proof {
                assert(encodable(pair_models(entries@)[i as int].0) && encodable(
                    pair_models(entries@)[i as int].1,
                ));
                let done = entries@.take(i as int);
                let e = entries@[i as int];
                assert(entries@.take(i + 1) =~= done.push(e));
                assert(done.push(e).drop_last() =~= done);
                lemma_enc_pairs_push(pair_models(done), (value_model(e.0), value_model(e.1)));
                assert(out@ =~= head + enc_pairs(pair_models(entries@.take(i + 1))));
            }
            i = i + 1;
        }
        proof {
            assert(entries@.take(i as int) =~= entries@);
            assert(out@ =~= cache_request_header(opcode, cache_id(self.name@)) + pairs_bytes(
                pair_models(entries@),
            ));
        }
        Ok(out)
    }
}

/// The body of a reply, after its header.
pub open spec fn reply_body(s: Seq<u8>) -> Seq<u8> {
    s.skip(12)
}

/// Reads a reply without a body.
pub fn read_unit_reply(reply: &Vec<u8>) -> (r: Result<(), Error>)
    ensures
        r is Ok <==> reply_ok(reply@),
        r matches Err(e) ==> e.kind == reply_error(reply@),
{
    check_reply(reply)?;
    Ok(())
}

/// Reads a reply whose body is a boolean.
pub fn read_bool_reply(reply: &Vec<u8>) -> (r: Result<bool, Error>)
    ensures
        r is Ok <==> reply_ok(reply@) && reply@.len() >= 13,
        r matches Ok(b) ==> b == (reply@[12] != 0),
        r matches Err(e) ==> e.kind == (if reply_ok(reply@) {
            ErrorKind::Codec
        } else {
            reply_error(reply@)
        }),
{
    let start = check_reply(reply)?;
    if reply.len() <= start {
        return Err(Error::codec("missing boolean"));
    }
    Ok(reply[start] != 0)
}

/// Reads a reply whose body is a 64-bit count.
pub fn read_size_reply(reply: &Vec<u8>) -> (r: Result<i64, Error>)
    ensures
        r is Ok <==> reply_ok(reply@) && reply@.len() >= 20,
        r matches Ok(n) ==> n == from_le64(reply_body(reply@)) as i64,
        r matches Err(e) ==> e.kind == (if reply_ok(reply@) {
            ErrorKind::Codec
        } else {
            reply_error(reply@)
        }),
{
    let start = check_reply(reply)?;
    if reply.len() - start < 8 {
        return Err(Error::codec("missing count"));
    }
    Ok(get_u64_le(reply, start) as i64)
}

/// Reads a reply whose body is a value that may be absent.
pub fn read_value_reply(reply: &Vec<u8>) -> (r: Result<Option<Value>, Error>)
    ensures
        r is Ok <==> reply_ok(reply@) && parse_nullable(reply_body(reply@)) is Some,
        r matches Ok(v) ==> parse_nullable(reply_body(reply@)) matches Some((m, _)) && m
            == opt_model(v),
        r matches Err(e) ==> e.kind == (if reply_ok(reply@) {
            ErrorKind::Codec
        } else {
            reply_error(reply@)
        }),
{
    let start = check_reply(reply)?;
    let (v, _) = decode_nullable(reply, start)?;
    Ok(v)
}

/// Entries of a bulk read: a key, then its value or null. An entry whose
/// key is null is left out.
pub open spec fn parse_entries(s: Seq<u8>, count: nat) -> Option<
    (Seq<(ValueModel, Option<ValueModel>)>, nat),
>
    decreases count,
{
    if count == 0 {
        Some((Seq::empty(), 0))
    } else {
        match parse_nullable(s) {
            Some((k, n1)) => if n1 <= s.len() {
                match parse_nullable(s.skip(n1 as int)) {
                    Some((v, n2)) => if n1 + n2 <= s.len() {
                        match parse_entries(s.skip((n1 + n2) as int), (count - 1) as nat) {
                            Some((es, m)) => Some(
                                (
                                    match k {
                                        Some(key) => seq![(key, v)] + es,
                                        None => es,
                                    },
                                    n1 + n2 + m,
                                ),
                            ),
                            None => None,
                        }
                    } else {
                        None
                    },
                    None => None,
                }
            } else {
                None
            },
            None => None,
        }
    }
}

/// A count, then that many entries.
pub open spec fn parse_counted_entries(s: Seq<u8>) -> Option<Seq<(ValueModel, Option<ValueModel>)>> {
    if s.len() < 4 {
        None
    } else {
        let c = crate::buffer::from_le32(s) as i32;
        if c < 0 {
            None
        } else {
            match parse_entries(s.skip(4), c as nat) {
                Some((es, _)) => Some(es),
                None => None,
            }
        }
    }
}

pub open spec fn entry_models(s: Seq<(Value, Option<Value>)>) -> Seq<(ValueModel, Option<ValueModel>)>
    decreases s.len(),
{
    if s.len() == 0 {
        Seq::empty()
    } else {
        entry_models(s.drop_last()).push((value_model(s.last().0), opt_model(s.last().1)))
    }
}

/// Reads the reply to a bulk read: each key with its value or null, in the
/// order the server sent them.
#[verifier::rlimit(100)]
#[verifier::spinoff_prover]
pub fn read_get_all_reply(reply: &Vec<u8>) -> (r: Result<Vec<(Value, Option<Value>)>, Error>)
    ensures
        r is Ok <==> reply_ok(reply@) && parse_counted_entries(reply_body(reply@)) is Some,
        r matches Ok(es) ==> parse_counted_entries(reply_body(reply@)) == Some(entry_models(es@)),
        r matches Err(e) ==> e.kind == (if reply_ok(reply@) {
            ErrorKind::Codec
        } else {
            reply_error(reply@)
        }),
{
    let start = check_reply(reply)?;
    let ghost body = reply@.skip(12);
    if reply.len() - start < 4 {
        return Err(Error::codec("missing entry count"));
    }
    let c = get_u32_le(reply, start) as i32;
    if c < 0 {
        return Err(Error::codec("negative entry count"));
    }
    let count = c as usize;
    let ghost s0 = reply@.skip(16);
    assert(s0 =~= body.skip(4));
    let len = reply.len();
    let mut entries: Vec<(Value, Option<Value>)> = Vec::new();
    let mut off: usize = 16;
    let mut i: usize = 0;
    assert(reply@.skip(off as int) =~= s0);
    assert(entry_models(entries@) =~= Seq::<(ValueModel, Option<ValueModel>)>::empty());
    while i < count
        invariant
            16 <= off <= reply@.len(),
            len == reply@.len(),
            i <= count,
            count == c,
            c == crate::buffer::from_le32(body) as i32,
            body == reply@.skip(12),
            s0 == body.skip(4),
            reply_ok(reply@),
            parse_entries(s0, count as nat) == crate::scalar::prepend(
                entry_models(entries@),
                (off - 16) as nat,
                parse_entries(reply@.skip(off as int), (count - i) as nat),
            ),
        decreases count - i,
    {
        let ghost rest = reply@.skip(off as int);
        let (key, n1) = decode_nullable(reply, off)?;
        proof {
            assert(rest.skip(n1 as int) =~= reply@.skip(off + n1));
        }
        let (val, n2) = decode_nullable(reply, off + n1)?;
        proof {
            assert(rest.skip((n1 + n2) as int) =~= reply@.skip(off + n1 + n2));
            let inner = parse_entries(reply@.skip(off + n1 + n2), (count - i - 1) as nat);
            match &key {
                Some(k) => {
                    assert(entries@.push((*k, val)).drop_last() =~= entries@);
                    match inner {
                        Some((es, m)) => {
                            assert(entry_models(entries@) + (seq![(k@, opt_model(val))] + es)
                                =~= entry_models(entries@).push((k@, opt_model(val))) + es);
                        },
                        None => {},
                    }
                },
                None => {},
            }
        }
        match key {
            Some(k) => {
                entries.push((k, val));
            },
            None => {},
        }
        off = off + n1 + n2;
        i = i + 1;
    }
    assert(entry_models(entries@) + Seq::<(ValueModel, Option<ValueModel>)>::empty()
        =~= entry_models(entries@));
    Ok(entries)
}

/// The cache-id examples: the empty name, one character, three characters.
pub proof fn lemma_cache_id_examples()
    ensures
        cache_id(Seq::empty()) == 0,
        cache_id(seq!['a']) == 97,
        cache_id(seq!['a', 'b', 'c']) == 31 * (31 * 97 + 98) + 99,
{
    let abc = seq!['a', 'b', 'c'];
    let ab = seq!['a', 'b'];
    let a = seq!['a'];
    assert(abc.drop_last() =~= ab);
    assert(ab.drop_last() =~= a);
    assert(a.drop_last() =~= Seq::<char>::empty());
    assert(name_hash(Seq::empty()) == 0);
    assert(name_hash(a) == 97);
    assert(name_hash(ab) == 31 * 97 + 98);
    assert(name_hash(abc) == 31 * (31 * 97 + 98) + 99);
}

/// Ask for the names of all caches.
pub fn cache_names_request() -> (r: Vec<u8>)
    ensures
        r@ == request_header(OP_CACHE_NAMES),
{
    begin_request(OP_CACHE_NAMES)
}

/// A request that carries one cache name as a string value.
fn name_request(opcode: i16, name: &str) -> (r: Result<Vec<u8>, Error>)
    ensures
        r is Ok <==> encodable(ValueModel::String(name@)),
        r matches Ok(b) ==> b@ == request_header(opcode) + enc(ValueModel::String(name@)),
        r matches Err(e) ==> e.kind == ErrorKind::Codec,
{
    let mut out = begin_request(opcode);
    encode(&Value::String(name.to_string()), &mut out)?;
    Ok(out)
}

/// Create the cache of this name; the server refuses a name in use.
pub fn create_cache_request(name: &str) -> (r: Result<Vec<u8>, Error>)
    ensures
        r is Ok <==> encodable(ValueModel::String(name@)),
        r matches Ok(b) ==> b@ == request_header(OP_CREATE_CACHE) + enc(ValueModel::String(name@)),
        r matches Err(e) ==> e.kind == ErrorKind::Codec,
{
    name_request(OP_CREATE_CACHE, name)
}

/// Create the cache of this name unless it exists.
pub fn get_or_create_cache_request(name: &str) -> (r: Result<Vec<u8>, Error>)
    ensures
        r is Ok <==> encodable(ValueModel::String(name@)),
        r matches Ok(b) ==> b@ == request_header(OP_GET_OR_CREATE_CACHE) + enc(
            ValueModel::String(name@),
        ),
        r matches Err(e) ==> e.kind == ErrorKind::Codec,
{
    name_request(OP_GET_OR_CREATE_CACHE, name)
}

/// Cache names: each entry is a value that may be absent; the strings are
/// kept, anything else is passed over.
pub open spec fn parse_names(s: Seq<u8>, count: nat) -> Option<(Seq<Seq<char>>, nat)>
    decreases count,
{
    if count == 0 {
        Some((Seq::empty(), 0))
    } else {
        match parse_nullable(s) {
            Some((v, n)) => if n <= s.len() {
                match parse_names(s.skip(n as int), (count - 1) as nat) {
                    Some((ns, m)) => Some(
                        (
                            match v {
                                Some(ValueModel::String(x)) => seq![x] + ns,
                                _ => ns,
                            },
                            n + m,
                        ),
                    ),
                    None => None,
                }
            } else {
                None
            },
            None => None,
        }
    }
}

pub open spec fn parse_counted_names(s: Seq<u8>) -> Option<Seq<Seq<char>>> {
    if s.len() < 4 {
        None
    } else {
        let c = crate::buffer::from_le32(s) as i32;
        if c < 0 {
            None
        } else {
            match parse_names(s.skip(4), c as nat) {
                Some((ns, _)) => Some(ns),
                None => None,
            }
        }
    }
}

pub open spec fn string_views(s: Seq<String>) -> Seq<Seq<char>> {
    s.map_values(|x: String| x@)
}

/// Reads the reply to a request for the cache names.
#[verifier::rlimit(100)]
#[verifier::spinoff_prover]
pub fn read_cache_names_reply(reply: &Vec<u8>) -> (r: Result<Vec<String>, Error>)
    ensures
        r is Ok <==> reply_ok(reply@) && parse_counted_names(reply_body(reply@)) is Some,
        r matches Ok(ns) ==> parse_counted_names(reply_body(reply@)) == Some(string_views(ns@)),
        r matches Err(e) ==> e.kind == (if reply_ok(reply@) {
            ErrorKind::Codec
        } else {
            reply_error(reply@)
        }),
{
    let start = check_reply(reply)?;
    let ghost body = reply@.skip(12);
    if reply.len() - start < 4 {
        return Err(Error::codec("missing name count"));
    }
    let c = get_u32_le(reply, start) as i32;
    if c < 0 {
        return Err(Error::codec("negative name count"));
    }
    let count = c as usize;
    let ghost s0 = reply@.skip(16);
    assert(s0 =~= body.skip(4));
    let len = reply.len();
    let mut names: Vec<String> = Vec::new();
    let mut off: usize = 16;
    let mut i: usize = 0;
    assert(reply@.skip(off as int) =~= s0);
    assert(string_views(names@) =~= Seq::<Seq<char>>::empty());
    while i < count
        invariant
            16 <= off <= reply@.len(),
            len == reply@.len(),
            i <= count,
            count == c,
            c == crate::buffer::from_le32(body) as i32,
            body == reply@.skip(12),
            s0 == body.skip(4),
            reply_ok(reply@),
            parse_names(s0, count as nat) == crate::scalar::prepend(
                string_views(names@),
                (off - 16) as nat,
                parse_names(reply@.skip(off as int), (count - i) as nat),
            ),
        decreases count - i,
    {
        let ghost rest = reply@.skip(off as int);
        let (v, n) = decode_nullable(reply, off)?;
        proof {
            assert(rest.skip(n as int) =~= reply@.skip(off + n));
            let inner = parse_names(reply@.skip(off + n), (count - i - 1) as nat);
            match &v {
                Some(Value::String(x)) => {
                    assert(string_views(names@.push(*x)) =~= string_views(names@).push(x@));
                    match inner {
                        Some((ns, m)) => {
                            assert(string_views(names@) + (seq![x@] + ns) =~= string_views(
                                names@,
                            ).push(x@) + ns);
                        },
                        None => {},
                    }
                },
                _ => {},
            }
        }
        match v {
            Some(Value::String(x)) => {
                names.push(x);
            },
            _ => {},
        }
        off = off + n;
        i = i + 1;
    }
    assert(string_views(names@) + Seq::<Seq<char>>::empty() =~= string_views(names@));
    Ok(names)
}

/// Reads the reply to a configuration request: a length the reader does
/// not need, then the configuration's fields in declaration order.
pub fn read_configuration_reply(reply: &Vec<u8>) -> (r: Result<CacheConfiguration, Error>)
    ensures
        r is Ok <==> reply_ok(reply@) && reply@.len() >= 16 && exists|
            c: CacheConfiguration,
            end: int,
        |
            #![trigger config_fields_wire(c), reply@.subrange(16, end)]
            16 <= end <= reply@.len() && config_fields_ok(c) && reply@.subrange(16, end)
                == config_fields_wire(c),
        r matches Ok(c) ==> exists|end: int|
            #![trigger reply@.subrange(16, end)]
            16 <= end <= reply@.len() && config_fields_ok(c) && reply@.subrange(16, end)
                == config_fields_wire(c),
        r matches Err(e) ==> e.kind == (if reply_ok(reply@) {
            ErrorKind::Codec
        } else {
            reply_error(reply@)
        }),
{
    let start = check_reply(reply)?;
    if reply.len() - start < 4 {
        return Err(Error::codec("missing configuration length"));
    }
    let (config, end) = CacheConfiguration::read_fields(reply, start + 4)?;
    assert(reply@.subrange(16, end as int) == config_fields_wire(config));
    Ok(config)
}

} // verus!
