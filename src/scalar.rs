//! Scalars of the wire format and their raw payloads: the bytes that follow
//! a type code, or that stand one after another in a homogeneous array.
use vstd::prelude::*;
use vstd::utf8::*;

use crate::buffer::{
    be16, from_be16, from_le16, from_le32, from_le64, get_u16_be, get_u16_le, get_u32_le,
    get_u64_le, le16, le32, le64, le_i16, le_i32, le_i64, lemma_be16, lemma_le16, lemma_le32,
    lemma_le64, lemma_signed_casts, put_i16_le, put_i32_le, put_i64_le, put_i8, put_slice,
    put_u16_be, put_u32_le, put_u64_le, put_u8, copy_range,
};

verus! {

broadcast use vstd::seq_lib::group_seq_properties;

/// A 128-bit UUID as its two 64-bit halves: `most` holds the first eight
/// bytes of the UUID read big-endian, `least` the last eight.
#[derive(PartialEq, Eq, Structural, Debug, Clone, Copy)]
pub struct Uuid {
    pub most: u64,
    pub least: u64,
}

impl Uuid {
    /// The UUID whose 16 bytes are the big-endian bytes of `v`.
    pub fn from_u128(v: u128) -> (u: Uuid)
        ensures
            u.most as int == v as int / 0x1_0000_0000_0000_0000,
            u.least as int == v as int % 0x1_0000_0000_0000_0000,
    {
        let most = (v >> 64u32) as u64;
        let least = (v & 0xffff_ffff_ffff_ffffu128) as u64;
        assert(most as int == v as int / 0x1_0000_0000_0000_0000 && least as int == v as int
            % 0x1_0000_0000_0000_0000) by (bit_vector)
            requires
                most == (v >> 64u32) as u64,
                least == (v & 0xffff_ffff_ffff_ffffu128) as u64,
        ;
        Uuid { most, least }
    }

    /// The 128-bit value whose big-endian bytes are the UUID's bytes.
    pub fn as_u128(&self) -> (v: u128)
        ensures
            v as int == self.most as int * 0x1_0000_0000_0000_0000 + self.least as int,
    {
        let most = self.most;
        let least = self.least;
        let v = ((most as u128) << 64u32) | (least as u128);
        assert(v as int == most as int * 0x1_0000_0000_0000_0000 + least as int) by (bit_vector)
            requires
                v == ((most as u128) << 64u32) | (least as u128),
        ;
        v
    }
}

impl View for Uuid {
    type V = Uuid;

    open spec fn view(&self) -> Uuid {
        *self
    }
}

/// A point in time: milliseconds since the epoch and the nanosecond of the
/// second.
#[derive(PartialEq, Eq, Structural, Debug, Clone, Copy)]
pub struct Timestamp {
    pub millis: i64,
    pub nanos: i32,
}

impl View for Timestamp {
    type V = Timestamp;

    open spec fn view(&self) -> Timestamp {
        *self
    }
}

/// Relies on `char::from_u32`: it returns `Some` exactly for the Unicode
/// scalar values, holding that value.
#[verifier::external_body]
fn char_from_u32(u: u32) -> (r: Option<char>)
    ensures
        r is Some <==> is_scalar(u),
        r matches Some(c) ==> c == u as char,
{
    char::from_u32(u)
}

/// Relies on `String::from_utf8`: it accepts exactly the well-formed UTF-8
/// byte sequences, and the string it returns is made of those bytes.
#[verifier::external_body]
pub(crate) fn string_from_utf8(bytes: Vec<u8>) -> (r: Option<String>)
    ensures
        r is Some <==> valid_utf8(bytes@),
        r matches Some(s) ==> s@ == decode_utf8(bytes@),
{
    String::from_utf8(bytes).ok()
}

/// A scalar with a raw payload: its bytes without a type code.
pub trait RawCodec: View + Sized {
    /// The raw payload of a value.
    spec fn raw(m: Self::V) -> Seq<u8>;

    /// Whether the value has a raw payload at all.
    spec fn raw_ok(m: Self::V) -> bool;

    /// The value whose raw payload starts `s`, and the length of that payload.
    spec fn parse_raw(s: Seq<u8>) -> Option<(Self::V, nat)>;

    fn check_raw(&self) -> (b: bool)
        ensures
            b == Self::raw_ok(self@),
    ;

    fn write_raw(&self, out: &mut Vec<u8>)
        requires
            Self::raw_ok(self@),
        ensures
            final(out)@ == old(out)@ + Self::raw(self@),
    ;

    fn read_raw(buf: &Vec<u8>, pos: usize) -> (r: Option<(Self, usize)>)
        requires
            pos <= buf@.len(),
        ensures
            match r {
                Some((v, n)) => pos + n <= buf@.len() && Self::parse_raw(buf@.skip(pos as int))
                    == Some((v@, n as nat)),
                None => Self::parse_raw(buf@.skip(pos as int)) is None,
            },
    ;

    /// Parsing a raw payload gives back the value, whatever follows it.
    proof fn lemma_parse_raw(m: Self::V, rest: Seq<u8>)
        requires
            Self::raw_ok(m),
        ensures
            Self::parse_raw(Self::raw(m) + rest) == Some((m, Self::raw(m).len())),
    ;
}

impl RawCodec for i8 {
    open spec fn raw(m: i8) -> Seq<u8> {
        seq![m as u8]
    }

    open spec fn raw_ok(m: i8) -> bool {
        true
    }

    open spec fn parse_raw(s: Seq<u8>) -> Option<(i8, nat)> {
        if s.len() < 1 {
            None
        } else {
            Some((s[0] as i8, 1))
        }
    }

    fn check_raw(&self) -> (b: bool) {
        true
    }

    fn write_raw(&self, out: &mut Vec<u8>) {
        put_i8(out, *self);
    }

    fn read_raw(buf: &Vec<u8>, pos: usize) -> (r: Option<(i8, usize)>) {
        if buf.len() - pos < 1 {
            None
        } else {
            Some((buf[pos] as i8, 1))
        }
    }

    proof fn lemma_parse_raw(m: i8, rest: Seq<u8>) {
        lemma_signed_casts(m, 0, 0, 0);
    }
}

impl RawCodec for i16 {
    open spec fn raw(m: i16) -> Seq<u8> {
        le_i16(m)
    }

    open spec fn raw_ok(m: i16) -> bool {
        true
    }

    open spec fn parse_raw(s: Seq<u8>) -> Option<(i16, nat)> {
        if s.len() < 2 {
            None
        } else {
            Some((from_le16(s) as i16, 2))
        }
    }

    fn check_raw(&self) -> (b: bool) {
        true
    }

    fn write_raw(&self, out: &mut Vec<u8>) {
        put_i16_le(out, *self);
    }

    fn read_raw(buf: &Vec<u8>, pos: usize) -> (r: Option<(i16, usize)>) {
        if buf.len() - pos < 2 {
            None
        } else {
            Some((get_u16_le(buf, pos) as i16, 2))
        }
    }

    proof fn lemma_parse_raw(m: i16, rest: Seq<u8>) {
        lemma_le16(m as u16);
        lemma_signed_casts(0, m, 0, 0);
        assert(from_le16(le16(m as u16) + rest) == from_le16(le16(m as u16)));
    }
}

impl RawCodec for i32 {
    open spec fn raw(m: i32) -> Seq<u8> {
        le_i32(m)
    }

    open spec fn raw_ok(m: i32) -> bool {
        true
    }

    open spec fn parse_raw(s: Seq<u8>) -> Option<(i32, nat)> {
        if s.len() < 4 {
            None
        } else {
            Some((from_le32(s) as i32, 4))
        }
    }

    fn check_raw(&self) -> (b: bool) {
        true
    }

    fn write_raw(&self, out: &mut Vec<u8>) {
        put_i32_le(out, *self);
    }

    fn read_raw(buf: &Vec<u8>, pos: usize) -> (r: Option<(i32, usize)>) {
        if buf.len() - pos < 4 {
            None
        } else {
            Some((get_u32_le(buf, pos) as i32, 4))
        }
    }

    proof fn lemma_parse_raw(m: i32, rest: Seq<u8>) {
        lemma_le32(m as u32);
        lemma_signed_casts(0, 0, m, 0);
        assert(from_le32(le32(m as u32) + rest) == from_le32(le32(m as u32)));
    }
}

impl RawCodec for i64 {
    open spec fn raw(m: i64) -> Seq<u8> {
        le_i64(m)
    }

    open spec fn raw_ok(m: i64) -> bool {
        true
    }

    open spec fn parse_raw(s: Seq<u8>) -> Option<(i64, nat)> {
        if s.len() < 8 {
            None
        } else {
            Some((from_le64(s) as i64, 8))
        }
    }

    fn check_raw(&self) -> (b: bool) {
        true
    }

    fn write_raw(&self, out: &mut Vec<u8>) {
        put_i64_le(out, *self);
    }

    fn read_raw(buf: &Vec<u8>, pos: usize) -> (r: Option<(i64, usize)>) {
        if buf.len() - pos < 8 {
            None
        } else {
            Some((get_u64_le(buf, pos) as i64, 8))
        }
    }

    proof fn lemma_parse_raw(m: i64, rest: Seq<u8>) {
        lemma_le64(m as u64);
        lemma_signed_casts(0, 0, 0, m);
        assert(from_le64(le64(m as u64) + rest) == from_le64(le64(m as u64)));
    }
}

/// The IEEE-754 bit pattern of a 32-bit float.
impl RawCodec for u32 {
    open spec fn raw(m: u32) -> Seq<u8> {
        le32(m)
    }

    open spec fn raw_ok(m: u32) -> bool {
        true
    }

    open spec fn parse_raw(s: Seq<u8>) -> Option<(u32, nat)> {
        if s.len() < 4 {
            None
        } else {
            Some((from_le32(s), 4))
        }
    }

    fn check_raw(&self) -> (b: bool) {
        true
    }

    fn write_raw(&self, out: &mut Vec<u8>) {
        put_u32_le(out, *self);
    }

    fn read_raw(buf: &Vec<u8>, pos: usize) -> (r: Option<(u32, usize)>) {
        if buf.len() - pos < 4 {
            None
        } else {
            Some((get_u32_le(buf, pos), 4))
        }
    }

    proof fn lemma_parse_raw(m: u32, rest: Seq<u8>) {
        lemma_le32(m);
        assert(from_le32(le32(m) + rest) == from_le32(le32(m)));
    }
}

/// The IEEE-754 bit pattern of a 64-bit float.
impl RawCodec for u64 {
    open spec fn raw(m: u64) -> Seq<u8> {
        le64(m)
    }

    open spec fn raw_ok(m: u64) -> bool {
        true
    }

    open spec fn parse_raw(s: Seq<u8>) -> Option<(u64, nat)> {
        if s.len() < 8 {
            None
        } else {
            Some((from_le64(s), 8))
        }
    }

    fn check_raw(&self) -> (b: bool) {
        true
    }

    fn write_raw(&self, out: &mut Vec<u8>) {
        put_u64_le(out, *self);
    }

    fn read_raw(buf: &Vec<u8>, pos: usize) -> (r: Option<(u64, usize)>) {
        if buf.len() - pos < 8 {
            None
        } else {
            Some((get_u64_le(buf, pos), 8))
        }
    }

    proof fn lemma_parse_raw(m: u64, rest: Seq<u8>) {
        lemma_le64(m);
        assert(from_le64(le64(m) + rest) == from_le64(le64(m)));
    }
}

/// A character is one big-endian UTF-16 code unit; characters outside the
/// basic multilingual plane have none.
impl RawCodec for char {
    open spec fn raw(m: char) -> Seq<u8> {
        be16((m as u32) as u16)
    }

    open spec fn raw_ok(m: char) -> bool {
        (m as u32) < 0x10000
    }

    open spec fn parse_raw(s: Seq<u8>) -> Option<(char, nat)> {
        if s.len() < 2 {
            None
        } else if is_scalar(from_be16(s) as u32) {
            Some(((from_be16(s) as u32) as char, 2))
        } else {
            None
        }
    }

    fn check_raw(&self) -> (b: bool) {
        (*self as u32) < 0x10000
    }

    fn write_raw(&self, out: &mut Vec<u8>) {
        put_u16_be(out, (*self as u32) as u16);
    }

    fn read_raw(buf: &Vec<u8>, pos: usize) -> (r: Option<(char, usize)>) {
        if buf.len() - pos < 2 {
            None
        } else {
            match char_from_u32(get_u16_be(buf, pos) as u32) {
                Some(c) => Some((c, 2)),
                None => None,
            }
        }
    }

    proof fn lemma_parse_raw(m: char, rest: Seq<u8>) {
        let x = m as u32;
        let u = x as u16;
        lemma_be16(u);
        assert(from_be16(be16(u) + rest) == from_be16(be16(u)));
        assert(x < 0x10000 ==> (x as u16) as u32 == x) by (bit_vector);
        char_is_scalar(m);
        char_u32_cast(m, x);
    }
}

impl RawCodec for bool {
    open spec fn raw(m: bool) -> Seq<u8> {
        seq![if m { 1u8 } else { 0u8 }]
    }

    open spec fn raw_ok(m: bool) -> bool {
        true
    }

    open spec fn parse_raw(s: Seq<u8>) -> Option<(bool, nat)> {
        if s.len() < 1 {
            None
        } else {
            Some((s[0] != 0, 1))
        }
    }

    fn check_raw(&self) -> (b: bool) {
        true
    }

    fn write_raw(&self, out: &mut Vec<u8>) {
        put_u8(
            out,
            if *self {
                1
            } else {
                0
            },
        );
    }

    fn read_raw(buf: &Vec<u8>, pos: usize) -> (r: Option<(bool, usize)>) {
        if buf.len() - pos < 1 {
            None
        } else {
            Some((buf[pos] != 0, 1))
        }
    }

    proof fn lemma_parse_raw(m: bool, rest: Seq<u8>) {
    }
}

/// A string is its UTF-8 byte length followed by those bytes.
impl RawCodec for String {
    open spec fn raw(m: Seq<char>) -> Seq<u8> {
        le_i32(encode_utf8(m).len() as i32) + encode_utf8(m)
    }

    open spec fn raw_ok(m: Seq<char>) -> bool {
        encode_utf8(m).len() <= i32::MAX
    }

    open spec fn parse_raw(s: Seq<u8>) -> Option<(Seq<char>, nat)> {
        if s.len() < 4 {
            None
        } else {
            let n = from_le32(s) as i32;
            if n < 0 || s.len() < 4 + n {
                None
            } else if valid_utf8(s.subrange(4, 4 + n)) {
                Some((decode_utf8(s.subrange(4, 4 + n)), (4 + n) as nat))
            } else {
                None
            }
        }
    }

    fn check_raw(&self) -> (b: bool) {
        self.as_str().as_bytes().len() <= 0x7fff_ffff
    }

    fn write_raw(&self, out: &mut Vec<u8>) {
        let bytes = self.as_str().as_bytes();
        put_i32_le(out, bytes.len() as i32);
        put_slice(out, bytes);
    }

    fn read_raw(buf: &Vec<u8>, pos: usize) -> (r: Option<(String, usize)>) {
        if buf.len() - pos < 4 {
            return None;
        }
        let n = get_u32_le(buf, pos) as i32;
        if n < 0 || buf.len() - pos - 4 < n as usize {
            return None;
        }
        let bytes = copy_range(buf, pos + 4, pos + 4 + n as usize);
        assert(bytes@ =~= buf@.skip(pos as int).subrange(4, 4 + n));
        match string_from_utf8(bytes) {
            Some(s) => Some((s, 4 + n as usize)),
            None => None,
        }
    }

    proof fn lemma_parse_raw(m: Seq<char>, rest: Seq<u8>) {
        let b = encode_utf8(m);
        let n = b.len() as i32;
        lemma_le32(n as u32);
        lemma_signed_casts(0, 0, n, 0);
        let s = Self::raw(m) + rest;
        assert(from_le32(s) == from_le32(le32(n as u32)));
        assert(s.subrange(4, 4 + n) =~= b);
        encode_utf8_valid_utf8(m);
        encode_utf8_decode_utf8(m);
    }
}

impl RawCodec for Uuid {
    open spec fn raw(m: Uuid) -> Seq<u8> {
        le64(m.most) + le64(m.least)
    }

    open spec fn raw_ok(m: Uuid) -> bool {
        true
    }

    open spec fn parse_raw(s: Seq<u8>) -> Option<(Uuid, nat)> {
        if s.len() < 16 {
            None
        } else {
            Some((Uuid { most: from_le64(s), least: from_le64(s.skip(8)) }, 16))
        }
    }

    fn check_raw(&self) -> (b: bool) {
        true
    }

    fn write_raw(&self, out: &mut Vec<u8>) {
        put_u64_le(out, self.most);
        put_u64_le(out, self.least);
        assert(out@ =~= old(out)@ + Self::raw(self@));
    }

    fn read_raw(buf: &Vec<u8>, pos: usize) -> (r: Option<(Uuid, usize)>) {
        if buf.len() - pos < 16 {
            None
        } else {
            let most = get_u64_le(buf, pos);
            let least = get_u64_le(buf, pos + 8);
            assert(buf@.skip(pos + 8) =~= buf@.skip(pos as int).skip(8));
            Some((Uuid { most, least }, 16))
        }
    }

    proof fn lemma_parse_raw(m: Uuid, rest: Seq<u8>) {
        lemma_le64(m.most);
        lemma_le64(m.least);
        let s = Self::raw(m) + rest;
        assert(from_le64(s) == from_le64(le64(m.most)));
        assert(s.skip(8) =~= le64(m.least) + rest);
        assert(from_le64(s.skip(8)) == from_le64(le64(m.least)));
    }
}

impl RawCodec for Timestamp {
    open spec fn raw(m: Timestamp) -> Seq<u8> {
        le_i64(m.millis) + le_i32(m.nanos)
    }

    open spec fn raw_ok(m: Timestamp) -> bool {
        true
    }

    open spec fn parse_raw(s: Seq<u8>) -> Option<(Timestamp, nat)> {
        if s.len() < 12 {
            None
        } else {
            Some(
                (
                    Timestamp { millis: from_le64(s) as i64, nanos: from_le32(s.skip(8)) as i32 },
                    12,
                ),
            )
        }
    }

    fn check_raw(&self) -> (b: bool) {
        true
    }

    fn write_raw(&self, out: &mut Vec<u8>) {
        put_i64_le(out, self.millis);
        put_i32_le(out, self.nanos);
        assert(out@ =~= old(out)@ + Self::raw(self@));
    }

    fn read_raw(buf: &Vec<u8>, pos: usize) -> (r: Option<(Timestamp, usize)>) {
        if buf.len() - pos < 12 {
            None
        } else {
            let millis = get_u64_le(buf, pos) as i64;
            let nanos = get_u32_le(buf, pos + 8) as i32;
            assert(buf@.skip(pos + 8) =~= buf@.skip(pos as int).skip(8));
            Some((Timestamp { millis, nanos }, 12))
        }
    }

    proof fn lemma_parse_raw(m: Timestamp, rest: Seq<u8>) {
        lemma_le64(m.millis as u64);
        lemma_le32(m.nanos as u32);
        lemma_signed_casts(0, 0, m.nanos, m.millis);
        let s = Self::raw(m) + rest;
        assert(from_le64(s) == from_le64(le64(m.millis as u64)));
        assert(s.skip(8) =~= le32(m.nanos as u32) + rest);
        assert(from_le32(s.skip(8)) == from_le32(le32(m.nanos as u32)));
    }
}

pub open spec fn views<T: View>(s: Seq<T>) -> Seq<T::V> {
    s.map_values(|x: T| x@)
}

/// The raw payloads of `ms`, one after another.
pub open spec fn raw_all<T: RawCodec>(ms: Seq<T::V>) -> Seq<u8>
    decreases ms.len(),
{
    if ms.len() == 0 {
        Seq::empty()
    } else {
        T::raw(ms[0]) + raw_all::<T>(ms.drop_first())
    }
}

pub open spec fn all_raw_ok<T: RawCodec>(ms: Seq<T::V>) -> bool {
    forall|i: int| 0 <= i < ms.len() ==> #[trigger] T::raw_ok(ms[i])
}

pub open spec fn array_ok<T: RawCodec>(ms: Seq<T::V>) -> bool {
    ms.len() <= i32::MAX && all_raw_ok::<T>(ms)
}

/// A homogeneous array without its type code: the item count, then the raw
/// payload of each item.
pub open spec fn array_bytes<T: RawCodec>(ms: Seq<T::V>) -> Seq<u8> {
    le_i32(ms.len() as i32) + raw_all::<T>(ms)
}

/// `count` raw payloads at the front of `s`, and how many bytes they take.
pub open spec fn parse_raws<T: RawCodec>(s: Seq<u8>, count: nat) -> Option<(Seq<T::V>, nat)>
    decreases count,
{
    if count == 0 {
        Some((Seq::empty(), 0))
    } else {
        match T::parse_raw(s) {
            Some((m, n)) => if n <= s.len() {
                match parse_raws::<T>(s.skip(n as int), (count - 1) as nat) {
                    Some((ms, k)) => Some((seq![m] + ms, n + k)),
                    None => None,
                }
            } else {
                None
            },
            None => None,
        }
    }
}

pub open spec fn parse_array<T: RawCodec>(s: Seq<u8>) -> Option<(Seq<T::V>, nat)> {
    if s.len() < 4 {
        None
    } else {
        let c = from_le32(s) as i32;
        if c < 0 {
            None
        } else {
            match parse_raws::<T>(s.skip(4), c as nat) {
                Some((ms, n)) => Some((ms, n + 4)),
                None => None,
            }
        }
    }
}

/// Items already read, in front of what the rest of the input parses to.
pub open spec fn prepend<A>(done: Seq<A>, used: nat, rest: Option<(Seq<A>, nat)>) -> Option<
    (Seq<A>, nat),
> {
    match rest {
        Some((ms, k)) => Some((done + ms, used + k)),
        None => None,
    }
}

pub proof fn lemma_raw_all_push<T: RawCodec>(ms: Seq<T::V>, m: T::V)
    ensures
        raw_all::<T>(ms.push(m)) == raw_all::<T>(ms) + T::raw(m),
    decreases ms.len(),
{
    if ms.len() == 0 {
        assert(ms.push(m).drop_first() =~= Seq::<T::V>::empty());
        assert(raw_all::<T>(ms.push(m).drop_first()) == Seq::<u8>::empty());
        assert(raw_all::<T>(ms.push(m)) =~= T::raw(m));
        assert(raw_all::<T>(ms) + T::raw(m) =~= T::raw(m));
    } else {
        assert(ms.push(m).drop_first() =~= ms.drop_first().push(m));
        lemma_raw_all_push::<T>(ms.drop_first(), m);
        assert(raw_all::<T>(ms.push(m)) =~= raw_all::<T>(ms) + T::raw(m));
    }
}

pub proof fn lemma_parse_raws<T: RawCodec>(ms: Seq<T::V>, rest: Seq<u8>)
    requires
        all_raw_ok::<T>(ms),
    ensures
        parse_raws::<T>(raw_all::<T>(ms) + rest, ms.len()) == Some((ms, raw_all::<T>(ms).len())),
    decreases ms.len(),
{
    if ms.len() == 0 {
        assert(ms =~= Seq::<T::V>::empty());
        assert(raw_all::<T>(ms) + rest =~= rest);
    } else {
        let m = ms[0];
        let tail = ms.drop_first();
        assert forall|i: int| 0 <= i < tail.len() implies #[trigger] T::raw_ok(tail[i]) by {
            assert(tail[i] == ms[i + 1]);
        }
        lemma_parse_raws::<T>(tail, rest);
        let s = raw_all::<T>(ms) + rest;
        assert(s =~= T::raw(m) + (raw_all::<T>(tail) + rest));
        T::lemma_parse_raw(m, raw_all::<T>(tail) + rest);
        assert(s.skip(T::raw(m).len() as int) =~= raw_all::<T>(tail) + rest);
        assert(seq![m] + tail =~= ms);
    }
}

/// Parsing the bytes of a homogeneous array gives back its items.
pub proof fn lemma_parse_array<T: RawCodec>(ms: Seq<T::V>, rest: Seq<u8>)
    requires
        array_ok::<T>(ms),
    ensures
        parse_array::<T>(array_bytes::<T>(ms) + rest) == Some((ms, array_bytes::<T>(ms).len())),
{
    let c = ms.len() as i32;
    let s = array_bytes::<T>(ms) + rest;
    lemma_le32(c as u32);
    lemma_signed_casts(0, 0, c, 0);
    assert(from_le32(s) == from_le32(le32(c as u32)));
    assert(s.skip(4) =~= raw_all::<T>(ms) + rest);
    lemma_parse_raws::<T>(ms, rest);
}

pub fn check_array<T: RawCodec>(items: &Vec<T>) -> (b: bool)
    ensures
        b == array_ok::<T>(views(items@)),
{
    if items.len() > 0x7fff_ffff {
        return false;
    }
    let mut i: usize = 0;
    while i < items.len()
        invariant
            i <= items@.len() <= i32::MAX,
            forall|j: int| 0 <= j < i ==> #[trigger] T::raw_ok(views(items@)[j]),
        decreases items@.len() - i,
    {
        if !items[i].check_raw() {
            assert(!T::raw_ok(views(items@)[i as int]));
            return false;
        }
        i = i + 1;
    }
    true
}

pub fn write_array<T: RawCodec>(items: &Vec<T>, out: &mut Vec<u8>)
    requires
        array_ok::<T>(views(items@)),
    ensures
        final(out)@ == old(out)@ + array_bytes::<T>(views(items@)),
{
    let ghost ms = views(items@);
    let ghost start = old(out)@ + le_i32(items@.len() as i32);
    put_i32_le(out, items.len() as i32);
    assert(ms.take(0) =~= Seq::<T::V>::empty());
    assert(out@ =~= start + raw_all::<T>(ms.take(0)));
    let mut i: usize = 0;
    while i < items.len()
        invariant
            i <= items@.len(),
            ms == views(items@),
            array_ok::<T>(ms),
            out@ == start + raw_all::<T>(ms.take(i as int)),
        decreases items@.len() - i,
    {
        proof {
            assert(T::raw_ok(ms[i as int]));
            assert(ms[i as int] == items@[i as int]@);
        }
        items[i].write_raw(out);
        proof {
            assert(ms.take(i + 1) =~= ms.take(i as int).push(ms[i as int]));
            lemma_raw_all_push::<T>(ms.take(i as int), ms[i as int]);
            assert(out@ =~= start + raw_all::<T>(ms.take(i + 1)));
        }
        i = i + 1;
    }
    assert(ms.take(i as int) =~= ms);
    assert(out@ =~= old(out)@ + array_bytes::<T>(ms));
}

pub fn read_array<T: RawCodec>(buf: &Vec<u8>, pos: usize) -> (r: Option<(Vec<T>, usize)>)
    requires
        pos <= buf@.len(),
    ensures
        match r {
            Some((v, n)) => pos + n <= buf@.len() && parse_array::<T>(buf@.skip(pos as int)) == Some(
                (views(v@), n as nat),
            ),
            None => parse_array::<T>(buf@.skip(pos as int)) is None,
        },
{
    if buf.len() - pos < 4 {
        return None;
    }
    let c = get_u32_le(buf, pos) as i32;
    if c < 0 {
        return None;
    }
    let count = c as usize;
    let ghost s0 = buf@.skip(pos + 4);
    assert(s0 =~= buf@.skip(pos as int).skip(4));
    let blen = buf.len();
    let mut items: Vec<T> = Vec::new();
    let mut off = pos + 4;
    let mut i: usize = 0;
    assert(views(items@) =~= Seq::<T::V>::empty());
    assert(buf@.skip(off as int) =~= s0);
    while i < count
        invariant
            pos + 4 <= off <= buf@.len(),
            blen == buf@.len(),
            i <= count,
            count == c,
            c == from_le32(buf@.skip(pos as int)) as i32,
            s0 == buf@.skip(pos as int).skip(4),
            parse_raws::<T>(s0, count as nat) == prepend(
                views(items@),
                (off - pos - 4) as nat,
                parse_raws::<T>(buf@.skip(off as int), (count - i) as nat),
            ),
        decreases count - i,
    {
        match T::read_raw(buf, off) {
            None => {
                assert(parse_raws::<T>(buf@.skip(off as int), (count - i) as nat) is None);
                return None;
            },
            Some((v, n)) => {
                proof {
                    let rest = buf@.skip(off as int);
                    assert(rest.skip(n as int) =~= buf@.skip(off + n));
                    assert(views(items@.push(v)) =~= views(items@).push(v@));
                    let inner = parse_raws::<T>(buf@.skip(off + n), (count - i - 1) as nat);
                    match inner {
                        Some((ms, k)) => {
                            assert(views(items@) + (seq![v@] + ms) =~= views(items@).push(v@)
                                + ms);
                        },
                        None => {},
                    }
                }
                items.push(v);
                off = off + n;
                i = i + 1;
            },
        }
    }
    assert(views(items@) + Seq::<T::V>::empty() =~= views(items@));
    Some((items, off - pos))
}

} // verus!
