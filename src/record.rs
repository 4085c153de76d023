//! Records on the wire: their fields one after another, in declaration
//! order, with no type code of their own.
use vstd::prelude::*;

use vstd::utf8::decode_utf8_encode_utf8;

use crate::buffer::{
    from_le32, get_u32_le, get_u64_le, le_i32, le_i64, lemma_from_le32, lemma_from_le64,
    put_i32_le, put_u8,
};
use crate::error::{Error, ErrorKind};
use crate::network::string_model;
use crate::scalar::RawCodec;
use crate::value::{
    decode_nullable, enc, enc_nullable, encodable, encode_nullable, lemma_parse_nullable,
    nullable_encodable, opt_model, parse_nullable, Value, ValueModel, TYPE_STRING,
};

verus! {

broadcast use vstd::seq_lib::group_seq_properties;

pub open spec fn opt_chars(s: Option<String>) -> Option<Seq<char>> {
    match s {
        Some(x) => Some(x@),
        None => None,
    }
}

/// A string field: a string value, type code included.
#[verifier::opaque]
pub open spec fn str_wire(s: Seq<char>) -> Seq<u8> {
    enc(ValueModel::String(s))
}

#[verifier::opaque]
pub open spec fn str_ok(s: Seq<char>) -> bool {
    encodable(ValueModel::String(s))
}

/// A string field that may be absent: the null byte, or a string value.
#[verifier::opaque]
pub open spec fn opt_str_wire(s: Option<Seq<char>>) -> Seq<u8> {
    enc_nullable(string_model(s))
}

#[verifier::opaque]
pub open spec fn opt_str_ok(s: Option<Seq<char>>) -> bool {
    nullable_encodable(string_model(s))
}

/// A flag field: one byte, 1 or 0.
pub open spec fn bool_wire(b: bool) -> Seq<u8> {
    seq![if b { 1u8 } else { 0u8 }]
}

pub fn check_str(s: &String) -> (b: bool)
    ensures
        b == str_ok(s@),
{
    reveal(str_ok);
    s.check_raw()
}

pub fn write_str(out: &mut Vec<u8>, s: &String)
    requires
        str_ok(s@),
    ensures
        final(out)@ == old(out)@ + str_wire(s@),
{
    reveal(str_ok);
    reveal(str_wire);
    put_u8(out, TYPE_STRING);
    s.write_raw(out);
    assert(out@ =~= old(out)@ + str_wire(s@));
}

pub fn check_opt_str(s: &Option<String>) -> (b: bool)
    ensures
        b == opt_str_ok(opt_chars(*s)),
{
    reveal(opt_str_ok);
    match s {
        Some(x) => x.check_raw(),
        None => true,
    }
}

pub fn write_opt_str(out: &mut Vec<u8>, s: &Option<String>)
    requires
        opt_str_ok(opt_chars(*s)),
    ensures
        final(out)@ == old(out)@ + opt_str_wire(opt_chars(*s)),
{
    reveal(opt_str_ok);
    reveal(opt_str_wire);
    reveal(str_ok);
    reveal(str_wire);
    match s {
        Some(x) => write_str(out, x),
        None => {
            put_u8(out, crate::value::NULL);
            assert(out@ =~= old(out)@ + opt_str_wire(opt_chars(*s)));
        },
    }
}

pub fn write_bool(out: &mut Vec<u8>, b: bool)
    ensures
        final(out)@ == old(out)@ + bool_wire(b),
{
    put_u8(
        out,
        if b {
            1
        } else {
            0
        },
    );
    assert(out@ =~= old(out)@ + bool_wire(b));
}

pub fn read_i32(buf: &Vec<u8>, pos: usize) -> (r: Result<(i32, usize), Error>)
    requires
        pos <= buf@.len(),
    ensures
        r matches Ok((x, end)) ==> end == pos + 4 && end <= buf@.len() && buf@.subrange(
            pos as int,
            end as int,
        ) == le_i32(x),
        r matches Err(e) ==> e.kind == ErrorKind::Codec && pos + 4 > buf@.len(),
{
    if buf.len() - pos < 4 {
        return Err(Error::codec("missing integer"));
    }
    proof {
        lemma_from_le32(buf@.skip(pos as int));
        assert(buf@.skip(pos as int).take(4) =~= buf@.subrange(pos as int, pos + 4));
    }
    Ok((get_u32_le(buf, pos) as i32, pos + 4))
}

pub fn read_i64(buf: &Vec<u8>, pos: usize) -> (r: Result<(i64, usize), Error>)
    requires
        pos <= buf@.len(),
    ensures
        r matches Ok((x, end)) ==> end == pos + 8 && end <= buf@.len() && buf@.subrange(
            pos as int,
            end as int,
        ) == le_i64(x),
        r matches Err(e) ==> e.kind == ErrorKind::Codec && pos + 8 > buf@.len(),
{
    if buf.len() - pos < 8 {
        return Err(Error::codec("missing integer"));
    }
    proof {
        lemma_from_le64(buf@.skip(pos as int));
        assert(buf@.skip(pos as int).take(8) =~= buf@.subrange(pos as int, pos + 8));
    }
    Ok((get_u64_le(buf, pos) as i64, pos + 8))
}

/// Splits a read range at the end of its first piece.
pub proof fn lemma_split(s: Seq<u8>, a: int, c: int, x: Seq<u8>, y: Seq<u8>)
    requires
        0 <= a <= c <= s.len(),
        s.subrange(a, c) == x + y,
    ensures
        a + x.len() <= c,
        s.subrange(a, a + x.len()) == x,
        s.subrange(a + x.len(), c) == y,
{
    assert(s.subrange(a, a + x.len()) =~= (x + y).subrange(0, x.len() as int));
    assert(s.subrange(a + x.len(), c) =~= (x + y).subrange(x.len() as int, (x + y).len() as int));
    assert((x + y).subrange(0, x.len() as int) =~= x);
    assert((x + y).subrange(x.len() as int, (x + y).len() as int) =~= y);
}

/// Bytes read piece by piece are the pieces one after another.
pub proof fn lemma_join(s: Seq<u8>, a: int, b: int, c: int, x: Seq<u8>, y: Seq<u8>)
    requires
        0 <= a <= b <= c <= s.len(),
        s.subrange(a, b) == x,
        s.subrange(b, c) == y,
    ensures
        s.subrange(a, c) == x + y,
{
    assert(s.subrange(a, c) =~= x + y);
}

/// The little-endian form of an `i32` fixes the `i32`.
pub proof fn lemma_le_i32_injective(a: i32, b: i32)
    requires
        le_i32(a) == le_i32(b),
    ensures
        a == b,
{
    crate::buffer::lemma_le32(a as u32);
    crate::buffer::lemma_le32(b as u32);
    crate::buffer::lemma_signed_casts(0, 0, a, 0);
    crate::buffer::lemma_signed_casts(0, 0, b, 0);
}

/// A value with a wire form of its own, without a type code unless the
/// form carries one. Reading is exact both ways: what is read is a wire
/// form of the result, and every wire form is read, up to its very end.
pub trait WireRecord: Sized {
    spec fn wire(&self) -> Seq<u8>;

    /// Whether the value has a wire form.
    spec fn wire_ok(&self) -> bool;

    fn check_wire(&self) -> (b: bool)
        ensures
            b == self.wire_ok(),
    ;

    fn write_wire(&self, out: &mut Vec<u8>)
        requires
            self.wire_ok(),
        ensures
            final(out)@ == old(out)@ + self.wire(),
    ;

    /// Reads the value whose wire form starts at `buf[pos]`, and where it
    /// ends.
    fn read_wire(buf: &Vec<u8>, pos: usize) -> (r: Result<(Self, usize), Error>)
        requires
            pos <= buf@.len(),
        ensures
            r matches Ok((v, end)) ==> pos <= end <= buf@.len() && v.wire_ok() && buf@.subrange(
                pos as int,
                end as int,
            ) == v.wire(),
            forall|v: Self, end: int|
                #![trigger v.wire(), buf@.subrange(pos as int, end)]
                pos <= end <= buf@.len() && v.wire_ok() && buf@.subrange(pos as int, end)
                    == v.wire() ==> r is Ok && r->Ok_0.1 == end,
            r matches Err(e) ==> e.kind == ErrorKind::Codec,
    ;
}

impl WireRecord for i32 {
    open spec fn wire(&self) -> Seq<u8> {
        le_i32(*self)
    }

    open spec fn wire_ok(&self) -> bool {
        true
    }

    fn check_wire(&self) -> (b: bool) {
        true
    }

    fn write_wire(&self, out: &mut Vec<u8>) {
        put_i32_le(out, *self);
    }

    fn read_wire(buf: &Vec<u8>, pos: usize) -> (r: Result<(i32, usize), Error>) {
        proof {
            assert forall|v: i32, end: int|
                #![trigger v.wire(), buf@.subrange(pos as int, end)]
                pos <= end <= buf@.len() && v.wire_ok() && buf@.subrange(pos as int, end)
                    == v.wire() implies end == pos + 4 by {
                assert(le_i32(v).len() == 4);
            }
        }
        read_i32(buf, pos)
    }
}

impl WireRecord for i64 {
    open spec fn wire(&self) -> Seq<u8> {
        le_i64(*self)
    }

    open spec fn wire_ok(&self) -> bool {
        true
    }

    fn check_wire(&self) -> (b: bool) {
        true
    }

    fn write_wire(&self, out: &mut Vec<u8>) {
        crate::buffer::put_i64_le(out, *self);
    }

    fn read_wire(buf: &Vec<u8>, pos: usize) -> (r: Result<(i64, usize), Error>) {
        proof {
            assert forall|v: i64, end: int|
                #![trigger v.wire(), buf@.subrange(pos as int, end)]
                pos <= end <= buf@.len() && v.wire_ok() && buf@.subrange(pos as int, end)
                    == v.wire() implies end == pos + 8 by {
                assert(le_i64(v).len() == 8);
            }
        }
        read_i64(buf, pos)
    }
}

/// A flag: the byte 1 or the byte 0; any other byte is refused.
impl WireRecord for bool {
    open spec fn wire(&self) -> Seq<u8> {
        bool_wire(*self)
    }

    open spec fn wire_ok(&self) -> bool {
        true
    }

    fn check_wire(&self) -> (b: bool) {
        true
    }

    fn write_wire(&self, out: &mut Vec<u8>) {
        write_bool(out, *self);
    }

    fn read_wire(buf: &Vec<u8>, pos: usize) -> (r: Result<(bool, usize), Error>) {
        proof {
            assert forall|v: bool, end: int|
                #![trigger v.wire(), buf@.subrange(pos as int, end)]
                pos <= end <= buf@.len() && v.wire_ok() && buf@.subrange(pos as int, end)
                    == v.wire() implies end == pos + 1 && buf@[pos as int] == (if v {
                1u8
            } else {
                0u8
            }) by {
                assert(bool_wire(v).len() == 1);
                assert(buf@.subrange(pos as int, end)[0] == bool_wire(v)[0]);
            }
        }
        if pos >= buf.len() || buf[pos] > 1 {
            return Err(Error::codec("malformed flag"));
        }
        let b = buf[pos] == 1;
        assert(buf@.subrange(pos as int, pos + 1) =~= bool_wire(b));
        Ok((b, pos + 1))
    }
}

/// What a string's wire form at `pos` tells of the bytes there.
proof fn lemma_str_at(buf: Seq<u8>, pos: int, x: Seq<char>, end: int)
    requires
        0 <= pos <= end <= buf.len(),
        str_ok(x),
        buf.subrange(pos, end) == str_wire(x),
    ensures
        pos < buf.len(),
        pos + 1 <= end,
        buf[pos] == TYPE_STRING,
        <String as RawCodec>::parse_raw(buf.skip(pos + 1)) == Some((x, (end - pos - 1) as nat)),
{
    reveal(str_ok);
    reveal(str_wire);
    let raw = <String as RawCodec>::raw(x);
    assert(str_wire(x) == seq![TYPE_STRING] + raw);
    assert(buf.subrange(pos, end).len() == end - pos);
    assert(buf.subrange(pos, end)[0] == buf[pos]);
    assert(buf.skip(pos + 1) =~= raw + buf.skip(end)) by {
        assert forall|k: int| 0 <= k < raw.len() implies buf.skip(pos + 1)[k] == raw[k] by {
            assert(buf.subrange(pos, end)[k + 1] == buf[pos + 1 + k]);
        }
    }
    <String as RawCodec>::lemma_parse_raw(x, buf.skip(end));
}

/// A string: its type code, UTF-8 length and bytes.
impl WireRecord for String {
    open spec fn wire(&self) -> Seq<u8> {
        str_wire(self@)
    }

    open spec fn wire_ok(&self) -> bool {
        str_ok(self@)
    }

    fn check_wire(&self) -> (b: bool) {
        check_str(self)
    }

    fn write_wire(&self, out: &mut Vec<u8>) {
        write_str(out, self);
    }

    fn read_wire(buf: &Vec<u8>, pos: usize) -> (r: Result<(String, usize), Error>) {
        if pos >= buf.len() || buf[pos] != TYPE_STRING {
            proof {
                assert forall|v: String, end: int|
                    #![trigger v.wire(), buf@.subrange(pos as int, end)]
                    pos <= end <= buf@.len() && v.wire_ok() && buf@.subrange(pos as int, end)
                        == v.wire() implies false by {
                    lemma_str_at(buf@, pos as int, v@, end);
                }
            }
            return Err(Error::codec("expected a string"));
        }
        match String::read_raw(buf, pos + 1) {
            None => {
                proof {
                    assert forall|v: String, end: int|
                        #![trigger v.wire(), buf@.subrange(pos as int, end)]
                        pos <= end <= buf@.len() && v.wire_ok() && buf@.subrange(pos as int, end)
                            == v.wire() implies false by {
                        lemma_str_at(buf@, pos as int, v@, end);
                    }
                }
                Err(Error::codec("malformed string"))
            },
            Some((s, n)) => {
                proof {
                    reveal(str_ok);
                    reveal(str_wire);
                    let t = buf@.skip(pos + 1);
                    let k = from_le32(t) as i32;
                    let b = t.subrange(4, 4 + k);
                    lemma_from_le32(t);
                    decode_utf8_encode_utf8(b);
                    assert(buf@.subrange(pos as int, pos + 1 + n) =~= seq![TYPE_STRING] + t.take(4)
                        + b);
                    assert forall|v: String, end: int|
                        #![trigger v.wire(), buf@.subrange(pos as int, end)]
                        pos <= end <= buf@.len() && v.wire_ok() && buf@.subrange(pos as int, end)
                            == v.wire() implies pos + 1 + n == end by {
                        lemma_str_at(buf@, pos as int, v@, end);
                    }
                }
                Ok((s, pos + 1 + n))
            },
        }
    }
}

/// A string that may be absent: the null byte, or a string value.
impl WireRecord for Option<String> {
    open spec fn wire(&self) -> Seq<u8> {
        opt_str_wire(opt_chars(*self))
    }

    open spec fn wire_ok(&self) -> bool {
        opt_str_ok(opt_chars(*self))
    }

    fn check_wire(&self) -> (b: bool) {
        check_opt_str(self)
    }

    fn write_wire(&self, out: &mut Vec<u8>) {
        write_opt_str(out, self);
    }

    fn read_wire(buf: &Vec<u8>, pos: usize) -> (r: Result<(Option<String>, usize), Error>) {
        proof {
            reveal(opt_str_ok);
            reveal(opt_str_wire);
            reveal(str_ok);
            reveal(str_wire);
            assert forall|v: Option<String>, end: int|
                #![trigger v.wire(), buf@.subrange(pos as int, end)]
                pos <= end <= buf@.len() && v.wire_ok() && buf@.subrange(pos as int, end)
                    == v.wire() implies pos < buf@.len() && (v is None <==> buf@[pos as int]
                == crate::value::NULL) && (v is None ==> end == pos + 1) by {
                match v {
                    Some(x) => {
                        lemma_str_at(buf@, pos as int, x@, end);
                    },
                    None => {
                        assert(v.wire() == seq![crate::value::NULL]);
                        assert(buf@.subrange(pos as int, end).len() == end - pos);
                        assert(buf@.subrange(pos as int, end)[0] == buf@[pos as int]);
                    },
                }
            }
        }
        if pos >= buf.len() {
            return Err(Error::codec("missing string"));
        }
        if buf[pos] == crate::value::NULL {
            assert(buf@.subrange(pos as int, pos + 1) =~= seq![crate::value::NULL]);
            proof {
                reveal(opt_str_ok);
                reveal(opt_str_wire);
            }
            return Ok((None, pos + 1));
        }
        proof {
            reveal(opt_str_ok);
            reveal(opt_str_wire);
            assert forall|v: Option<String>, end: int|
                #![trigger v.wire(), buf@.subrange(pos as int, end)]
                pos <= end <= buf@.len() && v.wire_ok() && buf@.subrange(pos as int, end)
                    == v.wire() implies v is Some && v->0.wire_ok() && buf@.subrange(
                pos as int,
                end,
            ) == v->0.wire() by {
                reveal(str_ok);
                reveal(str_wire);
            }
        }
        let (s, end) = String::read_wire(buf, pos)?;
        proof {
            reveal(opt_str_ok);
            reveal(opt_str_wire);
            reveal(str_ok);
            reveal(str_wire);
        }
        Ok((Some(s), end))
    }
}

/// A value that may be absent, held to the value's own wire form: a form
/// the codec would not write, as a flag byte other than 0 or 1, is refused.
impl WireRecord for Option<Value> {
    open spec fn wire(&self) -> Seq<u8> {
        enc_nullable(opt_model(*self))
    }

    open spec fn wire_ok(&self) -> bool {
        nullable_encodable(opt_model(*self))
    }

    fn check_wire(&self) -> (b: bool) {
        match self {
            Some(v) => crate::value::is_encodable(v),
            None => true,
        }
    }

    fn write_wire(&self, out: &mut Vec<u8>) {
        let r = encode_nullable(self, out);
        assert(r is Ok);
    }

    fn read_wire(buf: &Vec<u8>, pos: usize) -> (r: Result<(Option<Value>, usize), Error>) {
        let _len = buf.len();
        proof {
            assert forall|v: Option<Value>, end: int|
                #![trigger v.wire(), buf@.subrange(pos as int, end)]
                pos <= end <= buf@.len() && v.wire_ok() && buf@.subrange(pos as int, end)
                    == v.wire() implies parse_nullable(buf@.skip(pos as int)) == Some(
                (opt_model(v), (end - pos) as nat),
            ) by {
                assert(buf@.skip(pos as int) =~= buf@.subrange(pos as int, end) + buf@.skip(end));
                lemma_parse_nullable(opt_model(v), buf@.skip(end));
            }
        }
        let (v, _) = decode_nullable(buf, pos)?;
        let mut w: Vec<u8> = Vec::new();
        if encode_nullable(&v, &mut w).is_err() {
            return Err(Error::codec("value has no wire form"));
        }
        if !bytes_at(buf, pos, &w) {
            return Err(Error::codec("value not in its own wire form"));
        }
        Ok((v, pos + w.len()))
    }
}

/// Whether `w` stands in `buf` at `pos`.
pub fn bytes_at(buf: &Vec<u8>, pos: usize, w: &Vec<u8>) -> (b: bool)
    requires
        pos <= buf@.len(),
    ensures
        b == (pos + w@.len() <= buf@.len() && buf@.subrange(pos as int, pos + w@.len()) == w@),
{
    let blen = buf.len();
    if blen - pos < w.len() {
        return false;
    }
    let mut i: usize = 0;
    while i < w.len()
        invariant
            blen == buf@.len(),
            i <= w@.len(),
            pos + w@.len() <= buf@.len(),
            forall|j: int| 0 <= j < i ==> buf@[pos + j] == w@[j],
        decreases w@.len() - i,
    {
        if buf[pos + i] != w[i] {
            assert(buf@.subrange(pos as int, pos + w@.len())[i as int] != w@[i as int]);
            return false;
        }
        i = i + 1;
    }
    assert(buf@.subrange(pos as int, pos + w@.len()) =~= w@);
    true
}

/// Two values one after another.
impl<A: WireRecord, B: WireRecord> WireRecord for (A, B) {
    open spec fn wire(&self) -> Seq<u8> {
        self.0.wire() + self.1.wire()
    }

    open spec fn wire_ok(&self) -> bool {
        self.0.wire_ok() && self.1.wire_ok()
    }

    fn check_wire(&self) -> (b: bool) {
        self.0.check_wire() && self.1.check_wire()
    }

    fn write_wire(&self, out: &mut Vec<u8>) {
        self.0.write_wire(out);
        self.1.write_wire(out);
        assert(out@ =~= old(out)@ + self.wire());
    }

    fn read_wire(buf: &Vec<u8>, pos: usize) -> (r: Result<((A, B), usize), Error>) {
        let ra = A::read_wire(buf, pos);
        proof {
            assert forall|v: (A, B), end: int|
                #![trigger v.wire(), buf@.subrange(pos as int, end)]
                pos <= end <= buf@.len() && v.wire_ok() && buf@.subrange(pos as int, end)
                    == v.wire() implies ra is Ok && ra->Ok_0.1 == pos + v.0.wire().len() by {
                lemma_split(buf@, pos as int, end, v.0.wire(), v.1.wire());
            }
        }
        let (a, p) = match ra {
            Ok(x) => x,
            Err(e) => {
                return Err(e);
            },
        };
        let rb = B::read_wire(buf, p);
        proof {
            assert forall|v: (A, B), end: int|
                #![trigger v.wire(), buf@.subrange(pos as int, end)]
                pos <= end <= buf@.len() && v.wire_ok() && buf@.subrange(pos as int, end)
                    == v.wire() implies rb is Ok && rb->Ok_0.1 == end by {
                lemma_split(buf@, pos as int, end, v.0.wire(), v.1.wire());
            }
        }
        match rb {
            Ok((b, end)) => {
                proof {
                    lemma_join(buf@, pos as int, p as int, end as int, a.wire(), b.wire());
                }
                Ok(((a, b), end))
            },
            Err(e) => Err(e),
        }
    }
}

/// The wire forms of values one after another.
pub open spec fn wires<T: WireRecord>(s: Seq<T>) -> Seq<u8>
    decreases s.len(),
{
    if s.len() == 0 {
        Seq::empty()
    } else {
        s[0].wire() + wires(s.drop_first())
    }
}

/// A list: its count, then each value.
#[verifier::opaque]
pub open spec fn counted_wire<T: WireRecord>(s: Seq<T>) -> Seq<u8> {
    le_i32(s.len() as i32) + wires(s)
}

#[verifier::opaque]
pub open spec fn counted_ok<T: WireRecord>(s: Seq<T>) -> bool {
    s.len() <= i32::MAX && forall|i: int| 0 <= i < s.len() ==> (#[trigger] s[i]).wire_ok()
}

pub proof fn lemma_wires_push<T: WireRecord>(s: Seq<T>, x: T)
    ensures
        wires(s.push(x)) == wires(s) + x.wire(),
    decreases s.len(),
{
    if s.len() == 0 {
        assert(s.push(x).drop_first() =~= Seq::<T>::empty());
        assert(wires(s.push(x).drop_first()) == Seq::<u8>::empty());
        assert(wires(s.push(x)) =~= x.wire());
        assert(wires(s) + x.wire() =~= x.wire());
    } else {
        assert(s.push(x).drop_first() =~= s.drop_first().push(x));
        lemma_wires_push(s.drop_first(), x);
        assert(wires(s.push(x)) =~= wires(s) + x.wire());
    }
}

pub fn check_records<T: WireRecord>(items: &Vec<T>) -> (b: bool)
    ensures
        b == counted_ok(items@),
{
    reveal(counted_ok);
    if items.len() > 0x7fff_ffff {
        return false;
    }
    let mut i: usize = 0;
    while i < items.len()
        invariant
            i <= items@.len() <= i32::MAX,
            forall|j: int| 0 <= j < i ==> (#[trigger] items@[j]).wire_ok(),
        decreases items@.len() - i,
    {
        if !items[i].check_wire() {
            proof {
                reveal(counted_ok);
            }
            return false;
        }
        i = i + 1;
    }
    true
}

#[verifier::rlimit(100)]
pub fn write_records<T: WireRecord>(items: &Vec<T>, out: &mut Vec<u8>)
    requires
        counted_ok(items@),
    ensures
        final(out)@ == old(out)@ + counted_wire(items@),
{
    reveal(counted_ok);
    reveal(counted_wire);
    put_i32_le(out, items.len() as i32);
    let ghost head = out@;
    assert(items@.take(0) =~= Seq::<T>::empty());
    assert(out@ =~= head + wires(items@.take(0)));
    let mut i: usize = 0;
    while i < items.len()
        invariant
            i <= items@.len(),
            counted_ok(items@),
            out@ == head + wires(items@.take(i as int)),
            head == old(out)@ + le_i32(items@.len() as i32),
        decreases items@.len() - i,
    {
        proof {
            reveal(counted_ok);
            reveal(counted_wire);
        }
        assert(items@[i as int].wire_ok());
        items[i].write_wire(out);
        proof {
            assert(items@.take(i + 1) =~= items@.take(i as int).push(items@[i as int]));
            lemma_wires_push(items@.take(i as int), items@[i as int]);
        }
        assert(out@ =~= head + wires(items@.take(i + 1)));
        i = i + 1;
    }
    assert(items@.take(i as int) =~= items@);
    assert(out@ =~= old(out)@ + counted_wire(items@));
}

/// A list: its count, then each value.
impl<T: WireRecord> WireRecord for Vec<T> {
    open spec fn wire(&self) -> Seq<u8> {
        counted_wire(self@)
    }

    open spec fn wire_ok(&self) -> bool {
        counted_ok(self@)
    }

    fn check_wire(&self) -> (b: bool) {
        check_records(self)
    }

    fn write_wire(&self, out: &mut Vec<u8>) {
        write_records(self, out);
    }

    #[verifier::rlimit(100)]
    fn read_wire(buf: &Vec<u8>, pos: usize) -> (r: Result<(Vec<T>, usize), Error>) {
        proof {
            reveal(counted_ok);
            reveal(counted_wire);
        }
        proof {
            assert forall|v: Vec<T>, end: int|
                #![trigger v.wire(), buf@.subrange(pos as int, end)]
                pos <= end <= buf@.len() && v.wire_ok() && buf@.subrange(pos as int, end)
                    == v.wire() implies pos + 4 <= end && buf@.subrange(pos as int, pos + 4)
                == le_i32(v@.len() as i32) && buf@.subrange(pos + 4, end) == wires(v@) by {
                lemma_split(buf@, pos as int, end, le_i32(v@.len() as i32), wires(v@));
            }
        }
        let (c, start) = read_i32(buf, pos)?;
        if c < 0 {
            proof {
                assert forall|v: Vec<T>, end: int|
                    #![trigger v.wire(), buf@.subrange(pos as int, end)]
                    pos <= end <= buf@.len() && v.wire_ok() && buf@.subrange(pos as int, end)
                        == v.wire() implies false by {
                    lemma_le_i32_injective(c, v@.len() as i32);
                }
            }
            return Err(Error::codec("negative count"));
        }
        let count = c as usize;
        let mut items: Vec<T> = Vec::new();
        let mut off = start;
        let mut i: usize = 0;
        assert(buf@.subrange(start as int, off as int) =~= wires(items@));
        proof {
            assert forall|v: Vec<T>, end: int|
                #![trigger v.wire(), buf@.subrange(pos as int, end)]
                pos <= end <= buf@.len() && v.wire_ok() && buf@.subrange(pos as int, end)
                    == v.wire() implies v@.len() == count && buf@.subrange(off as int, end)
                == wires(v@.skip(i as int)) by {
                lemma_le_i32_injective(c, v@.len() as i32);
                assert(v@.skip(0) =~= v@);
            }
        }
        while i < count
            invariant
                start == pos + 4,
                start <= off <= buf@.len(),
                i <= count,
                count == c,
                items@.len() == i,
                buf@.subrange(pos as int, start as int) == le_i32(c),
                forall|j: int| 0 <= j < i ==> (#[trigger] items@[j]).wire_ok(),
                buf@.subrange(start as int, off as int) == wires(items@),
                forall|v: Vec<T>, end: int|
                    #![trigger v.wire(), buf@.subrange(pos as int, end)]
                    pos <= end <= buf@.len() && v.wire_ok() && buf@.subrange(pos as int, end)
                        == v.wire() ==> v@.len() == count && off <= end && buf@.subrange(
                        off as int,
                        end,
                    ) == wires(v@.skip(i as int)),
            decreases count - i,
        {
            let ri = T::read_wire(buf, off);
            proof {
                reveal(counted_ok);
                reveal(counted_wire);
            }
            proof {
                assert forall|v: Vec<T>, end: int|
                    #![trigger v.wire(), buf@.subrange(pos as int, end)]
                    pos <= end <= buf@.len() && v.wire_ok() && buf@.subrange(pos as int, end)
                        == v.wire() implies ri is Ok && ri->Ok_0.1 == off + v@[i as int].wire().len()
                    && buf@.subrange(ri->Ok_0.1 as int, end) == wires(v@.skip(i + 1)) by {
                    let rest = v@.skip(i as int);
                    assert(rest[0] == v@[i as int]);
                    assert(rest.drop_first() =~= v@.skip(i + 1));
                    assert(v@[i as int].wire_ok());
                    lemma_split(buf@, off as int, end, v@[i as int].wire(), wires(v@.skip(i + 1)));
                }
            }
            let (item, end) = match ri {
                Ok(x) => x,
                Err(e) => {
                    return Err(e);
                },
            };
            proof {
                lemma_wires_push(items@, item);
                lemma_join(buf@, start as int, off as int, end as int, wires(items@), item.wire());
            }
            items.push(item);
            off = end;
            i = i + 1;
        }
        proof {
            lemma_join(buf@, pos as int, start as int, off as int, le_i32(c), wires(items@));
            assert forall|v: Vec<T>, end: int|
                #![trigger v.wire(), buf@.subrange(pos as int, end)]
                pos <= end <= buf@.len() && v.wire_ok() && buf@.subrange(pos as int, end)
                    == v.wire() implies off == end by {
                assert(v@.skip(i as int) =~= Seq::<T>::empty());
                assert(buf@.subrange(off as int, end).len() == 0);
            }
        }
        Ok((items, off))
    }
}

/// A list that may be absent: a flag, then the list when the flag is set.
impl<T: WireRecord> WireRecord for Option<Vec<T>> {
    open spec fn wire(&self) -> Seq<u8> {
        match *self {
            Some(v) => bool_wire(true) + v.wire(),
            None => bool_wire(false),
        }
    }

    open spec fn wire_ok(&self) -> bool {
        match *self {
            Some(v) => v.wire_ok(),
            None => true,
        }
    }

    fn check_wire(&self) -> (b: bool) {
        match self {
            Some(v) => v.check_wire(),
            None => true,
        }
    }

    fn write_wire(&self, out: &mut Vec<u8>) {
        match self {
            Some(v) => {
                write_bool(out, true);
                v.write_wire(out);
            },
            None => {
                write_bool(out, false);
            },
        }
        assert(out@ =~= old(out)@ + self.wire());
    }

    fn read_wire(buf: &Vec<u8>, pos: usize) -> (r: Result<(Option<Vec<T>>, usize), Error>) {
        proof {
            assert forall|v: Option<Vec<T>>, end: int|
                #![trigger v.wire(), buf@.subrange(pos as int, end)]
                pos <= end <= buf@.len() && v.wire_ok() && buf@.subrange(pos as int, end)
                    == v.wire() implies pos + 1 <= end && buf@.subrange(pos as int, pos + 1) == (
                v is Some).wire() && (v is None ==> end == pos + 1) by {
                match v {
                    Some(x) => {
                        lemma_split(buf@, pos as int, end, bool_wire(true), x.wire());
                    },
                    None => {
                        assert(bool_wire(false).len() == 1);
                        assert(buf@.subrange(pos as int, end).len() == end - pos);
                    },
                }
            }
        }
        let (present, p) = bool::read_wire(buf, pos)?;
        proof {
            assert(bool_wire(present).len() == 1);
            assert forall|v: Option<Vec<T>>, end: int|
                #![trigger v.wire(), buf@.subrange(pos as int, end)]
                pos <= end <= buf@.len() && v.wire_ok() && buf@.subrange(pos as int, end)
                    == v.wire() implies (v is Some) == present && (v is None ==> end == p) by {
                assert(bool_wire(v is Some)[0] == bool_wire(present)[0]);
            }
        }
        if present {
            proof {
                assert forall|v: Option<Vec<T>>, end: int|
                    #![trigger v.wire(), buf@.subrange(pos as int, end)]
                    pos <= end <= buf@.len() && v.wire_ok() && buf@.subrange(pos as int, end)
                        == v.wire() implies v is Some && v->0.wire_ok() && buf@.subrange(
                    p as int,
                    end,
                ) == v->0.wire() by {
                    match v {
                        Some(x) => {
                            lemma_split(buf@, pos as int, end, bool_wire(true), x.wire());
                        },
                        None => {},
                    }
                }
            }
            let (list, end) = Vec::<T>::read_wire(buf, p)?;
            proof {
                lemma_join(buf@, pos as int, p as int, end as int, bool_wire(true), list.wire());
            }
            Ok((Some(list), end))
        } else {
            Ok((None, p))
        }
    }
}

} // verus!
