//! Metadata of user-defined binary types, and the requests that read and
//! register it.
use vstd::prelude::*;

use crate::buffer::{le_i32, put_i32_le, put_u8};
use crate::error::{Error, ErrorKind};
use crate::network::{begin_request, check_reply, reply_error, reply_ok, request_header};
use crate::record::{check_str, str_ok, str_wire, write_str, WireRecord};

verus! {

pub const OP_TYPE_NAME: i16 = 3000;
pub const OP_REGISTER_TYPE_NAME: i16 = 3001;
pub const OP_GET_TYPE: i16 = 3002;
pub const OP_PUT_TYPE: i16 = 3003;
/// The platform whose type names the name requests speak of.
pub const PLATFORM_ID: u8 = 0;

/// A field of a binary type.
#[derive(Debug)]
pub struct Field {
    pub name: String,
    pub type_id: i32,
    pub field_id: i32,
}

/// A schema of a binary type: field ids with their positions.
#[derive(Debug)]
pub struct Schema {
    pub id: i32,
    pub fields: Vec<(i32, i32)>,
}

/// The description of a binary type. `enum_fields` is present for enum
/// types: each constant's name and value.
#[derive(Debug)]
pub struct Type {
    pub id: i32,
    pub name: String,
    pub affinity_key_field_name: String,
    pub fields: Vec<Field>,
    pub enum_fields: Option<Vec<(String, i32)>>,
    pub schemas: Vec<Schema>,
}

impl WireRecord for Field {
    open spec fn wire(&self) -> Seq<u8> {
        (self.name, (self.type_id, self.field_id)).wire()
    }

    open spec fn wire_ok(&self) -> bool {
        (self.name, (self.type_id, self.field_id)).wire_ok()
    }

    fn check_wire(&self) -> (b: bool) {
        self.name.check_wire() && self.type_id.check_wire() && self.field_id.check_wire()
    }

    fn write_wire(&self, out: &mut Vec<u8>) {
        self.name.write_wire(out);
        self.type_id.write_wire(out);
        self.field_id.write_wire(out);
        assert(out@ =~= old(out)@ + self.wire());
    }

    fn read_wire(buf: &Vec<u8>, pos: usize) -> (r: Result<(Field, usize), Error>) {
        let ((name, (type_id, field_id)), end) = <(String, (i32, i32))>::read_wire(buf, pos)?;
        Ok((Field { name, type_id, field_id }, end))
    }
}

impl WireRecord for Schema {
    open spec fn wire(&self) -> Seq<u8> {
        (self.id, self.fields).wire()
    }

    open spec fn wire_ok(&self) -> bool {
        (self.id, self.fields).wire_ok()
    }

    fn check_wire(&self) -> (b: bool) {
        self.id.check_wire() && self.fields.check_wire()
    }

    fn write_wire(&self, out: &mut Vec<u8>) {
        self.id.write_wire(out);
        self.fields.write_wire(out);
        assert(out@ =~= old(out)@ + self.wire());
    }

    fn read_wire(buf: &Vec<u8>, pos: usize) -> (r: Result<(Schema, usize), Error>) {
        let ((id, fields), end) = <(i32, Vec<(i32, i32)>)>::read_wire(buf, pos)?;
        Ok((Schema { id, fields }, end))
    }
}

impl WireRecord for Type {
    open spec fn wire(&self) -> Seq<u8> {
        (self.id, (self.name, (self.affinity_key_field_name, (self.fields, (self.enum_fields, self.schemas))))).wire()
    }

    open spec fn wire_ok(&self) -> bool {
        (self.id, (self.name, (self.affinity_key_field_name, (self.fields, (self.enum_fields, self.schemas))))).wire_ok()
    }

    fn check_wire(&self) -> (b: bool) {
        self.id.check_wire() && self.name.check_wire() && self.affinity_key_field_name.check_wire() && self.fields.check_wire() && self.enum_fields.check_wire() && self.schemas.check_wire()
    }

    fn write_wire(&self, out: &mut Vec<u8>) {
        self.id.write_wire(out);
        self.name.write_wire(out);
        self.affinity_key_field_name.write_wire(out);
        self.fields.write_wire(out);
        self.enum_fields.write_wire(out);
        self.schemas.write_wire(out);
        assert(out@ =~= old(out)@ + self.wire());
    }

    fn read_wire(buf: &Vec<u8>, pos: usize) -> (r: Result<(Type, usize), Error>) {
        let ((id, (name, (affinity_key_field_name, (fields, (enum_fields, schemas))))), end) = <(i32, (String, (String, (Vec<Field>, (Option<Vec<(String, i32)>>, Vec<Schema>)))))>::read_wire(buf, pos)?;
        Ok((Type { id, name, affinity_key_field_name, fields, enum_fields, schemas }, end))
    }
}

/// Ask for the name registered for a type id.
pub fn type_name_request(type_id: i32) -> (r: Vec<u8>)
    ensures
        r@ == request_header(OP_TYPE_NAME) + seq![PLATFORM_ID] + le_i32(type_id),
{
    let mut out = begin_request(OP_TYPE_NAME);
    put_u8(&mut out, PLATFORM_ID);
    put_i32_le(&mut out, type_id);
    assert(out@ =~= request_header(OP_TYPE_NAME) + seq![PLATFORM_ID] + le_i32(type_id));
    out
}

/// Register the name of a type id.
pub fn register_type_name_request(type_id: i32, name: &str) -> (r: Result<Vec<u8>, Error>)
    ensures
        r is Ok <==> str_ok(name@),
        r matches Ok(b) ==> b@ == request_header(OP_REGISTER_TYPE_NAME) + seq![PLATFORM_ID]
            + le_i32(type_id) + str_wire(name@),
        r matches Err(e) ==> e.kind == ErrorKind::Codec,
{
    let name = name.to_string();
    if !check_str(&name) {
        return Err(Error::codec("type name too long"));
    }
    let mut out = begin_request(OP_REGISTER_TYPE_NAME);
    put_u8(&mut out, PLATFORM_ID);
    put_i32_le(&mut out, type_id);
    write_str(&mut out, &name);
    assert(out@ =~= request_header(OP_REGISTER_TYPE_NAME) + seq![PLATFORM_ID] + le_i32(type_id)
        + str_wire(name@));
    Ok(out)
}

/// Ask for the description of a type id.
pub fn get_type_request(type_id: i32) -> (r: Vec<u8>)
    ensures
        r@ == request_header(OP_GET_TYPE) + le_i32(type_id),
{
    let mut out = begin_request(OP_GET_TYPE);
    put_i32_le(&mut out, type_id);
    out
}

/// Register the description of a type.
pub fn put_type_request(t: &Type) -> (r: Result<Vec<u8>, Error>)
    ensures
        r is Ok <==> t.wire_ok(),
        r matches Ok(b) ==> b@ == request_header(OP_PUT_TYPE) + t.wire(),
        r matches Err(e) ==> e.kind == ErrorKind::Codec,
{
    if !t.check_wire() {
        return Err(Error::codec("type description has no wire form"));
    }
    let mut out = begin_request(OP_PUT_TYPE);
    t.write_wire(&mut out);
    Ok(out)
}

/// Reads the reply to a type-name request: the name, or `None` when none
/// is registered.
pub fn read_type_name_reply(reply: &Vec<u8>) -> (r: Result<Option<String>, Error>)
    ensures
        r is Ok <==> reply_ok(reply@) && exists|n: Option<String>, end: int|
            #![trigger n.wire(), reply@.subrange(12, end)]
            12 <= end <= reply@.len() && n.wire_ok() && reply@.subrange(12, end) == n.wire(),
        r matches Ok(n) ==> exists|end: int|
            #![trigger reply@.subrange(12, end)]
            12 <= end <= reply@.len() && n.wire_ok() && reply@.subrange(12, end) == n.wire(),
        r matches Err(e) ==> e.kind == (if reply_ok(reply@) {
            ErrorKind::Codec
        } else {
            reply_error(reply@)
        }),
{
    let start = check_reply(reply)?;
    let (name, end) = Option::<String>::read_wire(reply, start)?;
    assert(reply@.subrange(12, end as int) == name.wire());
    Ok(name)
}

/// Reads the reply to a type request: a flag byte, 0 when the type is
/// unknown, then the description when it is known.
pub fn read_get_type_reply(reply: &Vec<u8>) -> (r: Result<Option<Type>, Error>)
    ensures
        r is Ok <==> reply_ok(reply@) && reply@.len() > 12 && (reply@[12] == 0 || exists|
            t: Type,
            end: int,
        |
            #![trigger t.wire(), reply@.subrange(13, end)]
            13 <= end <= reply@.len() && t.wire_ok() && reply@.subrange(13, end) == t.wire()),
        r matches Ok(t) ==> (t is None <==> reply@[12] == 0),
        r matches Ok(Some(t)) ==> exists|end: int|
            #![trigger reply@.subrange(13, end)]
            13 <= end <= reply@.len() && t.wire_ok() && reply@.subrange(13, end) == t.wire(),
        r matches Err(e) ==> e.kind == (if reply_ok(reply@) {
            ErrorKind::Codec
        } else {
            reply_error(reply@)
        }),
{
    let start = check_reply(reply)?;
    if reply.len() <= start {
        return Err(Error::codec("missing type flag"));
    }
    if reply[start] == 0 {
        return Ok(None);
    }
    let (t, end) = Type::read_wire(reply, start + 1)?;
    assert(reply@.subrange(13, end as int) == t.wire());
    Ok(Some(t))
}

} // verus!
