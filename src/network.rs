//! Length-prefixed framing, the request envelope, the reply header and the
//! handshake.
use vstd::prelude::*;
use vstd::utf8::{decode_utf8, valid_utf8};

use crate::buffer::{
    copy_range, from_le16, from_le32, from_le64, get_u16_le, get_u32_le, get_u64_le, le_i16,
    le_i32, le_i64, lemma_le32, lemma_signed_casts, put_i16_le, put_i32_le, put_i64_le,
    put_slice, put_u8,
};
use crate::configuration::Configuration;
use crate::error::{Error, ErrorKind};
use crate::scalar::string_from_utf8;
use crate::value::{
    decode_nullable, enc, enc_nullable, encode, encode_nullable, nullable_encodable, opt_model,
    parse_nullable,
    encodable, Value, ValueModel,
};
use crate::{client_version, spec_client_version, Version};

verus! {

broadcast use vstd::seq_lib::group_seq_properties;

/// The request id every request carries; one request is in flight at a
/// time, and the server echoes the id back.
pub const REQUEST_ID: i64 = 0;

/// A frame: the payload's length as a little-endian `i32`, then the payload.
pub open spec fn frame_bytes(payload: Seq<u8>) -> Seq<u8> {
    le_i32(payload.len() as i32) + payload
}

/// The payload of the frame that starts `s`, and the frame's length.
pub open spec fn parse_frame(s: Seq<u8>) -> Option<(Seq<u8>, nat)> {
    if s.len() < 4 {
        None
    } else {
        let n = from_le32(s) as i32;
        if n < 0 || s.len() < 4 + n {
            None
        } else {
            Some((s.subrange(4, 4 + n), (4 + n) as nat))
        }
    }
}

/// Frames a payload for sending.
pub fn frame(payload: &Vec<u8>) -> (r: Result<Vec<u8>, Error>)
    ensures
        r is Ok <==> payload@.len() <= i32::MAX,
        r matches Ok(f) ==> f@ == frame_bytes(payload@),
        r matches Err(e) ==> e.kind == ErrorKind::Codec,
{
    if payload.len() > 0x7fff_ffff {
        return Err(Error::codec("payload too long for a frame"));
    }
    let mut out: Vec<u8> = Vec::new();
    put_i32_le(&mut out, payload.len() as i32);
    put_slice(&mut out, payload.as_slice());
    assert(out@ =~= frame_bytes(payload@));
    Ok(out)
}

/// The payload length that a frame's 4-byte prefix announces.
pub fn frame_length(prefix: &Vec<u8>) -> (r: Result<usize, Error>)
    ensures
        r is Ok <==> prefix@.len() >= 4 && from_le32(prefix@) as i32 >= 0,
        r matches Ok(n) ==> n == from_le32(prefix@) as i32,
        r matches Err(e) ==> e.kind == ErrorKind::Network,
{
    if prefix.len() < 4 {
        return Err(Error::network("truncated frame length"));
    }
    let n = get_u32_le(prefix, 0) as i32;
    proof {
        assert(prefix@.skip(0) =~= prefix@);
    }
    if n < 0 {
        return Err(Error::network("negative frame length"));
    }
    Ok(n as usize)
}

/// Reads the frame that starts at `data[pos]`: its payload, and how many
/// bytes the frame takes. A cut-short length prefix or payload is a
/// `Network` error.
pub fn read_frame(data: &Vec<u8>, pos: usize) -> (r: Result<(Vec<u8>, usize), Error>)
    requires
        pos <= data@.len(),
    ensures
        match r {
            Ok((p, n)) => parse_frame(data@.skip(pos as int)) == Some((p@, n as nat)),
            Err(e) => parse_frame(data@.skip(pos as int)) is None && e.kind == ErrorKind::Network,
        },
{
    let ghost s = data@.skip(pos as int);
    if data.len() - pos < 4 {
        return Err(Error::network("truncated frame length"));
    }
    let n = get_u32_le(data, pos) as i32;
    if n < 0 {
        return Err(Error::network("negative frame length"));
    }
    if data.len() - pos - 4 < n as usize {
        return Err(Error::network("truncated frame"));
    }
    let payload = copy_range(data, pos + 4, pos + 4 + n as usize);
    assert(payload@ =~= s.subrange(4, 4 + n));
    Ok((payload, 4 + n as usize))
}

/// What is framed is read back byte for byte, whatever follows the frame.
pub proof fn lemma_frame_round_trip(payload: Seq<u8>, rest: Seq<u8>)
    requires
        payload.len() <= i32::MAX,
    ensures
        parse_frame(frame_bytes(payload) + rest) == Some(
            (payload, frame_bytes(payload).len()),
        ),
{
    let n = payload.len() as i32;
    let s = frame_bytes(payload) + rest;
    lemma_le32(n as u32);
    lemma_signed_casts(0, 0, n, 0);
    assert(from_le32(s) == from_le32(le_i32(n)));
    assert(s.subrange(4, 4 + n) =~= payload);
}

/// A frame cut short anywhere, in its length prefix or in its payload,
/// does not read.
pub proof fn lemma_truncated_frame(payload: Seq<u8>, k: nat)
    requires
        payload.len() <= i32::MAX,
        k < frame_bytes(payload).len(),
    ensures
        parse_frame(frame_bytes(payload).take(k as int)) is None,
{
    let n = payload.len() as i32;
    let s = frame_bytes(payload).take(k as int);
    if k >= 4 {
        lemma_le32(n as u32);
        lemma_signed_casts(0, 0, n, 0);
        assert(from_le32(s) == from_le32(le_i32(n)));
    }
}

/// The start of every request: the operation code and the request id.
pub open spec fn request_header(opcode: i16) -> Seq<u8> {
    le_i16(opcode) + le_i64(REQUEST_ID)
}

/// The start of a request on one cache: the header, the cache id and a
/// flags byte of zero.
pub open spec fn cache_request_header(opcode: i16, cache_id: i32) -> Seq<u8> {
    request_header(opcode) + le_i32(cache_id) + seq![0u8]
}

pub fn begin_request(opcode: i16) -> (r: Vec<u8>)
    ensures
        r@ == request_header(opcode),
{
    let mut out: Vec<u8> = Vec::new();
    put_i16_le(&mut out, opcode);
    put_i64_le(&mut out, REQUEST_ID);
    assert(out@ =~= request_header(opcode));
    out
}

pub fn begin_cache_request(opcode: i16, cache_id: i32) -> (r: Vec<u8>)
    ensures
        r@ == cache_request_header(opcode, cache_id),
{
    let mut out = begin_request(opcode);
    put_i32_le(&mut out, cache_id);
    put_u8(&mut out, 0);
    assert(out@ =~= cache_request_header(opcode, cache_id));
    out
}

/// The status word of a reply.
pub open spec fn reply_status(s: Seq<u8>) -> i32 {
    from_le32(s.skip(8)) as i32
}

/// Whether a reply echoes the request id and reports success.
pub open spec fn reply_ok(s: Seq<u8>) -> bool {
    s.len() >= 12 && from_le64(s) as i64 == REQUEST_ID && reply_status(s) == 0
}

/// The error a reply that is not a success stands for: the server's status
/// and message where the reply holds them, a `Codec` error otherwise.
pub open spec fn reply_error(s: Seq<u8>) -> ErrorKind {
    if s.len() >= 12 && from_le64(s) as i64 == REQUEST_ID && valid_utf8(s.skip(12)) {
        ErrorKind::ServerStatus(reply_status(s))
    } else {
        ErrorKind::Codec
    }
}

/// Checks the header of a reply and returns where its body starts.
pub fn check_reply(reply: &Vec<u8>) -> (r: Result<usize, Error>)
    ensures
        r is Ok <==> reply_ok(reply@),
        r matches Ok(n) ==> n == 12,
        r matches Err(e) ==> e.kind == reply_error(reply@),
        r matches Err(e) ==> (e.kind is ServerStatus ==> e.message@ == decode_utf8(reply@.skip(12))),
{
    if reply.len() < 12 {
        return Err(Error::codec("truncated reply"));
    }
    proof {
        assert(reply@.skip(0) =~= reply@);
    }
    if get_u64_le(reply, 0) as i64 != REQUEST_ID {
        return Err(Error::codec("reply to another request"));
    }
    let status = get_u32_le(reply, 8) as i32;
    if status == 0 {
        return Ok(12);
    }
    let message = copy_range(reply, 12, reply.len());
    assert(message@ =~= reply@.skip(12));
    match string_from_utf8(message) {
        Some(m) => Err(Error::new(ErrorKind::ServerStatus(status), m)),
        None => Err(Error::codec("server message is not UTF-8")),
    }
}

pub open spec fn string_model(s: Option<Seq<char>>) -> Option<ValueModel> {
    match s {
        Some(x) => Some(ValueModel::String(x)),
        None => None,
    }
}

/// What the handshake request sends: the handshake code, the client's
/// version, the client kind, and the credentials when a user name is set.
pub open spec fn handshake_bytes(username: Option<Seq<char>>, password: Option<Seq<char>>) -> Seq<
    u8,
> {
    seq![HANDSHAKE_CODE] + le_i16(spec_client_version().major) + le_i16(
        spec_client_version().minor,
    ) + le_i16(spec_client_version().patch) + seq![CLIENT_KIND] + match username {
        Some(u) => enc(ValueModel::String(u)) + enc_nullable(string_model(password)),
        None => Seq::empty(),
    }
}

pub open spec fn credentials_encodable(username: Option<Seq<char>>, password: Option<Seq<char>>) -> bool {
    match username {
        Some(u) => encodable(ValueModel::String(u)) && nullable_encodable(string_model(password)),
        None => true,
    }
}

pub const HANDSHAKE_CODE: u8 = 1;
/// The code of a thin client.
pub const CLIENT_KIND: u8 = 2;

/// The handshake request for the given settings.
pub fn handshake_request(config: &Configuration) -> (r: Result<Vec<u8>, Error>)
    ensures
        r is Ok <==> credentials_encodable(
            crate::record::opt_chars(config.username),
            crate::record::opt_chars(config.password),
        ),
        r matches Ok(b) ==> b@ == handshake_bytes(
            crate::record::opt_chars(config.username),
            crate::record::opt_chars(config.password),
        ),
        r matches Err(e) ==> e.kind == ErrorKind::Codec,
{
    let version = client_version();
    let mut out: Vec<u8> = Vec::new();
    put_u8(&mut out, HANDSHAKE_CODE);
    put_i16_le(&mut out, version.major);
    put_i16_le(&mut out, version.minor);
    put_i16_le(&mut out, version.patch);
    put_u8(&mut out, CLIENT_KIND);
    let ghost head = out@;
    match &config.username {
        Some(u) => {
            let user = Value::String(u.clone());
            encode(&user, &mut out)?;
            let pass = match &config.password {
                Some(p) => Some(Value::String(p.clone())),
                None => None,
            };
            assert(opt_model(pass) == string_model(crate::record::opt_chars(config.password)));
            encode_nullable(&pass, &mut out)?;
        },
        None => {},
    }
    assert(out@ =~= handshake_bytes(
        crate::record::opt_chars(config.username),
        crate::record::opt_chars(config.password),
    ));
    Ok(out)
}

/// The error a handshake reply that is not a success stands for: a refusal
/// carrying the server's version where the reply holds it.
pub open spec fn handshake_error(s: Seq<u8>) -> ErrorKind {
    if s.len() >= 7 && s[0] != 1 {
        ErrorKind::Handshake {
            server_version: Version {
                major: from_le16(s.skip(1)) as i16,
                minor: from_le16(s.skip(3)) as i16,
                patch: from_le16(s.skip(5)) as i16,
            },
            client_version: spec_client_version(),
        }
    } else {
        ErrorKind::Codec
    }
}

/// Reads the server's answer to the handshake: the byte 1 accepts; anything
/// else refuses, followed by the server's version and an optional message.
pub fn check_handshake_reply(reply: &Vec<u8>) -> (r: Result<(), Error>)
    ensures
        r is Ok <==> reply@.len() >= 1 && reply@[0] == 1,
        r matches Err(e) ==> e.kind == handshake_error(reply@),
        r matches Err(e) ==> (reply@.len() >= 7 && reply@[0] != 1 ==> (parse_nullable(
            reply@.skip(7),
        ) matches Some((Some(ValueModel::String(m)), _)) ==> e.message@ == m)),
{
    if reply.len() < 1 {
        return Err(Error::codec("empty handshake reply"));
    }
    if reply[0] == 1 {
        return Ok(());
    }
    if reply.len() < 7 {
        return Err(Error::codec("truncated handshake reply"));
    }
    let server_version = Version {
        major: get_u16_le(reply, 1) as i16,
        minor: get_u16_le(reply, 3) as i16,
        patch: get_u16_le(reply, 5) as i16,
    };
    let kind = ErrorKind::Handshake { server_version, client_version: client_version() };
    let message = match decode_nullable(reply, 7) {
        Ok((Some(Value::String(m)), _)) => m,
        _ => "handshake refused".to_string(),
    };
    Err(Error::new(kind, message))
}

} // verus!
