use vstd::prelude::*;

use crate::Version;

verus! {

/// What went wrong.
#[derive(PartialEq, Eq, Structural, Debug, Clone, Copy)]
pub enum ErrorKind {
    /// The connection failed or a frame was cut short.
    Network,
    /// Bytes that do not decode, or a value that cannot be encoded.
    Codec,
    /// The server refused the handshake.
    Handshake { server_version: Version, client_version: Version },
    /// The server answered a request with a non-zero status.
    ServerStatus(i32),
}

/// An error kind with a human-readable message.
#[derive(Debug)]
pub struct Error {
    pub kind: ErrorKind,
    pub message: String,
}

impl Error {
    pub fn new(kind: ErrorKind, message: String) -> (e: Error)
        ensures
            e.kind == kind,
            e.message@ == message@,
    {
        Error { kind, message }
    }

    /// A `Codec` error with the given message.
    pub fn codec(message: &str) -> (e: Error)
        ensures
            e.kind == ErrorKind::Codec,
    {
        Error { kind: ErrorKind::Codec, message: message.to_string() }
    }

    /// A `Network` error with the given message.
    pub fn network(message: &str) -> (e: Error)
        ensures
            e.kind == ErrorKind::Network,
    {
        Error { kind: ErrorKind::Network, message: message.to_string() }
    }
}

} // verus!
