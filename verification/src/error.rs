//! What can go wrong between this client and the server.

use crate::wire::{u16_at, u32_at, read_u16, read_u32};
use vstd::prelude::*;

verus! {

/// How the transport failed.
#[derive(Debug, Clone, Copy, PartialEq, Eq)]
pub enum IoErrorKind {
    /// The peer closed the stream before the buffer was full.
    UnexpectedEof,
    /// A write made no progress.
    WriteZero,
    /// The answer did not come within the messages that a wait goes
    /// through.
    TimedOut,
    /// Any other failure of the stream.
    Other,
}

/// An error of the display.
#[derive(Debug, Clone, PartialEq, Eq)]
pub enum BreadError {
    /// The transport failed, or the peer closed the stream inside a message.
    Io(IoErrorKind),
    /// The server sent an all-zero unit where an error would stand, or the
    /// display has no connection.
    ClosedConnection,
    /// A reply arrived for a sequence number that no request waits under.
    NoMatchingRequest(u16),
    /// An error that the server reported.
    XError { code: u8, major: u8, minor: u16, sequence: u16, resource: u32 },
    /// The server does not have the extension of this name.
    ExtensionNotPresent(String),
    /// The range of resource identifiers is used up.
    NoXID,
    /// No special event queue is registered under this identifier.
    NoSpecialQueue(u32),
}

/// The server error that a 32-byte error unit carries: the code in byte 1,
/// the sequence number in bytes 2 and 3, the offending resource in bytes 4
/// to 7, the minor opcode in bytes 8 and 9 and the major opcode in byte 10.
pub open spec fn parse_x_error(bytes: Seq<u8>) -> BreadError {
    BreadError::XError {
        code: bytes[1],
        major: bytes[10],
        minor: u16_at(bytes, 8),
        sequence: u16_at(bytes, 2),
        resource: u32_at(bytes, 4),
    }
}

impl BreadError {
    /// Parses the error unit that the server sent.
    pub fn from_x_error(bytes: &[u8]) -> (err: BreadError)
        requires
            bytes@.len() >= 32,
        ensures
            err == parse_x_error(bytes@),
    {
        BreadError::XError {
            code: bytes[1],
            major: bytes[10],
            minor: read_u16(bytes, 8),
            sequence: read_u16(bytes, 2),
            resource: read_u32(bytes, 4),
        }
    }
}

} // verus!
