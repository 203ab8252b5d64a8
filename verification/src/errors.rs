//! Errors of the codec.

use vstd::prelude::*;

verus! {

/// Why a byte stream could not be decoded.
#[derive(Debug, Clone, Copy, PartialEq, Eq, Structural)]
pub enum DecodeError {
    /// The input ends before the value does. More input may still complete it.
    UnexpectedEof,
    /// A boolean was encoded as a byte other than 0 or 1.
    InvalidBoolean(u8),
    /// The bytes of a string are not UTF-8.
    InvalidUtf8,
    /// The frame header carries a frame type that is not known.
    UnknownFrameType,
    /// The transport header selects a protocol that is not known.
    UnknownTransportProtocol,
    /// No message type has this block length, template, schema and version.
    UnknownMessage { block_length: u16, template_id: u16, schema_id: u16, version: u16 },
}

/// What a decoding that fails says in a contract: why it fails, and the offset
/// at which it stops, behind the last byte that it reads.
pub type Failure = (DecodeError, int);

/// What a decoding that failed returns: why it failed, and the offset at which
/// it stopped, behind the last byte that it had read.
pub type Stop = (DecodeError, usize);

/// Why a value could not be encoded.
#[derive(Debug, Clone, Copy, PartialEq, Eq, Structural)]
pub enum EncodeError {
    /// The format has no bytes for the value: a string or blob is longer than
    /// its 16 bit length prefix can say, a group holds more elements than its
    /// 8 bit count can say, or the type of a frame contradicts its payload.
    Unrepresentable,
}

} // verus!
