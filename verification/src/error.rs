use vstd::prelude::*;

verus! {

/// Why a protobuf payload was rejected.
#[derive(Debug, Clone, Copy, PartialEq, Eq, Structural)]
pub enum ProtobufError {
    /// A varint ran past ten bytes, overflowed 64 bits or was cut short.
    InvalidVarint,
    /// A field key does not fit in 32 bits.
    InvalidKey,
    /// A field key names a wire type above five.
    InvalidWireType,
    /// A field key carries the field number zero.
    InvalidTag,
    /// A known field arrived with another wire type than its schema gives it.
    UnexpectedWireType,
    /// A field claims more bytes than the payload still holds.
    BufferUnderflow,
    /// A string field is not valid UTF-8.
    InvalidString,
    /// A group is cut short, nested too deeply or closed by the wrong key.
    InvalidGroup,
    /// A key closes a group that was not opened.
    UnexpectedEndGroup,
}

/// Everything that can make the pipeline drop a datagram or a frame.
#[derive(Debug, PartialEq, Eq)]
pub enum RecvMessageError {
    SocketRecvError,
    MessageDecompressionError,
    /// The inflated batch is not a whole number of slots.
    MessageFramingError,
    /// Format byte, sender address and datagram size of an unknown format.
    MessageFormatDecodeError(u8, String, usize),
    /// The datagram is empty, so it has no format byte.
    MessageTypeDecodeError,
    ProtobufParseError(ProtobufError),
    CSIReadingGenerateError,
    TelemetryReadingGenerateError,
    CSIMatrixParseError,
    PCCCalcError,
}

} // verus!
