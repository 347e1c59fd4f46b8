use vstd::prelude::*;
use crate::error::RecvMessageError;

verus! {

/// Largest datagram a receive worker reads.
pub const UDP_MESSAGE_MAX_SIZE: usize = 2000;

/// What the first byte of a datagram announces.
#[derive(Debug, Clone, Copy, PartialEq, Eq, Structural)]
pub enum MessageType {
    Telemetry,
    CSI,
    CSICompressed,
}

impl MessageType {
    /// The message type a format byte stands for, if any.
    pub open spec fn spec_from_byte(b: u8) -> Option<MessageType> {
        if b == 1 {
            Some(MessageType::Telemetry)
        } else if b == 2 {
            Some(MessageType::CSI)
        } else if b == 3 {
            Some(MessageType::CSICompressed)
        } else {
            None
        }
    }

    /// The format byte of a message type.
    pub open spec fn spec_to_byte(self) -> u8 {
        match self {
            MessageType::Telemetry => 1,
            MessageType::CSI => 2,
            MessageType::CSICompressed => 3,
        }
    }

    pub fn from_byte(b: u8) -> (r: Option<MessageType>)
        ensures
            r == Self::spec_from_byte(b),
    {
        if b == 1 {
            Some(MessageType::Telemetry)
        } else if b == 2 {
            Some(MessageType::CSI)
        } else if b == 3 {
            Some(MessageType::CSICompressed)
        } else {
            None
        }
    }

    pub fn to_byte(self) -> (b: u8)
        ensures
            b == self.spec_to_byte(),
            Self::spec_from_byte(b) == Some(self),
    {
        match self {
            MessageType::Telemetry => 1,
            MessageType::CSI => 2,
            MessageType::CSICompressed => 3,
        }
    }
}

/// One datagram, split into its format and its payload.
#[derive(Debug, PartialEq, Eq)]
pub struct MessageData {
    pub format: MessageType,
    /// The sender's address, as text.
    pub addr: String,
    pub payload: Vec<u8>,
}

/// What `frame_datagram` makes of the first `size` bytes of `buf`.
pub open spec fn framed(buf: Seq<u8>, size: int) -> Option<(MessageType, Seq<u8>)> {
    if size == 0 {
        None
    } else {
        match MessageType::spec_from_byte(buf[0]) {
            Some(format) => Some((format, buf.subrange(1, size))),
            None => None,
        }
    }
}

/// Splits the first `size` bytes of a receive buffer into format byte and
/// payload. An empty datagram has no format; an unknown format byte is
/// reported with the sender and the size.
pub fn frame_datagram(buf: &[u8], size: usize, addr: String) -> (r: Result<
    MessageData,
    RecvMessageError,
>)
    requires
        size <= buf@.len(),
    ensures
        match framed(buf@, size as int) {
            Some((format, payload)) => r matches Ok(m) && m.format == format && m.payload@
                == payload && m.addr@ == addr@,
            None => if size == 0 {
                r matches Err(RecvMessageError::MessageTypeDecodeError)
            } else {
                r matches Err(RecvMessageError::MessageFormatDecodeError(b, a, n)) && b == buf@[0]
                    && a@ == addr@ && n == size
            },
        },
{
    if size == 0 {
        return Err(RecvMessageError::MessageTypeDecodeError);
    }
    match MessageType::from_byte(buf[0]) {
        Some(format) => {
            let mut payload: Vec<u8> = Vec::new();
            let mut i: usize = 1;
            while i < size
                invariant
                    1 <= i <= size <= buf@.len(),
                    payload@ == buf@.subrange(1, i as int),
                decreases size - i,
            {
                payload.push(buf[i]);
                i = i + 1;
            }
            Ok(MessageData { format, addr, payload })
        },
        None => Err(RecvMessageError::MessageFormatDecodeError(buf[0], addr, size)),
    }
}

} // verus!
