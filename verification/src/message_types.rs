//! The one-byte frame type that opens every client frame.

use vstd::prelude::*;

verus! {

/// The kinds of frame a client can send.
#[derive(Debug, Clone, Copy, PartialEq, Eq)]
pub enum MessageTypes {
    Message,
    CreateConsumer,
    AckMessage,
    RemoveConsumer,
}

/// Why a frame type byte was refused.
#[derive(Debug, Clone, Copy, PartialEq, Eq)]
pub enum FrameError {
    UnknownFrameType { got: u8 },
}

/// The frame type that a header byte names, if any.
pub open spec fn message_type_of_byte(b: u8) -> Result<MessageTypes, FrameError> {
    if b == 1 {
        Ok(MessageTypes::Message)
    } else if b == 2 {
        Ok(MessageTypes::CreateConsumer)
    } else if b == 3 {
        Ok(MessageTypes::AckMessage)
    } else if b == 4 {
        Ok(MessageTypes::RemoveConsumer)
    } else {
        Err(FrameError::UnknownFrameType { got: b })
    }
}

/// The header byte of a frame type.
pub open spec fn byte_of_message_type(t: MessageTypes) -> u8 {
    match t {
        MessageTypes::Message => 1,
        MessageTypes::CreateConsumer => 2,
        MessageTypes::AckMessage => 3,
        MessageTypes::RemoveConsumer => 4,
    }
}

impl MessageTypes {
    /// Reads a frame type from its header byte.
    pub fn from_byte(frame_header: u8) -> (res: Result<Self, FrameError>)
        ensures
            res == message_type_of_byte(frame_header),
            frame_header == 1 ==> res == Ok::<MessageTypes, FrameError>(MessageTypes::Message),
            frame_header == 2 ==> res == Ok::<MessageTypes, FrameError>(MessageTypes::CreateConsumer),
            frame_header == 3 ==> res == Ok::<MessageTypes, FrameError>(MessageTypes::AckMessage),
            frame_header == 4 ==> res == Ok::<MessageTypes, FrameError>(MessageTypes::RemoveConsumer),
            (frame_header < 1 || frame_header > 4) ==> res == Err::<MessageTypes, FrameError>(
                FrameError::UnknownFrameType { got: frame_header },
            ),
    {
        match frame_header {
            0x1 => Ok(MessageTypes::Message),
            0x2 => Ok(MessageTypes::CreateConsumer),
            0x3 => Ok(MessageTypes::AckMessage),
            0x4 => Ok(MessageTypes::RemoveConsumer),
            _ => Err(FrameError::UnknownFrameType { got: frame_header }),
        }
    }

    /// The header byte of this frame type.
    pub fn to_byte(&self) -> (b: u8)
        ensures
            b == byte_of_message_type(*self),
            *self == MessageTypes::Message ==> b == 1,
            *self == MessageTypes::CreateConsumer ==> b == 2,
            *self == MessageTypes::AckMessage ==> b == 3,
            *self == MessageTypes::RemoveConsumer ==> b == 4,
    {
        match self {
            MessageTypes::Message => 0x1,
            MessageTypes::CreateConsumer => 0x2,
            MessageTypes::AckMessage => 0x3,
            MessageTypes::RemoveConsumer => 0x4,
        }
    }
}

/// Every frame type reads back from its own header byte.
pub proof fn lemma_message_type_byte_roundtrip(t: MessageTypes)
    ensures
        message_type_of_byte(byte_of_message_type(t)) == Ok::<MessageTypes, FrameError>(t),
{
}

/// A header byte that names a frame type is that frame type's byte, and the
/// bytes that name none are exactly those outside 1 to 4.
pub proof fn lemma_message_type_of_byte_inverse(b: u8)
    ensures
        message_type_of_byte(b) matches Ok(t) ==> byte_of_message_type(t) == b,
        message_type_of_byte(b) is Err <==> (b < 1 || b > 4),
{
}

/// The header bytes: 1 a message, 2 a create-consumer request, 3 an
/// acknowledgement, 4 a consumer removal; every other byte is refused and
/// named in the error.
pub proof fn lemma_message_type_bytes(b: u8)
    ensures
        byte_of_message_type(MessageTypes::Message) == 1,
        byte_of_message_type(MessageTypes::CreateConsumer) == 2,
        byte_of_message_type(MessageTypes::AckMessage) == 3,
        byte_of_message_type(MessageTypes::RemoveConsumer) == 4,
        b == 1 ==> message_type_of_byte(b) == Ok::<MessageTypes, FrameError>(MessageTypes::Message),
        b == 2 ==> message_type_of_byte(b) == Ok::<MessageTypes, FrameError>(MessageTypes::CreateConsumer),
        b == 3 ==> message_type_of_byte(b) == Ok::<MessageTypes, FrameError>(MessageTypes::AckMessage),
        b == 4 ==> message_type_of_byte(b) == Ok::<MessageTypes, FrameError>(MessageTypes::RemoveConsumer),
        (b < 1 || b > 4) ==> message_type_of_byte(b) == Err::<MessageTypes, FrameError>(
            FrameError::UnknownFrameType { got: b },
        ),
{
}

} // verus!
