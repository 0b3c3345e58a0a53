//! Commands read from a client connection.

use vstd::prelude::*;
use crate::errors::{wire_error_of_publish, MessageSerdeError, WireError};
use crate::publish::{frame_fields_consistent, lemma_parse_message_fields, parse_message, Message};
use crate::pull_wire_format::{lemma_parse_create_consumer_fields, parse_create_consumer, ConsumerType, CreateConsumer};

verus! {

/// A command sent by a client, borrowing its fields from the read buffer.
#[derive(Debug, Copy, Clone)]
pub enum ClientCommand<'a> {
    Publish(Message<'a>),
    CreateConsumer(CreateConsumer<'a>),
}

/// The content of a command: the subject and payload of a publish, or the
/// id, subject and type of a create-consumer request.
pub enum CommandContent {
    Publish(Seq<u8>, Seq<u8>),
    CreateConsumer(Seq<u8>, Seq<u8>, ConsumerType),
}

impl<'a> View for ClientCommand<'a> {
    type V = CommandContent;

    open spec fn view(&self) -> CommandContent {
        match self {
            ClientCommand::Publish(m) => CommandContent::Publish(m.subject@, m.payload@),
            ClientCommand::CreateConsumer(c) => CommandContent::CreateConsumer(
                c.consumer_id@,
                c.subject@,
                c.consumer_type,
            ),
        }
    }
}

/// The inputs on which reading a command completes: a create-consumer
/// command must hold its type byte, id and length byte, and its length must
/// leave room to count one byte past it.
pub open spec fn command_readable(buffer: Seq<u8>) -> bool {
    buffer.len() > 0 && buffer[0] == 2 ==> 18 <= buffer.len() < usize::MAX
}

/// What reading a command from the start of `buffer` gives: the command and
/// the count of bytes reported as consumed, or the error.
///
/// The opcode byte is part of the frame that is read: a publish frame is read
/// from the whole buffer, so the opcode byte doubles as the subject length,
/// and the count reported for either command is one more than the frame's
/// length.
pub open spec fn parse_command(buffer: Seq<u8>) -> Result<(CommandContent, int), WireError> {
    if buffer.len() == 0 {
        Err(WireError::MessageSerdeError(MessageSerdeError::UnknownOpCode { got: 0 }))
    } else if buffer[0] == 1 {
        match parse_message(buffer) {
            Ok((subject, payload)) => Ok(
                (CommandContent::Publish(subject, payload), (1 + 5 + subject.len() + payload.len()) as int),
            ),
            Err(e) => Err(wire_error_of_publish(e)),
        }
    } else if buffer[0] == 2 {
        match parse_create_consumer(buffer) {
            Ok((id, subject, t)) => Ok(
                (CommandContent::CreateConsumer(id, subject, t), (1 + 16 + 1 + subject.len() + 1) as int),
            ),
            Err(e) => Err(e),
        }
    } else {
        Err(WireError::MessageSerdeError(MessageSerdeError::UnknownOpCode { got: buffer[0] as usize }))
    }
}

impl<'a> ClientCommand<'a> {
    /// Reads one command from the start of `buffer`, with the count of bytes
    /// it reports as consumed.
    pub fn try_parse(buffer: &'a [u8]) -> (res: Result<(Self, usize), WireError>)
        requires
            command_readable(buffer@),
        ensures
            res matches Ok((cmd, n)) ==> parse_command(buffer@) == Ok::<(CommandContent, int), WireError>(
                (cmd@, n as int),
            ),
            res matches Err(e) ==> parse_command(buffer@) == Err::<(CommandContent, int), WireError>(e),
            buffer@.len() == 0 ==> res == Err::<(ClientCommand, usize), WireError>(
                WireError::MessageSerdeError(MessageSerdeError::UnknownOpCode { got: 0 }),
            ),
            buffer@.len() > 0 && buffer@[0] != 1 && buffer@[0] != 2 ==> res == Err::<(ClientCommand, usize), WireError>(
                WireError::MessageSerdeError(MessageSerdeError::UnknownOpCode { got: buffer@[0] as usize }),
            ),
            buffer@.len() > 0 && buffer@[0] == 1 ==> (res is Ok <==> frame_fields_consistent(buffer@)),
            buffer@.len() > 0 && buffer@[0] == 2 ==> res is Ok,
            res matches Ok((ClientCommand::Publish(m), n)) ==> {
                &&& buffer@[0] == 1
                &&& n == 1 + 5 + m.subject@.len() + m.payload@.len()
                &&& n == buffer@.len() + 1
                &&& m.subject@ == buffer@.subrange(5, 6)
                &&& m.payload@ == buffer@.subrange(6, buffer@.len() as int)
            },
            res matches Ok((ClientCommand::CreateConsumer(c), n)) ==> {
                &&& buffer@[0] == 2
                &&& n == 1 + 16 + 1 + c.subject@.len() + 1
                &&& n == buffer@.len() + 1
                &&& c.consumer_id@ == buffer@.subrange(1, 17)
                &&& c.subject@ == buffer@.subrange(18, buffer@.len() as int)
                &&& c.consumer_type == ConsumerType::Pull
            },
    {
        if buffer.len() == 0 {
            return Err(WireError::from(MessageSerdeError::UnknownOpCode { got: 0x0 }));
        }
        let op = buffer[0];
        if op == 0x1 {
            match Message::from_bytes(buffer) {
                Ok(msg) => {
                    let consumed = 1 + 5 + msg.subject.len() + msg.payload.len();
                    Ok((ClientCommand::Publish(msg), consumed))
                },
                Err(e) => Err(WireError::from(e)),
            }
        } else if op == 0x2 {
            match CreateConsumer::from_bytes(buffer) {
                Ok(consumer) => {
                    let consumed = 1 + 16 + 1 + consumer.subject.len() + 1;
                    Ok((ClientCommand::CreateConsumer(consumer), consumed))
                },
                Err(e) => Err(e),
            }
        } else {
            Err(WireError::from(MessageSerdeError::UnknownOpCode { got: op as usize }))
        }
    }
}

/// A command that reads successfully reports one byte more than the buffer
/// holds: for a publish, the header, subject and payload plus one; for a
/// create-consumer request, the type byte, id, length byte and subject plus one.
pub proof fn lemma_parse_command_consumed(buffer: Seq<u8>)
    requires
        command_readable(buffer),
        parse_command(buffer) is Ok,
    ensures
        ({
            let (content, n) = parse_command(buffer)->Ok_0;
            &&& n == buffer.len() + 1
            &&& match content {
                CommandContent::Publish(s, p) => {
                    &&& buffer[0] == 1
                    &&& n == 1 + 5 + s.len() + p.len()
                    &&& s == buffer.subrange(5, 6)
                    &&& p == buffer.subrange(6, buffer.len() as int)
                },
                CommandContent::CreateConsumer(id, s, t) => {
                    &&& buffer[0] == 2
                    &&& n == 1 + 16 + 1 + s.len() + 1
                    &&& id == buffer.subrange(1, 17)
                    &&& s == buffer.subrange(18, buffer.len() as int)
                    &&& t == ConsumerType::Pull
                },
            }
        }),
{
    if buffer[0] == 1 {
        lemma_parse_message_fields(buffer);
    } else {
        lemma_parse_create_consumer_fields(buffer);
    }
}

} // verus!
