use zeno::client_commands::ClientCommand;
use zeno::errors::{MessageSerdeError as WireSerdeError, WireError};
use zeno::message_types::{FrameError, MessageTypes};
use zeno::publish::{Message, MessageSerdeError};

#[test]
fn message_to_bytes_layout() {
    let msg = Message { subject: b"ab", payload: &[1, 2, 3] };
    let mut buf = vec![0x99];
    msg.to_bytes(&mut buf).unwrap();
    assert_eq!(buf, vec![0x99, 2, 3, 0, 0, 0, b'a', b'b', 1, 2, 3]);
}

#[test]
fn message_length_is_little_endian() {
    let payload = vec![0u8; 0x1_0203];
    let msg = Message { subject: b"", payload: &payload };
    let mut buf = Vec::new();
    msg.to_bytes(&mut buf).unwrap();
    assert_eq!(&buf[..5], &[0, 0x03, 0x02, 0x01, 0x00]);
    assert_eq!(buf.len(), 5 + 0x1_0203);
}

#[test]
fn message_roundtrip() {
    let payload: Vec<u8> = (0..300u32).map(|i| (i % 251) as u8).collect();
    let msg = Message { subject: b"foo.bar.baz", payload: &payload };
    let mut buf = Vec::new();
    msg.to_bytes(&mut buf).unwrap();
    let back = Message::from_bytes(&buf).unwrap();
    assert_eq!(back.subject, b"foo.bar.baz");
    assert_eq!(back.payload, &payload[..]);
    let mut again = Vec::new();
    back.to_bytes(&mut again).unwrap();
    assert_eq!(again, buf);
}

#[test]
fn message_from_bytes_short_buffer() {
    let err = Message::from_bytes(&[1, 2, 3]).unwrap_err();
    assert_eq!(err, MessageSerdeError::IncompleteMessage { expected: 5, got: 3 });
}

#[test]
fn message_from_bytes_payload_too_long() {
    // payload length 0x0010_0001 = 1 MiB + 1
    let err = Message::from_bytes(&[0, 0x01, 0x00, 0x10, 0x00]).unwrap_err();
    assert_eq!(err, MessageSerdeError::MessageTooLong { expected: 1_048_576, got: 1_048_577 });
}

#[test]
fn message_from_bytes_length_mismatch() {
    let err = Message::from_bytes(&[2, 1, 0, 0, 0, b'a', b'b']).unwrap_err();
    assert_eq!(err, MessageSerdeError::IncompleteMessage { expected: 8, got: 7 });
    let err = Message::from_bytes(&[0, 0, 0, 0, 0, 1]).unwrap_err();
    assert_eq!(err, MessageSerdeError::IncompleteMessage { expected: 5, got: 6 });
}

#[test]
fn message_from_bytes_empty_subject_and_payload() {
    let msg = Message::from_bytes(&[0, 0, 0, 0, 0]).unwrap();
    assert!(msg.subject.is_empty());
    assert!(msg.payload.is_empty());
}

#[test]
fn message_to_bytes_limits() {
    let subject = vec![b's'; 256];
    let mut buf = vec![7];
    let err = Message { subject: &subject, payload: b"" }.to_bytes(&mut buf).unwrap_err();
    assert_eq!(err, MessageSerdeError::SubjectTooLong { expected: 255, got: 256 });
    assert_eq!(buf, vec![7]);

    let payload = vec![0u8; 1_048_577];
    let err = Message { subject: b"s", payload: &payload }.to_bytes(&mut buf).unwrap_err();
    assert_eq!(err, MessageSerdeError::MessageTooLong { expected: 1_048_576, got: 1_048_577 });
    assert_eq!(buf, vec![7]);

    let subject = vec![b's'; 255];
    let payload = vec![1u8; 1_048_576];
    Message { subject: &subject, payload: &payload }.to_bytes(&mut buf).unwrap();
    assert_eq!(buf.len(), 1 + 5 + 255 + 1_048_576);
    assert_eq!(buf[1], 255);
}

#[test]
fn message_types_bytes() {
    let all = [
        (MessageTypes::Message, 1u8),
        (MessageTypes::CreateConsumer, 2),
        (MessageTypes::AckMessage, 3),
        (MessageTypes::RemoveConsumer, 4),
    ];
    for (t, b) in all {
        assert_eq!(t.to_byte(), b);
        assert_eq!(MessageTypes::from_byte(b).ok(), Some(t));
    }
    assert!(matches!(MessageTypes::from_byte(0), Err(FrameError::UnknownFrameType { got: 0 })));
    assert!(matches!(MessageTypes::from_byte(5), Err(FrameError::UnknownFrameType { got: 5 })));
}

#[test]
fn try_parse_empty_buffer() {
    let err = ClientCommand::try_parse(&[]).unwrap_err();
    assert_eq!(err, WireError::MessageSerdeError(WireSerdeError::UnknownOpCode { got: 0 }));
}

#[test]
fn try_parse_unknown_opcode() {
    let err = ClientCommand::try_parse(&[9, 1, 2]).unwrap_err();
    assert_eq!(err, WireError::MessageSerdeError(WireSerdeError::UnknownOpCode { got: 9 }));
}

#[test]
fn try_parse_publish_reads_frame_from_opcode() {
    // the opcode byte is read as the subject length
    let buffer = [1, 2, 0, 0, 0, b'x', b'h', b'i'];
    let (cmd, consumed) = ClientCommand::try_parse(&buffer).unwrap();
    match cmd {
        ClientCommand::Publish(msg) => {
            assert_eq!(msg.subject, b"x");
            assert_eq!(msg.payload, b"hi");
        }
        _ => panic!("expected a publish command"),
    }
    assert_eq!(consumed, 9);
}

#[test]
fn try_parse_publish_error_is_wire_error() {
    let err = ClientCommand::try_parse(&[1, 0, 0]).unwrap_err();
    assert_eq!(
        err,
        WireError::MessageSerdeError(WireSerdeError::IncompleteMessage { expected: 5, got: 3 })
    );
}

#[test]
fn try_parse_create_consumer() {
    let mut buffer = vec![2];
    buffer.extend([5u8; 16]);
    buffer.push(2);
    buffer.extend_from_slice(b"ab");
    let (cmd, consumed) = ClientCommand::try_parse(&buffer).unwrap();
    match cmd {
        ClientCommand::CreateConsumer(c) => {
            assert_eq!(c.consumer_id, [5; 16]);
            assert_eq!(c.subject, b"ab");
        }
        _ => panic!("expected a create-consumer command"),
    }
    assert_eq!(consumed, 21);
}
