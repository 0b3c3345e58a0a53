use zeno::errors::{CreateConsumerError, WireError};
use zeno::pull_wire_format::{ConsumerType, CreateConsumer};

#[test]
fn test_from_bytes() {
    let consumer = [
        0x2, 0x0, 0x0, 0x0, 0x0, 0x0, 0x0, 0x0, 0x0, 0x0, 0x0, 0x0, 0x0, 0x0, 0x0, 0x0, 0x0,
        0x2, 0x41, 0x42,
    ];
    let consumer = CreateConsumer::from_bytes(&consumer).unwrap();
    assert_eq!(consumer.consumer_type, ConsumerType::Pull);
    assert_eq!(
        consumer.consumer_id,
        [
            0x0, 0x0, 0x0, 0x0, 0x0, 0x0, 0x0, 0x0, 0x0, 0x0, 0x0, 0x0, 0x0, 0x0, 0x0, 0x0
        ]
    );
    assert_eq!(consumer.subject, [0x41, 0x42])
}

#[test]
fn test_to_bytes() {
    let consumer_array = [
        0x2, 0x0, 0x0, 0x0, 0x0, 0x0, 0x0, 0x0, 0x0, 0x0, 0x0, 0x0, 0x0, 0x0, 0x0, 0x0, 0x0,
        0x2, 0x41, 0x42,
    ];
    let consumer = CreateConsumer::from_bytes(&consumer_array).unwrap();
    assert_eq!(consumer.consumer_type, ConsumerType::Pull);
    assert_eq!(
        consumer.consumer_id,
        [
            0x0, 0x0, 0x0, 0x0, 0x0, 0x0, 0x0, 0x0, 0x0, 0x0, 0x0, 0x0, 0x0, 0x0, 0x0, 0x0
        ]
    );
    assert_eq!(consumer.subject, [0x41, 0x42]);
    let mut buffer = Vec::new();
    consumer.to_bytes(&mut buffer).unwrap();

    assert_eq!(buffer, consumer_array.to_vec());
}

#[test]
fn create_consumer_reads_id_and_whole_tail_as_subject() {
    let mut frame = vec![0x2];
    frame.extend(1u8..=16);
    // the length byte is not consulted: the subject is every byte after it
    frame.push(7);
    frame.extend_from_slice(b"abc");
    let consumer = CreateConsumer::from_bytes(&frame).unwrap();
    let expected_id: Vec<u8> = (1u8..=16).collect();
    assert_eq!(consumer.consumer_id.to_vec(), expected_id);
    assert_eq!(consumer.subject, b"abc");
}

#[test]
fn create_consumer_refuses_unknown_type() {
    let frame = [0x7];
    let err = CreateConsumer::from_bytes(&frame).unwrap_err();
    assert_eq!(err, WireError::CreateConsumerError(CreateConsumerError::UnsupportedConsumerType { got: 7 }));
}

#[test]
fn create_consumer_to_bytes_refuses_long_subject() {
    let subject = vec![b's'; 256];
    let consumer = CreateConsumer { consumer_id: [9; 16], subject: &subject, consumer_type: ConsumerType::Pull };
    let mut buffer = vec![0xaa];
    let err = consumer.to_bytes(&mut buffer).unwrap_err();
    assert_eq!(
        err,
        WireError::CreateConsumerError(CreateConsumerError::SubjectTooLong { expected: 255, got: 256 })
    );
    assert_eq!(buffer, vec![0xaa]);
}

#[test]
fn create_consumer_written_then_read_back() {
    let consumer = CreateConsumer { consumer_id: [3; 16], subject: b"orders", consumer_type: ConsumerType::Pull };
    let mut buffer = vec![0xff];
    consumer.to_bytes(&mut buffer).unwrap();
    assert_eq!(buffer.len(), 1 + 1 + 16 + 1 + 6);
    assert_eq!(buffer[0], 0xff);
    assert_eq!(buffer[1], 0x2);
    assert_eq!(buffer[18], 6);
    let back = CreateConsumer::from_bytes(&buffer[1..]).unwrap();
    assert_eq!(back.consumer_id, [3; 16]);
    assert_eq!(back.subject, b"orders");
    assert_eq!(back.consumer_type, ConsumerType::Pull);
}

#[test]
fn consumer_type_byte_roundtrip() {
    assert_eq!(ConsumerType::Pull.to_bytes(), 0x2);
    assert_eq!(ConsumerType::from_bytes(0x2).unwrap(), ConsumerType::Pull);
    assert_eq!(
        ConsumerType::from_bytes(0x1).unwrap_err(),
        WireError::CreateConsumerError(CreateConsumerError::UnsupportedConsumerType { got: 1 })
    );
}
