use memmap2::MmapMut;
use zeno::consumer::{ConsumerWorker, Pull};
use zeno::consumer_manager::ConsumerManager;
use zeno::publish::{Message, MessageSerdeError};
use zeno::wal::WriteAheadLog;

fn frame(subject: &[u8], payload: &[u8]) -> Vec<u8> {
    let mut buf = Vec::new();
    Message { subject, payload }.to_bytes(&mut buf).unwrap();
    buf
}

#[test]
fn wal_writes_frames_end_to_end() {
    let mut wal = WriteAheadLog::new(MmapMut::map_anon(64).unwrap());
    assert_eq!(wal.cursor(), 0);
    wal.write_new_message(Message { subject: b"a", payload: b"xy" }).unwrap();
    assert_eq!(wal.cursor(), 8);
    wal.write_new_message(Message { subject: b"bc", payload: b"" }).unwrap();
    assert_eq!(wal.cursor(), 15);
    let bytes = wal.as_bytes();
    assert_eq!(bytes.len(), 64);
    assert_eq!(&bytes[..8], &[1, 2, 0, 0, 0, b'a', b'x', b'y']);
    assert_eq!(&bytes[8..15], &[2, 0, 0, 0, 0, b'b', b'c']);
    assert!(bytes[15..].iter().all(|b| *b == 0));
}

#[test]
fn wal_write_reads_back() {
    let mut wal = WriteAheadLog::new(MmapMut::map_anon(32).unwrap());
    wal.write_new_message(Message { subject: b"first", payload: b"1" }).unwrap();
    let start = wal.cursor();
    wal.write_new_message(Message { subject: b"second", payload: b"22" }).unwrap();
    let end = wal.cursor();
    let back = Message::from_bytes(&wal.as_bytes()[start..end]).unwrap();
    assert_eq!(back.subject, b"second");
    assert_eq!(back.payload, b"22");
}

#[test]
fn wal_refused_message_changes_nothing() {
    let mut wal = WriteAheadLog::new(MmapMut::map_anon(16).unwrap());
    let subject = vec![b'q'; 300];
    let err = wal.write_new_message(Message { subject: &subject, payload: b"" }).unwrap_err();
    assert_eq!(err, MessageSerdeError::SubjectTooLong { expected: 255, got: 300 });
    assert_eq!(wal.cursor(), 0);
    assert!(wal.as_bytes().iter().all(|b| *b == 0));
}

#[test]
fn poll_batch_returns_message_of_own_subject() {
    let log = frame(b"orders", b"one");
    let mut worker: ConsumerWorker<Pull> = ConsumerWorker::new_pull(&log, b"orders", 0);
    let got = worker.poll_batch(10);
    assert_eq!(got.len(), 1);
    assert_eq!(got[0].subject, b"orders");
    assert_eq!(got[0].payload, b"one");
    assert!(worker.poll_batch(10).is_empty());
}

#[test]
fn poll_batch_skips_other_subject() {
    let log = frame(b"orders", b"one");
    let mut worker = ConsumerWorker::new_pull(&log, b"other", 0);
    assert!(worker.poll_batch(10).is_empty());
    // the frame was passed over: a second poll finds the end of the log
    assert!(worker.poll().is_none());
}

#[test]
fn poll_batch_with_zero_max_reads_nothing() {
    let log = frame(b"s", b"p");
    let mut worker = ConsumerWorker::new_pull(&log, b"s", 0);
    assert!(worker.poll_batch(0).is_empty());
    assert_eq!(worker.poll_batch(1).len(), 1);
}

#[test]
fn poll_batch_stops_at_malformed_rest() {
    // two frames: the rest of the log is not one frame, so nothing is read
    let mut log = frame(b"s", b"p");
    log.extend(frame(b"s", b"q"));
    let mut worker = ConsumerWorker::new_pull(&log, b"s", 0);
    assert!(worker.poll_batch(5).is_empty());
    // from the second frame's start the rest is one frame
    let mut worker = ConsumerWorker::new_pull(&log, b"s", 7);
    let got = worker.poll_batch(5);
    assert_eq!(got.len(), 1);
    assert_eq!(got[0].payload, b"q");
}

#[test]
fn poll_reads_frame_after_prefix() {
    let mut log = vec![0xee, 0xee, 0xee];
    log.extend(frame(b"topic", b"data"));
    let mut worker = ConsumerWorker::new_pull(&log, b"topic", 3);
    let msg = worker.poll().unwrap();
    assert_eq!(msg.subject, b"topic");
    assert_eq!(msg.payload, b"data");
    assert!(worker.poll().is_none());
}

#[test]
fn poll_other_subject_gives_none() {
    let log = frame(b"topic", b"data");
    let mut worker = ConsumerWorker::new_pull(&log, b"topix", 0);
    assert!(worker.poll().is_none());
}

#[test]
fn poll_beyond_end_gives_none() {
    let log = frame(b"t", b"d");
    let mut worker = ConsumerWorker::new_pull(&log, b"t", 100);
    assert!(worker.poll().is_none());
    assert!(worker.poll_batch(3).is_empty());
}

#[test]
fn push_worker_keeps_state() {
    let log = frame(b"t", b"d");
    let worker = ConsumerWorker::new_pull(&log, b"t", 0);
    let mut pushed = worker.into_push();
    let msg = Message::from_bytes(&log).unwrap();
    pushed.handle_message(&msg);
}

#[test]
fn consumer_reads_what_wal_wrote() {
    let mut wal = WriteAheadLog::new(MmapMut::map_anon(13).unwrap());
    wal.write_new_message(Message { subject: b"news", payload: b"abcd" }).unwrap();
    assert_eq!(wal.cursor(), 13);
    let mut worker = ConsumerWorker::new_pull(wal.as_bytes(), b"news", 0);
    let msg = worker.poll().unwrap();
    assert_eq!(msg.subject, b"news");
    assert_eq!(msg.payload, b"abcd");
}

#[test]
fn manager_registers_subjects_and_consumers() {
    let log = frame(b"news", b"x");
    let mut manager = ConsumerManager::new(&log);
    manager.register_new_subject(b"news");
    manager.register_consumer(String::from("news"));
    manager.register_consumer(String::from("news"));
    manager.register_new_subject("ünïcode".as_bytes());
    manager.register_consumer(String::from("ünïcode"));
    // registering a subject again is accepted
    manager.register_new_subject(b"news");
    manager.register_consumer(String::from("news"));
}
