//! The publish frame: a subject and a payload behind a five-byte header.
//!
//! Layout: one byte holding the subject's length, four bytes holding the
//! payload's length in little-endian order, the subject, then the payload.

use vstd::prelude::*;
use crate::bytes::{append_bytes, le_u32_bytes, le_u32_value, push_le_u32, read_le_u32};
use crate::bytes::{lemma_le_u32_decode_encode, lemma_le_u32_encode_decode};

verus! {

/// Longest subject a frame can carry.
pub const MAX_SUBJECT_SIZE: usize = 255;

/// Longest payload a frame can carry (one MiB).
pub const MAX_PAYLOAD_SIZE: usize = 1_048_576;

/// Why a publish frame could not be read or written.
#[derive(Debug, Clone, Copy, PartialEq, Eq)]
pub enum MessageSerdeError {
    SubjectTooLong { expected: usize, got: usize },
    MessageTooLong { expected: usize, got: usize },
    IncompleteMessage { expected: usize, got: usize },
}

/// A published message, borrowing its subject and payload from a buffer.
#[derive(Debug, Clone, Copy)]
pub struct Message<'a> {
    pub subject: &'a [u8],
    pub payload: &'a [u8],
}

impl<'a> View for Message<'a> {
    type V = (Seq<u8>, Seq<u8>);

    open spec fn view(&self) -> (Seq<u8>, Seq<u8>) {
        (self.subject@, self.payload@)
    }
}

/// The bytes of the frame that carries `subject` and `payload`.
pub open spec fn encode_message(subject: Seq<u8>, payload: Seq<u8>) -> Seq<u8> {
    seq![subject.len() as u8] + le_u32_bytes(payload.len() as int) + subject + payload
}

/// What writing a frame for `subject` and `payload` gives: the frame, or the
/// first limit that one of them exceeds.
pub open spec fn serialize_message(subject: Seq<u8>, payload: Seq<u8>) -> Result<Seq<u8>, MessageSerdeError> {
    if subject.len() > MAX_SUBJECT_SIZE {
        Err(MessageSerdeError::SubjectTooLong { expected: MAX_SUBJECT_SIZE, got: subject.len() as usize })
    } else if payload.len() > MAX_PAYLOAD_SIZE {
        Err(MessageSerdeError::MessageTooLong { expected: MAX_PAYLOAD_SIZE, got: payload.len() as usize })
    } else {
        Ok(encode_message(subject, payload))
    }
}

/// What reading `buf` as exactly one frame gives: its subject and payload, or
/// the first check that fails.
pub open spec fn parse_message(buf: Seq<u8>) -> Result<(Seq<u8>, Seq<u8>), MessageSerdeError> {
    if buf.len() < 5 {
        Err(MessageSerdeError::IncompleteMessage { expected: 5, got: buf.len() as usize })
    } else {
        let subject_len = buf[0] as int;
        let msg_len = le_u32_value(buf.subrange(1, 5));
        if subject_len > MAX_SUBJECT_SIZE {
            Err(MessageSerdeError::SubjectTooLong { expected: MAX_SUBJECT_SIZE, got: subject_len as usize })
        } else if msg_len > MAX_PAYLOAD_SIZE {
            Err(MessageSerdeError::MessageTooLong { expected: MAX_PAYLOAD_SIZE, got: msg_len as usize })
        } else if 5 + subject_len + msg_len != buf.len() {
            Err(
                MessageSerdeError::IncompleteMessage {
                    expected: (5 + subject_len + msg_len) as usize,
                    got: buf.len() as usize,
                },
            )
        } else {
            Ok((buf.subrange(5, 5 + subject_len), buf.subrange(5 + subject_len, buf.len() as int)))
        }
    }
}

impl<'a> Message<'a> {
    /// Reads `buf` as exactly one publish frame; the message borrows its
    /// subject and payload from `buf`.
    pub fn from_bytes(buf: &'a [u8]) -> (res: Result<Self, MessageSerdeError>)
        ensures
            res matches Ok(m) ==> parse_message(buf@) == Ok::<(Seq<u8>, Seq<u8>), MessageSerdeError>(m@),
            res matches Err(e) ==> parse_message(buf@) == Err::<(Seq<u8>, Seq<u8>), MessageSerdeError>(e),
            res is Ok <==> frame_fields_consistent(buf@),
            res matches Ok(m) ==> {
                &&& m.subject@ == buf@.subrange(5, 5 + buf@[0])
                &&& m.payload@ == buf@.subrange(5 + buf@[0], buf@.len() as int)
                &&& m.payload@.len() == buf@[1] + 256 * buf@[2] + 65536 * buf@[3] + 16777216 * buf@[4]
            },
    {
        proof {
            lemma_parse_message_fields(buf@);
        }
        if buf.len() < 5 {
            return Err(MessageSerdeError::IncompleteMessage { expected: 5, got: buf.len() });
        }
        // first byte is the length of the subject
        let subject_len = buf[0] as usize;
        if subject_len > MAX_SUBJECT_SIZE {
            return Err(MessageSerdeError::SubjectTooLong { expected: MAX_SUBJECT_SIZE, got: subject_len });
        }
        // next 4 bytes are the length of the payload, little-endian, capped at 1 MiB
        let msg_len = read_le_u32(buf[1], buf[2], buf[3], buf[4]) as usize;
        assert(buf@.subrange(1, 5) =~= seq![buf@[1], buf@[2], buf@[3], buf@[4]]);
        if msg_len > MAX_PAYLOAD_SIZE {
            return Err(MessageSerdeError::MessageTooLong { expected: MAX_PAYLOAD_SIZE, got: msg_len });
        }
        if 5 + subject_len + msg_len != buf.len() {
            return Err(
                MessageSerdeError::IncompleteMessage { expected: 5 + subject_len + msg_len, got: buf.len() },
            );
        }
        let subject = &buf[5..(5 + subject_len)];
        let message = &buf[(5 + subject_len)..buf.len()];
        Ok(Message { subject, payload: message })
    }

    /// Appends the frame of this message to `buf`; on error `buf` is left as it was.
    pub fn to_bytes(&self, buf: &mut Vec<u8>) -> (res: Result<(), MessageSerdeError>)
        ensures
            match serialize_message(self.subject@, self.payload@) {
                Ok(frame) => res is Ok && final(buf)@ == old(buf)@ + frame,
                Err(e) => res == Err::<(), MessageSerdeError>(e) && final(buf)@ == old(buf)@,
            },
            res is Ok <==> (self.subject@.len() <= MAX_SUBJECT_SIZE && self.payload@.len() <= MAX_PAYLOAD_SIZE),
            res is Err ==> final(buf)@ == old(buf)@,
            res is Ok ==> {
                let o = old(buf)@.len() as int;
                let b = final(buf)@;
                let n = self.subject@.len() as int;
                let m = self.payload@.len() as int;
                &&& b.len() == o + 5 + n + m
                &&& b.subrange(0, o) == old(buf)@
                &&& b[o] == n
                &&& b[o + 1] == m % 256
                &&& b[o + 2] == (m / 256) % 256
                &&& b[o + 3] == (m / 65536) % 256
                &&& b[o + 4] == (m / 16777216) % 256
                &&& b.subrange(o + 5, o + 5 + n) == self.subject@
                &&& b.subrange(o + 5 + n, o + 5 + n + m) == self.payload@
            },
    {
        proof {
            if self.subject@.len() <= MAX_SUBJECT_SIZE && self.payload@.len() <= MAX_PAYLOAD_SIZE {
                lemma_message_frame_layout(self.subject@, self.payload@);
                let f = encode_message(self.subject@, self.payload@);
                let o = old(buf)@.len() as int;
                let b = old(buf)@ + f;
                let n = self.subject@.len() as int;
                let m = self.payload@.len() as int;
                assert(b.subrange(0, o) =~= old(buf)@);
                assert(b.subrange(o + 5, o + 5 + n) =~= f.subrange(5, 5 + n));
                assert(b.subrange(o + 5 + n, o + 5 + n + m) =~= f.subrange(5 + n, 5 + n + m));
            }
        }
        if self.subject.len() > MAX_SUBJECT_SIZE {
            return Err(
                MessageSerdeError::SubjectTooLong { expected: MAX_SUBJECT_SIZE, got: self.subject.len() },
            );
        }
        if self.payload.len() > MAX_PAYLOAD_SIZE {
            return Err(
                MessageSerdeError::MessageTooLong { expected: MAX_PAYLOAD_SIZE, got: self.payload.len() },
            );
        }
        buf.push(self.subject.len() as u8);
        push_le_u32(buf, self.payload.len() as u32);
        append_bytes(buf, self.subject);
        append_bytes(buf, self.payload);
        assert(buf@ =~= old(buf)@ + encode_message(self.subject@, self.payload@));
        Ok(())
    }
}

/// A frame is five header bytes longer than its subject and payload together.
pub proof fn lemma_encoded_message_len(subject: Seq<u8>, payload: Seq<u8>)
    ensures
        encode_message(subject, payload).len() == 5 + subject.len() + payload.len(),
{
}

/// Reading back a written frame gives the subject and payload that were written.
pub proof fn lemma_parse_serialized_message(subject: Seq<u8>, payload: Seq<u8>)
    requires
        subject.len() <= MAX_SUBJECT_SIZE,
        payload.len() <= MAX_PAYLOAD_SIZE,
    ensures
        serialize_message(subject, payload) == Ok::<Seq<u8>, MessageSerdeError>(encode_message(subject, payload)),
        parse_message(encode_message(subject, payload)) == Ok::<(Seq<u8>, Seq<u8>), MessageSerdeError>(
            (subject, payload),
        ),
{
    let buf = encode_message(subject, payload);
    lemma_le_u32_decode_encode(payload.len() as int);
    assert(buf.subrange(1, 5) =~= le_u32_bytes(payload.len() as int));
    let n = subject.len() as int;
    assert(buf.subrange(5, 5 + n) =~= subject);
    assert(buf.subrange(5 + n, buf.len() as int) =~= payload);
}

/// Writing the subject and payload of a well-formed frame gives back that frame.
pub proof fn lemma_serialize_parsed_message(buf: Seq<u8>)
    requires
        parse_message(buf) is Ok,
    ensures
        serialize_message(parse_message(buf)->Ok_0.0, parse_message(buf)->Ok_0.1)
            == Ok::<Seq<u8>, MessageSerdeError>(buf),
{
    let (subject, payload) = parse_message(buf)->Ok_0;
    lemma_le_u32_encode_decode(buf.subrange(1, 5));
    assert(encode_message(subject, payload) =~= buf);
}

/// Whether the header of `buf` agrees with its length: the payload length
/// field (bytes 1 to 4, least significant first) is at most one MiB, and the
/// header, the subject of the length given by byte 0 and the payload fill
/// `buf` exactly.
pub open spec fn frame_fields_consistent(buf: Seq<u8>) -> bool {
    &&& buf.len() >= 5
    &&& buf[1] + 256 * buf[2] + 65536 * buf[3] + 16777216 * buf[4] <= MAX_PAYLOAD_SIZE
    &&& 5 + buf[0] + buf[1] + 256 * buf[2] + 65536 * buf[3] + 16777216 * buf[4] == buf.len()
}

/// A frame is byte 0 holding the subject's length, bytes 1 to 4 holding the
/// payload's length least significant byte first, then the subject's bytes,
/// then the payload's bytes, and nothing else.
pub proof fn lemma_message_frame_layout(subject: Seq<u8>, payload: Seq<u8>)
    requires
        subject.len() <= MAX_SUBJECT_SIZE,
        payload.len() <= MAX_PAYLOAD_SIZE,
    ensures
        serialize_message(subject, payload) is Ok,
        ({
            let f = serialize_message(subject, payload)->Ok_0;
            let n = subject.len() as int;
            let m = payload.len() as int;
            &&& f == encode_message(subject, payload)
            &&& f.len() == 5 + n + m
            &&& f[0] == n
            &&& f[1] == m % 256
            &&& f[2] == (m / 256) % 256
            &&& f[3] == (m / 65536) % 256
            &&& f[4] == (m / 16777216) % 256
            &&& f.subrange(5, 5 + n) == subject
            &&& f.subrange(5 + n, 5 + n + m) == payload
        }),
{
    let f = encode_message(subject, payload);
    let n = subject.len() as int;
    let m = payload.len() as int;
    assert(f.subrange(5, 5 + n) =~= subject);
    assert(f.subrange(5 + n, 5 + n + m) =~= payload);
}

/// Reading a frame succeeds exactly when its header agrees with its length,
/// and then the subject is the byte-0-long run after the five header bytes and
/// the payload is everything after the subject.
pub proof fn lemma_parse_message_fields(buf: Seq<u8>)
    ensures
        parse_message(buf) is Ok <==> frame_fields_consistent(buf),
        parse_message(buf) is Ok ==> {
            &&& parse_message(buf)->Ok_0.0 == buf.subrange(5, 5 + buf[0])
            &&& parse_message(buf)->Ok_0.1 == buf.subrange(5 + buf[0], buf.len() as int)
            &&& parse_message(buf)->Ok_0.1.len() == buf[1] + 256 * buf[2] + 65536 * buf[3] + 16777216 * buf[4]
        },
{
    if buf.len() >= 5 {
        assert(le_u32_value(buf.subrange(1, 5)) == buf[1] + 256 * buf[2] + 65536 * buf[3] + 16777216 * buf[4]);
    }
}

} // verus!
