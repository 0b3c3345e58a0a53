//! The create-consumer frame.
//!
//! Layout: the consumer type byte, a sixteen-byte consumer id, one byte
//! holding the subject's length, then the subject, which runs to the end of
//! the frame.

use vstd::prelude::*;
use crate::bytes::append_bytes;
use crate::errors::{CreateConsumerError, WireError};
use crate::publish::MAX_SUBJECT_SIZE;

verus! {

/// How a consumer receives messages.
#[derive(Debug, PartialEq, Eq, Copy, Clone)]
pub enum ConsumerType {
    Pull,
}

/// The consumer type that a byte names, or the error for a byte that names none.
pub open spec fn consumer_type_of_byte(byte: u8) -> Result<ConsumerType, WireError> {
    if byte == 2 {
        Ok(ConsumerType::Pull)
    } else {
        Err(WireError::CreateConsumerError(CreateConsumerError::UnsupportedConsumerType { got: byte }))
    }
}

/// The byte of a consumer type.
pub open spec fn byte_of_consumer_type(t: ConsumerType) -> u8 {
    match t {
        ConsumerType::Pull => 2,
    }
}

impl ConsumerType {
    /// Reads a consumer type from its byte.
    pub fn from_bytes(byte: u8) -> (res: Result<ConsumerType, WireError>)
        ensures
            res == consumer_type_of_byte(byte),
            byte == 2 ==> res == Ok::<ConsumerType, WireError>(ConsumerType::Pull),
            byte != 2 ==> res == Err::<ConsumerType, WireError>(
                WireError::CreateConsumerError(CreateConsumerError::UnsupportedConsumerType { got: byte }),
            ),
    {
        match byte {
            0x2 => Ok(Self::Pull),
            _ => Err(WireError::from(CreateConsumerError::UnsupportedConsumerType { got: byte })),
        }
    }

    /// The byte of this consumer type.
    pub fn to_bytes(&self) -> (b: u8)
        ensures
            b == byte_of_consumer_type(*self),
            *self == ConsumerType::Pull ==> b == 2,
    {
        match self {
            Self::Pull => 0x2,
        }
    }
}

/// A request to create a consumer, borrowing its subject from a buffer.
#[derive(Debug, Copy, Clone)]
pub struct CreateConsumer<'a> {
    pub consumer_id: [u8; 16],
    pub subject: &'a [u8],
    pub consumer_type: ConsumerType,
}

impl<'a> View for CreateConsumer<'a> {
    type V = (Seq<u8>, Seq<u8>, ConsumerType);

    open spec fn view(&self) -> (Seq<u8>, Seq<u8>, ConsumerType) {
        (self.consumer_id@, self.subject@, self.consumer_type)
    }
}

/// The inputs on which reading a create-consumer frame completes: a type
/// byte is there, and when it names a consumer type the id and the length
/// byte are there too.
pub open spec fn create_consumer_readable(buf: Seq<u8>) -> bool {
    buf.len() > 0 && (buf[0] == 2 ==> buf.len() >= 18)
}

/// What reading `buf` as a create-consumer frame gives: the id, the subject
/// (every byte after the length byte) and the type.  The length byte itself
/// is not consulted.
pub open spec fn parse_create_consumer(buf: Seq<u8>) -> Result<(Seq<u8>, Seq<u8>, ConsumerType), WireError>
    recommends
        create_consumer_readable(buf),
{
    match consumer_type_of_byte(buf[0]) {
        Ok(t) => Ok((buf.subrange(1, 17), buf.subrange(18, buf.len() as int), t)),
        Err(e) => Err(e),
    }
}

/// The bytes of the create-consumer frame for the given parts.
pub open spec fn encode_create_consumer(id: Seq<u8>, subject: Seq<u8>, t: ConsumerType) -> Seq<u8> {
    seq![byte_of_consumer_type(t)] + id + seq![subject.len() as u8] + subject
}

/// What writing a create-consumer frame gives: the frame, or the error for a
/// subject too long for its length byte.
pub open spec fn serialize_create_consumer(id: Seq<u8>, subject: Seq<u8>, t: ConsumerType) -> Result<
    Seq<u8>,
    WireError,
> {
    if subject.len() > MAX_SUBJECT_SIZE {
        Err(
            WireError::CreateConsumerError(
                CreateConsumerError::SubjectTooLong { expected: MAX_SUBJECT_SIZE, got: subject.len() as usize },
            ),
        )
    } else {
        Ok(encode_create_consumer(id, subject, t))
    }
}

impl<'a> CreateConsumer<'a> {
    /// Reads a create-consumer frame from `buf`; the subject is every byte
    /// after the length byte.
    pub fn from_bytes(buf: &'a [u8]) -> (res: Result<Self, WireError>)
        requires
            create_consumer_readable(buf@),
        ensures
            res matches Ok(c) ==> parse_create_consumer(buf@) == Ok::<
                (Seq<u8>, Seq<u8>, ConsumerType),
                WireError,
            >(c@),
            res matches Err(e) ==> parse_create_consumer(buf@) == Err::<
                (Seq<u8>, Seq<u8>, ConsumerType),
                WireError,
            >(e),
            res is Ok <==> buf@[0] == 2,
            res matches Ok(c) ==> {
                &&& c.consumer_id@ == buf@.subrange(1, 17)
                &&& c.subject@ == buf@.subrange(18, buf@.len() as int)
                &&& c.consumer_type == ConsumerType::Pull
            },
            res matches Err(e) ==> e == WireError::CreateConsumerError(
                CreateConsumerError::UnsupportedConsumerType { got: buf@[0] },
            ),
    {
        proof {
            lemma_parse_create_consumer_fields(buf@);
        }
        let consumer_type = match ConsumerType::from_bytes(buf[0]) {
            Ok(t) => t,
            Err(e) => return Err(e),
        };
        let consumer_name: [u8; 16] = [
            buf[1],
            buf[2],
            buf[3],
            buf[4],
            buf[5],
            buf[6],
            buf[7],
            buf[8],
            buf[9],
            buf[10],
            buf[11],
            buf[12],
            buf[13],
            buf[14],
            buf[15],
            buf[16],
        ];
        assert(consumer_name@ =~= buf@.subrange(1, 17));
        let subject = &buf[18..buf.len()];
        Ok(CreateConsumer { consumer_id: consumer_name, subject: subject, consumer_type })
    }

    /// Appends the frame of this request to `buf`; on error `buf` is left as it was.
    pub fn to_bytes(&self, buf: &mut Vec<u8>) -> (res: Result<(), WireError>)
        ensures
            match serialize_create_consumer(self.consumer_id@, self.subject@, self.consumer_type) {
                Ok(frame) => res is Ok && final(buf)@ == old(buf)@ + frame,
                Err(e) => res == Err::<(), WireError>(e) && final(buf)@ == old(buf)@,
            },
            res is Ok <==> self.subject@.len() <= MAX_SUBJECT_SIZE,
            res is Err ==> final(buf)@ == old(buf)@ && res == Err::<(), WireError>(
                WireError::CreateConsumerError(
                    CreateConsumerError::SubjectTooLong { expected: MAX_SUBJECT_SIZE, got: self.subject@.len() as usize },
                ),
            ),
            res is Ok ==> {
                let o = old(buf)@.len() as int;
                let b = final(buf)@;
                let n = self.subject@.len() as int;
                &&& b.len() == o + 18 + n
                &&& b.subrange(0, o) == old(buf)@
                &&& (self.consumer_type == ConsumerType::Pull ==> b[o] == 2)
                &&& b.subrange(o + 1, o + 17) == self.consumer_id@
                &&& b[o + 17] == n
                &&& b.subrange(o + 18, o + 18 + n) == self.subject@
            },
    {
        proof {
            if self.subject@.len() <= MAX_SUBJECT_SIZE {
                lemma_create_consumer_frame_layout(self.consumer_id@, self.subject@, self.consumer_type);
                let f = encode_create_consumer(self.consumer_id@, self.subject@, self.consumer_type);
                let o = old(buf)@.len() as int;
                let b = old(buf)@ + f;
                let n = self.subject@.len() as int;
                assert(b.subrange(0, o) =~= old(buf)@);
                assert(b.subrange(o + 1, o + 17) =~= f.subrange(1, 17));
                assert(b.subrange(o + 18, o + 18 + n) =~= f.subrange(18, 18 + n));
            }
        }
        let consumer_type = self.consumer_type.to_bytes();
        if self.subject.len() > MAX_SUBJECT_SIZE {
            return Err(
                WireError::from(
                    CreateConsumerError::SubjectTooLong { expected: MAX_SUBJECT_SIZE, got: self.subject.len() },
                ),
            );
        }
        buf.push(consumer_type);
        append_bytes(buf, self.consumer_id.as_slice());
        buf.push(self.subject.len() as u8);
        append_bytes(buf, self.subject);
        assert(buf@ =~= old(buf)@ + encode_create_consumer(
            self.consumer_id@,
            self.subject@,
            self.consumer_type,
        ));
        Ok(())
    }
}

/// Every consumer type reads back from its own byte.
pub proof fn lemma_consumer_type_byte_roundtrip(t: ConsumerType)
    ensures
        consumer_type_of_byte(byte_of_consumer_type(t)) == Ok::<ConsumerType, WireError>(t),
{
}

/// Reading back a written create-consumer frame gives the id, subject and
/// type that were written.
pub proof fn lemma_parse_serialized_create_consumer(id: Seq<u8>, subject: Seq<u8>, t: ConsumerType)
    requires
        id.len() == 16,
        subject.len() <= MAX_SUBJECT_SIZE,
    ensures
        serialize_create_consumer(id, subject, t) == Ok::<Seq<u8>, WireError>(
            encode_create_consumer(id, subject, t),
        ),
        create_consumer_readable(encode_create_consumer(id, subject, t)),
        parse_create_consumer(encode_create_consumer(id, subject, t)) == Ok::<
            (Seq<u8>, Seq<u8>, ConsumerType),
            WireError,
        >((id, subject, t)),
{
    let buf = encode_create_consumer(id, subject, t);
    assert(buf.subrange(1, 17) =~= id);
    assert(buf.subrange(18, buf.len() as int) =~= subject);
}

/// Writing back what was read from a create-consumer frame gives that frame,
/// when its length byte holds the length of the subject that follows it.
pub proof fn lemma_serialize_parsed_create_consumer(buf: Seq<u8>)
    requires
        create_consumer_readable(buf),
        parse_create_consumer(buf) is Ok,
        buf[17] == buf.len() - 18,
    ensures
        serialize_create_consumer(
            parse_create_consumer(buf)->Ok_0.0,
            parse_create_consumer(buf)->Ok_0.1,
            parse_create_consumer(buf)->Ok_0.2,
        ) == Ok::<Seq<u8>, WireError>(buf),
{
    let (id, subject, t) = parse_create_consumer(buf)->Ok_0;
    assert(encode_create_consumer(id, subject, t) =~= buf);
}

/// A create-consumer frame is the type byte (2 for a pull consumer), the
/// sixteen id bytes, a byte holding the subject's length, then the subject's
/// bytes, and nothing else.
pub proof fn lemma_create_consumer_frame_layout(id: Seq<u8>, subject: Seq<u8>, t: ConsumerType)
    requires
        id.len() == 16,
        subject.len() <= MAX_SUBJECT_SIZE,
    ensures
        serialize_create_consumer(id, subject, t) is Ok,
        ({
            let f = serialize_create_consumer(id, subject, t)->Ok_0;
            let n = subject.len() as int;
            &&& f == encode_create_consumer(id, subject, t)
            &&& f.len() == 18 + n
            &&& (t == ConsumerType::Pull ==> f[0] == 2)
            &&& f.subrange(1, 17) == id
            &&& f[17] == n
            &&& f.subrange(18, 18 + n) == subject
        }),
{
    let f = encode_create_consumer(id, subject, t);
    let n = subject.len() as int;
    assert(f.subrange(1, 17) =~= id);
    assert(f.subrange(18, 18 + n) =~= subject);
}

/// Reading a create-consumer frame succeeds exactly when its first byte is 2,
/// and then gives a pull consumer whose id is bytes 1 to 16 and whose subject
/// is every byte from 18 on; otherwise the error names the first byte.
pub proof fn lemma_parse_create_consumer_fields(buf: Seq<u8>)
    requires
        create_consumer_readable(buf),
    ensures
        parse_create_consumer(buf) is Ok <==> buf[0] == 2,
        parse_create_consumer(buf) is Ok ==> parse_create_consumer(buf)->Ok_0 == (
            buf.subrange(1, 17),
            buf.subrange(18, buf.len() as int),
            ConsumerType::Pull,
        ),
        parse_create_consumer(buf) is Err ==> parse_create_consumer(buf)->Err_0 == WireError::CreateConsumerError(
            CreateConsumerError::UnsupportedConsumerType { got: buf[0] },
        ),
{
}

/// A pull consumer's type byte is 2, and 2 is the only byte that names a
/// consumer type: every other byte is refused and named in the error.
pub proof fn lemma_consumer_type_bytes(b: u8)
    ensures
        byte_of_consumer_type(ConsumerType::Pull) == 2,
        b == 2 ==> consumer_type_of_byte(b) == Ok::<ConsumerType, WireError>(ConsumerType::Pull),
        b != 2 ==> consumer_type_of_byte(b) == Err::<ConsumerType, WireError>(
            WireError::CreateConsumerError(CreateConsumerError::UnsupportedConsumerType { got: b }),
        ),
{
}

} // verus!
