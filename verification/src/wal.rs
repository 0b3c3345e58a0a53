//! The write-ahead log: published frames laid end to end in a writable
//! memory-mapped file.

use vstd::prelude::*;
use memmap2::MmapMut;
use crate::bytes::splice;
use crate::consumer::{lemma_next_frame_after_prefix, next_frame};
use crate::publish::{encode_message, lemma_message_frame_layout, lemma_parse_serialized_message, parse_message, serialize_message};
use crate::publish::{Message, MessageSerdeError, MAX_PAYLOAD_SIZE, MAX_SUBJECT_SIZE};

verus! {

/// The writable memory map of `memmap2`, opaque to verification.
#[verifier::external_type_specification]
#[verifier::external_body]
pub struct ExMmapMut(MmapMut);

/// The bytes that a writable memory map holds.
pub uninterp spec fn mapped_bytes(m: MmapMut) -> Seq<u8>;

/// Borrows the mapped bytes through `MmapMut`'s `Deref` to `[u8]`, which
/// gives the whole mapping.  This takes no other party to write to the
/// mapped file while the map is held.
#[verifier::external_body]
fn mapped_slice(m: &MmapMut) -> (s: &[u8])
    ensures
        s@ == mapped_bytes(*m),
{
    &m[..]
}

/// Copies `bytes` into the mapping at `start` through `MmapMut`'s `DerefMut`
/// to `[u8]`: those bytes are replaced and no other byte, nor the length,
/// changes.
#[verifier::external_body]
fn mapped_write(m: &mut MmapMut, start: usize, bytes: &[u8])
    requires
        start + bytes@.len() <= mapped_bytes(*old(m)).len(),
    ensures
        mapped_bytes(*final(m)) == splice(mapped_bytes(*old(m)), start as int, bytes@),
{
    m[start..][..bytes.len()].copy_from_slice(bytes)
}

/// A log that appends published frames, one after another, to a writable map.
pub struct WriteAheadLog {
    memory_mapped_file: MmapMut,
    cursor: usize,
}

impl WriteAheadLog {
    /// The bytes the log holds, written or not.
    pub closed spec fn contents(&self) -> Seq<u8> {
        mapped_bytes(self.memory_mapped_file)
    }

    /// Where the next frame is written.
    pub closed spec fn write_position(&self) -> nat {
        self.cursor as nat
    }

    /// A log over `memory_mapped_file` that writes from its first byte.
    pub fn new(memory_mapped_file: MmapMut) -> (w: Self)
        ensures
            w.contents() == mapped_bytes(memory_mapped_file),
            w.write_position() == 0,
    {
        WriteAheadLog { memory_mapped_file, cursor: 0 }
    }

    /// The bytes the log holds.
    pub fn as_bytes(&self) -> (s: &[u8])
        ensures
            s@ == self.contents(),
    {
        mapped_slice(&self.memory_mapped_file)
    }

    /// Where the next frame is written.
    pub fn cursor(&self) -> (c: usize)
        ensures
            c == self.write_position(),
    {
        self.cursor
    }

    /// Writes the frame of `message` at the write position and moves the
    /// position past it; on error nothing changes.
    pub fn write_new_message(&mut self, message: Message) -> (res: Result<(), MessageSerdeError>)
        requires
            serialize_message(message.subject@, message.payload@) matches Ok(frame) ==>
                old(self).write_position() + frame.len() <= old(self).contents().len(),
        ensures
            match serialize_message(message.subject@, message.payload@) {
                Ok(frame) => {
                    &&& res is Ok
                    &&& final(self).write_position() == old(self).write_position() + frame.len()
                    &&& final(self).contents() == splice(
                        old(self).contents(),
                        old(self).write_position() as int,
                        frame,
                    )
                },
                Err(e) => {
                    &&& res == Err::<(), MessageSerdeError>(e)
                    &&& final(self).write_position() == old(self).write_position()
                    &&& final(self).contents() == old(self).contents()
                },
            },
            res is Ok <==> (message.subject@.len() <= MAX_SUBJECT_SIZE && message.payload@.len() <= MAX_PAYLOAD_SIZE),
            res is Ok ==> {
                let pos = old(self).write_position() as int;
                let before = old(self).contents();
                let after = final(self).contents();
                let n = message.subject@.len() as int;
                let m = message.payload@.len() as int;
                &&& final(self).write_position() == pos + 5 + n + m
                &&& after.len() == before.len()
                &&& after.subrange(0, pos) == before.subrange(0, pos)
                &&& after[pos] == n
                &&& after[pos + 1] == m % 256
                &&& after[pos + 2] == (m / 256) % 256
                &&& after[pos + 3] == (m / 65536) % 256
                &&& after[pos + 4] == (m / 16777216) % 256
                &&& after.subrange(pos + 5, pos + 5 + n) == message.subject@
                &&& after.subrange(pos + 5 + n, pos + 5 + n + m) == message.payload@
                &&& after.subrange(pos + 5 + n + m, after.len() as int) == before.subrange(
                    pos + 5 + n + m,
                    before.len() as int,
                )
            },
    {
        proof {
            if message.subject@.len() <= MAX_SUBJECT_SIZE && message.payload@.len() <= MAX_PAYLOAD_SIZE {
                lemma_message_frame_layout(message.subject@, message.payload@);
                let f = encode_message(message.subject@, message.payload@);
                let pos = self.write_position() as int;
                let before = self.contents();
                let after = splice(before, pos, f);
                let n = message.subject@.len() as int;
                let m = message.payload@.len() as int;
                assert(after.subrange(0, pos) =~= before.subrange(0, pos));
                assert(after.subrange(pos + 5, pos + 5 + n) =~= f.subrange(5, 5 + n));
                assert(after.subrange(pos + 5 + n, pos + 5 + n + m) =~= f.subrange(5 + n, 5 + n + m));
                assert(after.subrange(pos + 5 + n + m, after.len() as int) =~= before.subrange(
                    pos + 5 + n + m,
                    before.len() as int,
                ));
            }
        }
        let mut new_message: Vec<u8> = Vec::new();
        match message.to_bytes(&mut new_message) {
            Ok(()) => {},
            Err(e) => return Err(e),
        }
        let capacity = mapped_slice(&self.memory_mapped_file).len();
        assert(self.cursor + new_message@.len() <= capacity);
        let next_chunk_start = self.cursor;
        self.cursor = self.cursor + new_message.len();
        mapped_write(&mut self.memory_mapped_file, next_chunk_start, new_message.as_slice());
        Ok(())
    }
}

/// What a write leaves in the log: the bytes before the write position are
/// unchanged, and the written range reads back as the message written.
pub proof fn lemma_written_frame_reads_back(before: Seq<u8>, position: int, subject: Seq<u8>, payload: Seq<u8>)
    requires
        0 <= position,
        subject.len() <= MAX_SUBJECT_SIZE,
        payload.len() <= MAX_PAYLOAD_SIZE,
        position + encode_message(subject, payload).len() <= before.len(),
    ensures
        ({
            let frame = encode_message(subject, payload);
            let after = splice(before, position, frame);
            &&& after.len() == before.len()
            &&& after.subrange(0, position) == before.subrange(0, position)
            &&& after.subrange(position, position + frame.len()) == frame
            &&& parse_message(after.subrange(position, position + frame.len())) == Ok::<
                (Seq<u8>, Seq<u8>),
                MessageSerdeError,
            >((subject, payload))
        }),
{
    let frame = encode_message(subject, payload);
    let after = splice(before, position, frame);
    assert(after.subrange(0, position) =~= before.subrange(0, position));
    assert(after.subrange(position, position + frame.len()) =~= frame);
    lemma_parse_serialized_message(subject, payload);
}

/// Two writes in a row lay their frames end to end: after both, the log holds
/// the first frame then the second from the first write position on.
pub proof fn lemma_consecutive_writes(before: Seq<u8>, position: int, first: Seq<u8>, second: Seq<u8>)
    requires
        0 <= position,
        position + first.len() + second.len() <= before.len(),
    ensures
        ({
            let after = splice(splice(before, position, first), position + first.len(), second);
            &&& after.len() == before.len()
            &&& after.subrange(position, position + first.len() + second.len()) == first + second
            &&& after.subrange(0, position) == before.subrange(0, position)
        }),
{
    let mid = splice(before, position, first);
    let after = splice(mid, position + first.len(), second);
    assert(after.subrange(position, position + first.len() + second.len()) =~= first + second);
    assert(after.subrange(0, position) =~= before.subrange(0, position));
}

/// A consumer positioned where a message was written reads that message back,
/// when its frame runs to the end of the log.
pub proof fn lemma_consumer_reads_written_frame(before: Seq<u8>, position: int, subject: Seq<u8>, payload: Seq<u8>)
    requires
        0 <= position,
        subject.len() <= MAX_SUBJECT_SIZE,
        payload.len() <= MAX_PAYLOAD_SIZE,
        position + encode_message(subject, payload).len() == before.len(),
    ensures
        next_frame(splice(before, position, encode_message(subject, payload)), position as nat) == Ok::<
            (Seq<u8>, Seq<u8>),
            MessageSerdeError,
        >((subject, payload)),
{
    let frame = encode_message(subject, payload);
    let prefix = before.subrange(0, position);
    assert(splice(before, position, frame) =~= prefix + frame);
    lemma_next_frame_after_prefix(prefix, subject, payload);
}

} // verus!
