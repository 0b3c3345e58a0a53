//! Consumers that read published frames back out of the log.

use vstd::prelude::*;
use core::marker::PhantomData;
use crate::bytes::bytes_equal;
use crate::publish::{encode_message, lemma_parse_serialized_message, parse_message, Message, MessageSerdeError};
use crate::publish::{frame_fields_consistent, lemma_parse_message_fields};
use crate::publish::{MAX_PAYLOAD_SIZE, MAX_SUBJECT_SIZE};

verus! {

/// How a consumer is fed: by polling, or by having messages handed to it.
pub enum ConsumerMode {
    Push,
    Pull,
}

/// Marker for a consumer that polls the log.
pub struct Pull;

/// Marker for a consumer that has messages handed to it.
pub struct Push;

/// A consumer of one subject, reading the log from its own position.
pub struct ConsumerWorker<'a, Mode> {
    subject: Vec<u8>,
    mmap: &'a [u8],
    cursor: usize,
    _mode: PhantomData<Mode>,
}

/// The state of a consumer: the subject it reads, the log it reads, and its
/// position in that log.
pub struct WorkerState {
    pub subject: Seq<u8>,
    pub log: Seq<u8>,
    pub cursor: nat,
}

impl<'a, Mode> View for ConsumerWorker<'a, Mode> {
    type V = WorkerState;

    closed spec fn view(&self) -> WorkerState {
        WorkerState { subject: self.subject@, log: self.mmap@, cursor: self.cursor as nat }
    }
}

/// The frame that a consumer at `cursor` reads next: the rest of the log,
/// taken as exactly one frame.
pub open spec fn next_frame(log: Seq<u8>, cursor: nat) -> Result<(Seq<u8>, Seq<u8>), MessageSerdeError> {
    parse_message(log.subrange(cursor as int, log.len() as int))
}

/// The inputs on which a poll returns: at the end of the log, or with a
/// well-formed frame ahead.
pub open spec fn poll_terminates(w: WorkerState) -> bool {
    w.cursor < w.log.len() ==> next_frame(w.log, w.cursor) is Ok
}

impl<'a> ConsumerWorker<'a, Pull> {
    /// A polling consumer of `subject` over `mmap`, starting at `start_offset`.
    pub fn new_pull(mmap: &'a [u8], subject: &[u8], start_offset: usize) -> (w: Self)
        ensures
            w@ == (WorkerState { subject: subject@, log: mmap@, cursor: start_offset as nat }),
    {
        ConsumerWorker { subject: vstd::slice::slice_to_vec(subject), mmap, cursor: start_offset, _mode: PhantomData }
    }

    /// Reads at most `max` messages of this consumer's subject from its position.
    ///
    /// The rest of the log is read as one frame: when it is one, the position
    /// moves to the end of the log and the message is returned if its subject
    /// is this consumer's; otherwise nothing is read and the position stays.
    pub fn poll_batch(&mut self, max: usize) -> (output: Vec<Message<'a>>)
        ensures
            final(self)@.subject == old(self)@.subject,
            final(self)@.log == old(self)@.log,
            output@.len() <= max,
            ({
                let w = old(self)@;
                if max == 0 || w.cursor >= w.log.len() {
                    final(self)@ == w && output@.len() == 0
                } else {
                    match next_frame(w.log, w.cursor) {
                        Ok((s, p)) => {
                            &&& final(self)@.cursor == w.log.len()
                            &&& if s == w.subject {
                                output@.len() == 1 && output@[0]@ == (s, p)
                            } else {
                                output@.len() == 0
                            }
                        },
                        Err(_) => final(self)@ == w && output@.len() == 0,
                    }
                }
            }),
            ({
                let w = old(self)@;
                let rest = w.log.subrange(w.cursor as int, w.log.len() as int);
                &&& final(self)@.cursor == w.cursor || final(self)@.cursor == w.log.len()
                &&& (max > 0 && w.cursor < w.log.len() && frame_fields_consistent(rest)) ==> {
                    &&& final(self)@.cursor == w.log.len()
                    &&& (output@.len() == 1 <==> rest.subrange(5, 5 + rest[0]) == w.subject)
                }
                &&& !(max > 0 && w.cursor < w.log.len() && frame_fields_consistent(rest)) ==> {
                    &&& final(self)@ == w
                    &&& output@.len() == 0
                }
                &&& output@.len() == 1 ==> {
                    &&& output@[0].subject@ == w.subject
                    &&& output@[0].subject@ == rest.subrange(5, 5 + rest[0])
                    &&& output@[0].payload@ == rest.subrange(5 + rest[0], rest.len() as int)
                }
            }),
    {
        let ghost w = self@;
        proof {
            lemma_parse_message_fields(w.log.subrange(w.cursor as int, w.log.len() as int));
        }
        let mut output: Vec<Message<'a>> = Vec::with_capacity(max);
        while output.len() < max && self.cursor < self.mmap.len()
            invariant_except_break
                self.subject@ == w.subject,
                self.mmap@ == w.log,
                self.cursor == w.cursor,
                output@.len() == 0,
            ensures
                self.subject@ == w.subject,
                self.mmap@ == w.log,
                output@.len() <= max,
                if max == 0 || w.cursor >= w.log.len() {
                    self.cursor == w.cursor && output@.len() == 0
                } else {
                    match next_frame(w.log, w.cursor) {
                        Ok((s, p)) => {
                            &&& self.cursor == w.log.len()
                            &&& if s == w.subject {
                                output@.len() == 1 && output@[0]@ == (s, p)
                            } else {
                                output@.len() == 0
                            }
                        },
                        Err(_) => self.cursor == w.cursor && output@.len() == 0,
                    }
                },
            decreases self.mmap@.len() - self.cursor,
        {
            let buffer = &self.mmap[self.cursor..self.mmap.len()];
            match Message::from_bytes(buffer) {
                Ok(msg) => {
                    let total_len = 5 + msg.subject.len() + msg.payload.len();
                    self.cursor += total_len;
                    if bytes_equal(msg.subject, self.subject.as_slice()) {
                        output.push(msg);
                    }
                    break;
                },
                Err(_) => break,
            }
        }
        proof {
            if max == 0 || w.cursor >= w.log.len() {
                assert(self@ == w);
            }
        }
        output
    }

    /// Reads the next message from this consumer's position, if it is one of
    /// this consumer's subject.
    ///
    /// At the end of the log nothing is read.  Otherwise the rest of the log
    /// is read as one frame, the position moves to the end of the log, and the
    /// message is returned if its subject is this consumer's.
    pub fn poll(&mut self) -> (res: Option<Message<'a>>)
        requires
            poll_terminates(old(self)@),
        ensures
            final(self)@.subject == old(self)@.subject,
            final(self)@.log == old(self)@.log,
            ({
                let w = old(self)@;
                if w.cursor >= w.log.len() {
                    final(self)@ == w && res is None
                } else {
                    let (s, p) = next_frame(w.log, w.cursor)->Ok_0;
                    &&& final(self)@.cursor == w.log.len()
                    &&& if s == w.subject {
                        res matches Some(m) && m@ == (s, p)
                    } else {
                        res is None
                    }
                }
            }),
            ({
                let w = old(self)@;
                let rest = w.log.subrange(w.cursor as int, w.log.len() as int);
                &&& w.cursor >= w.log.len() ==> final(self)@ == w && res is None
                &&& w.cursor < w.log.len() ==> {
                    &&& final(self)@.cursor == w.log.len()
                    &&& (res is Some <==> rest.subrange(5, 5 + rest[0]) == w.subject)
                }
                &&& res matches Some(m) ==> {
                    &&& m.subject@ == w.subject
                    &&& m.subject@ == rest.subrange(5, 5 + rest[0])
                    &&& m.payload@ == rest.subrange(5 + rest[0], rest.len() as int)
                }
            }),
    {
        let ghost w = self@;
        proof {
            lemma_parse_message_fields(w.log.subrange(w.cursor as int, w.log.len() as int));
        }
        if self.cursor < self.mmap.len() {
            let buf = &self.mmap[self.cursor..self.mmap.len()];
            match Message::from_bytes(buf) {
                Ok(msg) => {
                    let total_len = 5 + msg.subject.len() + msg.payload.len();
                    self.cursor += total_len;
                    if bytes_equal(msg.subject, self.subject.as_slice()) {
                        return Some(msg);
                    } else {
                        return None;
                    }
                },
                Err(_) => {
                    assert(false);
                },
            }
        }
        assert(self@ == w);
        None
    }

    /// The same consumer, now fed by having messages handed to it.
    pub fn into_push(self) -> (w: ConsumerWorker<'a, Push>)
        ensures
            w@ == self@,
    {
        ConsumerWorker { subject: self.subject, mmap: self.mmap, cursor: self.cursor, _mode: PhantomData }
    }
}

impl<'a> ConsumerWorker<'a, Push> {
    /// Takes a message handed to this consumer; nothing about the consumer changes.
    pub fn handle_message(&mut self, _msg: &Message)
        ensures
            final(self)@ == old(self)@,
    {
    }
}

/// A consumer positioned at a frame that ends the log reads that frame's
/// subject and payload.
pub proof fn lemma_next_frame_after_prefix(prefix: Seq<u8>, subject: Seq<u8>, payload: Seq<u8>)
    requires
        subject.len() <= MAX_SUBJECT_SIZE,
        payload.len() <= MAX_PAYLOAD_SIZE,
    ensures
        next_frame(prefix + encode_message(subject, payload), prefix.len()) == Ok::<
            (Seq<u8>, Seq<u8>),
            MessageSerdeError,
        >((subject, payload)),
{
    let log = prefix + encode_message(subject, payload);
    assert(log.subrange(prefix.len() as int, log.len() as int) =~= encode_message(subject, payload));
    lemma_parse_serialized_message(subject, payload);
}

} // verus!
