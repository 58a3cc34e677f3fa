//! Length-prefixed messages over a byte stream, with bounded buffers.

use std::collections::VecDeque;

use crate::bytes::{be32, from_be32, integers_round_trip, push_be32, read_be32};
use vstd::prelude::*;

verus! {

/// The longest message, in bytes.
pub const MAX_FRAME: usize = 131072;

/// Bytes that may wait to be written.
pub const MAX_BUFFER: usize = 524288;

/// Why the stream cannot go on.
#[derive(Debug, Clone, Copy, PartialEq, Eq, Structural)]
pub enum WireError {
    /// A message is too long, or too much waits to be written.
    BoundExceeded,
    /// A length prefix is zero or too long.
    InvalidSize,
    /// The stream took no bytes.
    WriteZero,
}

/// What one message is on the stream.
pub open spec fn frame(payload: Seq<u8>) -> Seq<u8> {
    be32(payload.len() as u32) + payload
}

/// What the head of a received stream is.
pub enum Head {
    Invalid,
    Incomplete,
    Message { payload: Seq<u8>, rest: Seq<u8> },
}

pub open spec fn head(stream: Seq<u8>) -> Head {
    if stream.len() < 4 {
        Head::Incomplete
    } else {
        let size = from_be32(stream.subrange(0, 4));
        if size == 0 || size > MAX_FRAME {
            Head::Invalid
        } else if stream.len() < size + 4 {
            Head::Incomplete
        } else {
            Head::Message { payload: stream.subrange(4, size + 4), rest: stream.skip(size + 4) }
        }
    }
}

/// All frames one after the other.
pub open spec fn joined(frames: Seq<Vec<u8>>) -> Seq<u8>
    decreases frames.len(),
{
    if frames.len() == 0 {
        Seq::empty()
    } else {
        frames[0]@ + joined(frames.drop_first())
    }
}

/// The buffers of one side of a stream.
pub struct Framed {
    input: Vec<u8>,
    output: VecDeque<Vec<u8>>,
    offset: usize,
    queued: usize,
}

impl Framed {
    /// Received bytes that no message has been taken from yet.
    pub closed spec fn received(self) -> Seq<u8> {
        self.input@
    }

    /// Bytes that wait to be written.
    pub closed spec fn pending(self) -> Seq<u8> {
        joined(self.output@).skip(self.offset as int)
    }

    /// Frames are whole but for the part of the first one that is written, and the bound on
    /// waiting bytes holds.
    pub closed spec fn inv(self) -> bool {
        &&& forall|i: int| 0 <= i < self.output@.len() ==> (#[trigger] self.output@[i])@.len() > 0
        &&& self.output@.len() == 0 ==> self.offset == 0
        &&& self.output@.len() > 0 ==> self.offset < self.output@[0]@.len()
        &&& self.queued == joined(self.output@).len() - self.offset
        &&& self.queued <= MAX_BUFFER
    }

    pub fn new() -> (result: Self)
        ensures
            result.inv(),
            result.received() == Seq::<u8>::empty(),
            result.pending() == Seq::<u8>::empty(),
    {
        Framed { input: Vec::new(), output: VecDeque::new(), offset: 0, queued: 0 }
    }

    /// Bytes that wait to be written.
    pub fn queued(&self) -> (result: usize)
        requires
            self.inv(),
        ensures
            result == self.pending().len(),
            result <= MAX_BUFFER,
    {
        proof {
            lemma_joined_first(self.output@);
        }
        self.queued
    }

    /// Whether everything has been written.
    pub fn drained(&self) -> (result: bool)
        requires
            self.inv(),
        ensures
            result == (self.pending().len() == 0),
    {
        proof {
            lemma_joined_first(self.output@);
        }
        self.output.len() == 0
    }

    /// Queues a message, unless that breaks one of the bounds.
    pub fn send(&mut self, payload: &[u8]) -> (result: Result<(), WireError>)
        requires
            old(self).inv(),
        ensures
            final(self).inv(),
            final(self).received() == old(self).received(),
            match result {
                Ok(()) => {
                    &&& payload@.len() <= MAX_FRAME
                    &&& old(self).pending().len() + payload@.len() + 4 <= MAX_BUFFER
                    &&& final(self).pending() == old(self).pending() + frame(payload@)
                },
                Err(error) => {
                    &&& error == WireError::BoundExceeded
                    &&& payload@.len() > MAX_FRAME || old(self).pending().len() + payload@.len() + 4
                        > MAX_BUFFER
                    &&& final(self).pending() == old(self).pending()
                },
            },
    {
        let waiting: usize = self.queued();
        if payload.len() > MAX_FRAME || waiting + payload.len() + 4 > MAX_BUFFER {
            return Err(WireError::BoundExceeded);
        }
        let mut bytes: Vec<u8> = Vec::with_capacity(payload.len() + 4);
        push_be32(&mut bytes, payload.len() as u32);
        bytes.extend_from_slice(payload);
        assert(bytes@ =~= frame(payload@));
        let ghost before = self.output@;
        self.queued = self.queued + bytes.len();
        proof {
            lemma_joined_push(before, bytes);
            lemma_joined_first(before);
            lemma_joined_first(before.push(bytes));
        }
        self.output.push_back(bytes);
        assert(joined(self.output@).skip(self.offset as int) =~= joined(before).skip(
            self.offset as int,
        ) + frame(payload@));
        Ok(())
    }

    /// What to write next, if anything waits: the rest of the first frame.
    pub fn unsent(&self) -> (result: Option<&[u8]>)
        requires
            self.inv(),
        ensures
            match result {
                Some(bytes) => {
                    &&& 0 < bytes@.len() <= self.pending().len()
                    &&& bytes@ == self.pending().take(bytes@.len() as int)
                    &&& bytes@.len() == self.front_len()
                },
                None => self.pending().len() == 0,
            },
    {
        proof {
            lemma_joined_first(self.output@);
        }
        if self.output.len() == 0 {
            return None;
        }
        let front = &self.output[0];
        let bytes = vstd::slice::slice_subrange(front.as_slice(), self.offset, front.len());
        assert(bytes@ =~= self.pending().take(bytes@.len() as int));
        Some(bytes)
    }

    /// Takes note of how many bytes of `unsent` the stream took.
    pub fn wrote(&mut self, count: usize) -> (result: Result<(), WireError>)
        requires
            old(self).inv(),
            old(self).pending().len() > 0,
            count <= old(self).front_len(),
        ensures
            final(self).inv(),
            final(self).received() == old(self).received(),
            final(self).pending() == old(self).pending().skip(count as int),
            result == (if count == 0 {
                Err::<(), WireError>(WireError::WriteZero)
            } else {
                Ok(())
            }),
    {
        proof {
            lemma_joined_first(self.output@);
        }
        if count == 0 {
            assert(self.pending() =~= old(self).pending().skip(0));
            return Err(WireError::WriteZero);
        }
        let front: usize = self.output[0].len();
        self.offset = self.offset + count;
        self.queued = self.queued - count;
        if self.offset == front {
            let ghost before = self.output@;
            let first = self.output.pop_front();
            self.offset = 0;
            proof {
                assert(self.output@ =~= before.drop_first());
                lemma_joined_first(self.output@);
                assert(joined(self.output@).skip(0) =~= joined(before).skip(
                    before[0]@.len() as int,
                ));
                assert(joined(before).skip(before[0]@.len() as int) =~= joined(before).skip(
                    old(self).offset as int,
                ).skip(count as int));
            }
        } else {
            assert(joined(self.output@).skip(self.offset as int) =~= joined(self.output@).skip(
                old(self).offset as int,
            ).skip(count as int));
        }
        Ok(())
    }

    /// Length of what `unsent` offers.
    pub closed spec fn front_len(self) -> nat {
        if self.output@.len() == 0 {
            0
        } else {
            (self.output@[0]@.len() - self.offset) as nat
        }
    }

    /// Takes bytes that the stream delivered.
    pub fn feed(&mut self, bytes: &[u8])
        requires
            old(self).inv(),
        ensures
            final(self).inv(),
            final(self).received() == old(self).received() + bytes@,
            final(self).pending() == old(self).pending(),
    {
        self.input.extend_from_slice(bytes);
        assert(self.input@ =~= old(self).input@ + bytes@);
    }

    /// Takes the next whole message from what was received.
    pub fn receive(&mut self) -> (result: Result<Option<Vec<u8>>, WireError>)
        requires
            old(self).inv(),
        ensures
            final(self).inv(),
            final(self).pending() == old(self).pending(),
            match result {
                Ok(Some(message)) => head(old(self).received()) == (Head::Message {
                    payload: message@,
                    rest: final(self).received(),
                }),
                Ok(None) => {
                    &&& head(old(self).received()) is Incomplete
                    &&& final(self).received() == old(self).received()
                },
                Err(error) => {
                    &&& error == WireError::InvalidSize
                    &&& head(old(self).received()) is Invalid
                    &&& final(self).received() == old(self).received()
                },
            },
    {
        if self.input.len() < 4 {
            return Ok(None);
        }
        let size: usize = read_be32(self.input.as_slice(), 0) as usize;
        if size == 0 || size > MAX_FRAME {
            return Err(WireError::InvalidSize);
        }
        if self.input.len() < size + 4 {
            return Ok(None);
        }
        let ghost stream = self.input@;
        let rest = self.input.split_off(size + 4);
        let message = self.input.split_off(4);
        self.input = rest;
        assert(message@ =~= stream.subrange(4, size + 4));
        assert(self.input@ =~= stream.skip(size + 4));
        Ok(Some(message))
    }
}

proof fn lemma_joined_first(frames: Seq<Vec<u8>>)
    ensures
        frames.len() > 0 ==> joined(frames) == frames[0]@ + joined(frames.drop_first()),
        frames.len() == 0 ==> joined(frames).len() == 0,
{
}

proof fn lemma_joined_push(frames: Seq<Vec<u8>>, last: Vec<u8>)
    ensures
        joined(frames.push(last)) == joined(frames) + last@,
    decreases frames.len(),
{
    if frames.len() == 0 {
        assert(frames.push(last).drop_first() =~= frames);
        assert(joined(frames.push(last)) =~= joined(frames) + last@);
    } else {
        assert(frames.push(last).drop_first() =~= frames.drop_first().push(last));
        lemma_joined_push(frames.drop_first(), last);
        assert(joined(frames.push(last)) =~= joined(frames) + last@);
    }
}

/// What one side frames the other side reads: the message first, and after it whatever
/// followed on the stream.
pub proof fn frames_round_trip(payload: Seq<u8>, rest: Seq<u8>)
    requires
        1 <= payload.len() <= MAX_FRAME,
    ensures
        head(frame(payload) + rest) == (Head::Message { payload, rest }),
{
    integers_round_trip(payload.len() as u32, 0);
    let stream = frame(payload) + rest;
    assert(stream.subrange(0, 4) =~= be32(payload.len() as u32));
    assert(stream.subrange(4, payload.len() as int + 4) =~= payload);
    assert(stream.skip(payload.len() as int + 4) =~= rest);
}

/// A part of a frame is never taken for a message: the reader waits for the rest.
pub proof fn partial_frames_wait(payload: Seq<u8>, len: int)
    requires
        1 <= payload.len() <= MAX_FRAME,
        0 <= len < payload.len() + 4,
    ensures
        head(frame(payload).take(len)) is Incomplete,
{
    integers_round_trip(payload.len() as u32, 0);
    if len >= 4 {
        assert(frame(payload).take(len).subrange(0, 4) =~= be32(payload.len() as u32));
    }
}

} // verus!
