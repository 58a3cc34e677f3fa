//! Message framing: a version mark, the body's length, and the body.

use super::{protocol_error, SocketError};
use crate::bytes::{from_le32, integers_round_trip, le32, push_le32, read_le32};
use vstd::prelude::*;

verus! {

/// The longest message body.
pub const MAX_MESSAGE: usize = 16384;

/// The version mark: `JSCPU001`.
pub open spec fn magic() -> Seq<u8> {
    seq![0x4a, 0x53, 0x43, 0x50, 0x55, 0x30, 0x30, 0x31]
}

/// The bytes that a header has.
pub const HEADER: usize = 12;

/// The length that a header announces.
pub open spec fn announced(header: Seq<u8>) -> int {
    from_le32(header.subrange(8, 12))
}

/// Whether a header is of this version and announces a body that may be read.
pub open spec fn readable(header: Seq<u8>) -> bool {
    &&& header.len() >= HEADER
    &&& header.subrange(0, 8) == magic()
    &&& 1 <= announced(header) <= MAX_MESSAGE
}

/// A body in its frame.
pub open spec fn framed(body: Seq<u8>) -> Seq<u8> {
    magic() + le32(body.len() as u32) + body
}

/// Whether bytes begin with the version mark.
fn marked(header: &Vec<u8>) -> (result: bool)
    requires
        header@.len() >= HEADER,
    ensures
        result == (header@.subrange(0, 8) == magic()),
{
    let same = header[0] == 0x4a && header[1] == 0x53 && header[2] == 0x43 && header[3] == 0x50
        && header[4] == 0x55 && header[5] == 0x30 && header[6] == 0x30 && header[7] == 0x31;
    proof {
        let mark = header@.subrange(0, 8);
        if same {
            assert(mark =~= magic());
        } else {
            assert(forall|i: int| 0 <= i < 8 ==> #[trigger] mark[i] == header@[i]);
            if mark == magic() {
                assert(mark[0] == 0x4a && mark[1] == 0x53 && mark[2] == 0x43 && mark[3] == 0x50
                    && mark[4] == 0x55 && mark[5] == 0x30 && mark[6] == 0x30 && mark[7] == 0x31);
            }
        }
    }
    same
}

/// Checks a header before any of the body is read: the length of the body.
pub fn check_header(header: &Vec<u8>) -> (result: Result<usize, SocketError>)
    requires
        header@.len() >= HEADER,
    ensures
        match result {
            Ok(len) => readable(header@) && len == announced(header@),
            Err(error) => if header@.subrange(0, 8) != magic() {
                protocol_error(error, "unsupported version"@)
            } else {
                !readable(header@) && protocol_error(error, "message size exceeds limit"@)
            },
        },
{
    if !marked(header) {
        return Err(SocketError::Protocol("unsupported version"));
    }
    let len: u32 = read_le32(header.as_slice(), 8);
    if len == 0 || len > MAX_MESSAGE as u32 {
        return Err(SocketError::Protocol("message size exceeds limit"));
    }
    Ok(len as usize)
}

/// Puts a body in its frame.
pub fn frame(body: &Vec<u8>) -> (result: Result<Vec<u8>, SocketError>)
    ensures
        if 1 <= body@.len() <= MAX_MESSAGE {
            result matches Ok(bytes) && bytes@ == framed(body@)
        } else {
            result matches Err(error) && protocol_error(error, "message size exceeds limit"@)
        },
{
    if body.len() == 0 || body.len() > MAX_MESSAGE {
        return Err(SocketError::Protocol("message size exceeds limit"));
    }
    let mut out: Vec<u8> = Vec::new();
    out.push(0x4a);
    out.push(0x53);
    out.push(0x43);
    out.push(0x50);
    out.push(0x55);
    out.push(0x30);
    out.push(0x30);
    out.push(0x31);
    assert(out@ =~= magic());
    push_le32(&mut out, body.len() as u32);
    out.extend_from_slice(body.as_slice());
    assert(out@ =~= framed(body@));
    Ok(out)
}

/// What a reader has after another part.
#[derive(Debug, PartialEq, Eq)]
pub enum Progress {
    /// More is wanted.
    More,
    /// A whole body; the reader begins anew.
    Message(Vec<u8>),
    /// The peer closed between two messages.
    Ended,
}

/// Reads messages in as many parts as the peer sends them, and never beyond the end of one:
/// what follows a message is not part of this stream.
pub struct MessageReader {
    bytes: Vec<u8>,
}

impl MessageReader {
    pub closed spec fn spec_bytes(self) -> Seq<u8> {
        self.bytes@
    }

    /// A message is not complete, and its header, once there, was accepted.
    pub open spec fn wf(self) -> bool {
        self.spec_bytes().len() >= HEADER ==> {
            &&& readable(self.spec_bytes())
            &&& self.spec_bytes().len() < HEADER + announced(self.spec_bytes())
        }
    }

    /// How many bytes may be asked for next.
    pub open spec fn spec_wants(self) -> int {
        if self.spec_bytes().len() < HEADER {
            HEADER - self.spec_bytes().len()
        } else {
            HEADER + announced(self.spec_bytes()) - self.spec_bytes().len()
        }
    }

    pub fn new() -> (result: Self)
        ensures
            result.wf(),
            result.spec_bytes() == Seq::<u8>::empty(),
    {
        let reader = MessageReader { bytes: Vec::new() };
        assert(reader.bytes@ =~= Seq::empty());
        reader
    }

    /// How many bytes may be asked for next: the rest of the header or of the body.
    pub fn wants(&self) -> (result: usize)
        requires
            self.wf(),
        ensures
            result == self.spec_wants(),
            result > 0,
    {
        if self.bytes.len() < HEADER {
            return HEADER - self.bytes.len();
        }
        let len: u32 = read_le32(self.bytes.as_slice(), 8);
        HEADER + len as usize - self.bytes.len()
    }

    /// Takes what one read gave: no more than was wanted, and nothing at the end of the stream.
    pub fn took(&mut self, part: &[u8]) -> (result: Result<Progress, SocketError>)
        requires
            old(self).wf(),
            part@.len() <= old(self).spec_wants(),
        ensures
            ({
                let before = old(self).spec_bytes();
                let all = before + part@;
                if part@.len() == 0 {
                    &&& final(self).wf()
                    &&& final(self).spec_bytes() == before
                    &&& if before.len() == 0 {
                        result == Ok::<Progress, SocketError>(Progress::Ended)
                    } else {
                        result matches Err(SocketError::Io(why)) && why@
                            == "failed to fill whole buffer"@
                    }
                } else if all.len() == HEADER && all.subrange(0, 8) != magic() {
                    result matches Err(error) && protocol_error(error, "unsupported version"@)
                } else if all.len() == HEADER && !readable(all) {
                    result matches Err(error) && protocol_error(
                        error,
                        "message size exceeds limit"@,
                    )
                } else if all.len() > HEADER && all.len() == HEADER + announced(all) {
                    &&& final(self).wf()
                    &&& final(self).spec_bytes() == Seq::<u8>::empty()
                    &&& result matches Ok(Progress::Message(body)) && body@ == all.subrange(
                        HEADER as int,
                        all.len() as int,
                    )
                } else {
                    &&& final(self).wf()
                    &&& final(self).spec_bytes() == all
                    &&& result == Ok::<Progress, SocketError>(Progress::More)
                }
            }),
    {
        if part.len() == 0 {
            if self.bytes.len() == 0 {
                return Ok(Progress::Ended);
            }
            return Err(SocketError::Io(String::from_str("failed to fill whole buffer")));
        }
        let had: usize = self.bytes.len();
        self.bytes.extend_from_slice(part);
        let ghost all = old(self).spec_bytes() + part@;
        assert(self.bytes@ =~= all);
        if self.bytes.len() < HEADER {
            return Ok(Progress::More);
        }
        proof {
            if had >= HEADER {
                assert(all.subrange(0, 8) =~= old(self).spec_bytes().subrange(0, 8));
                assert(all.subrange(8, 12) =~= old(self).spec_bytes().subrange(8, 12));
            }
        }
        let len: usize = match check_header(&self.bytes) {
            Ok(len) => len,
            Err(error) => {
                return Err(error);
            },
        };
        if self.bytes.len() < HEADER + len {
            return Ok(Progress::More);
        }
        let body = self.bytes.split_off(HEADER);
        assert(body@ =~= all.subrange(HEADER as int, all.len() as int));
        self.bytes = Vec::new();
        assert(self.bytes@ =~= Seq::empty());
        Ok(Progress::Message(body))
    }
}

/// Every body that can be sent is accepted and read back unchanged.
pub proof fn messages_are_read_back(body: Seq<u8>)
    requires
        1 <= body.len() <= MAX_MESSAGE,
    ensures
        readable(framed(body)),
        announced(framed(body)) == body.len(),
        framed(body).len() == HEADER + body.len(),
        framed(body).subrange(HEADER as int, framed(body).len() as int) == body,
{
    integers_round_trip(body.len() as u32, 0);
    let bytes = framed(body);
    assert(bytes.subrange(0, 8) =~= magic());
    assert(bytes.subrange(8, 12) =~= le32(body.len() as u32));
    assert(bytes.subrange(12, bytes.len() as int) =~= body);
}

} // verus!
