//! Byte exchanges bounded by one absolute deadline.
//!
//! A per-operation timeout lets a stalled or trickling peer extend an exchange indefinitely:
//! each partial read or write re-arms it. Here every operation is bounded by the time left
//! before one deadline, so the whole exchange returns in time however the peer paces its
//! bytes. Operations never ask for more than is wanted, so nothing past it is consumed.

use vstd::prelude::*;

verus! {

/// Why an exchange failed.
#[derive(Debug, Clone, Copy, PartialEq, Eq, Structural)]
pub enum ExchangeFault {
    TimedOut,
    /// The peer closed before everything was read.
    UnexpectedEof,
    /// The peer took nothing.
    WriteZero,
}

/// A deadline that all operations of an exchange share.
#[derive(Debug, Clone, Copy, PartialEq, Eq, Structural)]
pub struct Bounded {
    pub deadline: u128,
}

impl Bounded {
    /// Starts an exchange that must finish within that time.
    pub fn new(timeout: u128, now: u128) -> (result: Self)
        requires
            now + timeout <= u128::MAX,
        ensures
            result.deadline == now + timeout,
    {
        Bounded { deadline: now + timeout }
    }

    /// The time that is left: an operation that waits no longer ends by the deadline, however
    /// many came before it.
    pub fn remaining(&self, now: u128) -> (result: Result<u128, ExchangeFault>)
        ensures
            result == (if now < self.deadline {
                Ok::<u128, ExchangeFault>((self.deadline - now) as u128)
            } else {
                Err(ExchangeFault::TimedOut)
            }),
            result matches Ok(left) ==> left > 0 && now + left == self.deadline,
    {
        if now < self.deadline {
            Ok(self.deadline - now)
        } else {
            Err(ExchangeFault::TimedOut)
        }
    }

    /// How long to wait until the stream is ready, in milliseconds: at least one, and no more
    /// than the longest wait.
    pub fn ready_milliseconds(&self, now: u128) -> (result: Result<i32, ExchangeFault>)
        ensures
            result == (if now >= self.deadline {
                Err::<i32, ExchangeFault>(ExchangeFault::TimedOut)
            } else {
                let whole = (self.deadline - now) / 1_000_000;
                Ok(
                    if whole < 1 {
                        1
                    } else if whole > i32::MAX {
                        i32::MAX
                    } else {
                        whole as i32
                    },
                )
            }),
    {
        let left: u128 = match self.remaining(now) {
            Ok(left) => left,
            Err(fault) => {
                return Err(fault);
            },
        };
        let whole: u128 = left / 1_000_000;
        Ok(
            if whole < 1 {
                1
            } else if whole > i32::MAX as u128 {
                i32::MAX
            } else {
                whole as i32
            },
        )
    }
}

/// A read of a fixed number of bytes, in as many parts as the peer sends them.
pub struct ReadExact {
    bytes: Vec<u8>,
    wanted: usize,
}

impl ReadExact {
    pub closed spec fn spec_bytes(self) -> Seq<u8> {
        self.bytes@
    }

    pub closed spec fn spec_wanted(self) -> nat {
        self.wanted as nat
    }

    /// No more has been read than was wanted.
    pub open spec fn wf(self) -> bool {
        self.spec_bytes().len() <= self.spec_wanted()
    }

    pub fn new(wanted: usize) -> (result: Self)
        ensures
            result.wf(),
            result.spec_bytes() == Seq::<u8>::empty(),
            result.spec_wanted() == wanted,
    {
        let read = ReadExact { bytes: Vec::new(), wanted };
        assert(read.bytes@ =~= Seq::empty());
        read
    }

    /// How many bytes to ask for next; none when all have come.
    pub fn asks(&self) -> (result: usize)
        requires
            self.wf(),
        ensures
            result == self.spec_wanted() - self.spec_bytes().len(),
    {
        self.wanted - self.bytes.len()
    }

    /// Takes what one read gave: at most what was asked for, and nothing at the end of the
    /// stream.
    pub fn took(&mut self, part: &[u8]) -> (result: Result<(), ExchangeFault>)
        requires
            old(self).wf(),
            part@.len() <= old(self).spec_wanted() - old(self).spec_bytes().len(),
        ensures
            final(self).wf(),
            final(self).spec_wanted() == old(self).spec_wanted(),
            final(self).spec_bytes() == old(self).spec_bytes() + part@,
            result == (if part@.len() == 0 {
                Err::<(), ExchangeFault>(ExchangeFault::UnexpectedEof)
            } else {
                Ok(())
            }),
    {
        self.bytes.extend_from_slice(part);
        assert(self.bytes@ =~= old(self).bytes@ + part@);
        if part.len() == 0 {
            return Err(ExchangeFault::UnexpectedEof);
        }
        Ok(())
    }

    /// What has been read.
    pub fn bytes(&self) -> (result: &Vec<u8>)
        ensures
            result@ == self.spec_bytes(),
    {
        &self.bytes
    }
}

/// A write of all bytes, in as many parts as the peer takes them.
pub struct WriteAll {
    bytes: Vec<u8>,
    sent: usize,
}

impl WriteAll {
    pub closed spec fn spec_bytes(self) -> Seq<u8> {
        self.bytes@
    }

    pub closed spec fn spec_sent(self) -> nat {
        self.sent as nat
    }

    /// No more has been sent than there is.
    pub open spec fn wf(self) -> bool {
        self.spec_sent() <= self.spec_bytes().len()
    }

    pub fn new(bytes: Vec<u8>) -> (result: Self)
        ensures
            result.wf(),
            result.spec_bytes() == bytes@,
            result.spec_sent() == 0,
    {
        WriteAll { bytes, sent: 0 }
    }

    /// What is still to be sent.
    pub fn unsent(&self) -> (result: &[u8])
        requires
            self.wf(),
        ensures
            result@ == self.spec_bytes().subrange(
                self.spec_sent() as int,
                self.spec_bytes().len() as int,
            ),
    {
        vstd::slice::slice_subrange(self.bytes.as_slice(), self.sent, self.bytes.len())
    }

    /// Takes note of how many bytes one write sent.
    pub fn wrote(&mut self, count: usize) -> (result: Result<(), ExchangeFault>)
        requires
            old(self).wf(),
            count <= old(self).spec_bytes().len() - old(self).spec_sent(),
        ensures
            final(self).wf(),
            final(self).spec_bytes() == old(self).spec_bytes(),
            final(self).spec_sent() == old(self).spec_sent() + count,
            result == (if count == 0 {
                Err::<(), ExchangeFault>(ExchangeFault::WriteZero)
            } else {
                Ok(())
            }),
    {
        if count == 0 {
            return Err(ExchangeFault::WriteZero);
        }
        let len: usize = self.bytes.len();
        assert(self.sent + count <= len);
        self.sent = self.sent + count;
        Ok(())
    }
}

} // verus!
