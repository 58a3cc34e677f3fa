//! The messages of an input stream and the ways it can go wrong.

use super::model::{Config, Error, Event, Mode, Status, SECOND};
use vstd::prelude::*;

verus! {

/// The protocol version that both sides must name.
pub const VERSION: u32 = 1;

/// Time for the first exchange, in nanoseconds.
pub const STARTUP: u128 = 5_000_000_000;

/// Messages that one round reads or writes at most.
pub const BURST: u32 = 32;

/// What a controller learns when it is taken.
#[derive(Debug, Clone, Copy, PartialEq, Eq, Structural)]
pub struct Welcome {
    pub mode: Mode,
    pub version: u32,
    pub controller: u64,
    pub epoch: u64,
    pub config: Config,
}

#[derive(Debug, PartialEq, Eq)]
pub enum Wire {
    Hello { version: u32, mode: Mode },
    Welcome(Welcome),
    Submit { epoch: u64, sequence: u64, event: Event },
    Reset,
    Heartbeat,
    Reply(Status),
    Reject(Error),
    Close,
}

/// Why a side gives the stream up.
#[derive(Debug, Clone, Copy, PartialEq, Eq, Structural)]
pub enum Fault {
    ExpectedHello,
    UnexpectedMessage,
    Reset(Error),
    InvalidOffer,
    InvalidWelcome,
    TimedOut,
    UnconsumedResults,
    UnexpectedReply,
}

impl Fault {
    /// What the fault says.
    pub open spec fn text(self) -> Seq<char> {
        match self {
            Fault::ExpectedHello => "expected input hello"@,
            Fault::UnexpectedMessage => "unexpected input message"@,
            Fault::Reset(error) => "reset: "@ + error.name_text(),
            Fault::InvalidOffer => "invalid input offer"@,
            Fault::InvalidWelcome => "invalid input welcome"@,
            Fault::TimedOut => "timed out"@,
            Fault::UnconsumedResults => "unconsumed input results"@,
            Fault::UnexpectedReply => "unexpected input reply"@,
        }
    }

    /// The fault in words.
    pub fn message(&self) -> (result: String)
        ensures
            result@ == self.text(),
    {
        match self {
            Fault::ExpectedHello => String::from_str("expected input hello"),
            Fault::UnexpectedMessage => String::from_str("unexpected input message"),
            Fault::Reset(error) => String::from_str("reset: ").concat(error.name()),
            Fault::InvalidOffer => String::from_str("invalid input offer"),
            Fault::InvalidWelcome => String::from_str("invalid input welcome"),
            Fault::TimedOut => String::from_str("timed out"),
            Fault::UnconsumedResults => String::from_str("unconsumed input results"),
            Fault::UnexpectedReply => String::from_str("unexpected input reply"),
        }
    }
}

/// What a side asks of its stream.
#[derive(Debug, PartialEq, Eq)]
pub enum Action {
    /// Take the next message, if there is one.
    Receive,
    /// Queue a message.
    Send(Wire),
    /// Write what is queued, as far as the stream takes it.
    Flush,
    /// Wait for a moment.
    Sleep,
    /// The stream has served its purpose.
    Finish,
    /// The stream cannot go on.
    Fail(Fault),
}

/// How the stream answers an action.
#[derive(Debug, PartialEq, Eq)]
pub enum Answer {
    /// A message was queued, or a moment has passed. `queued` bytes wait to be written.
    Done { queued: usize },
    /// The next message, if there was one.
    Message(Option<Wire>),
    /// Writing stopped. `queued` bytes wait to be written.
    Flushed { queued: usize },
}

/// Time between heartbeats: a quarter of the idle timeout, at most a second.
pub open spec fn heartbeat_interval(idle_timeout: u128) -> int {
    if idle_timeout as int / 4 < SECOND {
        idle_timeout as int / 4
    } else {
        SECOND as int
    }
}

pub fn interval(idle_timeout: u128) -> (result: u128)
    ensures
        result == heartbeat_interval(idle_timeout),
{
    if idle_timeout / 4 < SECOND {
        idle_timeout / 4
    } else {
        SECOND
    }
}

/// Time from one reading of a clock to a later one; none if the clock stepped back.
pub open spec fn since(earlier: u128, now: u128) -> int {
    if now > earlier {
        now - earlier
    } else {
        0
    }
}

pub fn elapsed_since(earlier: u128, now: u128) -> (result: u128)
    ensures
        result == since(earlier, now),
{
    if now > earlier {
        now - earlier
    } else {
        0
    }
}

} // verus!
