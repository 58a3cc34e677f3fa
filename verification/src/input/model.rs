//! The vocabulary of an input session.

use super::binary64::Binary64;
use crate::text::byte_len;
use vstd::prelude::*;

verus! {

/// How a controller's keyboard input is understood by the target.
#[derive(Debug, Clone, Copy, PartialEq, Eq, Structural)]
pub enum Mode {
    Physical,
    SourceText,
    Cooperative,
}

impl Mode {
    pub open spec fn spec_bit(self) -> u32 {
        match self {
            Mode::Physical => 1,
            Mode::SourceText => 2,
            Mode::Cooperative => 4,
        }
    }

    /// The mode's bit in `Config::modes`.
    pub fn bit(self) -> (result: u32)
        ensures
            result == self.spec_bit(),
    {
        match self {
            Mode::Physical => 1,
            Mode::SourceText => 2,
            Mode::Cooperative => 4,
        }
    }
}

#[derive(Debug, Clone, Copy, PartialEq, Eq, Structural)]
pub enum Action {
    Down,
    Up,
    Repeat,
}

#[derive(Debug, PartialEq, Eq)]
pub enum Key {
    Physical(String),
    Logical(String),
}

impl Key {
    /// The key's name, whichever kind it is.
    pub open spec fn name(self) -> Seq<char> {
        match self {
            Key::Physical(name) => name@,
            Key::Logical(name) => name@,
        }
    }
}

impl Clone for Key {
    fn clone(&self) -> (result: Self)
        ensures
            result == *self,
    {
        match self {
            Key::Physical(name) => Key::Physical(name.clone()),
            Key::Logical(name) => Key::Logical(name.clone()),
        }
    }
}

#[derive(Debug, Clone, Copy, PartialEq, Eq, Structural)]
pub enum ScrollUnit {
    Pixel,
    Line,
    Page,
}

/// A point on the surface that one geometry revision describes.
#[derive(Debug, Clone, Copy, PartialEq, Eq, Structural)]
pub struct Position {
    pub revision: u64,
    pub x: Binary64,
    pub y: Binary64,
}

#[derive(Debug, PartialEq, Eq)]
pub enum Event {
    Key { press: u64, action: Action, key: Key, modifiers: u32 },
    Text(String),
    Motion(Position),
    Button { button: u32, action: Action, position: Position },
    Scroll { x: Binary64, y: Binary64, unit: ScrollUnit, position: Position },
}

/// Bytes that every queued event counts for, beside its text.
pub const EVENT_BYTES: usize = 96;

impl Event {
    /// Bytes of the event's own text.
    pub open spec fn text_bytes(self) -> nat {
        match self {
            Event::Text(text) => byte_len(text@),
            Event::Key { key, .. } => byte_len(key.name()),
            _ => 0,
        }
    }

    /// Bytes that the event takes from a queue's budget.
    pub open spec fn spec_bytes(self) -> nat {
        EVENT_BYTES as nat + self.text_bytes()
    }

    pub open spec fn spec_pointer(self) -> bool {
        self is Motion || self is Button || self is Scroll
    }

    /// Bytes that the event takes from a queue's budget.
    pub fn bytes(&self) -> (result: usize)
        requires
            self.spec_bytes() <= usize::MAX,
        ensures
            result == self.spec_bytes(),
    {
        let text: usize = match self {
            Event::Text(text) => text.as_str().as_bytes().len(),
            Event::Key { key: Key::Physical(name), .. } => name.as_str().as_bytes().len(),
            Event::Key { key: Key::Logical(name), .. } => name.as_str().as_bytes().len(),
            _ => 0,
        };
        EVENT_BYTES + text
    }

    /// Whether the event depends on where the pointer is.
    pub fn pointer(&self) -> (result: bool)
        ensures
            result == self.spec_pointer(),
    {
        match self {
            Event::Motion(_) => true,
            Event::Button { .. } => true,
            Event::Scroll { .. } => true,
            _ => false,
        }
    }
}

impl Clone for Event {
    fn clone(&self) -> (result: Self)
        ensures
            result == *self,
    {
        match self {
            Event::Key { press, action, key, modifiers } => Event::Key {
                press: *press,
                action: *action,
                key: key.clone(),
                modifiers: *modifiers,
            },
            Event::Text(text) => Event::Text(text.clone()),
            Event::Motion(position) => Event::Motion(*position),
            Event::Button { button, action, position } => Event::Button {
                button: *button,
                action: *action,
                position: *position,
            },
            Event::Scroll { x, y, unit, position } => Event::Scroll {
                x: *x,
                y: *y,
                unit: *unit,
                position: *position,
            },
        }
    }
}

pub const CAP_PHYSICAL: u32 = 1;

pub const CAP_LOGICAL: u32 = 2;

pub const CAP_TEXT: u32 = 4;

pub const CAP_POINTER: u32 = 8;

pub const CAP_SCROLL: u32 = 16;

pub const CAP_ALL: u32 = 31;

/// The value zero.
pub open spec fn zero() -> Binary64 {
    Binary64 { bits: 0 }
}

/// The surface that pointer positions refer to.
#[derive(Debug, Clone, Copy, PartialEq, Eq, Structural)]
pub struct Geometry {
    pub revision: u64,
    pub width: Binary64,
    pub height: Binary64,
}

impl Geometry {
    pub open spec fn spec_valid(self) -> bool {
        &&& self.revision != 0
        &&& self.width.finite()
        &&& self.height.finite()
        &&& zero().less(self.width)
        &&& zero().less(self.height)
    }

    /// Whether the revision is set and both extents are finite and positive.
    pub fn valid(self) -> (result: bool)
        ensures
            result == self.spec_valid(),
    {
        let zero = Binary64 { bits: 0 };
        self.revision != 0 && self.width.is_finite() && self.height.is_finite() && zero.below(
            self.width,
        ) && zero.below(self.height)
    }
}

/// Nanoseconds in a millisecond.
pub const MILLISECOND: u128 = 1_000_000;

/// Nanoseconds in a second.
pub const SECOND: u128 = 1_000_000_000;

/// What a target accepts, and its bounds.
#[derive(Debug, Clone, Copy, PartialEq, Eq, Structural)]
pub struct Config {
    pub modes: u32,
    pub capabilities: u32,
    pub max_events: usize,
    pub max_bytes: usize,
    pub max_text_bytes: usize,
    /// Nanoseconds without a heartbeat after which a controller expires.
    pub idle_timeout: u128,
    pub geometry: Geometry,
    pub independent_contributions: bool,
    pub interaction_cancel: bool,
}

impl Default for Config {
    fn default() -> (result: Self)
        ensures
            result.modes == 4,
            result.capabilities == CAP_ALL,
            result.max_events == 256,
            result.max_bytes == 256 * 1024,
            result.max_text_bytes == 16 * 1024,
            result.idle_timeout == 5 * SECOND,
            result.geometry.revision == 1,
            result.geometry.width == (Binary64 { bits: 0x4074_0000_0000_0000 }),
            result.geometry.height == (Binary64 { bits: 0x4066_8000_0000_0000 }),
            !result.independent_contributions,
            !result.interaction_cancel,
    {
        Config {
            modes: 4,
            capabilities: CAP_ALL,
            max_events: 256,
            max_bytes: 256 * 1024,
            max_text_bytes: 16 * 1024,
            idle_timeout: 5 * SECOND,
            geometry: Geometry {
                revision: 1,
                width: Binary64 { bits: 0x4074_0000_0000_0000 },
                height: Binary64 { bits: 0x4066_8000_0000_0000 },
            },
            independent_contributions: false,
            interaction_cancel: false,
        }
    }
}

#[derive(Debug, Clone, Copy, PartialEq, Eq, Structural)]
pub enum Error {
    Invalid,
    Unsupported,
    Busy,
    Closed,
    Stale,
    Overflow,
    CleanupFailed,
}

impl Error {
    /// The error's name.
    pub open spec fn name_text(self) -> Seq<char> {
        match self {
            Error::Invalid => "Invalid"@,
            Error::Unsupported => "Unsupported"@,
            Error::Busy => "Busy"@,
            Error::Closed => "Closed"@,
            Error::Stale => "Stale"@,
            Error::Overflow => "Overflow"@,
            Error::CleanupFailed => "CleanupFailed"@,
        }
    }

    /// The error's name.
    pub fn name(self) -> (result: &'static str)
        ensures
            result@ == self.name_text(),
    {
        match self {
            Error::Invalid => "Invalid",
            Error::Unsupported => "Unsupported",
            Error::Busy => "Busy",
            Error::Closed => "Closed",
            Error::Stale => "Stale",
            Error::Overflow => "Overflow",
            Error::CleanupFailed => "CleanupFailed",
        }
    }
}

/// What an executor reports of one work item.
#[derive(Debug, Clone, Copy, PartialEq, Eq, Structural)]
pub enum Outcome {
    Executed,
    Rejected,
    Unsupported,
    Partial,
    Uncertain,
}

#[derive(Debug, Clone, Copy, PartialEq, Eq, Structural)]
pub enum Scope {
    All,
    Pointer,
}

#[derive(Debug, Clone, Copy, PartialEq, Eq, Structural)]
pub enum Reason {
    Focus,
    Geometry,
    Disconnect,
    Expired,
    Overflow,
    Execution,
}

#[derive(Debug, PartialEq, Eq)]
pub enum Operation {
    Event(Event),
    Cleanup { scope: Scope, reason: Reason },
}

impl Clone for Operation {
    fn clone(&self) -> (result: Self)
        ensures
            result == *self,
    {
        match self {
            Operation::Event(event) => Operation::Event(event.clone()),
            Operation::Cleanup { scope, reason } => Operation::Cleanup {
                scope: *scope,
                reason: *reason,
            },
        }
    }
}

/// One item for the executor.
#[derive(Debug, PartialEq, Eq)]
pub struct Work {
    pub mode: Mode,
    pub id: u64,
    pub controller: u64,
    pub epoch: u64,
    pub sequence: u64,
    pub operation: Operation,
}

impl Clone for Work {
    fn clone(&self) -> (result: Self)
        ensures
            result == *self,
    {
        Work {
            mode: self.mode,
            id: self.id,
            controller: self.controller,
            epoch: self.epoch,
            sequence: self.sequence,
            operation: self.operation.clone(),
        }
    }
}

/// What a controller learns of its submissions.
#[derive(Debug, Clone, Copy, PartialEq, Eq, Structural)]
pub enum Status {
    Completed { sequence: u64, outcome: Outcome },
    Rejected { sequence: u64, error: Error },
    Reset { epoch: u64, geometry: Geometry },
    Closed { reason: Reason, clean: bool },
}

} // verus!
