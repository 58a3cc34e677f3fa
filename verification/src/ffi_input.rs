//! The C boundary of input, on plain values.
//!
//! Coordinates cross as the bits of their binary64 value. Key names are NUL-terminated in a
//! buffer of [`KEY_LEN`] bytes; text is borrowed with its length. The host rejects null pointers
//! before it calls these functions.

use crate::ffi::{
    FtStatus, FT_STATUS_CAPACITY, FT_STATUS_CLOSED, FT_STATUS_DRAINING, FT_STATUS_EMPTY,
    FT_STATUS_ERROR, FT_STATUS_INVALID_ARGUMENT, FT_STATUS_OK, FT_STATUS_RECOVERY_REQUIRED,
    FT_STATUS_STALE, FT_STATUS_UNSUPPORTED,
};
use crate::input::binary64::Binary64;
use crate::input::client::{Client, ConnectError};
use crate::input::model::{
    Action, Config, Error, Event, Geometry, Key, Mode, Operation, Outcome, Position, Reason,
    Scope, ScrollUnit, Status, Work,
};
use crate::input::session::Target;
use crate::input::state::{config_allowed, Session};
use crate::text::utf8_text;
use vstd::prelude::*;
use vstd::utf8::{decode_utf8, encode_utf8, encode_utf8_decode_utf8, encode_utf8_valid_utf8, valid_utf8};

verus! {

/// The bytes of a key's name, with its terminator.
pub const KEY_LEN: usize = 64;

/// The longest text of one event, in bytes.
pub const TEXT_LEN: usize = 16384;

#[derive(Debug, Clone, Copy, PartialEq, Eq, Structural)]
pub struct FtInputConfig {
    pub modes: u32,
    pub capabilities: u32,
    pub max_events: u32,
    pub max_bytes: u32,
    pub max_text_bytes: u32,
    pub idle_timeout_ms: u32,
    pub independent_contributions: u32,
    pub interaction_cancel: u32,
    pub geometry: Geometry,
}

/// An event as C sees it.
#[derive(Debug, PartialEq, Eq)]
pub struct FtInputEvent {
    pub kind: u32,
    pub action: u32,
    pub key_kind: u32,
    pub modifiers: u32,
    pub press: u64,
    pub geometry_revision: u64,
    pub button: u32,
    pub scroll_unit: u32,
    pub x: Binary64,
    pub y: Binary64,
    pub pointer_x: Binary64,
    pub pointer_y: Binary64,
    /// The key's name, terminated by a zero byte.
    pub key: Vec<u8>,
    /// `None` where C passes a null pointer.
    pub text: Option<Vec<u8>>,
}

/// A work item as C sees it.
#[derive(Debug, PartialEq, Eq)]
pub struct FtInputOperation {
    pub controller: u64,
    pub epoch: u64,
    pub sequence: u64,
    pub scope: u32,
    pub reason: u32,
    pub mode: u32,
    pub reserved: u32,
    pub event: FtInputEvent,
}

/// A status as C sees it.
#[derive(Debug, Clone, Copy, PartialEq, Eq, Structural)]
pub struct FtInputStatus {
    pub kind: u32,
    pub result: i32,
    pub sequence: u64,
    pub epoch: u64,
    pub reason: u32,
    pub clean: u32,
    pub geometry: Geometry,
}

/// The status of an error.
pub open spec fn status_of(error: Error) -> FtStatus {
    match error {
        Error::Invalid => FT_STATUS_INVALID_ARGUMENT,
        Error::Unsupported => FT_STATUS_UNSUPPORTED,
        Error::Busy => FT_STATUS_DRAINING,
        Error::Closed => FT_STATUS_CLOSED,
        Error::Stale => FT_STATUS_STALE,
        Error::Overflow => FT_STATUS_CAPACITY,
        Error::CleanupFailed => FT_STATUS_RECOVERY_REQUIRED,
    }
}

/// The status of an error.
pub fn status(error: Error) -> (result: FtStatus)
    ensures
        result == status_of(error),
{
    match error {
        Error::Invalid => FT_STATUS_INVALID_ARGUMENT,
        Error::Unsupported => FT_STATUS_UNSUPPORTED,
        Error::Busy => FT_STATUS_DRAINING,
        Error::Closed => FT_STATUS_CLOSED,
        Error::Stale => FT_STATUS_STALE,
        Error::Overflow => FT_STATUS_CAPACITY,
        Error::CleanupFailed => FT_STATUS_RECOVERY_REQUIRED,
    }
}

/// The status of an outcome.
pub fn result_status(outcome: Result<(), Error>) -> (result: FtStatus)
    ensures
        result == (match outcome {
            Ok(()) => FT_STATUS_OK,
            Err(error) => status_of(error),
        }),
{
    match outcome {
        Ok(()) => FT_STATUS_OK,
        Err(error) => status(error),
    }
}

/// The status of a failed connection.
pub fn connect_status(error: ConnectError) -> (result: FtStatus)
    ensures
        result == (match error {
            ConnectError::Admission(error) => status_of(error),
            ConnectError::Transport(_) => FT_STATUS_ERROR,
        }),
{
    match error {
        ConnectError::Admission(error) => status(error),
        ConnectError::Transport(_) => FT_STATUS_ERROR,
    }
}

/// The mode of a number.
pub open spec fn mode_of(value: u32) -> Option<Mode> {
    if value == 1 {
        Some(Mode::Physical)
    } else if value == 2 {
        Some(Mode::SourceText)
    } else if value == 4 {
        Some(Mode::Cooperative)
    } else {
        None
    }
}

/// The mode of a number.
pub fn mode(value: u32) -> (result: Option<Mode>)
    ensures
        result == mode_of(value),
        forall|mode: Mode| result == Some(mode) <==> value == #[trigger] mode.spec_bit(),
{
    match value {
        1 => Some(Mode::Physical),
        2 => Some(Mode::SourceText),
        4 => Some(Mode::Cooperative),
        _ => None,
    }
}

/// The number of a reason.
pub open spec fn reason_code(reason: Reason) -> u32 {
    match reason {
        Reason::Focus => 1,
        Reason::Geometry => 2,
        Reason::Disconnect => 3,
        Reason::Expired => 4,
        Reason::Overflow => 5,
        Reason::Execution => 6,
    }
}

/// The number of a reason.
pub fn reason(value: Reason) -> (result: u32)
    ensures
        result == reason_code(value),
{
    match value {
        Reason::Focus => 1,
        Reason::Geometry => 2,
        Reason::Disconnect => 3,
        Reason::Expired => 4,
        Reason::Overflow => 5,
        Reason::Execution => 6,
    }
}

/// The number of an outcome.
pub open spec fn outcome_number(outcome: Outcome) -> i32 {
    match outcome {
        Outcome::Executed => 0,
        Outcome::Rejected => 1,
        Outcome::Unsupported => 2,
        Outcome::Partial => 3,
        Outcome::Uncertain => 4,
    }
}

/// The outcome of a number.
pub fn outcome(value: u32) -> (result: Option<Outcome>)
    ensures
        match result {
            Some(outcome) => outcome_number(outcome) == value,
            None => value > 4,
        },
{
    match value {
        0 => Some(Outcome::Executed),
        1 => Some(Outcome::Rejected),
        2 => Some(Outcome::Unsupported),
        3 => Some(Outcome::Partial),
        4 => Some(Outcome::Uncertain),
        _ => None,
    }
}

/// The number of an outcome.
pub fn outcome_code(value: Outcome) -> (result: i32)
    ensures
        result == outcome_number(value),
{
    match value {
        Outcome::Executed => 0,
        Outcome::Rejected => 1,
        Outcome::Unsupported => 2,
        Outcome::Partial => 3,
        Outcome::Uncertain => 4,
    }
}

/// The number of an action.
pub open spec fn action_number(action: Action) -> u32 {
    match action {
        Action::Down => 1,
        Action::Up => 2,
        Action::Repeat => 3,
    }
}

/// The action of a number.
pub open spec fn action_of(value: u32) -> Result<Action, Error> {
    if value == 1 {
        Ok(Action::Down)
    } else if value == 2 {
        Ok(Action::Up)
    } else if value == 3 {
        Ok(Action::Repeat)
    } else {
        Err(Error::Invalid)
    }
}

/// The action of a number.
pub fn action(value: u32) -> (result: Result<Action, Error>)
    ensures
        result == action_of(value),
{
    match value {
        1 => Ok(Action::Down),
        2 => Ok(Action::Up),
        3 => Ok(Action::Repeat),
        _ => Err(Error::Invalid),
    }
}

/// The number of an action.
pub fn action_code(value: Action) -> (result: u32)
    ensures
        result == action_number(value),
{
    match value {
        Action::Down => 1,
        Action::Up => 2,
        Action::Repeat => 3,
    }
}

/// How many bytes stand before the first zero byte, or in all.
pub open spec fn name_len(key: Seq<u8>) -> nat
    decreases key.len(),
{
    if key.len() == 0 || key[0] == 0 {
        0
    } else {
        1 + name_len(key.drop_first())
    }
}

proof fn lemma_name_len(key: Seq<u8>, n: nat)
    requires
        n <= key.len(),
        forall|i: int| 0 <= i < n ==> key[i] != 0,
        n == key.len() || key[n as int] == 0,
    ensures
        name_len(key) == n,
    decreases n,
{
    if n > 0 {
        let rest = key.drop_first();
        assert forall|i: int| 0 <= i < n - 1 implies rest[i] != 0 by {
            assert(rest[i] == key[i + 1]);
        }
        lemma_name_len(rest, (n - 1) as nat);
    }
}

/// The key of a number and a name.
pub open spec fn key_of(kind: u32, name: Seq<char>, key: Key) -> bool {
    match key {
        Key::Physical(text) => kind == 1 && text@ == name,
        Key::Logical(text) => kind == 2 && text@ == name,
    }
}

/// The unit of a number.
pub open spec fn unit_of(value: u32) -> Option<ScrollUnit> {
    if value == 1 {
        Some(ScrollUnit::Pixel)
    } else if value == 2 {
        Some(ScrollUnit::Line)
    } else if value == 3 {
        Some(ScrollUnit::Page)
    } else {
        None
    }
}

/// Whether C describes an event.
pub open spec fn readable(e: FtInputEvent) -> bool {
    if e.kind == 1 {
        &&& name_len(e.key@) < e.key@.len()
        &&& valid_utf8(e.key@.take(name_len(e.key@) as int))
        &&& e.key_kind == 1 || e.key_kind == 2
        &&& action_of(e.action) is Ok
    } else if e.kind == 2 {
        e.text matches Some(text) && 1 <= text@.len() <= TEXT_LEN && valid_utf8(text@)
    } else if e.kind == 3 {
        true
    } else if e.kind == 4 {
        action_of(e.action) is Ok
    } else {
        e.kind == 5 && unit_of(e.scroll_unit) is Some
    }
}

/// Whether an event is the one that C describes.
pub open spec fn described_by(event: Event, e: FtInputEvent) -> bool {
    let position = Position { revision: e.geometry_revision, x: e.x, y: e.y };
    match event {
        Event::Key { press, action, key, modifiers } => {
            &&& e.kind == 1
            &&& press == e.press
            &&& action_of(e.action) == Ok::<Action, Error>(action)
            &&& key_of(e.key_kind, decode_utf8(e.key@.take(name_len(e.key@) as int)), key)
            &&& modifiers == e.modifiers
        },
        Event::Text(text) => e.kind == 2 && e.text is Some && text@ == decode_utf8(e.text->0@),
        Event::Motion(at) => e.kind == 3 && at == position,
        Event::Button { button, action, position: at } => {
            &&& e.kind == 4
            &&& button == e.button
            &&& action_of(e.action) == Ok::<Action, Error>(action)
            &&& at == position
        },
        Event::Scroll { x, y, unit, position: at } => {
            &&& e.kind == 5
            &&& x == e.x
            &&& y == e.y
            &&& unit_of(e.scroll_unit) == Some(unit)
            &&& at == (Position {
                revision: e.geometry_revision,
                x: e.pointer_x,
                y: e.pointer_y,
            })
        },
    }
}

/// The name that a key's buffer holds.
fn key_name(key: &Vec<u8>) -> (result: Option<String>)
    ensures
        match result {
            Some(name) => {
                &&& name_len(key@) < key@.len()
                &&& valid_utf8(key@.take(name_len(key@) as int))
                &&& name@ == decode_utf8(key@.take(name_len(key@) as int))
            },
            None => name_len(key@) == key@.len() || !valid_utf8(
                key@.take(name_len(key@) as int),
            ),
        },
{
    let mut n: usize = 0;
    while n < key.len() && key[n] != 0
        invariant
            n <= key@.len(),
            forall|i: int| 0 <= i < n ==> key@[i] != 0,
        decreases key@.len() - n,
    {
        n = n + 1;
    }
    proof {
        lemma_name_len(key@, n as nat);
    }
    if n == key.len() {
        return None;
    }
    let name = vstd::slice::slice_subrange(key.as_slice(), 0, n);
    assert(name@ =~= key@.take(n as int));
    utf8_text(name)
}

/// The event that C describes.
pub fn event(e: &FtInputEvent) -> (result: Result<Event, Error>)
    ensures
        match result {
            Ok(event) => readable(*e) && described_by(event, *e),
            Err(error) => error == Error::Invalid && !readable(*e),
        },
{
    let position = Position { revision: e.geometry_revision, x: e.x, y: e.y };
    if e.kind == 1 {
        let name = match key_name(&e.key) {
            Some(name) => name,
            None => {
                return Err(Error::Invalid);
            },
        };
        let key = if e.key_kind == 1 {
            Key::Physical(name)
        } else if e.key_kind == 2 {
            Key::Logical(name)
        } else {
            return Err(Error::Invalid);
        };
        match action(e.action) {
            Ok(action) => Ok(Event::Key { press: e.press, action, key, modifiers: e.modifiers }),
            Err(error) => Err(error),
        }
    } else if e.kind == 2 {
        match &e.text {
            None => Err(Error::Invalid),
            Some(bytes) => {
                if bytes.len() == 0 || bytes.len() > TEXT_LEN {
                    return Err(Error::Invalid);
                }
                match utf8_text(bytes.as_slice()) {
                    Some(text) => Ok(Event::Text(text)),
                    None => Err(Error::Invalid),
                }
            },
        }
    } else if e.kind == 3 {
        Ok(Event::Motion(position))
    } else if e.kind == 4 {
        match action(e.action) {
            Ok(action) => Ok(Event::Button { button: e.button, action, position }),
            Err(error) => Err(error),
        }
    } else if e.kind == 5 {
        let unit = if e.scroll_unit == 1 {
            ScrollUnit::Pixel
        } else if e.scroll_unit == 2 {
            ScrollUnit::Line
        } else if e.scroll_unit == 3 {
            ScrollUnit::Page
        } else {
            return Err(Error::Invalid);
        };
        Ok(
            Event::Scroll {
                x: e.x,
                y: e.y,
                unit,
                position: Position {
                    revision: e.geometry_revision,
                    x: e.pointer_x,
                    y: e.pointer_y,
                },
            },
        )
    } else {
        Err(Error::Invalid)
    }
}

/// A name in a key's buffer: cut where the buffer ends, and filled with zero bytes.
pub open spec fn padded(bytes: Seq<u8>) -> Seq<u8> {
    Seq::new(
        KEY_LEN as nat,
        |i: int|
            if i < bytes.len() {
                bytes[i]
            } else {
                0
            },
    )
}

/// A name in a key's buffer.
fn pad(name: &str) -> (result: Vec<u8>)
    ensures
        result@ == padded(encode_utf8(name@)),
{
    let bytes = name.as_bytes();
    let mut out: Vec<u8> = Vec::new();
    let mut i: usize = 0;
    while i < KEY_LEN
        invariant
            i <= KEY_LEN,
            bytes@ == encode_utf8(name@),
            out@ == padded(bytes@).take(i as int),
        decreases KEY_LEN - i,
    {
        if i < bytes.len() {
            out.push(bytes[i]);
        } else {
            out.push(0);
        }
        assert(out@ =~= padded(bytes@).take(i + 1));
        i = i + 1;
    }
    assert(out@ =~= padded(bytes@));
    out
}

/// The event that says nothing.
pub open spec fn blank(e: FtInputEvent) -> bool {
    &&& e.kind == 0
    &&& e.action == 0
    &&& e.key_kind == 0
    &&& e.modifiers == 0
    &&& e.press == 0
    &&& e.geometry_revision == 0
    &&& e.button == 0
    &&& e.scroll_unit == 0
    &&& e.x == (Binary64 { bits: 0 })
    &&& e.y == (Binary64 { bits: 0 })
    &&& e.pointer_x == (Binary64 { bits: 0 })
    &&& e.pointer_y == (Binary64 { bits: 0 })
    &&& e.key@ == padded(Seq::empty())
    &&& e.text is None
}

impl FtInputEvent {
    /// The event that says nothing.
    pub fn none() -> (result: Self)
        ensures
            blank(result),
    {
        let zero = Binary64 { bits: 0 };
        let key = pad("");
        proof {
            reveal_strlit("");
            assert(""@ =~= Seq::<char>::empty());
            assert(encode_utf8(""@) =~= Seq::<u8>::empty());
        }
        FtInputEvent {
            kind: 0,
            action: 0,
            key_kind: 0,
            modifiers: 0,
            press: 0,
            geometry_revision: 0,
            button: 0,
            scroll_unit: 0,
            x: zero,
            y: zero,
            pointer_x: zero,
            pointer_y: zero,
            key,
            text: None,
        }
    }
}

/// How an event is described: everything that it does not hold is zero.
pub open spec fn describes(e: FtInputEvent, event: Event) -> bool {
    let none = Binary64 { bits: 0 };
    let position = match event {
        Event::Motion(position) => position,
        Event::Button { position, .. } => position,
        Event::Scroll { x, y, position, .. } => Position { revision: position.revision, x, y },
        _ => Position { revision: 0, x: none, y: none },
    };
    &&& e.geometry_revision == position.revision
    &&& e.x == position.x
    &&& e.y == position.y
    &&& e.kind == (match event {
        Event::Key { .. } => 1u32,
        Event::Text(_) => 2,
        Event::Motion(_) => 3,
        Event::Button { .. } => 4,
        Event::Scroll { .. } => 5,
    })
    &&& e.action == (match event {
        Event::Key { action, .. } => action_number(action),
        Event::Button { action, .. } => action_number(action),
        _ => 0,
    })
    &&& match event {
        Event::Key { press, key, modifiers, .. } => {
            &&& e.press == press
            &&& e.modifiers == modifiers
            &&& e.key_kind == (if key is Physical {
                1u32
            } else {
                2
            })
            &&& e.key@ == padded(encode_utf8(key.name()))
        },
        _ => {
            &&& e.press == 0
            &&& e.modifiers == 0
            &&& e.key_kind == 0
            &&& e.key@ == padded(Seq::empty())
        },
    }
    &&& match event {
        Event::Text(text) => e.text is Some && e.text->0@ == encode_utf8(text@),
        _ => e.text is None,
    }
    &&& e.button == (match event {
        Event::Button { button, .. } => button,
        _ => 0,
    })
    &&& match event {
        Event::Scroll { unit, position: at, .. } => {
            &&& unit_of(e.scroll_unit) == Some(unit)
            &&& e.pointer_x == at.x
            &&& e.pointer_y == at.y
        },
        _ => {
            &&& e.scroll_unit == 0
            &&& e.pointer_x == none
            &&& e.pointer_y == none
        },
    }
}

/// Describes an event.
pub fn describe(event: &Event) -> (result: FtInputEvent)
    ensures
        describes(result, *event),
{
    let mut out = FtInputEvent::none();
    match event {
        Event::Key { press, action, key, modifiers } => {
            out.kind = 1;
            out.press = *press;
            out.action = action_code(*action);
            out.modifiers = *modifiers;
            match key {
                Key::Physical(name) => {
                    out.key_kind = 1;
                    out.key = pad(name.as_str());
                },
                Key::Logical(name) => {
                    out.key_kind = 2;
                    out.key = pad(name.as_str());
                },
            }
        },
        Event::Text(text) => {
            out.kind = 2;
            let mut bytes: Vec<u8> = Vec::new();
            bytes.extend_from_slice(text.as_str().as_bytes());
            assert(bytes@ =~= encode_utf8(text@));
            out.text = Some(bytes);
        },
        Event::Motion(position) => {
            out.kind = 3;
            out.geometry_revision = position.revision;
            out.x = position.x;
            out.y = position.y;
        },
        Event::Button { button, action, position } => {
            out.kind = 4;
            out.button = *button;
            out.action = action_code(*action);
            out.geometry_revision = position.revision;
            out.x = position.x;
            out.y = position.y;
        },
        Event::Scroll { x, y, unit, position } => {
            out.kind = 5;
            out.x = *x;
            out.y = *y;
            out.scroll_unit = match unit {
                ScrollUnit::Pixel => 1,
                ScrollUnit::Line => 2,
                ScrollUnit::Page => 3,
            };
            out.geometry_revision = position.revision;
            out.pointer_x = position.x;
            out.pointer_y = position.y;
        },
    }
    out
}

/// Whether an event's text goes through C's buffers unchanged: a key's name has no zero byte
/// and leaves room for its terminator, and a text is neither empty nor too long.
pub open spec fn crossable(event: Event) -> bool {
    match event {
        Event::Key { key, .. } => {
            let bytes = encode_utf8(key.name());
            bytes.len() < KEY_LEN && forall|i: int| 0 <= i < bytes.len() ==> #[trigger] bytes[i] != 0
        },
        Event::Text(text) => 1 <= encode_utf8(text@).len() <= TEXT_LEN,
        _ => true,
    }
}

/// What is described is read back: the description of an event that goes through C's buffers is
/// one that is accepted, and it describes that event and no other.
pub proof fn events_survive_the_boundary(event: Event, e: FtInputEvent)
    requires
        crossable(event),
        describes(e, event),
    ensures
        readable(e),
        described_by(event, e),
{
    match event {
        Event::Key { key, .. } => {
            let bytes = encode_utf8(key.name());
            lemma_name_len(e.key@, bytes.len());
            assert(e.key@.take(bytes.len() as int) =~= bytes);
            encode_utf8_valid_utf8(key.name());
            encode_utf8_decode_utf8(key.name());
        },
        Event::Text(text) => {
            encode_utf8_valid_utf8(text@);
            encode_utf8_decode_utf8(text@);
        },
        _ => {},
    }
}

/// How a work item is described.
pub open spec fn work_described(out: FtInputOperation, work: Work) -> bool {
    &&& out.mode == work.mode.spec_bit()
    &&& out.controller == work.controller
    &&& out.epoch == work.epoch
    &&& out.sequence == work.sequence
    &&& out.reserved == 0
    &&& match work.operation {
        Operation::Event(event) => {
            describes(out.event, event) && out.scope == 0 && out.reason == 0
        },
        Operation::Cleanup { scope, reason } => {
            &&& blank((FtInputEvent { kind: 0, ..out.event }))
            &&& out.event.kind == 6
            &&& out.scope == (if scope is All {
                1u32
            } else {
                2
            })
            &&& out.reason == reason_code(reason)
        },
    }
}

/// Describes a work item.
pub fn ft_input_work_describe(work: &Work) -> (result: FtInputOperation)
    ensures
        work_described(result, *work),
{
    let mut out = FtInputOperation {
        controller: work.controller,
        epoch: work.epoch,
        sequence: work.sequence,
        scope: 0,
        reason: 0,
        mode: work.mode.bit(),
        reserved: 0,
        event: FtInputEvent::none(),
    };
    match &work.operation {
        Operation::Event(event) => {
            out.event = describe(event);
        },
        Operation::Cleanup { scope, reason: why } => {
            out.event.kind = 6;
            out.scope = match scope {
                Scope::All => 1,
                Scope::Pointer => 2,
            };
            out.reason = reason(*why);
        },
    }
    out
}

/// A configuration as C sees it: numbers that do not fit lose their high bits.
pub open spec fn config_described(config: Config) -> FtInputConfig {
    FtInputConfig {
        modes: config.modes,
        capabilities: config.capabilities,
        max_events: (config.max_events as int % 0x1_0000_0000) as u32,
        max_bytes: (config.max_bytes as int % 0x1_0000_0000) as u32,
        max_text_bytes: (config.max_text_bytes as int % 0x1_0000_0000) as u32,
        idle_timeout_ms: (config.idle_timeout / 1_000_000 % 0x1_0000_0000) as u32,
        independent_contributions: if config.independent_contributions {
            1
        } else {
            0
        },
        interaction_cancel: if config.interaction_cancel {
            1
        } else {
            0
        },
        geometry: config.geometry,
    }
}

/// A configuration as C sees it.
pub fn describe_config(config: &Config) -> (result: FtInputConfig)
    ensures
        result == config_described(*config),
{
    FtInputConfig {
        modes: config.modes,
        capabilities: config.capabilities,
        max_events: (config.max_events as u64 % 0x1_0000_0000) as u32,
        max_bytes: (config.max_bytes as u64 % 0x1_0000_0000) as u32,
        max_text_bytes: (config.max_text_bytes as u64 % 0x1_0000_0000) as u32,
        idle_timeout_ms: (config.idle_timeout / 1_000_000 % 0x1_0000_0000) as u32,
        independent_contributions: if config.independent_contributions {
            1
        } else {
            0
        },
        interaction_cancel: if config.interaction_cancel {
            1
        } else {
            0
        },
        geometry: config.geometry,
    }
}

/// The default configuration as C sees it.
pub fn ft_input_config_default() -> (result: FtInputConfig)
    ensures
        result.modes == 4,
        result.capabilities == 31,
        result.max_events == 256,
        result.max_bytes == 262144,
        result.max_text_bytes == 16384,
        result.idle_timeout_ms == 5000,
        result.independent_contributions == 0,
        result.interaction_cancel == 0,
        result.geometry.revision == 1,
        result.geometry.width == (Binary64 { bits: 0x4074_0000_0000_0000 }),
        result.geometry.height == (Binary64 { bits: 0x4066_8000_0000_0000 }),
{
    let config: Config = Default::default();
    describe_config(&config)
}

/// The configuration that C asks for.
pub open spec fn config_asked(config: FtInputConfig) -> Config {
    Config {
        modes: config.modes,
        capabilities: config.capabilities,
        max_events: config.max_events as usize,
        max_bytes: config.max_bytes as usize,
        max_text_bytes: config.max_text_bytes as usize,
        idle_timeout: (config.idle_timeout_ms * 1_000_000) as u128,
        geometry: config.geometry,
        independent_contributions: config.independent_contributions != 0,
        interaction_cancel: config.interaction_cancel != 0,
    }
}

/// Creates a target, unless the handle is taken or the configuration leaves its bounds.
pub fn ft_input_target_create(config: &FtInputConfig, out: &mut Option<Target>) -> (result: FtStatus)
    ensures
        if *old(out) is Some || config.independent_contributions > 1 || config.interaction_cancel > 1
        {
            result == FT_STATUS_INVALID_ARGUMENT && *final(out) == *old(out)
        } else if !config_allowed(config_asked(*config)) {
            result == FT_STATUS_INVALID_ARGUMENT && *final(out) is None
        } else {
            &&& result == FT_STATUS_OK
            &&& *final(out) matches Some(target)
            &&& target@.inv()
            &&& target@ == (Session {
                config: config_asked(*config),
                next_controller: 0,
                next_work: 0,
                active: None,
                queue: Seq::empty(),
                flight: None,
                barrier: None,
                failed: false,
                departed: Map::empty(),
            })
        },
{
    if out.is_some() || config.independent_contributions > 1 || config.interaction_cancel > 1 {
        return FT_STATUS_INVALID_ARGUMENT;
    }
    let asked = Config {
        modes: config.modes,
        capabilities: config.capabilities,
        max_events: config.max_events as usize,
        max_bytes: config.max_bytes as usize,
        max_text_bytes: config.max_text_bytes as usize,
        idle_timeout: config.idle_timeout_ms as u128 * 1_000_000,
        geometry: config.geometry,
        independent_contributions: config.independent_contributions != 0,
        interaction_cancel: config.interaction_cancel != 0,
    };
    match Target::new(asked) {
        Ok(target) => {
            *out = Some(target);
            FT_STATUS_OK
        },
        Err(error) => status(error),
    }
}

/// Takes the next work item into an empty handle.
pub fn ft_input_target_next(target: &mut Target, now: u128, out: &mut Option<Work>) -> (result:
    FtStatus)
    requires
        old(target)@.inv(),
        old(target)@.countable(),
    ensures
        final(target)@.inv(),
        if *old(out) is Some {
            &&& result == FT_STATUS_INVALID_ARGUMENT
            &&& *final(out) == *old(out)
            &&& final(target)@ == old(target)@
        } else {
            &&& (final(target)@, *final(out)) == old(target)@.next(now)
            &&& result == (if *final(out) is Some {
                FT_STATUS_OK
            } else {
                FT_STATUS_EMPTY
            })
        },
{
    if out.is_some() {
        return FT_STATUS_INVALID_ARGUMENT;
    }
    match target.next(now) {
        Some(work) => {
            *out = Some(work);
            FT_STATUS_OK
        },
        None => FT_STATUS_EMPTY,
    }
}

/// Replaces the target's surface by a newer one.
pub fn ft_input_target_geometry(target: &mut Target, geometry: &Geometry) -> (result: FtStatus)
    requires
        old(target)@.inv(),
    ensures
        final(target)@.inv(),
        final(target)@ == old(target)@.set_geometry(*geometry).0,
        result == (match old(target)@.set_geometry(*geometry).1 {
            Ok(()) => FT_STATUS_OK,
            Err(error) => status_of(error),
        }),
{
    result_status(target.set_geometry(*geometry))
}

/// Takes the host's word that a failed executor has been resolved.
pub fn ft_input_target_resolve(target: &mut Target) -> (result: FtStatus)
    requires
        old(target)@.inv(),
    ensures
        final(target)@.inv(),
        if old(target)@.failed && old(target)@.flight is None {
            &&& result == FT_STATUS_OK
            &&& final(target)@ == (Session { failed: false, ..old(target)@ })
        } else {
            &&& result == FT_STATUS_INVALID_ARGUMENT
            &&& final(target)@ == old(target)@
        },
{
    result_status(target.resolve_failed_cleanup())
}

/// What a controller was offered: the configuration, its identity and its epoch.
pub fn ft_input_client_describe(
    client: &Client,
    out: &mut FtInputConfig,
    controller: &mut u64,
    epoch: &mut u64,
) -> (result: FtStatus)
    ensures
        result == FT_STATUS_OK,
        *final(out) == config_described(client@.welcome.config),
        *final(controller) == client@.welcome.controller,
        *final(epoch) == client@.welcome.epoch,
{
    let welcome = client.welcome();
    *out = describe_config(&welcome.config);
    *controller = welcome.controller;
    *epoch = welcome.epoch;
    FT_STATUS_OK
}

/// Sends an event and gives its sequence number.
pub fn ft_input_client_send(client: &mut Client, e: &FtInputEvent, sequence: &mut u64) -> (result:
    FtStatus)
    requires
        old(client).inv(),
    ensures
        final(client).inv(),
        if !readable(*e) {
            &&& result == FT_STATUS_INVALID_ARGUMENT
            &&& final(client)@ == old(client)@
            &&& *final(sequence) == *old(sequence)
        } else {
            exists|event: Event|
                {
                    &&& #[trigger] described_by(event, *e)
                    &&& final(client)@ == old(client)@.send(event).0
                    &&& match old(client)@.send(event).1 {
                        Ok(given) => result == FT_STATUS_OK && *final(sequence) == given,
                        Err(error) => {
                            &&& result == status_of(error)
                            &&& *final(sequence) == *old(sequence)
                        },
                    }
                }
        },
{
    let sent = match event(e) {
        Ok(sent) => sent,
        Err(error) => {
            return status(error);
        },
    };
    assert(described_by(sent, *e));
    match client.send(sent) {
        Ok(given) => {
            *sequence = given;
            FT_STATUS_OK
        },
        Err(error) => status(error),
    }
}

/// Asks for a fresh interaction.
pub fn ft_input_client_reset(client: &mut Client) -> (result: FtStatus)
    requires
        old(client).inv(),
    ensures
        final(client).inv(),
        final(client)@ == old(client)@.reset().0,
        result == (match old(client)@.reset().1 {
            Ok(()) => FT_STATUS_OK,
            Err(error) => status_of(error),
        }),
{
    result_status(client.reset())
}

/// Reports a work item. A number that is no outcome leaves the handle; any other takes it.
pub fn ft_input_work_complete(target: &mut Target, work: &mut Option<Work>, value: u32) -> (result:
    FtStatus)
    requires
        old(target)@.inv(),
        old(target)@.countable(),
    ensures
        final(target)@.inv(),
        if value > 4 || *old(work) is None {
            &&& result == FT_STATUS_INVALID_ARGUMENT
            &&& final(target)@ == old(target)@
            &&& *final(work) == *old(work)
        } else {
            exists|reported: Outcome|
                {
                    &&& #[trigger] outcome_number(reported) == value
                    &&& *final(work) is None
                    &&& final(target)@ == old(target)@.complete((*old(work))->0.id, reported).0
                    &&& result == (match old(target)@.complete((*old(work))->0.id, reported).1 {
                        Ok(()) => FT_STATUS_OK,
                        Err(error) => status_of(error),
                    })
                }
        },
{
    let reported = match outcome(value) {
        Some(reported) => reported,
        None => {
            return FT_STATUS_INVALID_ARGUMENT;
        },
    };
    let owned = match work.take() {
        Some(owned) => owned,
        None => {
            return FT_STATUS_INVALID_ARGUMENT;
        },
    };
    assert(outcome_number(reported) == value);
    result_status(target.complete(owned.id, reported))
}

/// Whether a target can be destroyed.
pub open spec fn destruction(target: Session) -> FtStatus {
    if target.failed {
        FT_STATUS_RECOVERY_REQUIRED
    } else if target.active is Some || target.flight is Some {
        FT_STATUS_DRAINING
    } else {
        FT_STATUS_OK
    }
}

/// Whether a target can be destroyed: a failed one asks for recovery, and a busy one drains.
pub fn target_status(target: &Target) -> (result: FtStatus)
    ensures
        result == destruction(target@),
{
    if target.failed() {
        return FT_STATUS_RECOVERY_REQUIRED;
    }
    if !target.idle() {
        return FT_STATUS_DRAINING;
    }
    FT_STATUS_OK
}

/// Destroys a target that is idle; a failed one asks for recovery, and a busy one drains.
pub fn ft_input_target_destroy(handle: &mut Option<Target>) -> (result: FtStatus)
    ensures
        match *old(handle) {
            None => result == FT_STATUS_OK && *final(handle) is None,
            Some(target) => {
                &&& result == destruction(target@)
                &&& if result == FT_STATUS_OK {
                    *final(handle) is None
                } else {
                    *final(handle) == *old(handle)
                }
            },
        },
{
    let target = match handle.take() {
        None => {
            return FT_STATUS_OK;
        },
        Some(target) => target,
    };
    let status: FtStatus = target_status(&target);
    if status != FT_STATUS_OK {
        *handle = Some(target);
    }
    status
}

/// What a poll of a controller's statuses tells C: nothing, or the next one.
pub open spec fn status_described(status: Status) -> FtInputStatus {
    let none = FtInputStatus {
        kind: 0,
        result: 0,
        sequence: 0,
        epoch: 0,
        reason: 0,
        clean: 0,
        geometry: Geometry {
            revision: 0,
            width: Binary64 { bits: 0 },
            height: Binary64 { bits: 0 },
        },
    };
    match status {
        Status::Completed { sequence, outcome } => FtInputStatus {
            kind: 1,
            sequence,
            result: outcome_number(outcome),
            ..none
        },
        Status::Rejected { sequence, error } => FtInputStatus {
            kind: 2,
            sequence,
            result: status_of(error),
            ..none
        },
        Status::Reset { epoch, geometry } => FtInputStatus { kind: 3, epoch, geometry, ..none },
        Status::Closed { reason, clean } => FtInputStatus {
            kind: 4,
            reason: reason_code(reason),
            clean: if clean {
                1
            } else {
                0
            },
            ..none
        },
    }
}

/// What a poll of a controller's statuses tells C: empty leaves the output as it is.
pub fn ft_input_client_poll(next: Option<Status>, out: &mut FtInputStatus) -> (result: FtStatus)
    ensures
        match next {
            None => result == FT_STATUS_EMPTY && *final(out) == *old(out),
            Some(status) => result == FT_STATUS_OK && *final(out) == status_described(status),
        },
{
    let next = match next {
        None => {
            return FT_STATUS_EMPTY;
        },
        Some(next) => next,
    };
    *out = FtInputStatus {
        kind: 0,
        result: 0,
        sequence: 0,
        epoch: 0,
        reason: 0,
        clean: 0,
        geometry: Geometry {
            revision: 0,
            width: Binary64 { bits: 0 },
            height: Binary64 { bits: 0 },
        },
    };
    match next {
        Status::Completed { sequence, outcome } => {
            out.kind = 1;
            out.sequence = sequence;
            out.result = outcome_code(outcome);
        },
        Status::Rejected { sequence, error } => {
            out.kind = 2;
            out.sequence = sequence;
            out.result = status(error);
        },
        Status::Reset { epoch, geometry } => {
            out.kind = 3;
            out.epoch = epoch;
            out.geometry = geometry;
        },
        Status::Closed { reason: why, clean } => {
            out.kind = 4;
            out.reason = reason(why);
            out.clean = if clean {
                1
            } else {
                0
            };
        },
    }
    FT_STATUS_OK
}

} // verus!
