//! What input, Local Endpoints and source bootstrap hand to C and take from it, number by number.

use crate::bootstrap::{Connected, InputRequest};
use crate::ffi::FtStatus;
use crate::ffi_bootstrap::{connected_input, parse_request};
use crate::ffi_input::{
    action, action_code, config_asked, config_described, describe, destruction, event, mode,
    outcome, outcome_code, reason, status, status_described, work_described, FtInputConfig,
    FtInputEvent, FtInputOperation,
};
use crate::ffi_local::{
    endpoint, exchange_arguments, exchange_status, ft_local_connection_peer, FtPeerIdentity, IoKind,
};
use crate::input::model::{
    Action, Error, Event, Key, Mode, Operation, Outcome, Reason, Scope, ScrollUnit, Status, Work,
};
use crate::input::state::Session;
use crate::local::{Endpoint, PeerIdentity, Transport};
use vstd::prelude::*;
use vstd::utf8::{decode_utf8, encode_utf8};

verus! {

/// Input errors, modes, actions, reasons and outcomes have their numbers, and every number reads back
/// as what it was written for.
pub proof fn input_numbers_are_fixed(
    error: Error,
    told: FtStatus,
    number: u32,
    read_mode: Option<Mode>,
    read_action: Result<Action, Error>,
    way: Action,
    written_action: u32,
    why: Reason,
    written_reason: u32,
    read_outcome: Option<Outcome>,
    done: Outcome,
    written_outcome: i32,
)
    requires
        call_ensures(status, (error,), told),
        call_ensures(mode, (number,), read_mode),
        call_ensures(action, (number,), read_action),
        call_ensures(action_code, (way,), written_action),
        call_ensures(reason, (why,), written_reason),
        call_ensures(outcome, (number,), read_outcome),
        call_ensures(outcome_code, (done,), written_outcome),
    ensures
        told == (match error {
            Error::Invalid => 2i32,
            Error::Unsupported => 6,
            Error::Busy => 14,
            Error::Closed => 5,
            Error::Stale => 13,
            Error::Overflow => 17,
            Error::CleanupFailed => 18,
        }),
        read_mode == (if number == 1 {
            Some(Mode::Physical)
        } else if number == 2 {
            Some(Mode::SourceText)
        } else if number == 4 {
            Some(Mode::Cooperative)
        } else {
            None
        }),
        read_action is Err <==> number == 0 || number > 3,
        read_action == Ok::<Action, Error>(way) <==> written_action == number,
        written_action == (match way {
            Action::Down => 1u32,
            Action::Up => 2,
            Action::Repeat => 3,
        }),
        written_reason == (match why {
            Reason::Focus => 1u32,
            Reason::Geometry => 2,
            Reason::Disconnect => 3,
            Reason::Expired => 4,
            Reason::Overflow => 5,
            Reason::Execution => 6,
        }),
        read_outcome is None <==> number > 4,
        read_outcome == Some(done) <==> written_outcome == number,
        written_outcome == (match done {
            Outcome::Executed => 0i32,
            Outcome::Rejected => 1,
            Outcome::Unsupported => 2,
            Outcome::Partial => 3,
            Outcome::Uncertain => 4,
        }),
{
}

/// An event that C describes is read as it describes it: its kind, its action, its key or text, and
/// every coordinate in its own place.
pub proof fn events_are_read_as_described(e: &FtInputEvent, result: Result<Event, Error>)
    requires
        call_ensures(event, (e,), result),
    ensures
        result matches Ok(read) ==> match read {
            Event::Key { press, action: way, key, modifiers } => {
                &&& e.kind == 1
                &&& press == e.press
                &&& modifiers == e.modifiers
                &&& way == Action::Down <==> e.action == 1
                &&& way == Action::Up <==> e.action == 2
                &&& way == Action::Repeat <==> e.action == 3
                &&& key is Physical <==> e.key_kind == 1
                &&& key is Logical <==> e.key_kind == 2
            },
            Event::Text(text) => e.kind == 2 && e.text is Some && text@ == decode_utf8(e.text->0@),
            Event::Motion(at) => {
                &&& e.kind == 3
                &&& at.revision == e.geometry_revision
                &&& at.x == e.x
                &&& at.y == e.y
            },
            Event::Button { button, action: way, position: at } => {
                &&& e.kind == 4
                &&& button == e.button
                &&& way == Action::Down <==> e.action == 1
                &&& way == Action::Up <==> e.action == 2
                &&& at.revision == e.geometry_revision
                &&& at.x == e.x
                &&& at.y == e.y
            },
            Event::Scroll { x, y, unit, position: at } => {
                &&& e.kind == 5
                &&& x == e.x
                &&& y == e.y
                &&& unit == ScrollUnit::Pixel <==> e.scroll_unit == 1
                &&& unit == ScrollUnit::Line <==> e.scroll_unit == 2
                &&& unit == ScrollUnit::Page <==> e.scroll_unit == 3
                &&& at.revision == e.geometry_revision
                &&& at.x == e.pointer_x
                &&& at.y == e.pointer_y
            },
        },
        e.kind == 0 || e.kind > 5 ==> result is Err,
        e.kind == 3 ==> result is Ok,
        e.kind == 4 && 1 <= e.action <= 3 ==> result is Ok,
        e.kind == 5 && 1 <= e.scroll_unit <= 3 ==> result is Ok,
        result matches Err(error) ==> error == Error::Invalid,
{
}

/// An event is described to C with everything it has, in the same places.
pub proof fn events_are_described_whole(given: &Event, e: FtInputEvent)
    requires
        call_ensures(describe, (given,), e),
    ensures
        match *given {
            Event::Key { press, action: way, key, modifiers } => {
                &&& e.kind == 1
                &&& e.press == press
                &&& e.modifiers == modifiers
                &&& e.action == (match way {
                    Action::Down => 1u32,
                    Action::Up => 2,
                    Action::Repeat => 3,
                })
                &&& e.key_kind == (match key {
                    Key::Physical(_) => 1u32,
                    Key::Logical(_) => 2,
                })
                &&& e.key@.len() == 64
                &&& forall|i: int|
                    0 <= i < 64 && i < encode_utf8(key.name()).len() ==> (#[trigger] e.key@[i])
                        == encode_utf8(key.name())[i]
            },
            Event::Text(text) => e.kind == 2 && e.text is Some && e.text->0@ == encode_utf8(text@),
            Event::Motion(at) => e.kind == 3 && e.geometry_revision == at.revision && e.x == at.x
                && e.y == at.y,
            Event::Button { button, action: way, position: at } => {
                &&& e.kind == 4
                &&& e.button == button
                &&& e.action == (match way {
                    Action::Down => 1u32,
                    Action::Up => 2,
                    Action::Repeat => 3,
                })
                &&& e.geometry_revision == at.revision
                &&& e.x == at.x
                &&& e.y == at.y
            },
            Event::Scroll { x, y, unit, position: at } => {
                &&& e.kind == 5
                &&& e.x == x
                &&& e.y == y
                &&& e.scroll_unit == (match unit {
                    ScrollUnit::Pixel => 1u32,
                    ScrollUnit::Line => 2,
                    ScrollUnit::Page => 3,
                })
                &&& e.geometry_revision == at.revision
                &&& e.pointer_x == at.x
                &&& e.pointer_y == at.y
            },
        },
{
}

/// Work is described to C with its controller, its epoch and its number; a cleanup says what it is
/// of and what it is for.
pub proof fn work_is_described_whole(out: FtInputOperation, work: Work)
    requires
        work_described(out, work),
    ensures
        out.controller == work.controller,
        out.epoch == work.epoch,
        out.sequence == work.sequence,
        out.mode == (match work.mode {
            Mode::Physical => 1u32,
            Mode::SourceText => 2,
            Mode::Cooperative => 4,
        }),
        work.operation matches Operation::Cleanup { scope, reason: why } ==> {
            &&& out.event.kind == 6
            &&& out.scope == 1 <==> scope == Scope::All
            &&& out.scope == 2 <==> scope == Scope::Pointer
            &&& out.reason == 1 <==> why == Reason::Focus
            &&& out.reason == 2 <==> why == Reason::Geometry
            &&& out.reason == 3 <==> why == Reason::Disconnect
            &&& out.reason == 4 <==> why == Reason::Expired
            &&& out.reason == 5 <==> why == Reason::Overflow
            &&& out.reason == 6 <==> why == Reason::Execution
        },
        work.operation is Event ==> out.scope == 0 && out.reason == 0 && 1 <= out.event.kind <= 5,
{
}

/// A status is described to C with everything it has.
pub proof fn statuses_are_described_whole(given: Status)
    ensures
        ({
            let out = status_described(given);
            match given {
                Status::Completed { sequence, outcome: done } => out.kind == 1 && out.sequence
                    == sequence && (out.result == 0 <==> done == Outcome::Executed) && (out.result
                    == 3 <==> done == Outcome::Partial) && (out.result == 4 <==> done
                    == Outcome::Uncertain),
                Status::Rejected { sequence, error } => out.kind == 2 && out.sequence == sequence && (
                out.result == 13 <==> error == Error::Stale) && (out.result == 2 <==> error
                    == Error::Invalid) && (out.result == 14 <==> error == Error::Busy),
                Status::Reset { epoch, geometry } => out.kind == 3 && out.epoch == epoch
                    && out.geometry == geometry,
                Status::Closed { reason: why, clean } => out.kind == 4 && (out.clean == 1 <==> clean)
                    && (out.reason == 3 <==> why == Reason::Disconnect) && (out.reason == 4 <==> why
                    == Reason::Expired),
            }
        }),
{
}

/// A configuration that C asks for is the target's, field by field, and is described back the same.
pub proof fn input_configurations_cross_unchanged(config: FtInputConfig)
    requires
        config.independent_contributions <= 1,
        config.interaction_cancel <= 1,
        config.max_events <= usize::MAX,
        config.max_bytes <= usize::MAX,
        config.max_text_bytes <= usize::MAX,
    ensures
        ({
            let asked = config_asked(config);
            &&& asked.modes == config.modes
            &&& asked.capabilities == config.capabilities
            &&& asked.max_events == config.max_events
            &&& asked.max_bytes == config.max_bytes
            &&& asked.max_text_bytes == config.max_text_bytes
            &&& asked.idle_timeout == config.idle_timeout_ms * 1_000_000
            &&& asked.geometry == config.geometry
            &&& asked.independent_contributions == (config.independent_contributions == 1)
            &&& asked.interaction_cancel == (config.interaction_cancel == 1)
            &&& config_described(asked) == config
        }),
{
}

/// A target is destroyed exactly where nobody holds it and nothing is in flight; one whose cleanup
/// failed has to be resolved first.
pub proof fn targets_are_destroyed_only_when_idle(target: Session)
    ensures
        destruction(target) == 0 <==> !target.failed && target.active is None && target.flight is None,
        destruction(target) == 18 <==> target.failed,
        destruction(target) == 0 || destruction(target) == 14 || destruction(target) == 18,
{
}

/// An endpoint that C names is that one: its scope and its name as given, on a local stream; other
/// transports are unsupported, and other scopes or names invalid.
pub proof fn endpoints_are_named_by_their_numbers(
    scope: u32,
    transport: u32,
    name: Option<&str>,
    result: Result<Endpoint, FtStatus>,
)
    requires
        call_ensures(endpoint, (scope, transport, name), result),
    ensures
        transport != 1 ==> result == Err::<Endpoint, FtStatus>(6),
        transport == 1 && (scope == 0 || scope > 2 || name is None) ==> result == Err::<
            Endpoint,
            FtStatus,
        >(2),
        result matches Ok(named) ==> {
            &&& named.spec_transport() == Transport::LocalStream
            &&& named.spec_name() == name->0@
            &&& named.spec_scope() == crate::local::Scope::User <==> scope == 1
            &&& named.spec_scope() == crate::local::Scope::Session <==> scope == 2
        },
{
}

/// A peer is described to C as the system reported it.
pub proof fn peers_are_described_whole(
    peer: &PeerIdentity,
    result: Result<FtPeerIdentity, FtStatus>,
)
    requires
        call_ensures(ft_local_connection_peer, (peer,), result),
    ensures
        result matches Ok(told) ==> {
            &&& told.pid == peer.pid
            &&& told.has_session == 1 <==> peer.session is Some
            &&& told.has_session <= 1
            &&& peer.session matches Some(session) ==> told.session == session
            &&& told.user@.len() == 192
            &&& forall|i: int|
                0 <= i < encode_utf8(peer.user@).len() ==> (#[trigger] told.user@[i])
                    == encode_utf8(peer.user@)[i]
            &&& encode_utf8(peer.user@).len() < 192
        },
        result matches Err(error) ==> error == 3,
{
}

/// What an exchange came to has its number: time, closure and other failures are told apart, and a
/// result counts only where the connection was left as it was found.
pub proof fn exchanges_report_their_end(
    result: Result<FtStatus, IoKind>,
    restored: bool,
    told: FtStatus,
    len: usize,
    timeout_ms: u32,
    arguments: FtStatus,
)
    requires
        call_ensures(exchange_status, (result, restored), told),
        call_ensures(exchange_arguments, (len, timeout_ms), arguments),
    ensures
        result matches Ok(inner) ==> told == (if restored {
            inner
        } else {
            3
        }),
        result matches Err(kind) ==> {
            &&& told == 4 <==> kind == IoKind::TimedOut || kind == IoKind::WouldBlock
            &&& told == 5 <==> kind == IoKind::BrokenPipe || kind == IoKind::ConnectionReset || kind
                == IoKind::ConnectionAborted
            &&& told == 4 || told == 5 || told == 3
        },
        arguments == 0 <==> len > 0 && timeout_ms > 0,
        arguments == 0 || arguments == 2,
{
}

/// What C asks of a bootstrap is read as it asks: nothing, or input in a mode, wished for or
/// required; and what came of it is told.
pub proof fn bootstrap_requests_are_read_as_asked(
    asked: u32,
    number: u32,
    request: Option<InputRequest>,
    connection: &Connected,
    told: FtStatus,
)
    requires
        call_ensures(parse_request, (asked, number), request),
        call_ensures(connected_input, (connection,), told),
    ensures
        request == Some(InputRequest::Observe) <==> asked == 0 && number == 0,
        request matches Some(InputRequest::Optional(given)) ==> asked == 1 && number == (match given {
            Mode::Physical => 1u32,
            Mode::SourceText => 2,
            Mode::Cooperative => 4,
        }),
        request matches Some(InputRequest::Required(given)) ==> asked == 2 && number == (match given {
            Mode::Physical => 1u32,
            Mode::SourceText => 2,
            Mode::Cooperative => 4,
        }),
        (asked == 1 || asked == 2) && (number == 1 || number == 2 || number == 4) ==> request is Some,
        connection.input_error is None ==> told == (if connection.input {
            0i32
        } else {
            1
        }),
        connection.input_error is Some ==> told != 0 && told != 1,
{
}

} // verus!
