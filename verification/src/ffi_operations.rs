//! What calls from C on input, Local Endpoints and sessions come to.

use crate::daemon::{ReplyReader, SyntheticSession};
use crate::error::CaptureTransferError;
use crate::ffi::{ft_create_synthetic_session, FtStatus, FtSyntheticSession};
use crate::ffi_input::{
    ft_input_client_poll, ft_input_client_send, ft_input_target_create, ft_input_target_destroy,
    ft_input_target_next, ft_input_work_complete, status_described, FtInputConfig, FtInputEvent,
    FtInputStatus,
};
use crate::ffi_local::{ft_local_endpoint_render, ReadUntil};
use crate::input::client::Client;
use crate::input::dialogue::sent_events_are_queued;
use crate::input::model::{Event, Operation, Outcome, Status, Work};
use crate::input::promises::{
    at_its_head, idle_release, impossible, nothing_else_is_held_back, outcomes_are_reported,
};
use crate::input::session::Target;
use crate::input::wire::Wire;
use vstd::prelude::*;
use vstd::utf8::encode_utf8;

verus! {

/// An event that C sends goes out last in the queue, as C described it, in the epoch of the offer
/// and under the number that C is told; one that is not taken gives no number.
pub proof fn events_from_c_go_out(
    client: &mut Client,
    e: &FtInputEvent,
    sequence: &mut u64,
    result: FtStatus,
)
    requires
        call_ensures(ft_input_client_send, (client, e, sequence), result),
    ensures
        result == 0 ==> {
            &&& final(client)@.queue.len() == old(client)@.queue.len() + 1
            &&& *final(sequence) == old(client)@.sequence + 1
            &&& final(client)@.queue.last() matches Wire::Submit { epoch, sequence: given,
                event } && {
                &&& epoch == old(client)@.welcome.epoch
                &&& given == *final(sequence)
                &&& crate::ffi_input::described_by(event, *e)
            }
        },
        result != 0 ==> *final(sequence) == *old(sequence),
        !old(client)@.alive || old(client)@.closing ==> result != 0
            && final(client)@ == old(client)@,
{
    if crate::ffi_input::readable(*e) {
        let event = choose|event: Event|
            {
                &&& #[trigger] crate::ffi_input::described_by(event, *e)
                &&& final(client)@ == old(client)@.send(event).0
                &&& match old(client)@.send(event).1 {
                    Ok(given) => result == 0 && *final(sequence) == given,
                    Err(error) => {
                        &&& result == crate::ffi_input::status_of(error)
                        &&& *final(sequence) == *old(sequence)
                    },
                }
            };
        sent_events_are_queued(old(client)@, event);
    }
}

/// The work that C takes from a target is what is due, and a handle that has work already is left
/// alone.
pub proof fn work_reaches_c(target: &mut Target, now: u128, out: &mut Option<Work>,
    result: FtStatus)
    requires
        call_ensures(ft_input_target_next, (target, now, out), result),
    ensures
        *old(out) is Some ==> result == 2 && *final(out) == *old(out) && final(target)@
            == old(target)@,
        *old(out) is None ==> (result == 0 <==> *final(out) is Some),
        *old(out) is None && at_its_head(old(target)@, now)
            && old(target)@.queue[0].operation is Event
            && !idle_release(old(target)@.active->0, old(target)@.queue[0].operation)
            && !impossible(
            old(target)@,
            old(target)@.queue[0].operation,
        ) ==> (*final(out) matches Some(work) && work.sequence == old(target)@.queue[0].sequence),
{
    let session = old(target)@;
    if at_its_head(session, now) && session.queue[0].operation is Event && !idle_release(
        session.active->0,
        session.queue[0].operation,
    ) && !impossible(session, session.queue[0].operation) {
        nothing_else_is_held_back(session, now);
    }
}

/// What C reports on an event is told to its controller under the event's number, as C reported it;
/// the work is then over.
pub proof fn reports_from_c_are_told(
    target: &mut Target,
    work: &mut Option<Work>,
    value: u32,
    result: FtStatus,
    event: Event,
)
    requires
        call_ensures(ft_input_work_complete, (target, work, value), result),
        *old(work) is Some,
        old(target)@.active is Some,
        old(target)@.flight matches Some(flight) && Some(flight.work) == *old(work)
            && flight.work.operation == Operation::Event(event),
        (old(target)@.active->0).mailbox.len() < old(target)@.config.max_events * 2 + 4,
    ensures
        value > 4 ==> result == 2 && *final(work) == *old(work) && final(target)@ == old(target)@,
        value <= 4 ==> result == 0 && *final(work) is None,
        value <= 2 ==> (final(target)@.active matches Some(holder) && holder.mailbox == (
        old(target)@.active->0).mailbox.push(
            Status::Completed {
                sequence: ((*old(work))->0).sequence,
                outcome: if value == 0 {
                    Outcome::Executed
                } else if value == 1 {
                    Outcome::Rejected
                } else {
                    Outcome::Unsupported
                },
            },
        )),
{
    let id = ((*old(work))->0).id;
    outcomes_are_reported(old(target)@, id, Outcome::Executed, event);
    outcomes_are_reported(old(target)@, id, Outcome::Rejected, event);
    outcomes_are_reported(old(target)@, id, Outcome::Unsupported, event);
    outcomes_are_reported(old(target)@, id, Outcome::Partial, event);
    outcomes_are_reported(old(target)@, id, Outcome::Uncertain, event);
}

/// A target that C makes begins empty with the surface and the bounds that were asked for, and it
/// goes only when nothing holds it.
pub proof fn targets_are_made_and_let_go(
    config: &FtInputConfig,
    out: &mut Option<Target>,
    made: FtStatus,
    handle: &mut Option<Target>,
    gone: FtStatus,
)
    requires
        call_ensures(ft_input_target_create, (config, out), made),
        call_ensures(ft_input_target_destroy, (handle,), gone),
    ensures
        *old(out) is Some ==> made == 2 && *final(out) == *old(out),
        *old(out) is None ==> (made == 0 <==> *final(out) is Some),
        *old(out) is None ==> (*final(out) matches Some(target) ==> {
            &&& target@.active is None && target@.flight is None && target@.queue.len() == 0
            &&& target@.config.max_events == config.max_events
            &&& target@.config.max_bytes == config.max_bytes
            &&& target@.config.max_text_bytes == config.max_text_bytes
            &&& target@.config.geometry.width == config.geometry.width
            &&& target@.config.geometry.height == config.geometry.height
        }),
        gone == 0 <==> *final(handle) is None,
        *old(handle) matches Some(target) ==> (target@.active is Some || target@.flight is Some
            || target@.failed ==> gone != 0 && *final(handle) == *old(handle)),
        *old(handle) matches Some(target) ==> (target@.active is None && target@.flight is None
            && !target@.failed ==> gone == 0),
{
}

/// A status that a client has heard is described to C, and without one nothing is written.
pub proof fn statuses_reach_c(next: Option<Status>, out: &mut FtInputStatus, result: FtStatus)
    requires
        call_ensures(ft_input_client_poll, (next, out), result),
    ensures
        result == 0 <==> next is Some,
        next is None ==> result == 1 && *final(out) == *old(out),
        next matches Some(status) ==> *final(out) == status_described(status),
{
}

/// An exchange ends with the byte that it waits for, when its buffer is full or when the peer is
/// gone, and keeps every byte in its order until then.
pub proof fn exchanges_collect_their_bytes(
    exchange: &mut ReadUntil,
    byte: Option<u8>,
    result: Option<FtStatus>,
)
    requires
        call_ensures(ReadUntil::took, (exchange, byte), result),
    ensures
        byte is None ==> result == Some(5i32) && final(exchange).spec_bytes()
            == old(exchange).spec_bytes(),
        byte matches Some(b) ==> {
            &&& final(exchange).spec_bytes() == old(exchange).spec_bytes().push(b)
            &&& b == old(exchange).spec_delimiter() ==> result == Some(0i32)
            &&& b != old(exchange).spec_delimiter() && final(exchange).spec_bytes().len()
                == old(exchange).spec_capacity() ==> result == Some(17i32)
            &&& b != old(exchange).spec_delimiter() && final(exchange).spec_bytes().len()
                != old(exchange).spec_capacity() ==> result is None
        },
{
}

/// What C gets of a text is its bytes and one zero, within the room that it gave, or nothing.
pub proof fn texts_reach_c_whole(
    rendered: &str,
    len: usize,
    result: (FtStatus, Option<Vec<u8>>),
    session: &SyntheticSession,
    handed: Result<FtSyntheticSession, FtStatus>,
)
    requires
        call_ensures(ft_local_endpoint_render, (rendered, len), result),
        call_ensures(ft_create_synthetic_session, (session,), handed),
    ensures
        result.0 == 0 <==> result.1 is Some,
        result.1 matches Some(bytes) ==> {
            &&& bytes@.len() <= len
            &&& bytes@.last() == 0
            &&& bytes@.drop_last() == encode_utf8(rendered@)
            &&& !encode_utf8(rendered@).contains(0u8)
        },
        handed matches Ok(given) ==> {
            &&& given.source_id == session.source_id
            &&& given.track_id == session.track_id
            &&& given.session_id@.last() == 0
            &&& given.session_id@.drop_last() == encode_utf8(session.session_id@)
            &&& given.fd_socket_path@.drop_last() == encode_utf8(session.fd_socket_path@)
        },
{
    if result.1 is Some {
        assert((result.1->0)@.drop_last() =~= encode_utf8(rendered@));
    }
    if handed is Ok {
        let given = handed->Ok_0;
        assert(given.session_id@.drop_last() =~= encode_utf8(session.session_id@));
        assert(given.fd_socket_path@.drop_last() =~= encode_utf8(session.fd_socket_path@));
    }
}

/// A reply is read up to the end of its line: the line's end is no part of it, every byte before is,
/// in order, and nothing is asked for after it or beyond its bound.
pub proof fn replies_are_one_line(
    reader: &mut ReplyReader,
    byte: u8,
    asked: &ReplyReader,
    more: Result<bool, CaptureTransferError>,
)
    requires
        call_ensures(ReplyReader::took, (reader, byte), ()),
        *asked == *final(reader),
        call_ensures(ReplyReader::wants, (asked,), more),
    ensures
        byte == 10 ==> final(reader).spec_bytes() == old(reader).spec_bytes() && more == Ok::<
            bool,
            CaptureTransferError,
        >(false),
        byte != 10 ==> final(reader).spec_bytes() == old(reader).spec_bytes().push(byte) && more
            != Ok::<bool, CaptureTransferError>(false),
        more is Err ==> final(reader).spec_bytes().len() >= 0x4000,
{
}

} // verus!
