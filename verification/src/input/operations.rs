//! What the calls at both ends of an input stream come to, one after another.

use super::client::{Client, Connecting, Connection, Driver};
use super::dialogue::{
    controllers_are_welcomed, hears_more, messages_leave_in_order, other_replies_are_kept,
    resets_are_learned, sent_events_are_queued,
};
use super::framing::{frame, frames_round_trip, Framed, WireError, MAX_FRAME};
use super::model::{
    Action as KeyAction, Config, Error, Event, Geometry, Key, Mode, Operation, Outcome, Status,
    Work,
};
use super::promises::{
    allowed_events_are_queued, at_its_head, held_presses_are_released, idle_release, impossible,
    nothing_else_is_held_back, outcomes_are_reported, silent,
};
use super::service::{Phase, Service};
use super::session::{Controller, Target};
use super::validation::verdict;
use super::wire::{elapsed_since, interval, Action, Answer, Welcome, Wire};
use crate::bytes::{be32, integers_round_trip};
use vstd::prelude::*;

verus! {

/// A call of `next` that finds the release of a held press hands it out with the key that went
/// down, under its own number; and one that finds anything that can be executed hands that out.
pub proof fn executors_get_what_is_due(
    target: &mut Target,
    now: u128,
    result: Option<Work>,
    press: u64,
    key: Key,
    modifiers: u32,
)
    requires
        at_its_head(old(target)@, now),
        old(target)@.queue[0].operation is Event,
        !idle_release(old(target)@.active->0, old(target)@.queue[0].operation),
        !impossible(old(target)@, old(target)@.queue[0].operation),
        call_ensures(Target::next, (target, now), result),
    ensures
        result matches Some(work) && {
            let head = old(target)@.queue[0];
            &&& work.id == head.id
            &&& work.sequence == head.sequence
            &&& work.epoch == head.epoch
            &&& work.controller == head.controller
            &&& (final(target)@.flight matches Some(flight) && flight.work == work)
            &&& final(target)@.queue.len() + 1 == old(target)@.queue.len()
            &&& head.operation == Operation::Event(
                Event::Key { press, action: KeyAction::Up, key, modifiers },
            ) ==> work.operation == Operation::Event(
                Event::Key {
                    press,
                    action: KeyAction::Up,
                    key: (old(target)@.active->0).keys[press],
                    modifiers,
                },
            )
            &&& !(head.operation matches Operation::Event(Event::Key { .. })) ==> work == head
        },
{
    let session = old(target)@;
    nothing_else_is_held_back(session, now);
    if session.queue[0].operation == Operation::Event(
        Event::Key { press, action: KeyAction::Up, key, modifiers },
    ) {
        held_presses_are_released(session, now, press, KeyAction::Up, key, modifiers);
    }
}

/// An allowed event that is submitted to an idle target in the holder's epoch is what `next` hands
/// out right after, as it was submitted, and what the executor reports on it is the next status
/// that the controller polls.
pub proof fn submitted_events_are_executed_and_answered(
    controller: &Controller,
    submitted: &mut Target,
    taken: &mut Target,
    completed: &mut Target,
    polled: &mut Target,
    now: u128,
    epoch: u64,
    sequence: u64,
    event: Event,
    accepted: Result<(), Error>,
    work: Option<Work>,
    outcome: Outcome,
    reported: Result<(), Error>,
    status: Option<Status>,
)
    requires
        old(submitted)@.active matches Some(holder) && holder.id == controller.spec_id()
            && holder.epoch == epoch && sequence > holder.last_sequence && holder.mailbox.len()
            == 0,
        old(submitted)@.config.idle_timeout > 0,
        old(submitted)@.config.max_events > 0,
        96 + event.text_bytes() <= old(submitted)@.config.max_bytes,
        !silent(old(submitted)@, now),
        old(submitted)@.barrier is None,
        old(submitted)@.flight is None,
        old(submitted)@.queue.len() == 0,
        old(submitted)@.next_work < u64::MAX,
        verdict(old(submitted)@.config, (old(submitted)@.active->0).mode, event) is Ok,
        event is Text || event is Motion || event is Scroll,
        outcome == Outcome::Executed || outcome == Outcome::Rejected,
        call_ensures(
            Controller::submit,
            (controller, submitted, now, epoch, sequence, event),
            accepted,
        ),
        old(taken)@ == final(submitted)@,
        call_ensures(Target::next, (taken, now), work),
        old(completed)@ == final(taken)@,
        work matches Some(given) ==> call_ensures(
            Target::complete,
            (completed, given.id, outcome),
            reported,
        ),
        old(polled)@ == final(completed)@,
        call_ensures(Controller::poll, (controller, polled), status),
    ensures
        accepted is Ok,
        work matches Some(given) && given.operation == Operation::Event(event) && given.sequence
            == sequence && given.epoch == epoch && given.controller == controller.spec_id(),
        reported is Ok,
        status == Some(Status::Completed { sequence, outcome }),
{
    let session = old(submitted)@;
    let id = controller.spec_id();
    assert(session.queue =~= Seq::empty());
    assert(super::state::queue_bytes(session.queue) == 0);
    allowed_events_are_queued(session, id, controller.spec_mode(), now, epoch, sequence, event);
    let queued = final(submitted)@;
    assert(at_its_head(queued, now));
    nothing_else_is_held_back(queued, now);
    outcomes_are_reported(final(taken)@, (work->0).id, outcome, event);
    let after = final(completed)@;
    assert((after.active->0).mailbox[0] == (Status::Completed { sequence, outcome }));
}

/// A call of `submit` in another epoch, by somebody else, or under a number that was used already,
/// queues nothing.
pub proof fn stale_events_are_not_queued(
    controller: &Controller,
    target: &mut Target,
    now: u128,
    epoch: u64,
    sequence: u64,
    event: Event,
    result: Result<(), Error>,
)
    requires
        old(target)@.config.idle_timeout > 0,
        !silent(old(target)@, now),
        !(old(target)@.active matches Some(holder) && holder.id == controller.spec_id()
            && holder.epoch == epoch && sequence > holder.last_sequence),
        call_ensures(Controller::submit, (controller, target, now, epoch, sequence, event), result),
    ensures
        result is Err,
        final(target)@.queue == old(target)@.queue,
        final(target)@.flight == old(target)@.flight,
        !old(target)@.held_by(controller.spec_id()) ==> result == Err::<(), Error>(Error::Closed),
        old(target)@.held_by(controller.spec_id()) && (old(target)@.active->0).epoch != epoch
            && sequence > (old(target)@.active->0).last_sequence
            ==> result == Err::<(), Error>(Error::Stale),
{
    assert(old(target)@.expire(now) == old(target)@);
}

/// A controller that is admitted holds the target in its mode, in an epoch that it can ask for, and
/// its first poll finds nothing; while it is there nobody else is admitted.
pub proof fn admitted_controllers_hold_the_target(
    target: &mut Target,
    mode: Mode,
    now: u128,
    result: Result<Controller, Error>,
    asked: &Target,
    epoch: Result<u64, Error>,
)
    requires
        old(target)@.inv(),
        call_ensures(Target::admit_controller, (target, mode, now), result),
        asked@ == final(target)@,
        result matches Ok(controller) ==> call_ensures(
            Controller::epoch,
            (&controller, asked),
            epoch,
        ),
    ensures
        result matches Ok(controller) ==> {
            &&& controller.spec_mode() == mode
            &&& final(target)@.held_by(controller.spec_id())
            &&& final(target)@.active matches Some(holder) && {
                &&& holder.mode == mode
                &&& holder.keys.len() == 0
                &&& holder.buttons.len() == 0
                &&& holder.mailbox.len() == 0
                &&& holder.last_sequence == 0
                &&& holder.last_seen == now
                &&& epoch == Ok::<u64, Error>(holder.epoch)
            }
            &&& final(target)@.queue.len() == 0
            &&& final(target)@.config == old(target)@.config
        },
        old(target)@.active is Some && old(target)@.config.idle_timeout > 0 && !silent(
            old(target)@,
            now,
        ) ==> result is Err,
{
    if old(target)@.config.idle_timeout > 0 && !silent(old(target)@, now) {
        assert(old(target)@.expire(now) == old(target)@);
    }
}

/// A target is made with the configuration that it was given, holds nothing and is idle; and it is
/// made exactly where the configuration is within its bounds.
pub proof fn targets_begin_idle(
    config: Config,
    result: Result<Target, Error>,
    idle: bool,
    failed: bool,
    given: Config,
)
    requires
        call_ensures(Target::new, (config,), result),
        result matches Ok(target) ==> call_ensures(Target::idle, (&target,), idle) && call_ensures(
            Target::failed,
            (&target,),
            failed,
        ) && call_ensures(Target::config, (&target,), given),
    ensures
        result is Ok ==> idle && !failed && given == config,
        result matches Err(error) ==> error == Error::Invalid,
        result matches Ok(target) ==> target@.queue.len() == 0 && target@.active is None
            && target@.flight is None && target@.barrier is None,
{
}

/// A cleanup that failed shuts the target until it is resolved, and then nothing else changes.
pub proof fn failed_cleanup_is_resolved_once(
    target: &mut Target,
    result: Result<(), Error>,
    again: &mut Target,
    second: Result<(), Error>,
)
    requires
        call_ensures(Target::resolve_failed_cleanup, (target,), result),
        old(again)@ == final(target)@,
        call_ensures(Target::resolve_failed_cleanup, (again,), second),
    ensures
        result is Ok <==> old(target)@.failed && old(target)@.flight is None,
        result is Ok ==> !final(target)@.failed && final(target)@.active == old(target)@.active
            && final(target)@.queue == old(target)@.queue,
        second is Err,
        final(again)@ == final(target)@,
{
}

/// After the worker has handed a reply on a reset to the client, `welcome` gives the epoch and the
/// surface of the reply, `poll` the reply itself once what was heard before it has been polled, and
/// what `send` then accepts goes out under that epoch.
pub proof fn clients_go_on_in_the_new_epoch(
    driver: &mut Driver,
    client: &mut Client,
    now: u128,
    stop: bool,
    epoch: u64,
    geometry: Geometry,
    action: Action,
    offered: &Client,
    welcome: Welcome,
    sender: &mut Client,
    event: Event,
    sent: Result<u64, Error>,
    reader: &mut Client,
    status: Option<Status>,
)
    requires
        old(driver).stage is Message,
        call_ensures(
            Driver::resume,
            (
                driver,
                client,
                now,
                stop,
                Answer::Message(Some(Wire::Reply(Status::Reset { epoch, geometry }))),
            ),
            action,
        ),
        offered@ == final(client)@,
        call_ensures(Client::welcome, (offered,), welcome),
        old(sender)@ == final(client)@,
        call_ensures(Client::send, (sender, event), sent),
        old(reader)@ == final(client)@,
        call_ensures(Client::poll, (reader,), status),
    ensures
        welcome.epoch == epoch,
        welcome.config.geometry == geometry,
        welcome.controller == old(client)@.welcome.controller,
        welcome.mode == old(client)@.welcome.mode,
        sent matches Ok(sequence) ==> sequence == old(client)@.sequence + 1
            && final(sender)@.queue.last() == (Wire::Submit { epoch, sequence, event }),
        hears_more(old(client)@) && old(client)@.status.len() == 0 ==> status == Some(
            Status::Reset { epoch, geometry },
        ),
{
    resets_are_learned(*old(driver), old(client)@, now, stop, epoch, geometry, event);
}

/// Whatever else the target says is polled as it was said, once what was heard before it has been
/// polled, and changes nothing of the offer.
pub proof fn clients_hear_what_was_said(
    driver: &mut Driver,
    client: &mut Client,
    now: u128,
    stop: bool,
    said: Status,
    action: Action,
    offered: &Client,
    welcome: Welcome,
    reader: &mut Client,
    status: Option<Status>,
)
    requires
        old(driver).stage is Message,
        !(said is Reset),
        hears_more(old(client)@),
        call_ensures(
            Driver::resume,
            (driver, client, now, stop, Answer::Message(Some(Wire::Reply(said)))),
            action,
        ),
        offered@ == final(client)@,
        call_ensures(Client::welcome, (offered,), welcome),
        old(reader)@ == final(client)@,
        call_ensures(Client::poll, (reader,), status),
    ensures
        welcome == old(client)@.welcome,
        old(client)@.status.len() == 0 ==> status == Some(said) && final(reader)@.status.len() == 0,
        old(client)@.status.len() > 0 ==> status == Some(old(client)@.status[0])
            && final(reader)@.status.last() == said,
        final(client)@.queue == old(client)@.queue,
        final(client)@.sequence == old(client)@.sequence,
        final(client)@.alive == (old(client)@.alive && !(said is Closed)),
{
    other_replies_are_kept(*old(driver), old(client)@, now, stop, said);
}

/// What `send` accepts on a client with an empty queue is the next message that its worker sends.
pub proof fn accepted_events_go_out(
    client: &mut Client,
    event: Event,
    sent: Result<u64, Error>,
    driver: &mut Driver,
    driven: &mut Client,
    now: u128,
    action: Action,
)
    requires
        old(client)@.queue.len() == 0,
        !old(client)@.stopped,
        call_ensures(Client::send, (client, event), sent),
        sent is Ok,
        old(driver).stage is Round,
        old(driven)@ == final(client)@,
        call_ensures(
            Driver::resume,
            (driver, driven, now, false, Answer::Done { queued: 0 }),
            action,
        ),
    ensures
        action == Action::Send(
            Wire::Submit { epoch: old(client)@.welcome.epoch, sequence: sent->Ok_0, event },
        ),
        final(driven)@.queue.len() == 0,
        sent->Ok_0 == old(client)@.sequence + 1,
        final(driven)@.sequence == sent->Ok_0,
{
    sent_events_are_queued(old(client)@, event);
    messages_leave_in_order(*old(driver), final(client)@, now, 0);
}

/// A client is made with the welcome that it was given, has sent and heard nothing, and its worker
/// keeps to the timeout of that welcome.
pub proof fn clients_begin_with_their_welcome(
    welcome: Welcome,
    client: Client,
    heartbeat: u128,
    now: u128,
    driver: Driver,
)
    requires
        call_ensures(Client::new, (welcome,), client),
        call_ensures(Driver::new, (&welcome, heartbeat, now), driver),
    ensures
        client@.welcome == welcome,
        client@.sequence == 0,
        client@.queue.len() == 0,
        client@.status.len() == 0,
        client@.alive && !client@.closing && !client@.resetting && !client@.stopped,
        driver.timeout == welcome.config.idle_timeout,
        driver.interval <= driver.timeout || driver.timeout == 0,
        driver.last_seen == now,
        driver.heartbeat == heartbeat,
        driver.stage is Round,
{
}

/// A controller that says hello is welcomed with the configuration of the target, under the
/// identity and in the epoch that the target then holds it in.
pub proof fn services_welcome_their_controller(
    service: &mut Service,
    target: &mut Target,
    now: u128,
    stop: bool,
    mode: Mode,
    action: Action,
)
    requires
        old(service)@.phase == Phase::Hello,
        old(target)@.admit_controller(mode, now).1 is Ok,
        call_ensures(
            Service::resume,
            (service, target, now, stop, Answer::Message(Some(Wire::Hello { version: 1, mode }))),
            action,
        ),
    ensures
        action matches Action::Send(Wire::Welcome(welcome)) && {
            &&& welcome.version == 1
            &&& welcome.mode == mode
            &&& welcome.config == old(target)@.config
            &&& final(target)@.active matches Some(holder) && welcome.controller == holder.id
                && welcome.epoch == holder.epoch && holder.mode == mode
            &&& final(service)@.controller == Some((welcome.controller, mode))
        },
{
    controllers_are_welcomed(old(service)@, old(target)@, now, stop, mode);
}

/// A stream that says hello asks for its mode in the one version there is, and within the time for
/// opening.
pub proof fn streams_open_in_their_mode(
    mode: Mode,
    now: u128,
    opening: Connecting,
    stream: &mut Connecting,
    later: u128,
    result: Connection,
)
    requires
        now + 5_000_000_000 <= u128::MAX,
        call_ensures(Connecting::new, (mode, now), opening),
        *old(stream) == opening,
        call_ensures(Connecting::resume, (stream, later, Answer::Done { queued: 0 }), result),
    ensures
        result == Connection::Needs(Action::Send(Wire::Hello { version: 1, mode })),
        final(stream).mode == mode,
        final(stream).deadline == now + 5_000_000_000,
{
}

/// Bytes that a stream has framed leave it in order, whatever the portions, and what a peer has fed
/// is received in order as the messages that it framed.
pub proof fn framed_messages_arrive(
    sender: &mut Framed,
    payload: &[u8],
    sent: Result<(), WireError>,
    fed: &mut Framed,
    bytes: &[u8],
    receiver: &mut Framed,
    received: Result<Option<Vec<u8>>, WireError>,
)
    requires
        1 <= payload@.len() <= MAX_FRAME,
        old(sender).pending().len() == 0,
        call_ensures(Framed::send, (sender, payload), sent),
        old(fed).received().len() == 0,
        bytes@ == final(sender).pending(),
        call_ensures(Framed::feed, (fed, bytes), ()),
        *old(receiver) == *final(fed),
        call_ensures(Framed::receive, (receiver,), received),
        sent is Ok,
    ensures
        bytes@.len() == payload@.len() + 4,
        bytes@.subrange(0, 4) == be32(payload@.len() as u32),
        received matches Ok(Some(message)) && message@ == payload@,
        final(receiver).received().len() == 0,
{
    frames_round_trip(payload@, Seq::empty());
    assert(old(sender).pending() =~= Seq::<u8>::empty());
    assert(old(fed).received() =~= Seq::<u8>::empty());
    assert(bytes@ =~= frame(payload@) + Seq::<u8>::empty());
    integers_round_trip(payload@.len() as u32, 0);
    assert(bytes@.subrange(0, 4) =~= be32(payload@.len() as u32));
}

/// Heartbeats go out four times in an idle timeout, and once a second at the least; time does not
/// run backwards.
pub proof fn heartbeats_keep_a_stream_alive(
    idle_timeout: u128,
    every: u128,
    earlier: u128,
    now: u128,
    passed: u128,
)
    requires
        call_ensures(interval, (idle_timeout,), every),
        call_ensures(elapsed_since, (earlier, now), passed),
    ensures
        every * 4 <= idle_timeout,
        every <= 1_000_000_000,
        every == 1_000_000_000 || (every + 1) * 4 > idle_timeout,
        now >= earlier ==> passed == now - earlier,
        now < earlier ==> passed == 0,
{
}

/// A service begins with nobody, and gives a stream the same time to say hello as a client gives its
/// target to answer.
pub proof fn services_begin_with_nobody(now: u128, service: Service)
    requires
        now + 5_000_000_000 <= u128::MAX,
        call_ensures(Service::new, (now,), service),
    ensures
        service@.controller is None,
        service@.phase == Phase::Greeting,
        service@.deadline == now + 5_000_000_000,
        !service@.closing,
{
}

/// A stream that is given up closes its controller, and nobody else.
pub proof fn abandoned_streams_close_their_controller(service: &mut Service, target: &mut Target)
    requires
        call_ensures(Service::abandon, (service, target), ()),
    ensures
        final(service)@.controller is None,
        final(service)@.phase == Phase::Ended,
        old(service)@.controller is None ==> final(target)@ == old(target)@,
        old(service)@.controller matches Some((id, _))
            ==> final(target)@ == old(target)@.detach(id),
{
}

} // verus!
