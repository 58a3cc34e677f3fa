//! What the two ends of an input stream say to each other, message by message.

use super::client::{ClientState, Connecting, Connection, Driver, Opening, Stage};
use super::model::{Error, Event, Geometry, Mode, Reason, Status};
use super::service::{Phase, ServiceState};
use super::state::Session;
use super::validation::verdict;
use super::wire::{Action, Answer, Fault, Welcome, Wire};
use vstd::prelude::*;

verus! {

/// Whether a client can take one more status.
pub open spec fn hears_more(client: ClientState) -> bool {
    client.status.len() < client.welcome.config.max_events * 2 + 4
}

/// The client after a reply, as its worker takes it.
pub open spec fn told(
    driver: Driver,
    client: ClientState,
    now: u128,
    stop: bool,
    status: Status,
) -> ClientState {
    driver.resumes(client, now, stop, Answer::Message(Some(Wire::Reply(status)))).client
}

/// After a reply that a reset is done, the client's offer has the epoch and the surface of the
/// reply, and nothing else of it has changed; and the next event that is accepted goes out last
/// in the queue under that epoch.
pub proof fn resets_are_learned(
    driver: Driver,
    client: ClientState,
    now: u128,
    stop: bool,
    epoch: u64,
    geometry: Geometry,
    event: Event,
)
    requires
        driver.stage is Message,
    ensures
        ({
            let status = Status::Reset { epoch, geometry };
            let after = told(driver, client, now, stop, status);
            let (sent, result) = after.send(event);
            &&& after.welcome.epoch == epoch
            &&& after.welcome.config.geometry == geometry
            &&& after.welcome.mode == client.welcome.mode
            &&& after.welcome.version == client.welcome.version
            &&& after.welcome.controller == client.welcome.controller
            &&& after.welcome.config.max_events == client.welcome.config.max_events
            &&& after.welcome.config.max_bytes == client.welcome.config.max_bytes
            &&& after.welcome.config.max_text_bytes == client.welcome.config.max_text_bytes
            &&& after.welcome.config.capabilities == client.welcome.config.capabilities
            &&& after.welcome.config.modes == client.welcome.config.modes
            &&& after.welcome.config.idle_timeout == client.welcome.config.idle_timeout
            &&& !after.resetting
            &&& after.sequence == client.sequence
            &&& after.queue == client.queue
            &&& after.alive == client.alive
            &&& after.closing == client.closing
            &&& hears_more(client) ==> after.status == client.status.push(status)
            &&& result matches Ok(sequence) ==> {
                &&& sequence == client.sequence + 1
                &&& sent.queue.len() > 0
                &&& sent.queue.last() == (Wire::Submit { epoch, sequence, event })
            }
            &&& after.alive && !after.closing && verdict(
                after.welcome.config,
                after.welcome.mode,
                event,
            ) is Ok && after.queue.len() == 0 && 96 + event.text_bytes()
                <= after.welcome.config.max_bytes && after.welcome.config.max_events > 0
                && after.sequence < u64::MAX ==> result is Ok
        }),
{
    let after = told(driver, client, now, stop, Status::Reset { epoch, geometry });
    assert(super::client::outgoing_bytes(Seq::<Wire>::empty()) == 0);
    if after.queue.len() == 0 {
        assert(after.queue =~= Seq::<Wire>::empty());
    }
}

/// Other replies change nothing of the offer: the status is kept for the application, last in
/// order, and only a closing status ends the client.
pub proof fn other_replies_are_kept(
    driver: Driver,
    client: ClientState,
    now: u128,
    stop: bool,
    status: Status,
)
    requires
        driver.stage is Message,
        !(status is Reset),
        hears_more(client),
    ensures
        ({
            let after = told(driver, client, now, stop, status);
            let next = driver.resumes(
                client,
                now,
                stop,
                Answer::Message(Some(Wire::Reply(status))),
            );
            &&& after == (ClientState {
                status: client.status.push(status),
                alive: client.alive && !(status is Closed),
                ..client
            })
            &&& status is Closed <==> next.action is Finish
            &&& next.driver.last_seen == now
        }),
{
}

/// A client whose application does not take its statuses gives the stream up rather than lose one.
pub proof fn untaken_statuses_end_the_stream(
    driver: Driver,
    client: ClientState,
    now: u128,
    stop: bool,
    status: Status,
)
    requires
        driver.stage is Message,
        !hears_more(client),
    ensures
        driver.resumes(client, now, stop, Answer::Message(Some(Wire::Reply(status)))).action
            == Action::Fail(Fault::UnconsumedResults),
{
}

/// A reset that the target has completed leaves both ends in one epoch: the status that the target
/// gives, heard by the client, makes its next event one of the holder's current epoch, which the
/// target does not find stale.
pub proof fn both_ends_agree_on_the_epoch(
    driver: Driver,
    client: ClientState,
    session: Session,
    now: u128,
    stop: bool,
    event: Event,
    mode: Mode,
    later: u128,
)
    requires
        driver.stage is Message,
        session.config.idle_timeout > 0,
        session.active matches Some(holder) && holder.mailbox.len() > 0 && holder.mailbox[0] == (
        Status::Reset { epoch: holder.epoch, geometry: session.config.geometry }),
        session.active matches Some(holder) && holder.last_sequence <= client.sequence,
        !super::promises::silent(session, later),
    ensures
        ({
            let id = (session.active->0).id;
            let (polled, status) = session.poll(id);
            let (sent, result) = told(driver, client, now, stop, status->0).send(event);
            result is Ok ==> (sent.queue.last() matches Wire::Submit { epoch, sequence, event: e }
                && epoch == (polled.active->0).epoch && e == event && polled.submit(
                id,
                mode,
                later,
                epoch,
                sequence,
                event,
            ).1 != Err::<(), Error>(Error::Stale) || verdict(
                session.config,
                (session.active->0).mode,
                event,
            ) is Err)
        }),
{
    let id = (session.active->0).id;
    let (polled, status) = session.poll(id);
    assert(polled.expire(later) == polled);
}

/// An event that the application sends is taken exactly where the client is open and no reset is
/// under way, the event is allowed by the offer, and there is room. It goes out last, under the
/// epoch of the offer and the next number.
pub proof fn sent_events_are_queued(client: ClientState, event: Event)
    ensures
        ({
            let (after, result) = client.send(event);
            let fits = client.queue.len() < client.welcome.config.max_events
                && super::client::outgoing_bytes(client.queue) + 96 + event.text_bytes()
                <= client.welcome.config.max_bytes;
            let allowed = verdict(client.welcome.config, client.welcome.mode, event) is Ok;
            &&& !client.alive || client.closing ==> result == Err::<u64, Error>(Error::Closed)
                && after == client
            &&& client.alive && !client.closing && client.resetting ==> result == Err::<u64, Error>(
                Error::Busy,
            ) && after == client
            &&& client.alive && !client.closing && !client.resetting ==> {
                &&& result is Ok <==> allowed && fits && client.sequence < u64::MAX
                &&& !allowed ==> after == client && result->Err_0 == verdict(
                    client.welcome.config,
                    client.welcome.mode,
                    event,
                )->Err_0
                &&& allowed && !fits ==> result == Err::<u64, Error>(Error::Overflow)
                    && after.stopped && after.closing && after.queue == client.queue
            }
            &&& result matches Ok(sequence) ==> {
                &&& sequence == client.sequence + 1
                &&& after.queue.len() == client.queue.len() + 1
                &&& after.queue.drop_last() == client.queue
                &&& after.queue.last() == (Wire::Submit {
                    epoch: client.welcome.epoch,
                    sequence,
                    event,
                })
                &&& after.sequence == sequence
                &&& after.status == client.status
                &&& after.welcome == client.welcome
                &&& after.alive && !after.closing && !after.resetting
            }
        }),
{
    let after = client.send(event).0;
    if client.send(event).1 is Ok {
        assert(after.queue.drop_last() =~= client.queue);
    }
}

/// A client that asks for a reset or for the end says so next and drops what it had queued.
pub proof fn resets_and_closes_go_first(client: ClientState)
    ensures
        client.alive && !client.closing ==> {
            let (after, result) = client.reset();
            &&& result is Ok
            &&& after.queue.len() == 1 && after.queue[0] == Wire::Reset
            &&& after.resetting
            &&& after.sequence == client.sequence
            &&& after.welcome == client.welcome
            &&& after.status == client.status
        },
        !client.alive || client.closing ==> client.reset() == (client, Err::<(), Error>(
            Error::Closed,
        )),
        client.close().queue.len() == 1 && client.close().queue[0] == Wire::Close,
        client.close().closing,
        client.close().status == client.status,
        client.close().sequence == client.sequence,
{
}

/// Statuses come to the application in the order in which they were heard, each once.
pub proof fn replies_come_in_order(client: ClientState)
    ensures
        ({
            let (after, status) = client.poll();
            &&& client.status.len() == 0 ==> status is None && after == client
            &&& client.status.len() > 0 ==> {
                &&& status == Some(client.status[0])
                &&& after.status == client.status.subrange(1, client.status.len() as int)
                &&& after.queue == client.queue
                &&& after.welcome == client.welcome
                &&& after.alive == client.alive
            }
        }),
{
}

/// What is queued leaves in its order, one message at a time, while the stream has room; with
/// nothing to send a heartbeat goes out once one is due, unless the client is closing.
pub proof fn messages_leave_in_order(
    driver: Driver,
    client: ClientState,
    now: u128,
    queued: usize,
)
    requires
        driver.stage is Round,
        !client.stopped,
        queued == 0,
    ensures
        ({
            let next = driver.resumes(client, now, false, Answer::Done { queued });
            let due = now > driver.heartbeat && now - driver.heartbeat >= driver.interval;
            &&& client.queue.len() > 0 ==> {
                &&& next.action == Action::Send(client.queue[0])
                &&& next.client.queue == client.queue.subrange(1, client.queue.len() as int)
                &&& next.client.status == client.status
                &&& next.client.welcome == client.welcome
            }
            &&& client.queue.len() == 0 && driver.interval > 0 ==> {
                &&& due && !client.closing ==> next.action == Action::Send(Wire::Heartbeat)
                    && next.driver.heartbeat == now
                &&& !due || client.closing ==> next.action == Action::Flush
                    && next.driver.heartbeat == driver.heartbeat
                &&& next.client == client
            }
        }),
{
}

/// A peer that has been silent for the idle timeout is given up, and not before; whatever it says
/// counts as a sign of life.
pub proof fn silent_peers_are_given_up(
    driver: Driver,
    client: ClientState,
    now: u128,
    stop: bool,
)
    requires
        driver.stage is Message,
        driver.timeout > 0,
    ensures
        ({
            let next = driver.resumes(client, now, stop, Answer::Message(None));
            let gone = now > driver.last_seen && now - driver.last_seen >= driver.timeout;
            &&& gone ==> next.action == Action::Fail(Fault::TimedOut)
            &&& !gone ==> next.action == Action::Sleep && next.driver.last_seen
                == driver.last_seen
            &&& next.client == client
        }),
        driver.resumes(client, now, stop, Answer::Message(Some(Wire::Heartbeat))).driver.last_seen
            == now,
        driver.resumes(client, now, stop, Answer::Message(Some(Wire::Heartbeat))).client == client,
{
}

/// A stream becomes a client only through a welcome in the version and the mode that were asked
/// for, and then with that welcome; a rejection is handed on as the target gave it.
pub proof fn welcomes_are_taken_as_given(
    connecting: Connecting,
    now: u128,
    message: Wire,
)
    requires
        connecting.stage is Welcome,
    ensures
        ({
            let (after, outcome) = connecting.resumes(now, Answer::Message(Some(message)));
            match message {
                Wire::Reject(error) => outcome == Connection::Refused(
                    super::client::ConnectError::Admission(error),
                ),
                Wire::Welcome(welcome) => {
                    &&& outcome matches Connection::Ready(taken) ==> taken == welcome
                        && welcome.version == 1 && welcome.mode == connecting.mode
                    &&& welcome.version == 1 && welcome.mode == connecting.mode
                        && super::state::config_allowed(welcome.config) ==> outcome
                        == Connection::Ready(welcome)
                    &&& welcome.version != 1 || welcome.mode != connecting.mode
                        ==> outcome is Refused
                },
                _ => outcome is Refused,
            }
        }),
        connecting.at(Opening::Start).resumes(now, Answer::Done { queued: 0 }).1
            == Connection::Needs(
            Action::Send(Wire::Hello { version: 1, mode: connecting.mode }),
        ),
        connecting.resumes(now, Answer::Message(None)).1 == (if now >= connecting.deadline {
            Connection::Refused(super::client::ConnectError::Transport(Fault::TimedOut))
        } else {
            Connection::Needs(Action::Sleep)
        }),
{
}

/// A controller that says hello to a free target is welcomed with the target's own configuration
/// and the epoch that the target holds it in; so both ends begin in one epoch.
pub proof fn controllers_are_welcomed(
    service: ServiceState,
    session: Session,
    now: u128,
    stop: bool,
    mode: Mode,
)
    requires
        service.phase == Phase::Hello,
        session.admit_controller(mode, now).1 is Ok,
    ensures
        ({
            let hello = Answer::Message(Some(Wire::Hello { version: 1, mode }));
            let next = service.resumes(session, now, stop, hello);
            &&& next.action matches Action::Send(Wire::Welcome(welcome)) && {
                &&& welcome.version == 1
                &&& welcome.mode == mode
                &&& welcome.config == session.config
                &&& next.session.active matches Some(holder) && {
                    &&& welcome.controller == holder.id
                    &&& welcome.epoch == holder.epoch
                    &&& holder.mode == mode
                }
                &&& next.service.controller == Some((welcome.controller, mode))
            }
            &&& next.service.heartbeat == now
            &&& !next.service.closing
            &&& next.session == session.admit_controller(mode, now).0
        }),
        forall|version: u32|
            version != 1 ==> (#[trigger] service.resumes(
                session,
                now,
                stop,
                Answer::Message(Some(Wire::Hello { version, mode })),
            )).action == Action::Fail(Fault::ExpectedHello),
{
}

/// What a controller says reaches the target in its name: an event is submitted under the epoch
/// and number that it came with and a refusal is answered under that number, a heartbeat shows it
/// alive, and a reset and the end are asked for it.
pub proof fn messages_reach_the_target(
    service: ServiceState,
    session: Session,
    now: u128,
    stop: bool,
    left: u32,
    epoch: u64,
    sequence: u64,
    event: Event,
)
    requires
        service.phase == (Phase::Message { left }),
        left > 0,
        service.controller is Some,
    ensures
        ({
            let (id, mode) = service.controller->0;
            let submit = Answer::Message(Some(Wire::Submit { epoch, sequence, event }));
            let next = service.resumes(session, now, stop, submit);
            let (after, result) = session.submit(id, mode, now, epoch, sequence, event);
            &&& next.session == after
            &&& result is Ok ==> next.action is Receive
            &&& result matches Err(error) ==> next.action == Action::Send(
                Wire::Reply(Status::Rejected { sequence, error }),
            )
            &&& next.service.controller == service.controller
        }),
        ({
            let (id, mode) = service.controller->0;
            &&& service.resumes(
                session,
                now,
                stop,
                Answer::Message(Some(Wire::Heartbeat)),
            ).session == session.heartbeat(id, now).0
            &&& service.resumes(session, now, stop, Answer::Message(Some(Wire::Close))).session
                == session.close(id)
            &&& session.reset(id).1 is Ok ==> service.resumes(
                session,
                now,
                stop,
                Answer::Message(Some(Wire::Reset)),
            ).session == session.reset(id).0
        }),
{
}

/// What the target has for its controller goes out as a reply, the oldest first; the stream
/// counts as closing once the controller's end was told.
pub proof fn statuses_go_out(service: ServiceState, session: Session, now: u128, stop: bool)
    requires
        service.phase is Message || service.phase == Phase::Polled,
        service.controller is Some,
    ensures
        ({
            let id = (service.controller->0).0;
            let answer = if service.phase is Message {
                Answer::Message(None)
            } else {
                Answer::Done { queued: 0 }
            };
            let next = service.resumes(session, now, stop, answer);
            let (polled, status) = session.poll(id);
            &&& status matches Some(status) ==> {
                &&& next.action == Action::Send(Wire::Reply(status))
                &&& next.session == polled
                &&& next.service.closing == (service.closing || status is Closed)
            }
            &&& status is None && service.interval > 0 ==> {
                let due = now > service.heartbeat && now - service.heartbeat >= service.interval;
                &&& next.session == session
                &&& due && !service.closing ==> next.action == Action::Send(Wire::Heartbeat)
                    && next.service.heartbeat == now
                &&& !due || service.closing ==> next.action == Action::Flush
            }
        }),
{
}

/// A service that is told to stop, or whose stream it gives up, leaves its controller's end to the
/// target: the controller is closed, and its statuses are nobody's.
pub proof fn stopped_services_close_their_controller(
    service: ServiceState,
    session: Session,
    now: u128,
)
    requires
        service.phase == Phase::Round,
        service.controller is Some,
    ensures
        ({
            let id = (service.controller->0).0;
            let next = service.resumes(session, now, true, Answer::Done { queued: 0 });
            &&& next.action is Finish
            &&& next.service.controller is None
            &&& next.session == session.detach(id)
        }),
{
}

/// A client whose worker is gone and that had not been told of its end learns that it was
/// disconnected; one that had been told learns nothing more.
pub proof fn lost_clients_are_told(client: ClientState)
    ensures
        client.alive ==> client.ends().status == client.status.push(
            Status::Closed { reason: Reason::Disconnect, clean: false },
        ),
        !client.alive ==> client.ends().status == client.status,
        !client.ends().alive,
        client.ends().sequence == client.sequence,
{
}

/// Who says hello to a target that does not take it is told why, and the stream then ends once that
/// has gone out; the target is left to whoever holds it.
pub proof fn refused_controllers_are_told(
    service: ServiceState,
    session: Session,
    now: u128,
    stop: bool,
    mode: Mode,
    queued: usize,
)
    requires
        service.phase == Phase::Hello,
        service.controller is None,
        session.admit_controller(mode, now).1 is Err,
    ensures
        ({
            let hello = Answer::Message(Some(Wire::Hello { version: 1, mode }));
            let told = service.resumes(session, now, stop, hello);
            let flushed = told.service.resumes(told.session, now, stop, Answer::Done { queued });
            let parted = flushed.service.resumes(
                flushed.session,
                now,
                stop,
                Answer::Flushed { queued },
            );
            &&& told.action
                == Action::Send(Wire::Reject(session.admit_controller(mode, now).1->Err_0))
            &&& flushed.action is Flush
            &&& parted.action is Finish
            &&& parted.service.controller is None
            &&& parted.session == session.admit_controller(mode, now).0
        }),
{
}

/// A stream is greeted only with a hello, within its time: until one comes the service waits, and
/// anything else, the end of the time or being told to stop ends it with nobody admitted.
pub proof fn streams_wait_for_their_hello(
    service: ServiceState,
    session: Session,
    now: u128,
    stop: bool,
    message: Wire,
    queued: usize,
)
    requires
        service.controller is None,
    ensures
        service.phase == Phase::Greeting ==> {
            let next = service.resumes(session, now, stop, Answer::Done { queued });
            &&& next.session == session
            &&& stop || now >= service.deadline ==> next.action is Finish
            &&& !stop && now < service.deadline ==> next.action is Receive && next.service.phase
                == Phase::Hello
        },
        service.phase == Phase::Hello ==> {
            let silent = service.resumes(session, now, stop, Answer::Message(None));
            let other = service.resumes(session, now, stop, Answer::Message(Some(message)));
            &&& silent.action is Sleep && silent.service.phase == Phase::Greeting && silent.session
                == session
            &&& !(message is Hello) ==> other.action == Action::Fail(Fault::ExpectedHello)
                && other.session == session && other.service.controller is None
        },
{
}

/// A round looks for silence first, then reads a bounded number of messages, then answers. A stream
/// whose controller has ended reads nothing more, and it is over once its last answer has gone out.
pub proof fn rounds_read_then_answer(
    service: ServiceState,
    session: Session,
    now: u128,
    left: u32,
    queued: usize,
)
    requires
        service.controller is Some,
    ensures
        service.phase == Phase::Round ==> {
            let next = service.resumes(session, now, false, Answer::Done { queued });
            &&& !service.closing ==> next.action is Receive && next.session == session.expire(now)
                && (next.service.phase matches Phase::Message { left } && left == 31)
            &&& service.closing ==> !(next.action is Receive)
        },
        service.phase == (Phase::Message { left }) ==> {
            let beat = service.resumes(session, now, false, Answer::Message(Some(Wire::Heartbeat)));
            &&& left > 0 ==> beat.action is Receive && beat.service.phase == (Phase::Message {
                left: (left - 1) as u32,
            })
            &&& left == 0 ==> !(beat.action is Receive)
        },
        service.phase == (Phase::Answered { left }) ==> {
            let next = service.resumes(session, now, false, Answer::Done { queued });
            &&& left > 0 ==> next.action is Receive && next.service.phase == (Phase::Message {
                left: (left - 1) as u32,
            }) && next.session == session
            &&& left == 0 ==> !(next.action is Receive)
        },
        service.phase == Phase::Beaten ==> service.resumes(
            session,
            now,
            false,
            Answer::Done { queued },
        ).action is Flush,
        service.phase == Phase::Flushing ==> {
            let next = service.resumes(session, now, false, Answer::Flushed { queued });
            &&& service.closing && queued == 0 ==> next.action is Finish && next.session
                == session.detach((service.controller->0).0) && next.service.controller is None
            &&& !service.closing || queued > 0 ==> next.action is Sleep && next.service.phase
                == Phase::Round && next.session == session && next.service.controller
                == service.controller
        },
{
}

/// A message that no controller may send ends the stream, and its controller with it.
pub proof fn strange_messages_end_the_stream(
    service: ServiceState,
    session: Session,
    now: u128,
    stop: bool,
    left: u32,
    message: Wire,
)
    requires
        service.phase == (Phase::Message { left }),
        service.controller is Some,
        message is Hello || message is Welcome || message is Reject || message is Reply,
    ensures
        ({
            let next = service.resumes(session, now, stop, Answer::Message(Some(message)));
            &&& next.action == Action::Fail(Fault::UnexpectedMessage)
            &&& next.session == session.detach((service.controller->0).0)
            &&& next.service.controller is None
        }),
{
}

/// A client's round writes a bounded number of messages while little waits to be written, then what
/// is queued goes out, then a bounded number of messages is read; a worker that is to stop ends
/// before it, and what it has not sent stays.
pub proof fn workers_write_then_read(
    driver: Driver,
    client: ClientState,
    now: u128,
    stop: bool,
    queued: usize,
    left: u32,
)
    ensures
        driver.stage is Round ==> {
            let next = driver.resumes(client, now, stop, Answer::Done { queued });
            &&& stop || client.stopped ==> next.action is Finish && next.client == client
            &&& !stop && !client.stopped && queued < 131072 && client.queue.len() > 0
                ==> next.action
                == Action::Send(client.queue[0]) && (next.driver.stage matches Stage::Sending {
                left,
            } && left == 31)
            &&& !stop && !client.stopped && queued >= 131072 ==> next.client == client
                && !(next.action is Finish)
        },
        driver.stage == (Stage::Sending { left }) ==> {
            let next = driver.resumes(client, now, stop, Answer::Done { queued });
            &&& left > 0 && queued < 131072 && client.queue.len() > 0 ==> {
                &&& next.action == Action::Send(client.queue[0])
                &&& next.client.queue == client.queue.subrange(1, client.queue.len() as int)
                &&& next.driver.stage == (Stage::Sending { left: (left - 1) as u32 })
            }
            &&& left == 0 || queued >= 131072 || client.queue.len() == 0
                ==> next.client == client && (
            next.action is Flush || next.action == Action::Send(Wire::Heartbeat))
        },
        driver.stage is Beaten ==> {
            let next = driver.resumes(client, now, stop, Answer::Done { queued });
            next.action is Flush && next.client == client
        },
        driver.stage is Flushing ==> {
            let next = driver.resumes(client, now, stop, Answer::Flushed { queued });
            next.action is Receive && next.client == client && (
            next.driver.stage matches Stage::Message { left } && left == 31)
        },
        driver.stage == (Stage::Message { left }) && driver.timeout > 0 ==> {
            let next = driver.resumes(client, now, stop, Answer::Message(Some(Wire::Heartbeat)));
            &&& next.client == client
            &&& left > 0 ==> next.action is Receive && next.driver.stage == (Stage::Message {
                left: (left - 1) as u32,
            })
            &&& left == 0 ==> next.action is Sleep && next.driver.stage is Round
        },
{
}

/// A message that no target may send ends the stream, and changes nothing of the client.
pub proof fn strange_replies_end_the_stream(
    driver: Driver,
    client: ClientState,
    now: u128,
    stop: bool,
    message: Wire,
)
    requires
        driver.stage is Message,
        !(message is Heartbeat),
        !(message is Reply),
    ensures
        ({
            let next = driver.resumes(client, now, stop, Answer::Message(Some(message)));
            &&& next.action == Action::Fail(Fault::UnexpectedReply)
            &&& next.client == client
        }),
{
}

/// A stream opens with its hello, which is written out before an answer is looked for; without one
/// it looks again later. What it cannot take ends it, each for its reason, and an opening that has
/// ended gives no client.
pub proof fn openings_wait_for_their_welcome(
    connecting: Connecting,
    now: u128,
    queued: usize,
    welcome: Welcome,
)
    ensures
        connecting.stage is Start ==> {
            let sent = connecting.resumes(now, Answer::Done { queued }).0;
            let (flushing, first) = sent.resumes(now, Answer::Done { queued });
            let (reading, second) = flushing.resumes(now, Answer::Flushed { queued });
            &&& first == Connection::Needs(Action::Flush)
            &&& second == Connection::Needs(Action::Receive)
            &&& reading.stage is Welcome
            &&& reading.mode == connecting.mode
            &&& reading.deadline == connecting.deadline
        },
        connecting.stage is Welcome ==> {
            let taken = connecting.resumes(now, Answer::Message(Some(Wire::Welcome(welcome))));
            let silent = connecting.resumes(now, Answer::Message(None));
            &&& now < connecting.deadline ==> silent.1 == Connection::Needs(Action::Sleep)
                && silent.0.resumes(now, Answer::Done { queued }).1
                == Connection::Needs(Action::Flush)
            &&& welcome.version != 1 || welcome.mode != connecting.mode ==> taken.1
                == Connection::Refused(
                super::client::ConnectError::Transport(Fault::InvalidWelcome),
            )
            &&& welcome.version == 1 && welcome.mode == connecting.mode
                && !super::state::config_allowed(welcome.config) ==> taken.1 == Connection::Refused(
                super::client::ConnectError::Transport(Fault::InvalidOffer),
            )
            &&& taken.0.stage is Ended
        },
        connecting.stage is Ended ==> !(connecting.resumes(
            now,
            Answer::Message(Some(Wire::Welcome(welcome))),
        ).1 is Ready),
{
}

} // verus!
