//! The serving side of an input stream, as decisions between stream operations.

use super::model::{Error, Mode, Status};
use super::session::{Controller, Target};
use super::state::Session;
use super::upkeep::lemma_leave;
use super::wire::{
    elapsed_since, heartbeat_interval, interval, since, Action, Answer, Fault, Welcome, Wire, BURST,
    STARTUP, VERSION,
};
use vstd::prelude::*;

verus! {

/// What the service waits for.
#[derive(Debug, Clone, Copy, PartialEq, Eq, Structural)]
pub enum Phase {
    /// The next look for a hello.
    Greeting,
    /// The hello.
    Hello,
    /// The rejection to be queued.
    Rejected,
    /// The rejection to be written.
    Parting,
    /// The next round.
    Round,
    /// A message; that many more may follow in this round.
    Message { left: u32 },
    /// An answer to a message to be queued; that many more messages may follow.
    Answered { left: u32 },
    /// A status to be queued.
    Polled,
    /// A heartbeat to be queued.
    Beaten,
    /// The round's output to be written.
    Flushing,
    /// Nothing any more.
    Ended,
}

/// The serving side of one stream.
pub struct Service {
    phase: Phase,
    controller: Option<Controller>,
    deadline: u128,
    interval: u128,
    heartbeat: u128,
    closing: bool,
}

/// What a service remembers between stream operations.
pub struct ServiceState {
    pub phase: Phase,
    /// Identity and mode of the stream's controller.
    pub controller: Option<(u64, Mode)>,
    pub deadline: u128,
    pub interval: u128,
    pub heartbeat: u128,
    /// Whether the controller's end has been told.
    pub closing: bool,
}

/// The service after an answer, the session after it, and what the stream is asked next.
pub struct Reaction {
    pub service: ServiceState,
    pub session: Session,
    pub action: Action,
}

impl View for Service {
    type V = ServiceState;

    closed spec fn view(&self) -> ServiceState {
        ServiceState {
            phase: self.phase,
            controller: match self.controller {
                Some(controller) => Some((controller.spec_id(), controller.spec_mode())),
                None => None,
            },
            deadline: self.deadline,
            interval: self.interval,
            heartbeat: self.heartbeat,
            closing: self.closing,
        }
    }
}

impl ServiceState {
    /// Phases in which a controller is connected.
    pub open spec fn connected(self) -> bool {
        match self.phase {
            Phase::Round => true,
            Phase::Message { .. } => true,
            Phase::Answered { .. } => true,
            Phase::Polled => true,
            Phase::Beaten => true,
            Phase::Flushing => true,
            _ => false,
        }
    }

    pub open spec fn inv(self) -> bool {
        self.connected() == (self.controller is Some)
    }

    /// Whether an answer is of the kind that the phase waits for.
    pub open spec fn expects(self, answer: Answer) -> bool {
        match self.phase {
            Phase::Greeting => answer is Done,
            Phase::Hello => answer is Message,
            Phase::Rejected => answer is Done,
            Phase::Parting => answer is Flushed,
            Phase::Round => answer is Done,
            Phase::Message { .. } => answer is Message,
            Phase::Answered { .. } => answer is Done,
            Phase::Polled => answer is Done,
            Phase::Beaten => answer is Done,
            Phase::Flushing => answer is Flushed,
            Phase::Ended => false,
        }
    }

    pub open spec fn at(self, phase: Phase) -> ServiceState {
        ServiceState { phase, ..self }
    }

    /// The stream ends, and with it the controller.
    pub open spec fn ends(self, session: Session, action: Action) -> Reaction {
        Reaction {
            service: ServiceState { phase: Phase::Ended, controller: None, ..self },
            session: match self.controller {
                Some((id, _)) => session.detach(id),
                None => session,
            },
            action,
        }
    }

    /// After the statuses: a heartbeat if one is due, else the round's output.
    pub open spec fn beats(self, session: Session, now: u128) -> Reaction {
        if !self.closing && since(self.heartbeat, now) >= self.interval {
            Reaction {
                service: ServiceState { heartbeat: now, ..self.at(Phase::Beaten) },
                session,
                action: Action::Send(Wire::Heartbeat),
            }
        } else {
            Reaction { service: self.at(Phase::Flushing), session, action: Action::Flush }
        }
    }

    /// After the messages: the controller's next status, if there is one.
    pub open spec fn polls(self, session: Session, now: u128) -> Reaction {
        let (polled, status) = session.poll((self.controller->0).0);
        match status {
            Some(status) => Reaction {
                service: ServiceState {
                    closing: self.closing || status is Closed,
                    ..self.at(Phase::Polled)
                },
                session: polled,
                action: Action::Send(Wire::Reply(status)),
            },
            None => self.beats(polled, now),
        }
    }

    /// The next message of the round, while there may be more.
    pub open spec fn reads(self, session: Session, now: u128, left: u32) -> Reaction {
        if left == 0 {
            self.polls(session, now)
        } else {
            Reaction {
                service: self.at(Phase::Message { left: (left - 1) as u32 }),
                session,
                action: Action::Receive,
            }
        }
    }

    /// A message of the connected controller.
    pub open spec fn hears(
        self,
        session: Session,
        now: u128,
        left: u32,
        message: Wire,
    ) -> Reaction {
        let (id, mode) = self.controller->0;
        match message {
            Wire::Submit { epoch, sequence, event } => {
                let (after, result) = session.submit(id, mode, now, epoch, sequence, event);
                match result {
                    Ok(()) => self.reads(after, now, left),
                    Err(error) => Reaction {
                        service: self.at(Phase::Answered { left }),
                        session: after,
                        action: Action::Send(Wire::Reply(Status::Rejected { sequence, error })),
                    },
                }
            },
            Wire::Heartbeat => self.reads(session.heartbeat(id, now).0, now, left),
            Wire::Reset => {
                let (after, result) = session.reset(id);
                match result {
                    Ok(()) => self.reads(after, now, left),
                    Err(error) => self.ends(after, Action::Fail(Fault::Reset(error))),
                }
            },
            Wire::Close => self.reads(session.close(id), now, left),
            _ => self.ends(session, Action::Fail(Fault::UnexpectedMessage)),
        }
    }

    /// The first message.
    pub open spec fn greets(self, session: Session, now: u128, message: Option<Wire>) -> Reaction {
        match message {
            None => Reaction { service: self.at(Phase::Greeting), session, action: Action::Sleep },
            Some(Wire::Hello { version, mode }) => {
                if version != VERSION {
                    self.ends(session, Action::Fail(Fault::ExpectedHello))
                } else {
                    let (after, result) = session.admit_controller(mode, now);
                    match result {
                        Ok(id) => Reaction {
                            service: ServiceState {
                                controller: Some((id, mode)),
                                interval: heartbeat_interval(session.config.idle_timeout) as u128,
                                heartbeat: now,
                                closing: false,
                                ..self.at(Phase::Round)
                            },
                            session: after,
                            action: Action::Send(
                                Wire::Welcome(
                                    Welcome {
                                        version: VERSION,
                                        mode,
                                        controller: id,
                                        epoch: 1,
                                        config: session.config,
                                    },
                                ),
                            ),
                        },
                        Err(error) => Reaction {
                            service: self.at(Phase::Rejected),
                            session: after,
                            action: Action::Send(Wire::Reject(error)),
                        },
                    }
                }
            },
            Some(_) => self.ends(session, Action::Fail(Fault::ExpectedHello)),
        }
    }

    /// How the service goes on after the stream's answer to its last action.
    pub open spec fn resumes(
        self,
        session: Session,
        now: u128,
        stop: bool,
        answer: Answer,
    ) -> Reaction {
        match self.phase {
            Phase::Greeting => {
                if stop || now >= self.deadline {
                    self.ends(session, Action::Finish)
                } else {
                    Reaction { service: self.at(Phase::Hello), session, action: Action::Receive }
                }
            },
            Phase::Hello => self.greets(session, now, answer->0),
            Phase::Rejected => Reaction {
                service: self.at(Phase::Parting),
                session,
                action: Action::Flush,
            },
            Phase::Parting => self.ends(session, Action::Finish),
            Phase::Round => {
                if stop {
                    self.ends(session, Action::Finish)
                } else if self.closing {
                    self.polls(session.expire(now), now)
                } else {
                    self.reads(session.expire(now), now, BURST)
                }
            },
            Phase::Message { left } => match answer->0 {
                None => self.polls(session, now),
                Some(message) => self.hears(session, now, left, message),
            },
            Phase::Answered { left } => self.reads(session, now, left),
            Phase::Polled => self.polls(session, now),
            Phase::Beaten => Reaction {
                service: self.at(Phase::Flushing),
                session,
                action: Action::Flush,
            },
            Phase::Flushing => {
                if self.closing && answer->Flushed_queued == 0 {
                    self.ends(session, Action::Finish)
                } else {
                    Reaction { service: self.at(Phase::Round), session, action: Action::Sleep }
                }
            },
            Phase::Ended => self.ends(session, Action::Finish),
        }
    }
}

impl Service {
    /// A service for a stream that has just been accepted.
    pub fn new(now: u128) -> (result: Self)
        requires
            now + STARTUP <= u128::MAX,
        ensures
            result@.inv(),
            result@ == (ServiceState {
                phase: Phase::Greeting,
                controller: None,
                deadline: (now + STARTUP) as u128,
                interval: 0,
                heartbeat: now,
                closing: false,
            }),
    {
        Service {
            phase: Phase::Greeting,
            controller: None,
            deadline: now + STARTUP,
            interval: 0,
            heartbeat: now,
            closing: false,
        }
    }

    pub fn phase(&self) -> (result: Phase)
        ensures
            result == self@.phase,
    {
        self.phase
    }

    fn ends(&mut self, target: &mut Target)
        requires
            old(target)@.inv(),
        ensures
            final(target)@.inv(),
            forall|action: Action|
                (#[trigger] old(self)@.ends(old(target)@, action)).service == final(self)@
                    && old(self)@.ends(old(target)@, action).session == final(target)@,
    {
        self.phase = Phase::Ended;
        match self.controller.take() {
            Some(controller) => controller.detach(target),
            None => {},
        }
    }

    /// Ends the service because its stream broke.
    pub fn abandon(&mut self, target: &mut Target)
        requires
            old(target)@.inv(),
        ensures
            final(target)@.inv(),
            final(self)@ == old(self)@.ends(old(target)@, Action::Finish).service,
            final(target)@ == old(self)@.ends(old(target)@, Action::Finish).session,
    {
        let ghost reaction = self@.ends(target@, Action::Finish);
        self.ends(target);
    }

    fn beats(&mut self, now: u128) -> (result: Action)
        ensures
            forall|session: Session|
                (#[trigger] old(self)@.beats(session, now)) == (Reaction {
                    service: final(self)@,
                    session,
                    action: result,
                }),
    {
        if !self.closing && elapsed_since(self.heartbeat, now) >= self.interval {
            self.heartbeat = now;
            self.phase = Phase::Beaten;
            Action::Send(Wire::Heartbeat)
        } else {
            self.phase = Phase::Flushing;
            Action::Flush
        }
    }

    fn polls(&mut self, target: &mut Target, now: u128) -> (result: Action)
        requires
            old(target)@.inv(),
            old(self)@.controller is Some,
        ensures
            final(target)@.inv(),
            old(self)@.polls(old(target)@, now) == (Reaction {
                service: final(self)@,
                session: final(target)@,
                action: result,
            }),
    {
        let status = match &self.controller {
            Some(controller) => controller.poll(target),
            None => None,
        };
        match status {
            Some(status) => {
                match status {
                    Status::Closed { .. } => {
                        self.closing = true;
                    },
                    _ => {},
                }
                self.phase = Phase::Polled;
                Action::Send(Wire::Reply(status))
            },
            None => {
                let ghost session = target@;
                let ghost next = self@.beats(session, now);
                self.beats(now)
            },
        }
    }

    fn reads(&mut self, target: &mut Target, now: u128, left: u32) -> (result: Action)
        requires
            old(target)@.inv(),
            old(self)@.controller is Some,
        ensures
            final(target)@.inv(),
            old(self)@.reads(old(target)@, now, left) == (Reaction {
                service: final(self)@,
                session: final(target)@,
                action: result,
            }),
    {
        if left == 0 {
            self.polls(target, now)
        } else {
            self.phase = Phase::Message { left: left - 1 };
            Action::Receive
        }
    }

    fn hears(&mut self, target: &mut Target, now: u128, left: u32, message: Wire) -> (result:
        Action)
        requires
            old(target)@.inv(),
            old(target)@.countable(),
            old(self)@.controller is Some,
        ensures
            final(target)@.inv(),
            old(self)@.hears(old(target)@, now, left, message) == (Reaction {
                service: final(self)@,
                session: final(target)@,
                action: result,
            }),
    {
        let controller = match &self.controller {
            Some(controller) => controller,
            None => {
                return Action::Finish;
            },
        };
        match message {
            Wire::Submit { epoch, sequence, event } => match controller.submit(
                target,
                now,
                epoch,
                sequence,
                event,
            ) {
                Ok(()) => self.reads(target, now, left),
                Err(error) => {
                    self.phase = Phase::Answered { left };
                    Action::Send(Wire::Reply(Status::Rejected { sequence, error }))
                },
            },
            Wire::Heartbeat => {
                let _ = controller.heartbeat(target, now);
                self.reads(target, now, left)
            },
            Wire::Reset => match controller.reset(target) {
                Ok(()) => self.reads(target, now, left),
                Err(error) => {
                    let action = Action::Fail(Fault::Reset(error));
                    let ghost next = self@.ends(target@, action);
                    self.ends(target);
                    action
                },
            },
            Wire::Close => {
                controller.close(target);
                self.reads(target, now, left)
            },
            _ => {
                let action = Action::Fail(Fault::UnexpectedMessage);
                let ghost next = self@.ends(target@, action);
                self.ends(target);
                action
            },
        }
    }

    fn greets(&mut self, target: &mut Target, now: u128, message: Option<Wire>) -> (result: Action)
        requires
            old(target)@.inv(),
            old(self)@.controller is None,
        ensures
            final(target)@.inv(),
            old(self)@.greets(old(target)@, now, message) == (Reaction {
                service: final(self)@,
                session: final(target)@,
                action: result,
            }),
    {
        match message {
            None => {
                self.phase = Phase::Greeting;
                Action::Sleep
            },
            Some(Wire::Hello { version, mode }) => {
                if version != VERSION {
                    self.phase = Phase::Ended;
                    return Action::Fail(Fault::ExpectedHello);
                }
                let config = target.config();
                match target.admit_controller(mode, now) {
                    Ok(controller) => {
                        let id: u64 = controller.id();
                        self.controller = Some(controller);
                        self.interval = interval(config.idle_timeout);
                        self.heartbeat = now;
                        self.closing = false;
                        self.phase = Phase::Round;
                        Action::Send(
                            Wire::Welcome(
                                Welcome { version: VERSION, mode, controller: id, epoch: 1, config },
                            ),
                        )
                    },
                    Err(error) => {
                        self.phase = Phase::Rejected;
                        Action::Send(Wire::Reject(error))
                    },
                }
            },
            Some(_) => {
                self.phase = Phase::Ended;
                Action::Fail(Fault::ExpectedHello)
            },
        }
    }

    /// Goes on after the stream's answer to the last action. The first call, before any
    /// action, answers `Done`.
    pub fn resume(
        &mut self,
        target: &mut Target,
        now: u128,
        stop: bool,
        answer: Answer,
    ) -> (result: Action)
        requires
            old(self)@.inv(),
            old(self)@.expects(answer),
            old(target)@.inv(),
            old(target)@.countable(),
        ensures
            final(self)@.inv(),
            final(target)@.inv(),
            old(self)@.resumes(old(target)@, now, stop, answer) == (Reaction {
                service: final(self)@,
                session: final(target)@,
                action: result,
            }),
    {
        match self.phase {
            Phase::Greeting => {
                if stop || now >= self.deadline {
                    self.phase = Phase::Ended;
                    Action::Finish
                } else {
                    self.phase = Phase::Hello;
                    Action::Receive
                }
            },
            Phase::Hello => match answer {
                Answer::Message(message) => self.greets(target, now, message),
                _ => Action::Finish,
            },
            Phase::Rejected => {
                self.phase = Phase::Parting;
                Action::Flush
            },
            Phase::Parting => {
                self.phase = Phase::Ended;
                Action::Finish
            },
            Phase::Round => {
                if stop {
                    let ghost next = self@.ends(target@, Action::Finish);
                    self.ends(target);
                    return Action::Finish;
                }
                target.tick(now);
                if self.closing {
                    self.polls(target, now)
                } else {
                    self.reads(target, now, BURST)
                }
            },
            Phase::Message { left } => match answer {
                Answer::Message(Some(message)) => self.hears(target, now, left, message),
                _ => self.polls(target, now),
            },
            Phase::Answered { left } => self.reads(target, now, left),
            Phase::Polled => self.polls(target, now),
            Phase::Beaten => {
                self.phase = Phase::Flushing;
                Action::Flush
            },
            Phase::Flushing => {
                let drained = match answer {
                    Answer::Flushed { queued } => queued == 0,
                    _ => false,
                };
                if self.closing && drained {
                    let ghost next = self@.ends(target@, Action::Finish);
                    self.ends(target);
                    Action::Finish
                } else {
                    self.phase = Phase::Round;
                    Action::Sleep
                }
            },
            Phase::Ended => Action::Finish,
        }
    }
}

/// A refused controller is told why, and the stream is closed only after that was offered
/// to it; the target is left as it was.
pub proof fn refusals_are_told(
    service: ServiceState,
    session: Session,
    now: u128,
    stop: bool,
    mode: Mode,
    error: Error,
    later: u128,
    queued: usize,
)
    requires
        service.inv(),
        service.phase == Phase::Hello,
        session.inv(),
        session.admit_controller(mode, now).1 == Err::<u64, Error>(error),
    ensures
        ({
            let hello = Answer::Message(Some(Wire::Hello { version: VERSION, mode }));
            let told = service.resumes(session, now, stop, hello);
            let flushed = told.service.resumes(told.session, later, stop, Answer::Done { queued });
            let parted = flushed.service.resumes(
                flushed.session,
                later,
                stop,
                Answer::Flushed { queued },
            );
            &&& told.action == Action::Send(Wire::Reject(error))
            &&& flushed.action == Action::Flush
            &&& parted.action == Action::Finish
            &&& parted.session == session
        }),
{
}

/// Once the controller's end has been told, the service reads no more messages and sends
/// no more heartbeats.
pub proof fn closing_only_drains(
    service: ServiceState,
    session: Session,
    now: u128,
    stop: bool,
    answer: Answer,
)
    requires
        service.inv(),
        service.closing,
        service.expects(answer),
        service.phase == Phase::Round || service.phase == Phase::Polled || service.phase
            == Phase::Beaten || service.phase == Phase::Flushing,
    ensures
        ({
            let next = service.resumes(session, now, stop, answer);
            &&& next.action !is Receive
            &&& next.action != Action::Send(Wire::Heartbeat)
            &&& next.service.closing
            &&& next.service.phase == Phase::Round || next.service.phase == Phase::Polled
                || next.service.phase == Phase::Flushing || next.service.phase == Phase::Ended
        }),
{
}

/// A service that was not told to stop ends cleanly in a connected phase only when the
/// controller's end has been told and all output is written.
pub proof fn connected_services_end_drained(
    service: ServiceState,
    session: Session,
    now: u128,
    answer: Answer,
)
    requires
        service.inv(),
        service.connected(),
        service.expects(answer),
        service.resumes(session, now, false, answer).action is Finish,
    ensures
        service.closing,
        answer == (Answer::Flushed { queued: 0 }),
{
}

/// When a service ends, its controller no longer holds a part in the target: what was
/// queued for it is cancelled, and nobody can poll in its name.
pub proof fn ended_services_leave_the_target(
    service: ServiceState,
    session: Session,
    action: Action,
)
    requires
        service.inv(),
        session.inv(),
        service.controller is Some,
    ensures
        ({
            let id = (service.controller->0).0;
            let after = service.ends(session, action).session;
            &&& after.inv()
            &&& after.held_by(id) ==> !(after.active->0).attached
            &&& !after.held_by(id) ==> !after.departed.contains_key(id)
        }),
{
    lemma_leave(session, (service.controller->0).0);
}

} // verus!
