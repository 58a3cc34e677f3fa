//! The controlling side of an input stream: what the application sees of it, and the
//! decisions between stream operations.

use std::collections::VecDeque;

use super::framing::MAX_FRAME;
use super::model::{Config, Error, Event, Mode, Reason, Status};
use super::session::Target;
use super::state::{config_allowed, limits_allowed};
use super::validation::{accepted_text_is_bounded, validate, verdict};
use super::wire::{
    elapsed_since, heartbeat_interval, interval, since, Action, Answer, Fault, Welcome, Wire, BURST,
    STARTUP, VERSION,
};
use vstd::prelude::*;

verus! {

/// Why a stream did not become a client.
#[derive(Debug, Clone, Copy, PartialEq, Eq, Structural)]
pub enum ConnectError {
    /// The target refused the controller.
    Admission(Error),
    /// The stream did not go through its first exchange.
    Transport(Fault),
}

/// Bytes that a queued message counts for.
pub open spec fn message_bytes(message: Wire) -> nat {
    match message {
        Wire::Submit { event, .. } => event.spec_bytes(),
        _ => 0,
    }
}

/// Bytes that a queue of messages counts for together.
pub open spec fn outgoing_bytes(queue: Seq<Wire>) -> nat
    decreases queue.len(),
{
    if queue.len() == 0 {
        0
    } else {
        message_bytes(queue[0]) + outgoing_bytes(queue.drop_first())
    }
}

proof fn lemma_outgoing_push(queue: Seq<Wire>, message: Wire)
    ensures
        outgoing_bytes(queue.push(message)) == outgoing_bytes(queue) + message_bytes(message),
    decreases queue.len(),
{
    if queue.len() == 0 {
        assert(queue.push(message).drop_first() =~= Seq::<Wire>::empty());
        assert(outgoing_bytes(Seq::<Wire>::empty()) == 0);
    } else {
        lemma_outgoing_push(queue.drop_first(), message);
        assert(queue.push(message).drop_first() =~= queue.drop_first().push(message));
    }
}

/// What the application and the stream's worker share.
pub struct Client {
    welcome: Welcome,
    sequence: u64,
    queue: VecDeque<Wire>,
    bytes: usize,
    status: VecDeque<Status>,
    alive: bool,
    closing: bool,
    resetting: bool,
    stopped: bool,
}

/// The model of a client.
#[verifier::ext_equal]
pub struct ClientState {
    pub welcome: Welcome,
    /// The last sequence number that was given out.
    pub sequence: u64,
    /// Messages that the worker has not taken yet.
    pub queue: Seq<Wire>,
    /// Statuses that the application has not polled yet.
    pub status: Seq<Status>,
    pub alive: bool,
    pub closing: bool,
    pub resetting: bool,
    /// Whether the worker is to stop without another message.
    pub stopped: bool,
}

impl View for Client {
    type V = ClientState;

    closed spec fn view(&self) -> ClientState {
        ClientState {
            welcome: self.welcome,
            sequence: self.sequence,
            queue: self.queue@,
            status: self.status@,
            alive: self.alive,
            closing: self.closing,
            resetting: self.resetting,
            stopped: self.stopped,
        }
    }
}

impl ClientState {
    /// Statuses that may wait for the application.
    pub open spec fn status_limit(self) -> int {
        self.welcome.config.max_events * 2 + 4
    }

    /// Whether one more event fits in the offered bounds.
    pub open spec fn has_room(self, event: Event) -> bool {
        &&& self.queue.len() < self.welcome.config.max_events
        &&& outgoing_bytes(self.queue) + event.spec_bytes() <= self.welcome.config.max_bytes
    }

    /// The application sends an event. The result is the event's sequence number.
    pub open spec fn send(self, event: Event) -> (ClientState, Result<u64, Error>) {
        if !self.alive || self.closing {
            (self, Err(Error::Closed))
        } else if self.resetting {
            (self, Err(Error::Busy))
        } else if verdict(self.welcome.config, self.welcome.mode, event) is Err {
            (self, Err(verdict(self.welcome.config, self.welcome.mode, event)->Err_0))
        } else if !self.has_room(event) {
            (ClientState { stopped: true, closing: true, ..self }, Err(Error::Overflow))
        } else if self.sequence == u64::MAX {
            (self, Err(Error::Closed))
        } else {
            let sequence = (self.sequence + 1) as u64;
            (
                ClientState {
                    sequence,
                    queue: self.queue.push(
                        Wire::Submit { epoch: self.welcome.epoch, sequence, event },
                    ),
                    ..self
                },
                Ok(sequence),
            )
        }
    }

    /// The application asks for a fresh interaction: what it sent and the worker has not
    /// taken is dropped.
    pub open spec fn reset(self) -> (ClientState, Result<(), Error>) {
        if !self.alive || self.closing {
            (self, Err(Error::Closed))
        } else {
            (ClientState { queue: seq![Wire::Reset], resetting: true, ..self }, Ok(()))
        }
    }

    /// The application ends the session.
    pub open spec fn close(self) -> ClientState {
        ClientState { queue: seq![Wire::Close], closing: true, ..self }
    }

    pub open spec fn poll(self) -> (ClientState, Option<Status>) {
        if self.status.len() == 0 {
            (self, None)
        } else {
            (ClientState { status: self.status.drop_first(), ..self }, Some(self.status[0]))
        }
    }

    /// The status that a reply carries changes the epoch and the surface, and is kept for
    /// the application.
    pub open spec fn learns(self, status: Status) -> ClientState {
        match status {
            Status::Reset { epoch, geometry } => ClientState {
                resetting: false,
                welcome: Welcome {
                    epoch,
                    config: Config { geometry, ..self.welcome.config },
                    ..self.welcome
                },
                ..self
            },
            _ => self,
        }
    }

    /// The worker is gone: a client that was still alive learns that it was disconnected.
    pub open spec fn ends(self) -> ClientState {
        ClientState {
            status: if self.alive {
                self.status.push(Status::Closed { reason: Reason::Disconnect, clean: false })
            } else {
                self.status
            },
            alive: false,
            ..self
        }
    }
}

impl Client {
    /// The offered limits are usable, and the queue keeps its bounds.
    pub closed spec fn inv(self) -> bool {
        &&& limits_allowed(self.welcome.config)
        &&& self.queue@.len() <= self.welcome.config.max_events
        &&& self.bytes == outgoing_bytes(self.queue@)
        &&& self.bytes <= self.welcome.config.max_bytes
        &&& self.status@.len() <= self@.status_limit() + if self.alive {
            0int
        } else {
            1
        }
    }

    /// A client for an offer that was found usable.
    pub fn new(welcome: Welcome) -> (result: Self)
        requires
            config_allowed(welcome.config),
        ensures
            result.inv(),
            result@ == (ClientState {
                welcome,
                sequence: 0,
                queue: Seq::empty(),
                status: Seq::empty(),
                alive: true,
                closing: false,
                resetting: false,
                stopped: false,
            }),
    {
        Client {
            welcome,
            sequence: 0,
            queue: VecDeque::new(),
            bytes: 0,
            status: VecDeque::new(),
            alive: true,
            closing: false,
            resetting: false,
            stopped: false,
        }
    }

    /// The offer, with the current epoch and surface.
    pub fn welcome(&self) -> (result: Welcome)
        ensures
            result == self@.welcome,
    {
        self.welcome
    }

    /// Whether the worker is to stop at once.
    pub fn stopped(&self) -> (result: bool)
        ensures
            result == self@.stopped,
    {
        self.stopped
    }

    /// Whether the session has not ended yet.
    pub fn alive(&self) -> (result: bool)
        ensures
            result == self@.alive,
    {
        self.alive
    }

    /// Sends an event. An overflow ends the session.
    pub fn send(&mut self, event: Event) -> (result: Result<u64, Error>)
        requires
            old(self).inv(),
        ensures
            final(self).inv(),
            (final(self)@, result) == old(self)@.send(event),
    {
        if !self.alive || self.closing {
            return Err(Error::Closed);
        }
        if self.resetting {
            return Err(Error::Busy);
        }
        match validate(&self.welcome.config, self.welcome.mode, &event) {
            Ok(()) => {},
            Err(error) => {
                return Err(error);
            },
        }
        proof {
            accepted_text_is_bounded(self.welcome.config, self.welcome.mode, event);
        }
        let size: usize = event.bytes();
        if self.queue.len() >= self.welcome.config.max_events || self.bytes + size
            > self.welcome.config.max_bytes {
            self.stopped = true;
            self.closing = true;
            return Err(Error::Overflow);
        }
        if self.sequence == u64::MAX {
            return Err(Error::Closed);
        }
        self.sequence = self.sequence + 1;
        let sequence: u64 = self.sequence;
        let epoch: u64 = self.welcome.epoch;
        self.bytes = self.bytes + size;
        proof {
            lemma_outgoing_push(self.queue@, Wire::Submit { epoch, sequence, event });
        }
        self.queue.push_back(Wire::Submit { epoch, sequence, event });
        Ok(sequence)
    }

    /// Replaces the queue by one message that counts for nothing.
    fn only(&mut self, message: Wire)
        requires
            old(self).inv(),
            message_bytes(message) == 0,
        ensures
            final(self).inv(),
            final(self)@ == (ClientState { queue: seq![message], ..old(self)@ }),
    {
        self.queue.clear();
        self.bytes = 0;
        proof {
            lemma_outgoing_push(Seq::empty(), message);
        }
        self.queue.push_back(message);
        assert(self.queue@ =~= seq![message]);
    }

    /// Asks for a fresh interaction.
    pub fn reset(&mut self) -> (result: Result<(), Error>)
        requires
            old(self).inv(),
        ensures
            final(self).inv(),
            (final(self)@, result) == old(self)@.reset(),
    {
        if !self.alive || self.closing {
            return Err(Error::Closed);
        }
        self.only(Wire::Reset);
        self.resetting = true;
        Ok(())
    }

    /// Ends the session.
    pub fn close(&mut self)
        requires
            old(self).inv(),
        ensures
            final(self).inv(),
            final(self)@ == old(self)@.close(),
    {
        self.closing = true;
        self.only(Wire::Close);
    }

    /// Takes the oldest status.
    pub fn poll(&mut self) -> (result: Option<Status>)
        requires
            old(self).inv(),
        ensures
            final(self).inv(),
            (final(self)@, result) == old(self)@.poll(),
    {
        let ghost before = self.status@;
        let status = self.status.pop_front();
        assert(status is Some ==> self.status@ =~= before.drop_first());
        status
    }

    /// Takes note that the worker is gone.
    pub fn end(&mut self)
        requires
            old(self).inv(),
        ensures
            final(self).inv(),
            final(self)@ == old(self)@.ends(),
    {
        if self.alive {
            self.status.push_back(Status::Closed { reason: Reason::Disconnect, clean: false });
        }
        self.alive = false;
    }

    /// The next message for the stream.
    fn take(&mut self) -> (result: Option<Wire>)
        requires
            old(self).inv(),
        ensures
            final(self).inv(),
            match result {
                Some(message) => {
                    &&& old(self)@.queue.len() > 0
                    &&& message == old(self)@.queue[0]
                    &&& final(self)@ == (ClientState {
                        queue: old(self)@.queue.drop_first(),
                        ..old(self)@
                    })
                },
                None => old(self)@.queue.len() == 0 && final(self)@ == old(self)@,
            },
    {
        let ghost before = self.queue@;
        match self.queue.pop_front() {
            None => None,
            Some(message) => {
                assert(self.queue@ =~= before.drop_first());
                match &message {
                    Wire::Submit { event, .. } => {
                        self.bytes = self.bytes - event.bytes();
                    },
                    _ => {},
                }
                Some(message)
            },
        }
    }
}

/// Where the first exchange stands.
#[derive(Debug, Clone, Copy, PartialEq, Eq, Structural)]
pub enum Opening {
    /// The hello to be queued.
    Start,
    /// The next look for an answer.
    Look,
    /// The hello to be written.
    Flushing,
    /// The answer.
    Welcome,
    /// Nothing any more.
    Ended,
}

/// The first exchange of a controlling side.
pub struct Connecting {
    pub stage: Opening,
    pub mode: Mode,
    pub deadline: u128,
}

/// What the first exchange needs next, or how it ended.
pub enum Connection {
    Needs(Action),
    Ready(Welcome),
    Refused(ConnectError),
}

impl Connecting {
    pub open spec fn at(self, stage: Opening) -> Connecting {
        Connecting { stage, ..self }
    }

    pub open spec fn expects(self, answer: Answer) -> bool {
        match self.stage {
            Opening::Start => answer is Done,
            Opening::Look => answer is Done,
            Opening::Flushing => answer is Flushed,
            Opening::Welcome => answer is Message,
            Opening::Ended => false,
        }
    }

    /// How the first exchange goes on after the stream's answer.
    pub open spec fn resumes(self, now: u128, answer: Answer) -> (Connecting, Connection) {
        match self.stage {
            Opening::Start => (
                self.at(Opening::Look),
                Connection::Needs(Action::Send(Wire::Hello { version: VERSION, mode: self.mode })),
            ),
            Opening::Look => (self.at(Opening::Flushing), Connection::Needs(Action::Flush)),
            Opening::Flushing => (self.at(Opening::Welcome), Connection::Needs(Action::Receive)),
            Opening::Welcome => match answer->0 {
                None => {
                    if now >= self.deadline {
                        (
                            self.at(Opening::Ended),
                            Connection::Refused(ConnectError::Transport(Fault::TimedOut)),
                        )
                    } else {
                        (self.at(Opening::Look), Connection::Needs(Action::Sleep))
                    }
                },
                Some(Wire::Reject(error)) => (
                    self.at(Opening::Ended),
                    Connection::Refused(ConnectError::Admission(error)),
                ),
                Some(Wire::Welcome(welcome)) => {
                    if welcome.version != VERSION || welcome.mode != self.mode {
                        (
                            self.at(Opening::Ended),
                            Connection::Refused(ConnectError::Transport(Fault::InvalidWelcome)),
                        )
                    } else if !config_allowed(welcome.config) {
                        (
                            self.at(Opening::Ended),
                            Connection::Refused(ConnectError::Transport(Fault::InvalidOffer)),
                        )
                    } else {
                        (self.at(Opening::Ended), Connection::Ready(welcome))
                    }
                },
                Some(_) => (
                    self.at(Opening::Ended),
                    Connection::Refused(ConnectError::Transport(Fault::InvalidWelcome)),
                ),
            },
            Opening::Ended => (
                self,
                Connection::Refused(ConnectError::Transport(Fault::InvalidWelcome)),
            ),
        }
    }

    /// Starts the first exchange, which may take the startup time.
    pub fn new(mode: Mode, now: u128) -> (result: Self)
        requires
            now + STARTUP <= u128::MAX,
        ensures
            result == (Connecting { stage: Opening::Start, mode, deadline: (now + STARTUP) as u128 }),
    {
        Connecting { stage: Opening::Start, mode, deadline: now + STARTUP }
    }

    /// Goes on after the stream's answer to the last action. The first call, before any
    /// action, answers `Done`.
    pub fn resume(&mut self, now: u128, answer: Answer) -> (result: Connection)
        requires
            old(self).expects(answer),
        ensures
            (*final(self), result) == old(self).resumes(now, answer),
            result matches Connection::Ready(welcome) ==> config_allowed(welcome.config),
    {
        match self.stage {
            Opening::Start => {
                self.stage = Opening::Look;
                Connection::Needs(Action::Send(Wire::Hello { version: VERSION, mode: self.mode }))
            },
            Opening::Look => {
                self.stage = Opening::Flushing;
                Connection::Needs(Action::Flush)
            },
            Opening::Flushing => {
                self.stage = Opening::Welcome;
                Connection::Needs(Action::Receive)
            },
            Opening::Welcome => match answer {
                Answer::Message(None) => {
                    if now >= self.deadline {
                        self.stage = Opening::Ended;
                        Connection::Refused(ConnectError::Transport(Fault::TimedOut))
                    } else {
                        self.stage = Opening::Look;
                        Connection::Needs(Action::Sleep)
                    }
                },
                Answer::Message(Some(Wire::Reject(error))) => {
                    self.stage = Opening::Ended;
                    Connection::Refused(ConnectError::Admission(error))
                },
                Answer::Message(Some(Wire::Welcome(welcome))) => {
                    self.stage = Opening::Ended;
                    if welcome.version != VERSION || welcome.mode != self.mode {
                        return Connection::Refused(ConnectError::Transport(Fault::InvalidWelcome));
                    }
                    match Target::new(welcome.config) {
                        Ok(_) => Connection::Ready(welcome),
                        Err(_) => Connection::Refused(ConnectError::Transport(Fault::InvalidOffer)),
                    }
                },
                _ => {
                    self.stage = Opening::Ended;
                    Connection::Refused(ConnectError::Transport(Fault::InvalidWelcome))
                },
            },
            Opening::Ended => Connection::Refused(ConnectError::Transport(Fault::InvalidWelcome)),
        }
    }
}

/// What the worker of an established client waits for.
#[derive(Debug, Clone, Copy, PartialEq, Eq, Structural)]
pub enum Stage {
    /// The next round.
    Round,
    /// A message to be queued; that many more may follow in this round.
    Sending { left: u32 },
    /// A heartbeat to be queued.
    Beaten,
    /// The round's output to be written.
    Flushing,
    /// A message; that many more may follow in this round.
    Message { left: u32 },
    /// Nothing any more.
    Ended,
}

/// The worker of an established client.
pub struct Driver {
    pub stage: Stage,
    pub timeout: u128,
    pub interval: u128,
    pub heartbeat: u128,
    pub last_seen: u128,
}

/// The worker after an answer, the client after it, and what the stream is asked next.
pub struct Drive {
    pub driver: Driver,
    pub client: ClientState,
    pub action: Action,
}

impl Driver {
    pub open spec fn at(self, stage: Stage) -> Driver {
        Driver { stage, ..self }
    }

    pub open spec fn expects(self, answer: Answer) -> bool {
        match self.stage {
            Stage::Round => answer is Done,
            Stage::Sending { .. } => answer is Done,
            Stage::Beaten => answer is Done,
            Stage::Flushing => answer is Flushed,
            Stage::Message { .. } => answer is Message,
            Stage::Ended => false,
        }
    }

    /// After the round's messages: a heartbeat if one is due and the client is not closing,
    /// else the round's output.
    pub open spec fn beats(self, client: ClientState, now: u128) -> Drive {
        if !client.closing && since(self.heartbeat, now) >= self.interval {
            Drive {
                driver: Driver { heartbeat: now, ..self.at(Stage::Beaten) },
                client,
                action: Action::Send(Wire::Heartbeat),
            }
        } else {
            Drive { driver: self.at(Stage::Flushing), client, action: Action::Flush }
        }
    }

    /// Takes the next queued message, while the round and the stream's buffer allow it.
    pub open spec fn sends(self, client: ClientState, now: u128, queued: int, left: u32) -> Drive {
        if queued >= MAX_FRAME || left == 0 || client.queue.len() == 0 {
            self.beats(client, now)
        } else {
            Drive {
                driver: self.at(Stage::Sending { left: (left - 1) as u32 }),
                client: ClientState { queue: client.queue.drop_first(), ..client },
                action: Action::Send(client.queue[0]),
            }
        }
    }

    /// After the round's replies: a peer that has been silent for the timeout is given up.
    pub open spec fn rests(self, client: ClientState, now: u128) -> Drive {
        if since(self.last_seen, now) >= self.timeout {
            Drive {
                driver: self.at(Stage::Ended),
                client,
                action: Action::Fail(Fault::TimedOut),
            }
        } else {
            Drive { driver: self.at(Stage::Round), client, action: Action::Sleep }
        }
    }

    /// The next reply of the round, while there may be more.
    pub open spec fn reads(self, client: ClientState, now: u128, left: u32) -> Drive {
        if left == 0 {
            self.rests(client, now)
        } else {
            Drive {
                driver: self.at(Stage::Message { left: (left - 1) as u32 }),
                client,
                action: Action::Receive,
            }
        }
    }

    /// A message of the peer.
    pub open spec fn hears(self, client: ClientState, now: u128, left: u32, message: Wire) -> Drive {
        let seen = Driver { last_seen: now, ..self };
        match message {
            Wire::Heartbeat => seen.reads(client, now, left),
            Wire::Reply(status) => {
                let told = client.learns(status);
                let kept = ClientState { status: told.status.push(status), ..told };
                if told.status.len() >= told.status_limit() {
                    Drive {
                        driver: seen.at(Stage::Ended),
                        client: told,
                        action: Action::Fail(Fault::UnconsumedResults),
                    }
                } else if status is Closed {
                    Drive {
                        driver: seen.at(Stage::Ended),
                        client: ClientState { alive: false, ..kept },
                        action: Action::Finish,
                    }
                } else {
                    seen.reads(kept, now, left)
                }
            },
            _ => Drive {
                driver: seen.at(Stage::Ended),
                client,
                action: Action::Fail(Fault::UnexpectedReply),
            },
        }
    }

    /// How the worker goes on after the stream's answer to its last action.
    pub open spec fn resumes(
        self,
        client: ClientState,
        now: u128,
        stop: bool,
        answer: Answer,
    ) -> Drive {
        match self.stage {
            Stage::Round => {
                if stop || client.stopped {
                    Drive { driver: self.at(Stage::Ended), client, action: Action::Finish }
                } else {
                    self.sends(client, now, answer->Done_queued as int, BURST)
                }
            },
            Stage::Sending { left } => self.sends(client, now, answer->Done_queued as int, left),
            Stage::Beaten => Drive {
                driver: self.at(Stage::Flushing),
                client,
                action: Action::Flush,
            },
            Stage::Flushing => self.reads(client, now, BURST),
            Stage::Message { left } => match answer->0 {
                None => self.rests(client, now),
                Some(message) => self.hears(client, now, left, message),
            },
            Stage::Ended => Drive { driver: self, client, action: Action::Finish },
        }
    }

    /// The worker of a client that has just been welcomed.
    pub fn new(welcome: &Welcome, heartbeat: u128, now: u128) -> (result: Self)
        ensures
            result == (Driver {
                stage: Stage::Round,
                timeout: welcome.config.idle_timeout,
                interval: heartbeat_interval(welcome.config.idle_timeout) as u128,
                heartbeat,
                last_seen: now,
            }),
    {
        Driver {
            stage: Stage::Round,
            timeout: welcome.config.idle_timeout,
            interval: interval(welcome.config.idle_timeout),
            heartbeat,
            last_seen: now,
        }
    }

    fn beat(&mut self, client: &Client, now: u128) -> (result: Action)
        ensures
            old(self).beats(client@, now) == (Drive {
                driver: *final(self),
                client: client@,
                action: result,
            }),
    {
        if !client.closing && elapsed_since(self.heartbeat, now) >= self.interval {
            self.heartbeat = now;
            self.stage = Stage::Beaten;
            Action::Send(Wire::Heartbeat)
        } else {
            self.stage = Stage::Flushing;
            Action::Flush
        }
    }

    fn send_next(&mut self, client: &mut Client, now: u128, queued: usize, left: u32) -> (result:
        Action)
        requires
            old(client).inv(),
        ensures
            final(client).inv(),
            old(self).sends(old(client)@, now, queued as int, left) == (Drive {
                driver: *final(self),
                client: final(client)@,
                action: result,
            }),
    {
        if queued >= MAX_FRAME || left == 0 {
            return self.beat(client, now);
        }
        match client.take() {
            None => self.beat(client, now),
            Some(message) => {
                self.stage = Stage::Sending { left: left - 1 };
                Action::Send(message)
            },
        }
    }

    fn rest(&mut self, now: u128) -> (result: Action)
        ensures
            forall|client: ClientState|
                (#[trigger] old(self).rests(client, now)) == (Drive {
                    driver: *final(self),
                    client,
                    action: result,
                }),
    {
        if elapsed_since(self.last_seen, now) >= self.timeout {
            self.stage = Stage::Ended;
            Action::Fail(Fault::TimedOut)
        } else {
            self.stage = Stage::Round;
            Action::Sleep
        }
    }

    fn read_next(&mut self, now: u128, left: u32) -> (result: Action)
        ensures
            forall|client: ClientState|
                (#[trigger] old(self).reads(client, now, left)) == (Drive {
                    driver: *final(self),
                    client,
                    action: result,
                }),
    {
        if left == 0 {
            self.rest(now)
        } else {
            self.stage = Stage::Message { left: left - 1 };
            Action::Receive
        }
    }

    fn hear(&mut self, client: &mut Client, now: u128, left: u32, message: Wire) -> (result:
        Action)
        requires
            old(client).inv(),
        ensures
            final(client).inv(),
            old(self).hears(old(client)@, now, left, message) == (Drive {
                driver: *final(self),
                client: final(client)@,
                action: result,
            }),
    {
        self.last_seen = now;
        match message {
            Wire::Heartbeat => self.read_next(now, left),
            Wire::Reply(status) => {
                let mut closed = false;
                match status {
                    Status::Reset { epoch, geometry } => {
                        client.resetting = false;
                        client.welcome.epoch = epoch;
                        client.welcome.config.geometry = geometry;
                    },
                    Status::Closed { .. } => {
                        closed = true;
                    },
                    _ => {},
                }
                if client.status.len() >= client.welcome.config.max_events * 2 + 4 {
                    self.stage = Stage::Ended;
                    return Action::Fail(Fault::UnconsumedResults);
                }
                client.status.push_back(status);
                if closed {
                    client.alive = false;
                    self.stage = Stage::Ended;
                    return Action::Finish;
                }
                self.read_next(now, left)
            },
            _ => {
                self.stage = Stage::Ended;
                Action::Fail(Fault::UnexpectedReply)
            },
        }
    }

    /// Goes on after the stream's answer to the last action. The first call, before any
    /// action, answers `Done`.
    pub fn resume(&mut self, client: &mut Client, now: u128, stop: bool, answer: Answer) -> (result:
        Action)
        requires
            old(self).expects(answer),
            old(client).inv(),
        ensures
            final(client).inv(),
            old(self).resumes(old(client)@, now, stop, answer) == (Drive {
                driver: *final(self),
                client: final(client)@,
                action: result,
            }),
    {
        match self.stage {
            Stage::Round => {
                if stop || client.stopped {
                    self.stage = Stage::Ended;
                    return Action::Finish;
                }
                match answer {
                    Answer::Done { queued } => self.send_next(client, now, queued, BURST),
                    _ => Action::Finish,
                }
            },
            Stage::Sending { left } => match answer {
                Answer::Done { queued } => self.send_next(client, now, queued, left),
                _ => Action::Finish,
            },
            Stage::Beaten => {
                self.stage = Stage::Flushing;
                Action::Flush
            },
            Stage::Flushing => self.read_next(now, BURST),
            Stage::Message { left } => match answer {
                Answer::Message(Some(message)) => self.hear(client, now, left, message),
                _ => self.rest(now),
            },
            Stage::Ended => Action::Finish,
        }
    }
}

/// A closing client originates no heartbeat: the peer may already have sent its final
/// answer and closed, and a write would lose that answer.
pub proof fn closing_clients_do_not_beat(
    driver: Driver,
    client: ClientState,
    now: u128,
    stop: bool,
    answer: Answer,
)
    requires
        driver.expects(answer),
        client.closing,
        forall|i: int| 0 <= i < client.queue.len() ==> #[trigger] client.queue[i] != Wire::Heartbeat,
    ensures
        driver.resumes(client, now, stop, answer).action != Action::Send(Wire::Heartbeat),
{
}

/// Sequence numbers that the application gets increase by one, and each event is sent
/// under the number that was returned for it.
pub proof fn sequence_numbers_are_given_in_order(client: ClientState, event: Event)
    ensures
        client.send(event).1 matches Ok(sequence) ==> {
            &&& sequence == client.sequence + 1
            &&& client.send(event).0.sequence == sequence
            &&& client.send(event).0.queue == client.queue.push(
                Wire::Submit { epoch: client.welcome.epoch, sequence, event },
            )
        },
{
}

/// A reset drops every event that has not left, and no event follows it before the peer
/// has answered.
pub proof fn resets_hold_events_back(client: ClientState, event: Event)
    requires
        client.alive,
        !client.closing,
    ensures
        client.reset().0.queue == seq![Wire::Reset],
        client.reset().0.send(event) == (client.reset().0, Err::<u64, Error>(Error::Busy)),
{
}

} // verus!
