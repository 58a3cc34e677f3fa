//! A target that one controller at a time may hold.

use std::collections::{HashMap, HashSet, VecDeque};

use super::model::{
    Action, Config, Error, Event, Geometry, Key, Mode, Operation, Outcome, Reason, Scope, Status,
    Work, CAP_ALL, MILLISECOND, SECOND,
};
use super::state::{
    config_allowed, queue_bytes, with_epoch, work_bytes, Barrier, Flight, Holder, Session,
    MAX_EVENTS, MAX_TEXT,
};
use super::upkeep::{
    lemma_admit_controller, lemma_complete, lemma_expire, lemma_expire_keeps, lemma_heartbeat,
    lemma_leave, lemma_next, lemma_set_geometry, lemma_submit, queued_properly,
};
use super::validation::{accepted_text_is_bounded, validate, verdict};
use vstd::prelude::*;

verus! {

struct Active {
    id: u64,
    mode: Mode,
    epoch: u64,
    last_sequence: u64,
    last_seen: u128,
    keys: HashMap<u64, Key>,
    buttons: HashSet<u32>,
    mailbox: VecDeque<Status>,
    attached: bool,
}

impl Active {
    spec fn holder(self) -> Holder {
        Holder {
            id: self.id,
            mode: self.mode,
            epoch: self.epoch,
            last_sequence: self.last_sequence,
            last_seen: self.last_seen,
            keys: self.keys@,
            buttons: self.buttons@,
            mailbox: self.mailbox@,
            attached: self.attached,
        }
    }
}

/// Receives the input of at most one controller and hands it to an executor.
pub struct Target {
    config: Config,
    next_controller: u64,
    next_work: u64,
    active: Option<Active>,
    queue: VecDeque<Work>,
    flight: Option<Flight>,
    barrier: Option<Barrier>,
    failed: bool,
    departed: HashMap<u64, VecDeque<Status>>,
}

/// A controller's identity at its target.
pub struct Controller {
    id: u64,
    mode: Mode,
}

spec fn optional_holder(active: Option<Active>) -> Option<Holder> {
    match active {
        Some(active) => Some(active.holder()),
        None => None,
    }
}

spec fn mailboxes(departed: Map<u64, VecDeque<Status>>) -> Map<u64, Seq<Status>> {
    departed.map_values(|mailbox: VecDeque<Status>| mailbox@)
}

impl View for Target {
    type V = Session;

    closed spec fn view(&self) -> Session {
        Session {
            config: self.config,
            next_controller: self.next_controller,
            next_work: self.next_work,
            active: optional_holder(self.active),
            queue: self.queue@,
            flight: self.flight,
            barrier: self.barrier,
            failed: self.failed,
            departed: mailboxes(self.departed@),
        }
    }
}

/// Bytes that a work item takes from the queue's budget.
fn bytes_of(work: &Work) -> (result: usize)
    requires
        work_bytes(*work) <= usize::MAX,
    ensures
        result == work_bytes(*work),
{
    match &work.operation {
        Operation::Event(event) => event.bytes(),
        _ => 0,
    }
}

/// Bytes that a queue takes together.
fn bytes_in(queue: &VecDeque<Work>) -> (result: usize)
    requires
        queue@.len() <= MAX_EVENTS,
        forall|i: int| 0 <= i < queue@.len() ==> work_bytes(#[trigger] queue@[i]) <= MAX_TEXT + 96,
    ensures
        result == queue_bytes(queue@),
        result <= 65536 * 16480,
{
    let mut total: usize = 0;
    let mut i: usize = 0;
    assert(queue@.take(0) =~= Seq::<Work>::empty());
    while i < queue.len()
        invariant
            i <= queue@.len() <= MAX_EVENTS,
            forall|i: int|
                0 <= i < queue@.len() ==> work_bytes(#[trigger] queue@[i]) <= MAX_TEXT + 96,
            total == queue_bytes(queue@.take(i as int)),
            total <= i * 16480,
        decreases queue@.len() - i,
    {
        assert(queue@.take(i + 1).drop_last() =~= queue@.take(i as int));
        assert(queue@.take(i + 1).last() == queue@[i as int]);
        total = total + bytes_of(&queue[i]);
        i = i + 1;
    }
    assert(queue@.take(i as int) =~= queue@);
    total
}

impl Target {
    /// A target that nobody holds, unless the configuration leaves the fixed bounds.
    pub fn new(config: Config) -> (result: Result<Self, Error>)
        ensures
            match result {
                Ok(target) => {
                    &&& config_allowed(config)
                    &&& target@.inv()
                    &&& target@ == (Session {
                        config,
                        next_controller: 0,
                        next_work: 0,
                        active: None,
                        queue: Seq::empty(),
                        flight: None,
                        barrier: None,
                        failed: false,
                        departed: Map::empty(),
                    })
                },
                Err(error) => error == Error::Invalid && !config_allowed(config),
            },
    {
        if config.modes == 0 || config.modes > 7 || config.capabilities > CAP_ALL
            || config.max_events == 0 || config.max_events > MAX_EVENTS || config.max_bytes < 96
            || config.max_bytes > 16 * 1024 * 1024 || config.max_text_bytes == 0
            || config.max_text_bytes > MAX_TEXT || config.idle_timeout / MILLISECOND < 100
            || config.idle_timeout / SECOND > 3600 || !config.geometry.valid() {
            return Err(Error::Invalid);
        }
        let target = Target {
            config,
            next_controller: 0,
            next_work: 0,
            active: None,
            queue: VecDeque::new(),
            flight: None,
            barrier: None,
            failed: false,
            departed: HashMap::new(),
        };
        assert(mailboxes(target.departed@) =~= Map::empty());
        Ok(target)
    }

    pub fn config(&self) -> (result: Config)
        ensures
            result == self@.config,
    {
        self.config
    }

    /// Whether the counters for work and for interaction epochs can still count.
    pub fn countable(&self) -> (result: bool)
        ensures
            result == self@.countable(),
    {
        self.next_work < u64::MAX && match &self.active {
            Some(active) => active.epoch < u64::MAX,
            None => true,
        }
    }

    fn deliver(&mut self, status: Status)
        requires
            config_allowed(old(self)@.config),
        ensures
            final(self)@ == old(self)@.deliver(status),
    {
        let limit: usize = self.config.max_events * 2 + 4;
        match &mut self.active {
            None => {},
            Some(active) => {
                if active.mailbox.len() >= limit {
                    active.mailbox.clear();
                    active.mailbox.push_back(
                        Status::Closed { reason: Reason::Overflow, clean: false },
                    );
                    assert(active.mailbox@ =~= seq![super::state::overflow_notice()]);
                    self.queue.clear();
                    self.barrier = Some(
                        Barrier { scope: Scope::All, reason: Reason::Overflow, end: true },
                    );
                } else {
                    active.mailbox.push_back(status);
                }
            },
        }
    }

    fn cancel(&mut self, scope: Scope, reason: Reason, end: bool)
        requires
            config_allowed(old(self)@.config),
        ensures
            final(self)@ == old(self)@.cancel(scope, reason, end),
    {
        if self.active.is_none() {
            return;
        }
        // A repeated expiry must not pile up barriers: the cleanup that ends the
        // controller already covers everything.
        if let Some(flight) = &self.flight {
            if flight.end {
                return;
            }
        }
        let barrier = match self.barrier {
            None => Barrier {
                scope: if end {
                    Scope::All
                } else {
                    scope
                },
                reason,
                end,
            },
            Some(old) => Barrier {
                scope: if end || old.scope == Scope::All {
                    Scope::All
                } else {
                    scope
                },
                reason: if old.end {
                    old.reason
                } else {
                    reason
                },
                end: end || old.end,
            },
        };
        self.barrier = Some(barrier);
        let ghost start = self@;
        let mut kept: VecDeque<Work> = VecDeque::new();
        loop
            invariant
                config_allowed(self@.config),
                self@.reject_queued(barrier.scope, kept@) == start.reject_queued(
                    barrier.scope,
                    Seq::empty(),
                ),
            ensures
                self@.queue.len() == 0,
            decreases self.queue@.len(),
        {
            let ghost before = self@;
            match self.queue.pop_front() {
                None => {
                    break;
                },
                Some(work) => {
                    assert(self@.queue =~= before.queue.drop_first());
                    let pointer = match &work.operation {
                        Operation::Event(event) => event.pointer(),
                        _ => false,
                    };
                    if barrier.scope == Scope::All || pointer {
                        self.deliver(
                            Status::Rejected { sequence: work.sequence, error: Error::Stale },
                        );
                    } else {
                        kept.push_back(work);
                    }
                },
            }
        }
        self.queue = kept;
    }

    fn expire(&mut self, now: u128)
        requires
            config_allowed(old(self)@.config),
        ensures
            final(self)@ == old(self)@.expire(now),
    {
        let expired = match &self.active {
            None => false,
            Some(active) => {
                let idle: u128 = if now > active.last_seen {
                    now - active.last_seen
                } else {
                    0
                };
                idle >= self.config.idle_timeout
            },
        };
        if expired {
            self.cancel(Scope::All, Reason::Expired, true);
        }
    }

    /// Gives the target to a controller, if nobody holds it.
    pub fn admit_controller(&mut self, mode: Mode, now: u128) -> (result: Result<Controller, Error>)
        requires
            old(self)@.inv(),
        ensures
            final(self)@ == old(self)@.admit_controller(mode, now).0,
            final(self)@.inv(),
            match result {
                Ok(controller) => old(self)@.admit_controller(mode, now).1 == Ok::<u64, Error>(
                    controller.spec_id(),
                ) && controller.spec_mode() == mode,
                Err(error) => old(self)@.admit_controller(mode, now).1 == Err::<u64, Error>(error),
            },
    {
        proof {
            lemma_admit_controller(self@, mode, now);
        }
        if self.failed {
            return Err(Error::CleanupFailed);
        }
        if self.active.is_some() {
            return Err(Error::Busy);
        }
        if self.config.modes & mode.bit() == 0 {
            return Err(Error::Unsupported);
        }
        if self.next_controller == u64::MAX {
            return Err(Error::Closed);
        }
        self.next_controller = self.next_controller + 1;
        let id: u64 = self.next_controller;
        self.active = Some(
            Active {
                id,
                mode,
                epoch: 1,
                last_sequence: 0,
                last_seen: now,
                keys: HashMap::new(),
                buttons: HashSet::new(),
                mailbox: VecDeque::new(),
                attached: true,
            },
        );
        Ok(Controller { id, mode })
    }

    /// Resolves a queued item against what the holder has pressed.
    fn bind(&self, work: Work) -> (result: (Work, Result<bool, Error>))
        ensures
            match result.1 {
                Ok(true) => self@.bind(work) == Ok::<Option<Work>, Error>(Some(result.0)),
                Ok(false) => self@.bind(work) == Ok::<Option<Work>, Error>(None),
                Err(error) => self@.bind(work) == Err::<Option<Work>, Error>(error),
            },
            result.0.sequence == work.sequence,
    {
        let active = match &self.active {
            None => {
                return (work, Err(Error::Closed));
            },
            Some(active) => active,
        };
        let mut bound: Option<Key> = None;
        match &work.operation {
            Operation::Event(Event::Key { press, action, .. }) => {
                if *action == Action::Down {
                    if active.keys.contains_key(press) || active.keys.len()
                        >= self.config.max_events {
                        return (work, Err(Error::Invalid));
                    }
                } else {
                    match active.keys.get(press) {
                        None => {
                            if *action == Action::Up {
                                return (work, Ok(false));
                            }
                            return (work, Err(Error::Invalid));
                        },
                        Some(binding) => {
                            bound = Some(binding.clone());
                        },
                    }
                }
            },
            Operation::Event(Event::Button { button, action, .. }) => {
                let held = active.buttons.contains(button);
                if *action == Action::Up && !held {
                    return (work, Ok(false));
                }
                if (*action == Action::Down) == held {
                    return (work, Err(Error::Invalid));
                }
            },
            _ => {},
        }
        match bound {
            None => (work, Ok(true)),
            Some(binding) => {
                let Work { mode, id, controller, epoch, sequence, operation } = work;
                let operation = match operation {
                    Operation::Event(Event::Key { press, action, modifiers, .. }) => {
                        Operation::Event(Event::Key { press, action, key: binding, modifiers })
                    },
                    other => other,
                };
                (Work { mode, id, controller, epoch, sequence, operation }, Ok(true))
            },
        }
    }

    /// Polls work on the executor's thread. Only one item may be in flight.
    pub fn next(&mut self, now: u128) -> (result: Option<Work>)
        requires
            old(self)@.inv(),
            old(self)@.countable(),
        ensures
            (final(self)@, result) == old(self)@.next(now),
            final(self)@.inv(),
    {
        proof {
            lemma_next(self@, now);
            lemma_expire(self@, now);
            lemma_expire_keeps(self@, now);
        }
        self.expire(now);
        if self.flight.is_some() {
            return None;
        }
        if let Some(barrier) = self.barrier {
            self.barrier = None;
            let (controller, epoch, mode): (u64, u64, Mode) = match &self.active {
                None => {
                    return None;
                },
                Some(active) => (active.id, active.epoch, active.mode),
            };
            self.next_work = self.next_work + 1;
            let work = Work {
                mode,
                id: self.next_work,
                controller,
                epoch,
                sequence: 0,
                operation: Operation::Cleanup { scope: barrier.scope, reason: barrier.reason },
            };
            self.flight = Some(Flight { work: work.clone(), end: barrier.end });
            return Some(work);
        }
        let ghost start = self@;
        loop
            invariant
                config_allowed(self@.config),
                self@.flight is None,
                self@.barrier is None,
                start.advance() == self@.advance(),
                start.advance() == old(self)@.next(now),
                start.advance().0.inv(),
            decreases self.queue@.len(),
        {
            let ghost before = self@;
            let work = match self.queue.pop_front() {
                None => {
                    return None;
                },
                Some(work) => work,
            };
            assert(self@.queue =~= before.queue.drop_first());
            assert(self@ == (Session { queue: before.queue.drop_first(), ..before }));
            assert(self@.bind(work) == before.bind(work));
            let (work, verdict) = self.bind(work);
            match verdict {
                Ok(true) => {
                    self.flight = Some(Flight { work: work.clone(), end: false });
                    return Some(work);
                },
                Ok(false) => {
                    self.deliver(
                        Status::Completed { sequence: work.sequence, outcome: Outcome::Executed },
                    );
                },
                Err(error) => {
                    self.deliver(Status::Rejected { sequence: work.sequence, error });
                },
            }
            if self.barrier.is_some() {
                return None;
            }
        }
    }

    fn apply(&mut self, event: &Event)
        ensures
            final(self)@ == old(self)@.apply(*event),
    {
        match &mut self.active {
            None => {},
            Some(active) => match event {
                Event::Key { press, action: Action::Down, key, .. } => {
                    active.keys.insert(*press, key.clone());
                },
                Event::Key { press, action: Action::Up, .. } => {
                    active.keys.remove(press);
                },
                Event::Button { button, action: Action::Down, .. } => {
                    active.buttons.insert(*button);
                },
                Event::Button { button, action: Action::Up, .. } => {
                    active.buttons.remove(button);
                },
                _ => {},
            },
        }
    }

    fn vacate(&mut self)
        ensures
            final(self)@ == old(self)@.vacate(),
    {
        match self.active.take() {
            None => {},
            Some(active) => {
                if active.attached {
                    let Active { id, mailbox, .. } = active;
                    self.departed.insert(id, mailbox);
                    assert(mailboxes(self.departed@) =~= mailboxes(old(self).departed@).insert(
                        id,
                        mailbox@,
                    ));
                }
            },
        }
    }

    /// Starts the next interaction epoch for the holder and the preserved queue.
    fn renew(&mut self)
        requires
            config_allowed(old(self)@.config),
            old(self)@.countable(),
        ensures
            final(self)@ == old(self)@.renewed(),
    {
        let epoch: u64 = match &mut self.active {
            None => {
                return;
            },
            Some(active) => {
                active.epoch = active.epoch + 1;
                active.epoch
            },
        };
        let ghost waiting = self.queue@;
        let mut renewed: VecDeque<Work> = VecDeque::new();
        let ghost start = self@;
        loop
            invariant
                self@ == (Session { queue: self.queue@, ..start }),
                waiting == old(self)@.queue,
                renewed@.len() + self.queue@.len() == waiting.len(),
                self.queue@ == waiting.skip(renewed@.len() as int),
                renewed@ == waiting.take(renewed@.len() as int).map_values(
                    |work: Work| with_epoch(work, epoch),
                ),
            ensures
                self.queue@.len() == 0,
            decreases self.queue@.len(),
        {
            match self.queue.pop_front() {
                None => {
                    break;
                },
                Some(mut work) => {
                    work.epoch = epoch;
                    renewed.push_back(work);
                },
            }
        }
        assert(waiting.take(renewed@.len() as int) =~= waiting);
        self.queue = renewed;
        let geometry = self.config.geometry;
        self.deliver(Status::Reset { epoch, geometry });
    }

    /// Takes the executor's report on the work in flight.
    pub fn complete(&mut self, id: u64, outcome: Outcome) -> (result: Result<(), Error>)
        requires
            old(self)@.inv(),
            old(self)@.countable(),
        ensures
            (final(self)@, result) == old(self)@.complete(id, outcome),
            final(self)@.inv(),
    {
        proof {
            lemma_complete(self@, id, outcome);
        }
        let known = match &self.flight {
            None => false,
            Some(flight) => flight.work.id == id,
        };
        if !known {
            return Err(Error::Invalid);
        }
        let flight = self.flight.take().unwrap();
        let Flight { work, end } = flight;
        match work.operation {
            Operation::Event(event) => {
                if outcome == Outcome::Executed {
                    self.apply(&event);
                }
                self.deliver(Status::Completed { sequence: work.sequence, outcome });
                if outcome == Outcome::Partial || outcome == Outcome::Uncertain {
                    self.cancel(Scope::All, Reason::Execution, true);
                }
            },
            Operation::Cleanup { scope, reason } => {
                if outcome != Outcome::Executed {
                    self.failed = true;
                    self.queue.clear();
                    self.barrier = None;
                    self.deliver(Status::Closed { reason, clean: false });
                    self.vacate();
                    return Err(Error::CleanupFailed);
                }
                if let Some(active) = &mut self.active {
                    active.buttons.clear();
                    if scope == Scope::All {
                        active.keys.clear();
                    }
                }
                if end {
                    self.deliver(Status::Closed { reason, clean: true });
                    self.vacate();
                    self.barrier = None;
                    self.queue.clear();
                } else if self.barrier.is_none() {
                    self.renew();
                }
            },
        }
        Ok(())
    }

    /// Replaces the surface by a newer one.
    pub fn set_geometry(&mut self, geometry: Geometry) -> (result: Result<(), Error>)
        requires
            old(self)@.inv(),
        ensures
            (final(self)@, result) == old(self)@.set_geometry(geometry),
            final(self)@.inv(),
    {
        proof {
            lemma_set_geometry(self@, geometry);
        }
        if !geometry.valid() || geometry.revision <= self.config.geometry.revision {
            return Err(Error::Invalid);
        }
        self.config.geometry = geometry;
        self.cancel(Scope::Pointer, Reason::Geometry, false);
        Ok(())
    }

    /// Drives expiry even when the executor has no work.
    pub fn tick(&mut self, now: u128)
        requires
            old(self)@.inv(),
        ensures
            final(self)@ == old(self)@.expire(now),
            final(self)@.inv(),
    {
        proof {
            lemma_expire(self@, now);
        }
        self.expire(now);
    }

    /// Whether a cleanup failed and nobody has resolved it.
    pub fn failed(&self) -> (result: bool)
        ensures
            result == self@.failed,
    {
        self.failed
    }

    /// Whether nobody holds the target and nothing is in flight or failed.
    pub fn idle(&self) -> (result: bool)
        ensures
            result == (self@.active is None && self@.flight is None && !self@.failed),
    {
        self.active.is_none() && self.flight.is_none() && !self.failed
    }

    /// Host assertion that a failed executor has been rebuilt or otherwise resolved.
    pub fn resolve_failed_cleanup(&mut self) -> (result: Result<(), Error>)
        requires
            old(self)@.inv(),
        ensures
            final(self)@.inv(),
            match result {
                Ok(()) => {
                    &&& old(self)@.failed
                    &&& old(self)@.flight is None
                    &&& final(self)@ == (Session { failed: false, ..old(self)@ })
                },
                Err(error) => {
                    &&& error == Error::Invalid
                    &&& !old(self)@.failed || old(self)@.flight is Some
                    &&& final(self)@ == old(self)@
                },
            },
    {
        if !self.failed || self.flight.is_some() {
            return Err(Error::Invalid);
        }
        self.failed = false;
        Ok(())
    }
}

impl Controller {
    pub closed spec fn spec_id(self) -> u64 {
        self.id
    }

    pub closed spec fn spec_mode(self) -> Mode {
        self.mode
    }

    pub fn mode(&self) -> (result: Mode)
        ensures
            result == self.spec_mode(),
    {
        self.mode
    }

    pub fn id(&self) -> (result: u64)
        ensures
            result == self.spec_id(),
    {
        self.id
    }

    /// The interaction epoch that submissions must name.
    pub fn epoch(&self, target: &Target) -> (result: Result<u64, Error>)
        ensures
            match result {
                Ok(epoch) => target@.held_by(self.spec_id()) && (target@.active->0).epoch == epoch,
                Err(error) => error == Error::Closed && !target@.held_by(self.spec_id()),
            },
    {
        match &target.active {
            Some(active) => {
                if active.id == self.id {
                    Ok(active.epoch)
                } else {
                    Err(Error::Closed)
                }
            },
            None => Err(Error::Closed),
        }
    }

    /// Shows that the controller is alive.
    pub fn heartbeat(&self, target: &mut Target, now: u128) -> (result: Result<(), Error>)
        requires
            old(target)@.inv(),
        ensures
            (final(target)@, result) == old(target)@.heartbeat(self.spec_id(), now),
            final(target)@.inv(),
    {
        proof {
            lemma_heartbeat(target@, self.spec_id(), now);
        }
        target.expire(now);
        match &mut target.active {
            Some(active) => {
                if active.id != self.id {
                    return Err(Error::Closed);
                }
                active.last_seen = now;
                Ok(())
            },
            None => Err(Error::Closed),
        }
    }

    /// Asks for admission to the bounded queue, not for execution. The sequence must
    /// increase over every attempt of this controller.
    pub fn submit(
        &self,
        target: &mut Target,
        now: u128,
        epoch: u64,
        sequence: u64,
        event: Event,
    ) -> (result: Result<(), Error>)
        requires
            old(target)@.inv(),
            old(target)@.countable(),
        ensures
            (final(target)@, result) == old(target)@.submit(
                self.spec_id(),
                self.spec_mode(),
                now,
                epoch,
                sequence,
                event,
            ),
            final(target)@.inv(),
    {
        proof {
            lemma_submit(target@, self.spec_id(), self.spec_mode(), now, epoch, sequence, event);
            lemma_expire(target@, now);
            lemma_expire_keeps(target@, now);
        }
        target.expire(now);
        let mode: Mode = match &mut target.active {
            None => {
                return Err(Error::Closed);
            },
            Some(active) => {
                if active.id != self.id {
                    return Err(Error::Closed);
                }
                if sequence == 0 || sequence <= active.last_sequence {
                    return Err(Error::Invalid);
                }
                active.last_sequence = sequence;
                if epoch != active.epoch {
                    return Err(Error::Stale);
                }
                active.mode
            },
        };
        let cleaning = match &target.flight {
            None => false,
            Some(flight) => match &flight.work.operation {
                Operation::Cleanup { .. } => true,
                _ => false,
            },
        };
        if target.barrier.is_some() || cleaning {
            return Err(Error::Busy);
        }
        match validate(&target.config, mode, &event) {
            Ok(()) => {},
            Err(error) => {
                return Err(error);
            },
        }
        proof {
            accepted_text_is_bounded(target.config, mode, event);
            assert forall|i: int| 0 <= i < target@.queue.len() implies work_bytes(
                #[trigger] target@.queue[i],
            ) <= MAX_TEXT + 96 by {
                let fresh = old(target)@.expire(now);
                assert(queued_properly(fresh.active->0, fresh.next_work, fresh.queue[i]));
            }
        }
        let queued: usize = bytes_in(&target.queue);
        let flying: usize = match &target.flight {
            None => 0,
            Some(flight) => bytes_of(&flight.work),
        };
        let flights: usize = if target.flight.is_some() {
            1
        } else {
            0
        };
        if target.queue.len() + flights >= target.config.max_events || queued + flying
            + event.bytes() > target.config.max_bytes {
            target.cancel(Scope::All, Reason::Overflow, true);
            return Err(Error::Overflow);
        }
        target.next_work = target.next_work + 1;
        let id: u64 = target.next_work;
        target.queue.push_back(
            Work {
                mode: self.mode,
                id,
                controller: self.id,
                epoch,
                sequence,
                operation: Operation::Event(event),
            },
        );
        Ok(())
    }

    /// Asks for a fresh interaction epoch with nothing held down.
    pub fn reset(&self, target: &mut Target) -> (result: Result<(), Error>)
        requires
            old(target)@.inv(),
        ensures
            (final(target)@, result) == old(target)@.reset(self.spec_id()),
            final(target)@.inv(),
    {
        proof {
            lemma_leave(target@, self.spec_id());
        }
        let held = match &target.active {
            None => false,
            Some(active) => active.id == self.id,
        };
        if !held {
            return Err(Error::Closed);
        }
        target.cancel(Scope::All, Reason::Focus, false);
        Ok(())
    }

    /// Ends the controller's hold once the executor has cleaned up.
    pub fn close(&self, target: &mut Target)
        requires
            old(target)@.inv(),
        ensures
            final(target)@ == old(target)@.close(self.spec_id()),
            final(target)@.inv(),
    {
        proof {
            lemma_leave(target@, self.spec_id());
        }
        let held = match &target.active {
            None => false,
            Some(active) => active.id == self.id,
        };
        if held {
            target.cancel(Scope::All, Reason::Disconnect, true);
        }
    }

    /// Gives the controller up: closes it, and keeps none of its statuses.
    pub fn detach(self, target: &mut Target)
        requires
            old(target)@.inv(),
        ensures
            final(target)@ == old(target)@.detach(self.spec_id()),
            final(target)@.inv(),
    {
        proof {
            lemma_leave(target@, self.spec_id());
        }
        self.close(target);
        let ghost closed = target@;
        match &mut target.active {
            Some(active) => {
                if active.id == self.id {
                    active.attached = false;
                    return;
                }
            },
            None => {},
        }
        let ghost before = target.departed@;
        target.departed.remove(&self.id);
        assert(mailboxes(target.departed@) =~= mailboxes(before).remove(self.id));
    }

    /// Takes the oldest status that the controller has not seen.
    pub fn poll(&self, target: &mut Target) -> (result: Option<Status>)
        requires
            old(target)@.inv(),
        ensures
            (final(target)@, result) == old(target)@.poll(self.spec_id()),
            final(target)@.inv(),
    {
        proof {
            lemma_leave(target@, self.spec_id());
        }
        match &mut target.active {
            Some(active) => {
                if active.id == self.id {
                    let ghost before = active.mailbox@;
                    let status = active.mailbox.pop_front();
                    assert(status is Some ==> active.mailbox@ =~= before.drop_first());
                    return status;
                }
            },
            None => {},
        }
        let ghost before = target.departed@;
        match target.departed.remove(&self.id) {
            None => None,
            Some(mut mailbox) => {
                let ghost whole = mailbox@;
                let status = mailbox.pop_front();
                assert(status is Some ==> mailbox@ =~= whole.drop_first());
                target.departed.insert(self.id, mailbox);
                assert(mailboxes(target.departed@) =~= mailboxes(before).insert(
                    self.id,
                    mailbox@,
                ));
                assert(status is None ==> mailboxes(target.departed@) =~= mailboxes(before));
                status
            },
        }
    }
}

} // verus!
