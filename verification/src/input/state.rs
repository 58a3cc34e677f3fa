//! The mathematical model of an input session: its state and its transitions.

use super::model::{
    Action, Config, Error, Event, Geometry, Key, Mode, Operation, Outcome, Reason, Scope, Status,
    Work, CAP_ALL, MILLISECOND, SECOND,
};
use super::validation::verdict;
use vstd::prelude::*;

verus! {

/// The largest text that any target takes, in bytes.
pub const MAX_TEXT: usize = 16384;

/// The largest number of events that any target queues.
pub const MAX_EVENTS: usize = 65536;

/// A cleanup that has been decided on and not yet handed to the executor.
#[derive(Debug, Clone, Copy, PartialEq, Eq, Structural)]
pub struct Barrier {
    pub scope: Scope,
    pub reason: Reason,
    /// Whether the cleanup ends the controller.
    pub end: bool,
}

/// The one work item that the executor holds.
pub struct Flight {
    pub work: Work,
    /// Whether its completion ends the controller.
    pub end: bool,
}

/// The controller that holds the target.
#[verifier::ext_equal]
pub struct Holder {
    pub id: u64,
    pub mode: Mode,
    pub epoch: u64,
    pub last_sequence: u64,
    pub last_seen: u128,
    /// What is held down, by press.
    pub keys: Map<u64, Key>,
    pub buttons: Set<u32>,
    /// Statuses that the controller has not polled yet.
    pub mailbox: Seq<Status>,
    /// Whether the controller can still poll.
    pub attached: bool,
}

/// The state of a target.
#[verifier::ext_equal]
pub struct Session {
    pub config: Config,
    pub next_controller: u64,
    pub next_work: u64,
    pub active: Option<Holder>,
    pub queue: Seq<Work>,
    pub flight: Option<Flight>,
    pub barrier: Option<Barrier>,
    pub failed: bool,
    /// Statuses of controllers that no longer hold the target, by controller.
    pub departed: Map<u64, Seq<Status>>,
}

/// Whether the limits of a configuration stay inside the fixed bounds.
pub open spec fn limits_allowed(config: Config) -> bool {
    &&& 1 <= config.modes <= 7
    &&& config.capabilities <= CAP_ALL
    &&& 1 <= config.max_events <= MAX_EVENTS
    &&& 96 <= config.max_bytes <= 16 * 1024 * 1024
    &&& 1 <= config.max_text_bytes <= MAX_TEXT
    &&& config.idle_timeout >= 100 * MILLISECOND
    &&& config.idle_timeout < 3601 * SECOND
}

/// Whether a target can have this configuration.
pub open spec fn config_allowed(config: Config) -> bool {
    limits_allowed(config) && config.geometry.spec_valid()
}

/// Bytes that a work item takes from the queue's budget.
pub open spec fn work_bytes(work: Work) -> nat {
    match work.operation {
        Operation::Event(event) => event.spec_bytes(),
        Operation::Cleanup { .. } => 0,
    }
}

/// Bytes that a queue takes together.
pub open spec fn queue_bytes(queue: Seq<Work>) -> nat
    decreases queue.len(),
{
    if queue.len() == 0 {
        0
    } else {
        queue_bytes(queue.drop_last()) + work_bytes(queue.last())
    }
}

pub open spec fn flight_bytes(flight: Option<Flight>) -> nat {
    match flight {
        Some(flight) => work_bytes(flight.work),
        None => 0,
    }
}

pub open spec fn flight_count(flight: Option<Flight>) -> nat {
    if flight is Some {
        1
    } else {
        0
    }
}

/// Whether a queued item falls to a cancellation of this scope.
pub open spec fn cancelled_by(scope: Scope, work: Work) -> bool {
    scope == Scope::All || (work.operation matches Operation::Event(event)
        && event.spec_pointer())
}

pub open spec fn rejection(work: Work) -> Status {
    Status::Rejected { sequence: work.sequence, error: Error::Stale }
}

pub open spec fn overflow_notice() -> Status {
    Status::Closed { reason: Reason::Overflow, clean: false }
}

/// Time since the holder was last seen; a clock that stepped back counts as none.
pub open spec fn elapsed(holder: Holder, now: u128) -> int {
    if now > holder.last_seen {
        now - holder.last_seen
    } else {
        0
    }
}

/// The work with the epoch of a new interaction.
pub open spec fn with_epoch(work: Work, epoch: u64) -> Work {
    Work { epoch, ..work }
}

impl Session {
    /// Statuses that fit in a mailbox before it overflows.
    pub open spec fn mailbox_limit(self) -> int {
        self.config.max_events * 2 + 4
    }

    /// Whether the counters for work and for interaction epochs can still count.
    pub open spec fn countable(self) -> bool {
        &&& self.next_work < u64::MAX
        &&& self.active matches Some(holder) ==> holder.epoch < u64::MAX
    }

    /// Hands a status to the holder. A full mailbox is replaced by one notice, and the
    /// controller is ended.
    pub open spec fn deliver(self, status: Status) -> Session {
        match self.active {
            None => self,
            Some(holder) => {
                if holder.mailbox.len() >= self.mailbox_limit() {
                    Session {
                        active: Some(Holder { mailbox: seq![overflow_notice()], ..holder }),
                        queue: Seq::empty(),
                        barrier: Some(
                            Barrier { scope: Scope::All, reason: Reason::Overflow, end: true },
                        ),
                        ..self
                    }
                } else {
                    Session {
                        active: Some(Holder { mailbox: holder.mailbox.push(status), ..holder }),
                        ..self
                    }
                }
            },
        }
    }

    /// Rejects what falls to the cancellation, in queue order, and keeps the rest after
    /// what was already kept.
    pub open spec fn reject_queued(self, scope: Scope, kept: Seq<Work>) -> Session
        decreases self.queue.len(),
    {
        if self.queue.len() == 0 {
            Session { queue: kept, ..self }
        } else {
            let work = self.queue[0];
            let rest = Session { queue: self.queue.drop_first(), ..self };
            if cancelled_by(scope, work) {
                rest.deliver(rejection(work)).reject_queued(scope, kept)
            } else {
                rest.reject_queued(scope, kept.push(work))
            }
        }
    }

    /// The barrier that a cancellation sets: an earlier one is only widened, and an
    /// earlier end keeps its reason.
    pub open spec fn raised_barrier(self, scope: Scope, reason: Reason, end: bool) -> Barrier {
        match self.barrier {
            None => Barrier {
                scope: if end {
                    Scope::All
                } else {
                    scope
                },
                reason,
                end,
            },
            Some(old) => Barrier {
                scope: if end || old.scope == Scope::All {
                    Scope::All
                } else {
                    scope
                },
                reason: if old.end {
                    old.reason
                } else {
                    reason
                },
                end: end || old.end,
            },
        }
    }

    /// Cancels queued work and decides on a cleanup. Nothing changes without a holder or
    /// while the cleanup that ends it is already in flight.
    pub open spec fn cancel(self, scope: Scope, reason: Reason, end: bool) -> Session {
        if self.active is None || (self.flight matches Some(flight) && flight.end) {
            self
        } else {
            let barrier = self.raised_barrier(scope, reason, end);
            Session { barrier: Some(barrier), ..self }.reject_queued(barrier.scope, Seq::empty())
        }
    }

    /// Ends a holder that has not been seen for the idle timeout.
    pub open spec fn expire(self, now: u128) -> Session {
        if self.active matches Some(holder) && elapsed(holder, now) >= self.config.idle_timeout {
            self.cancel(Scope::All, Reason::Expired, true)
        } else {
            self
        }
    }

    /// What a queued item becomes when it reaches the head: the work to execute, nothing
    /// (a release of what is not held), or an error.
    pub open spec fn bind(self, work: Work) -> Result<Option<Work>, Error> {
        match self.active {
            None => Err(Error::Closed),
            Some(holder) => match work.operation {
                Operation::Event(Event::Key { press, action, key, modifiers }) => {
                    if action == Action::Down {
                        if holder.keys.contains_key(press) || holder.keys.len()
                            >= self.config.max_events {
                            Err(Error::Invalid)
                        } else {
                            Ok(Some(work))
                        }
                    } else if holder.keys.contains_key(press) {
                        Ok(
                            Some(
                                Work {
                                    operation: Operation::Event(
                                        Event::Key {
                                            press,
                                            action,
                                            key: holder.keys[press],
                                            modifiers,
                                        },
                                    ),
                                    ..work
                                },
                            ),
                        )
                    } else if action == Action::Up {
                        Ok(None)
                    } else {
                        Err(Error::Invalid)
                    }
                },
                Operation::Event(Event::Button { button, action, .. }) => {
                    if action == Action::Up && !holder.buttons.contains(button) {
                        Ok(None)
                    } else if (action == Action::Down) == holder.buttons.contains(button) {
                        Err(Error::Invalid)
                    } else {
                        Ok(Some(work))
                    }
                },
                _ => Ok(Some(work)),
            },
        }
    }

    /// Takes queued items until one can be executed. Items that need no execution or
    /// cannot be bound are answered at once.
    pub open spec fn advance(self) -> (Session, Option<Work>)
        decreases self.queue.len(),
    {
        if self.queue.len() == 0 {
            (self, None)
        } else {
            let work = self.queue[0];
            let rest = Session { queue: self.queue.drop_first(), ..self };
            match self.bind(work) {
                Ok(Some(bound)) => (
                    Session { flight: Some(Flight { work: bound, end: false }), ..rest },
                    Some(bound),
                ),
                Ok(None) => {
                    let told = rest.deliver(
                        Status::Completed { sequence: work.sequence, outcome: Outcome::Executed },
                    );
                    if told.barrier is Some {
                        (told, None)
                    } else {
                        told.advance()
                    }
                },
                Err(error) => {
                    let told = rest.deliver(Status::Rejected { sequence: work.sequence, error });
                    if told.barrier is Some {
                        (told, None)
                    } else {
                        told.advance()
                    }
                },
            }
        }
    }

    /// The cleanup work that a barrier becomes.
    pub open spec fn cleanup_work(self, holder: Holder, barrier: Barrier) -> Work {
        Work {
            mode: holder.mode,
            id: (self.next_work + 1) as u64,
            controller: holder.id,
            epoch: holder.epoch,
            sequence: 0,
            operation: Operation::Cleanup { scope: barrier.scope, reason: barrier.reason },
        }
    }

    /// The executor asks for work.
    pub open spec fn next(self, now: u128) -> (Session, Option<Work>) {
        let fresh = self.expire(now);
        if fresh.flight is Some {
            (fresh, None)
        } else {
            match fresh.barrier {
                Some(barrier) => {
                    let taken = Session { barrier: None, ..fresh };
                    match fresh.active {
                        None => (taken, None),
                        Some(holder) => {
                            let work = fresh.cleanup_work(holder, barrier);
                            (
                                Session {
                                    next_work: (fresh.next_work + 1) as u64,
                                    flight: Some(Flight { work, end: barrier.end }),
                                    ..taken
                                },
                                Some(work),
                            )
                        },
                    }
                },
                None => fresh.advance(),
            }
        }
    }

    /// An executed event changes what is held down.
    pub open spec fn apply(self, event: Event) -> Session {
        match self.active {
            None => self,
            Some(holder) => {
                let held = match event {
                    Event::Key { press, action: Action::Down, key, .. } => Holder {
                        keys: holder.keys.insert(press, key),
                        ..holder
                    },
                    Event::Key { press, action: Action::Up, .. } => Holder {
                        keys: holder.keys.remove(press),
                        ..holder
                    },
                    Event::Button { button, action: Action::Down, .. } => Holder {
                        buttons: holder.buttons.insert(button),
                        ..holder
                    },
                    Event::Button { button, action: Action::Up, .. } => Holder {
                        buttons: holder.buttons.remove(button),
                        ..holder
                    },
                    _ => holder,
                };
                Session { active: Some(held), ..self }
            },
        }
    }

    /// The holder leaves; what it has not polled stays readable while it is attached.
    pub open spec fn vacate(self) -> Session {
        match self.active {
            None => self,
            Some(holder) => Session {
                active: None,
                departed: if holder.attached {
                    self.departed.insert(holder.id, holder.mailbox)
                } else {
                    self.departed
                },
                ..self
            },
        }
    }

    /// Nothing of the cleaned scope is held down any more.
    pub open spec fn released(self, scope: Scope) -> Session {
        match self.active {
            None => self,
            Some(holder) => Session {
                active: Some(
                    Holder {
                        buttons: Set::empty(),
                        keys: if scope == Scope::All {
                            Map::empty()
                        } else {
                            holder.keys
                        },
                        ..holder
                    },
                ),
                ..self
            },
        }
    }

    /// A new interaction epoch, to which the preserved queue belongs.
    pub open spec fn renewed(self) -> Session {
        match self.active {
            None => self,
            Some(holder) => {
                let epoch = (holder.epoch + 1) as u64;
                Session {
                    active: Some(Holder { epoch, ..holder }),
                    queue: self.queue.map_values(|work: Work| with_epoch(work, epoch)),
                    ..self
                }.deliver(Status::Reset { epoch, geometry: self.config.geometry })
            },
        }
    }

    /// The executor reports the outcome of the work in flight.
    pub open spec fn complete(self, id: u64, outcome: Outcome) -> (Session, Result<(), Error>) {
        match self.flight {
            None => (self, Err(Error::Invalid)),
            Some(flight) => {
                let landed = Session { flight: None, ..self };
                if flight.work.id != id {
                    (self, Err(Error::Invalid))
                } else {
                    match flight.work.operation {
                        Operation::Event(event) => {
                            let applied = if outcome == Outcome::Executed {
                                landed.apply(event)
                            } else {
                                landed
                            };
                            let told = applied.deliver(
                                Status::Completed { sequence: flight.work.sequence, outcome },
                            );
                            if outcome == Outcome::Partial || outcome == Outcome::Uncertain {
                                (told.cancel(Scope::All, Reason::Execution, true), Ok(()))
                            } else {
                                (told, Ok(()))
                            }
                        },
                        Operation::Cleanup { scope, reason } => {
                            if outcome != Outcome::Executed {
                                let broken = Session {
                                    failed: true,
                                    queue: Seq::empty(),
                                    barrier: None,
                                    ..landed
                                }.deliver(Status::Closed { reason, clean: false });
                                (broken.vacate(), Err(Error::CleanupFailed))
                            } else if flight.end {
                                let told = landed.released(scope).deliver(
                                    Status::Closed { reason, clean: true },
                                );
                                (
                                    Session { barrier: None, queue: Seq::empty(), ..told.vacate() },
                                    Ok(()),
                                )
                            } else if landed.barrier is None {
                                (landed.released(scope).renewed(), Ok(()))
                            } else {
                                (landed.released(scope), Ok(()))
                            }
                        },
                    }
                }
            },
        }
    }

    /// The host changes the surface.
    pub open spec fn set_geometry(self, geometry: Geometry) -> (Session, Result<(), Error>) {
        if !geometry.spec_valid() || geometry.revision <= self.config.geometry.revision {
            (self, Err(Error::Invalid))
        } else {
            (
                Session { config: Config { geometry, ..self.config }, ..self }.cancel(
                    Scope::Pointer,
                    Reason::Geometry,
                    false,
                ),
                Ok(()),
            )
        }
    }

    /// A controller asks for the target. The result is its identity.
    pub open spec fn admit_controller(self, mode: Mode, now: u128) -> (Session, Result<u64, Error>) {
        if self.failed {
            (self, Err(Error::CleanupFailed))
        } else if self.active is Some {
            (self, Err(Error::Busy))
        } else if self.config.modes & mode.spec_bit() == 0 {
            (self, Err(Error::Unsupported))
        } else if self.next_controller == u64::MAX {
            (self, Err(Error::Closed))
        } else {
            let id = (self.next_controller + 1) as u64;
            (
                Session {
                    next_controller: id,
                    active: Some(
                        Holder {
                            id,
                            mode,
                            epoch: 1,
                            last_sequence: 0,
                            last_seen: now,
                            keys: Map::empty(),
                            buttons: Set::empty(),
                            mailbox: Seq::empty(),
                            attached: true,
                        },
                    ),
                    ..self
                },
                Ok(id),
            )
        }
    }

    /// Whether the controller with this identity holds the target.
    pub open spec fn held_by(self, id: u64) -> bool {
        self.active matches Some(holder) && holder.id == id
    }

    /// Whether a cleanup is decided on or in flight.
    pub open spec fn cleaning(self) -> bool {
        self.barrier is Some || (self.flight matches Some(flight)
            && flight.work.operation is Cleanup)
    }

    /// Whether one more event fits in the queue's two bounds.
    pub open spec fn has_room(self, event: Event) -> bool {
        &&& self.queue.len() + flight_count(self.flight) < self.config.max_events
        &&& queue_bytes(self.queue) + flight_bytes(self.flight) + event.spec_bytes()
            <= self.config.max_bytes
    }

    /// A controller submits an event.
    pub open spec fn submit(
        self,
        id: u64,
        mode: Mode,
        now: u128,
        epoch: u64,
        sequence: u64,
        event: Event,
    ) -> (Session, Result<(), Error>) {
        let fresh = self.expire(now);
        match fresh.active {
            None => (fresh, Err(Error::Closed)),
            Some(holder) => {
                let counted = Session {
                    active: Some(Holder { last_sequence: sequence, ..holder }),
                    ..fresh
                };
                if holder.id != id {
                    (fresh, Err(Error::Closed))
                } else if sequence <= holder.last_sequence {
                    (fresh, Err(Error::Invalid))
                } else if epoch != holder.epoch {
                    (counted, Err(Error::Stale))
                } else if counted.cleaning() {
                    (counted, Err(Error::Busy))
                } else if verdict(fresh.config, holder.mode, event) is Err {
                    (counted, verdict(fresh.config, holder.mode, event))
                } else if !counted.has_room(event) {
                    (counted.cancel(Scope::All, Reason::Overflow, true), Err(Error::Overflow))
                } else {
                    let work_id = (fresh.next_work + 1) as u64;
                    (
                        Session {
                            next_work: work_id,
                            queue: counted.queue.push(
                                Work {
                                    mode,
                                    id: work_id,
                                    controller: id,
                                    epoch,
                                    sequence,
                                    operation: Operation::Event(event),
                                },
                            ),
                            ..counted
                        },
                        Ok(()),
                    )
                }
            },
        }
    }

    /// A controller shows that it is alive.
    pub open spec fn heartbeat(self, id: u64, now: u128) -> (Session, Result<(), Error>) {
        let fresh = self.expire(now);
        match fresh.active {
            Some(holder) if holder.id == id => (
                Session { active: Some(Holder { last_seen: now, ..holder }), ..fresh },
                Ok(()),
            ),
            _ => (fresh, Err(Error::Closed)),
        }
    }

    /// A controller asks for a fresh interaction.
    pub open spec fn reset(self, id: u64) -> (Session, Result<(), Error>) {
        if self.held_by(id) {
            (self.cancel(Scope::All, Reason::Focus, false), Ok(()))
        } else {
            (self, Err(Error::Closed))
        }
    }

    /// A controller ends its hold on the target.
    pub open spec fn close(self, id: u64) -> Session {
        if self.held_by(id) {
            self.cancel(Scope::All, Reason::Disconnect, true)
        } else {
            self
        }
    }

    /// A controller goes away and will not poll again.
    pub open spec fn detach(self, id: u64) -> Session {
        let closed = self.close(id);
        match closed.active {
            Some(holder) if holder.id == id => Session {
                active: Some(Holder { attached: false, ..holder }),
                ..closed
            },
            _ => Session { departed: closed.departed.remove(id), ..closed },
        }
    }

    /// A controller takes its oldest status.
    pub open spec fn poll(self, id: u64) -> (Session, Option<Status>) {
        match self.active {
            Some(holder) if holder.id == id => {
                if holder.mailbox.len() == 0 {
                    (self, None)
                } else {
                    (
                        Session {
                            active: Some(
                                Holder { mailbox: holder.mailbox.drop_first(), ..holder },
                            ),
                            ..self
                        },
                        Some(holder.mailbox[0]),
                    )
                }
            },
            _ => {
                if self.departed.contains_key(id) && self.departed[id].len() > 0 {
                    (
                        Session {
                            departed: self.departed.insert(id, self.departed[id].drop_first()),
                            ..self
                        },
                        Some(self.departed[id][0]),
                    )
                } else {
                    (self, None)
                }
            },
        }
    }
}

} // verus!
