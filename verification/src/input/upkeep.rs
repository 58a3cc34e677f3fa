//! What every transition of an input session keeps.

use super::model::{
    Action, Config, Event, Geometry, Key, Mode, Operation, Outcome, Reason, Scope, Status, Work,
};
use super::state::{
    cancelled_by, config_allowed, rejection, with_epoch, Flight, Holder, Session, MAX_TEXT,
};
use super::validation::{accepted_text_is_bounded, verdict, MAX_KEY_NAME};
use crate::text::byte_len;
use vstd::prelude::*;

verus! {

/// Text of an event that passed validation, or was bound to a key that did.
pub open spec fn text_bounded(event: Event) -> bool {
    &&& event.text_bytes() <= MAX_TEXT
    &&& event matches Event::Key { key, .. } ==> byte_len(key.name()) <= MAX_KEY_NAME
}

/// A queued item is an event of the holder's current interaction.
pub open spec fn queued_properly(holder: Holder, next_work: u64, work: Work) -> bool {
    &&& work.operation matches Operation::Event(event) && text_bounded(event)
    &&& work.controller == holder.id
    &&& work.epoch == holder.epoch
    &&& 0 < work.sequence <= holder.last_sequence
    &&& 0 < work.id <= next_work
}

/// Queued items are proper, and stand in the order in which they were submitted.
pub open spec fn queue_proper(holder: Holder, next_work: u64, queue: Seq<Work>) -> bool {
    &&& forall|i: int| 0 <= i < queue.len() ==> queued_properly(holder, next_work, #[trigger] queue[i])
    &&& forall|i: int, j: int|
        0 <= i < j < queue.len() ==> (#[trigger] queue[i]).sequence < (#[trigger] queue[j]).sequence
            && queue[i].id < queue[j].id
}

/// What is in flight belongs to the holder, came before everything queued, and was
/// bound to what the holder has pressed.
pub open spec fn flight_proper(session: Session, holder: Holder, flight: Flight) -> bool {
    &&& flight.work.controller == holder.id
    &&& flight.work.epoch == holder.epoch
    &&& 0 < flight.work.id <= session.next_work
    &&& match flight.work.operation {
        Operation::Event(event) => {
            &&& !flight.end
            &&& text_bounded(event)
            &&& session.queue.len() < session.config.max_events
            &&& 0 < flight.work.sequence <= holder.last_sequence
            &&& forall|i: int|
                0 <= i < session.queue.len() ==> flight.work.sequence < (
                #[trigger] session.queue[i]).sequence && flight.work.id < session.queue[i].id
            &&& event matches Event::Key { press, action: Action::Down, .. } ==> {
                &&& !holder.keys.contains_key(press)
                &&& holder.keys.len() < session.config.max_events
            }
        },
        Operation::Cleanup { .. } => flight.work.sequence == 0,
    }
}

pub open spec fn holder_proper(session: Session, holder: Holder) -> bool {
    &&& 0 < holder.id == session.next_controller
    &&& holder.epoch >= 1
    &&& holder.keys.dom().finite()
    &&& holder.keys.len() <= session.config.max_events
    &&& forall|press: u64| #[trigger]
        holder.keys.contains_key(press) ==> byte_len(holder.keys[press].name()) <= MAX_KEY_NAME
    &&& holder.mailbox.len() <= session.mailbox_limit()
    &&& session.queue.len() <= session.config.max_events
    &&& queue_proper(holder, session.next_work, session.queue)
    &&& session.flight matches Some(flight) ==> flight_proper(session, holder, flight)
    &&& !session.departed.contains_key(holder.id)
}

impl Session {
    /// The bounds hold, at most one controller holds the target, and everything queued or
    /// in flight is its own.
    pub open spec fn inv(self) -> bool {
        &&& config_allowed(self.config)
        &&& match self.active {
            None => self.queue.len() == 0 && self.flight is None,
            Some(holder) => !self.failed && holder_proper(self, holder),
        }
        &&& forall|id: u64| #[trigger]
            self.departed.contains_key(id) ==> 0 < id <= self.next_controller
    }
}

proof fn lemma_subsequence(session: Session, queue: Seq<Work>, at: int)
    requires
        session.inv(),
        session.queue == queue,
        0 <= at < queue.len(),
    ensures
        (Session { queue: queue.remove(at), ..session }).inv(),
{
    let after = Session { queue: queue.remove(at), ..session };
    let holder = session.active->0;
    assert forall|i: int| 0 <= i < after.queue.len() implies queued_properly(
        holder,
        session.next_work,
        #[trigger] after.queue[i],
    ) by {
        if i < at {
            assert(after.queue[i] == queue[i]);
        } else {
            assert(after.queue[i] == queue[i + 1]);
        }
    }
    assert forall|i: int, j: int| 0 <= i < j < after.queue.len() implies (
    #[trigger] after.queue[i]).sequence < (#[trigger] after.queue[j]).sequence && after.queue[i].id
        < after.queue[j].id by {
        let a = if i < at {
            i
        } else {
            i + 1
        };
        let b = if j < at {
            j
        } else {
            j + 1
        };
        assert(after.queue[i] == queue[a]);
        assert(after.queue[j] == queue[b]);
    }
    if session.flight is Some && (session.flight->0).work.operation is Event {
        let flight = session.flight->0;
        assert forall|i: int| 0 <= i < after.queue.len() implies flight.work.sequence < (
        #[trigger] after.queue[i]).sequence && flight.work.id < after.queue[i].id by {
            let a = if i < at {
                i
            } else {
                i + 1
            };
            assert(after.queue[i] == queue[a]);
        }
    }
}

proof fn lemma_prefix(session: Session, queue: Seq<Work>, len: int)
    requires
        session.inv(),
        session.queue == queue,
        0 <= len <= queue.len(),
    ensures
        (Session { queue: queue.take(len), ..session }).inv(),
{
    let after = Session { queue: queue.take(len), ..session };
    if session.active is Some {
        assert forall|i: int| 0 <= i < after.queue.len() implies after.queue[i] == queue[i] by {}
        assert(queue_proper(session.active->0, session.next_work, after.queue));
    } else {
        assert(after.queue =~= queue);
    }
}

/// Delivering a status keeps the invariant, with or without an overflow.
pub proof fn lemma_deliver(session: Session, status: Status)
    requires
        session.inv(),
    ensures
        session.deliver(status).inv(),
{
    if session.active is Some {
        lemma_prefix(session, session.queue, 0);
        assert(session.queue.take(0) =~= Seq::<Work>::empty());
    }
}

pub proof fn lemma_reject_queued(session: Session, scope: Scope, kept: Seq<Work>)
    requires
        (Session { queue: kept + session.queue, ..session }).inv(),
        session.active is Some,
    ensures
        session.reject_queued(scope, kept).inv(),
    decreases session.queue.len(),
{
    let whole = Session { queue: kept + session.queue, ..session };
    if session.queue.len() == 0 {
        assert(kept + session.queue =~= kept);
    } else {
        let work = session.queue[0];
        let rest = Session { queue: session.queue.drop_first(), ..session };
        if cancelled_by(scope, work) {
            lemma_subsequence(whole, whole.queue, kept.len() as int);
            assert(whole.queue.remove(kept.len() as int) =~= kept + rest.queue);
            let told = rest.deliver(rejection(work));
            let mid = Session { queue: kept + rest.queue, ..session };
            lemma_deliver(mid, rejection(work));
            if (rest.active->0).mailbox.len() >= rest.mailbox_limit() {
                lemma_prefix(mid, mid.queue, kept.len() as int);
                assert(mid.queue.take(kept.len() as int) =~= kept);
                assert(kept + told.queue =~= kept);
            }
            lemma_reject_queued(told, scope, kept);
        } else {
            assert(kept.push(work) + rest.queue =~= kept + session.queue);
            lemma_reject_queued(rest, scope, kept.push(work));
        }
    }
}

/// Cancelling keeps the invariant.
pub proof fn lemma_cancel(session: Session, scope: Scope, reason: Reason, end: bool)
    requires
        session.inv(),
    ensures
        session.cancel(scope, reason, end).inv(),
{
    if session.active is Some {
        let barrier = session.raised_barrier(scope, reason, end);
        let raised = Session { barrier: Some(barrier), ..session };
        assert(Seq::<Work>::empty() + raised.queue =~= raised.queue);
        lemma_reject_queued(raised, barrier.scope, Seq::empty());
    }
}

pub proof fn lemma_expire(session: Session, now: u128)
    requires
        session.inv(),
    ensures
        session.expire(now).inv(),
{
    lemma_cancel(session, Scope::All, Reason::Expired, true);
}

pub proof fn lemma_advance(session: Session)
    requires
        session.inv(),
        session.flight is None,
        session.barrier is None,
    ensures
        session.advance().0.inv(),
    decreases session.queue.len(),
{
    if session.queue.len() > 0 {
        let work = session.queue[0];
        let rest = Session { queue: session.queue.drop_first(), ..session };
        lemma_subsequence(session, session.queue, 0);
        assert(session.queue.remove(0) =~= rest.queue);
        assert(queued_properly(session.active->0, session.next_work, work));
        match session.bind(work) {
            Ok(Some(bound)) => {
                let after = Session { flight: Some(Flight { work: bound, end: false }), ..rest };
                assert forall|i: int| 0 <= i < after.queue.len() implies bound.sequence < (
                #[trigger] after.queue[i]).sequence && bound.id < after.queue[i].id by {
                    assert(after.queue[i] == session.queue[i + 1]);
                }
            },
            Ok(None) => {
                let status = Status::Completed {
                    sequence: work.sequence,
                    outcome: Outcome::Executed,
                };
                lemma_deliver(rest, status);
                if rest.deliver(status).barrier is None {
                    lemma_advance(rest.deliver(status));
                }
            },
            Err(error) => {
                let status = Status::Rejected { sequence: work.sequence, error };
                lemma_deliver(rest, status);
                if rest.deliver(status).barrier is None {
                    lemma_advance(rest.deliver(status));
                }
            },
        }
    }
}

/// Asking for work keeps the invariant.
pub proof fn lemma_next(session: Session, now: u128)
    requires
        session.inv(),
        session.next_work < u64::MAX,
    ensures
        session.next(now).0.inv(),
{
    lemma_expire(session, now);
    lemma_expire_keeps(session, now);
    let fresh = session.expire(now);
    if fresh.flight is None {
        if fresh.barrier is None {
            lemma_advance(fresh);
        } else if fresh.active is Some {
            let holder = fresh.active->0;
            let after = session.next(now).0;
            assert forall|i: int| 0 <= i < after.queue.len() implies queued_properly(
                holder,
                after.next_work,
                #[trigger] after.queue[i],
            ) by {
                assert(queued_properly(holder, fresh.next_work, fresh.queue[i]));
            }
        }
    }
}

/// What rejecting queued work leaves alone.
pub proof fn lemma_reject_queued_keeps(session: Session, scope: Scope, kept: Seq<Work>)
    ensures
        ({
            let after = session.reject_queued(scope, kept);
            &&& after.config == session.config
            &&& after.next_controller == session.next_controller
            &&& after.next_work == session.next_work
            &&& after.flight == session.flight
            &&& after.failed == session.failed
            &&& after.departed == session.departed
            &&& after.active is Some == session.active is Some
            &&& session.active matches Some(holder) ==> after.active == Some(
                Holder { mailbox: (after.active->0).mailbox, ..holder },
            )
            &&& session.barrier is Some ==> after.barrier is Some
            &&& (session.barrier is Some && (session.barrier->0).end) ==> (after.barrier->0).end
        }),
    decreases session.queue.len(),
{
    if session.queue.len() > 0 {
        let work = session.queue[0];
        let rest = Session { queue: session.queue.drop_first(), ..session };
        if cancelled_by(scope, work) {
            lemma_reject_queued_keeps(rest.deliver(rejection(work)), scope, kept);
        } else {
            lemma_reject_queued_keeps(rest, scope, kept.push(work));
        }
    }
}

/// Expiry leaves identities, limits and the work in flight alone.
pub proof fn lemma_expire_keeps(session: Session, now: u128)
    ensures
        ({
            let after = session.expire(now);
            &&& after.config == session.config
            &&& after.next_controller == session.next_controller
            &&& after.next_work == session.next_work
            &&& after.flight == session.flight
            &&& after.failed == session.failed
            &&& after.departed == session.departed
            &&& after.active is Some == session.active is Some
            &&& session.active matches Some(holder) ==> after.active == Some(
                Holder { mailbox: (after.active->0).mailbox, ..holder },
            )
        }),
{
    let barrier = session.raised_barrier(Scope::All, Reason::Expired, true);
    lemma_reject_queued_keeps(
        Session { barrier: Some(barrier), ..session },
        barrier.scope,
        Seq::empty(),
    );
}

/// Completing work keeps the invariant.
pub proof fn lemma_complete(session: Session, id: u64, outcome: Outcome)
    requires
        session.inv(),
        session.active matches Some(holder) ==> holder.epoch < u64::MAX,
    ensures
        session.complete(id, outcome).0.inv(),
{
    if session.flight is Some && (session.flight->0).work.id == id {
        let flight = session.flight->0;
        let landed = Session { flight: None, ..session };
        assert(landed.inv());
        match flight.work.operation {
            Operation::Event(event) => {
                let applied = if outcome == Outcome::Executed {
                    landed.apply(event)
                } else {
                    landed
                };
                lemma_apply(session, event);
                lemma_deliver(
                    applied,
                    Status::Completed { sequence: flight.work.sequence, outcome },
                );
                let told = applied.deliver(
                    Status::Completed { sequence: flight.work.sequence, outcome },
                );
                lemma_cancel(told, Scope::All, Reason::Execution, true);
            },
            Operation::Cleanup { scope, reason } => {
                lemma_prefix(landed, landed.queue, 0);
                assert(landed.queue.take(0) =~= Seq::<Work>::empty());
                let bare = Session { queue: Seq::empty(), barrier: None, ..landed };
                let freed = landed.released(scope);
                assert(freed.inv());
                lemma_deliver(freed, Status::Closed { reason, clean: true });
                lemma_prefix(freed, freed.queue, 0);
                if outcome != Outcome::Executed {
                    lemma_deliver(bare, Status::Closed { reason, clean: false });
                } else if flight.end {
                    let told = freed.deliver(Status::Closed { reason, clean: true });
                    lemma_prefix(told, told.queue, 0);
                } else if landed.barrier is None {
                    lemma_renewed(freed);
                }
            },
        }
    }
}

proof fn lemma_apply(session: Session, event: Event)
    requires
        session.inv(),
        session.flight is Some,
        (session.flight->0).work.operation == Operation::Event(event),
    ensures
        (Session { flight: None, ..session }).apply(event).inv(),
{
    let holder = session.active->0;
    let landed = Session { flight: None, ..session };
    let after = landed.apply(event);
    let held = after.active->0;
    assert(queue_proper(held, after.next_work, after.queue)) by {
        assert forall|i: int| 0 <= i < after.queue.len() implies queued_properly(
            held,
            after.next_work,
            #[trigger] after.queue[i],
        ) by {
            assert(queued_properly(holder, session.next_work, session.queue[i]));
        }
    }
    match event {
        Event::Key { press, action: Action::Down, key, .. } => {
            assert(held.keys.dom() =~= holder.keys.dom().insert(press));
        },
        Event::Key { press, action: Action::Up, .. } => {
            assert(held.keys.dom() =~= holder.keys.dom().remove(press));
            vstd::set_lib::lemma_len_subset(held.keys.dom(), holder.keys.dom());
        },
        _ => {},
    }
}

proof fn lemma_renewed(session: Session)
    requires
        session.inv(),
        session.active is Some,
        session.flight is None,
        (session.active->0).epoch < u64::MAX,
    ensures
        session.renewed().inv(),
{
    let holder = session.active->0;
    let epoch = (holder.epoch + 1) as u64;
    let next = Session {
        active: Some(Holder { epoch, ..holder }),
        queue: session.queue.map_values(|work: Work| with_epoch(work, epoch)),
        ..session
    };
    assert forall|i: int| 0 <= i < next.queue.len() implies queued_properly(
        next.active->0,
        next.next_work,
        #[trigger] next.queue[i],
    ) by {
        assert(queued_properly(holder, session.next_work, session.queue[i]));
    }
    assert forall|i: int, j: int| 0 <= i < j < next.queue.len() implies (
    #[trigger] next.queue[i]).sequence < (#[trigger] next.queue[j]).sequence && next.queue[i].id
        < next.queue[j].id by {
        assert(session.queue[i].sequence < session.queue[j].sequence);
    }
    lemma_deliver(next, Status::Reset { epoch, geometry: session.config.geometry });
}

/// Changing the surface keeps the invariant.
pub proof fn lemma_set_geometry(session: Session, geometry: Geometry)
    requires
        session.inv(),
    ensures
        session.set_geometry(geometry).0.inv(),
{
    if geometry.spec_valid() {
        let moved = Session { config: Config { geometry, ..session.config }, ..session };
        assert(moved.inv());
        lemma_cancel(moved, Scope::Pointer, Reason::Geometry, false);
    }
}

/// Admission keeps the invariant.
pub proof fn lemma_admit_controller(session: Session, mode: Mode, now: u128)
    requires
        session.inv(),
    ensures
        session.admit_controller(mode, now).0.inv(),
{
}

/// Submission keeps the invariant.
pub proof fn lemma_submit(
    session: Session,
    id: u64,
    mode: Mode,
    now: u128,
    epoch: u64,
    sequence: u64,
    event: Event,
)
    requires
        session.inv(),
        session.next_work < u64::MAX,
    ensures
        session.submit(id, mode, now, epoch, sequence, event).0.inv(),
{
    lemma_expire(session, now);
    lemma_expire_keeps(session, now);
    let fresh = session.expire(now);
    if fresh.active is Some {
        let holder = fresh.active->0;
        if holder.id == id && sequence > holder.last_sequence {
            let counted = Session {
                active: Some(Holder { last_sequence: sequence, ..holder }),
                ..fresh
            };
            lemma_counted(fresh, sequence);
            lemma_cancel(counted, Scope::All, Reason::Overflow, true);
            if epoch == holder.epoch && !counted.cleaning() && verdict(
                fresh.config,
                holder.mode,
                event,
            ) is Ok && counted.has_room(event) {
                accepted_text_is_bounded(fresh.config, holder.mode, event);
                let after = session.submit(id, mode, now, epoch, sequence, event).0;
                let held = after.active->0;
                assert forall|i: int| 0 <= i < after.queue.len() implies queued_properly(
                    held,
                    after.next_work,
                    #[trigger] after.queue[i],
                ) by {
                    if i < counted.queue.len() {
                        assert(queued_properly(held, counted.next_work, counted.queue[i]));
                    }
                }
                assert forall|i: int, j: int| 0 <= i < j < after.queue.len() implies (
                #[trigger] after.queue[i]).sequence < (#[trigger] after.queue[j]).sequence
                    && after.queue[i].id < after.queue[j].id by {
                    assert(queued_properly(holder, fresh.next_work, fresh.queue[i]));
                    if j < counted.queue.len() {
                        assert(counted.queue[i].sequence < counted.queue[j].sequence);
                    }
                }
            }
        }
    }
}

proof fn lemma_counted(session: Session, sequence: u64)
    requires
        session.inv(),
        session.active is Some,
        sequence > (session.active->0).last_sequence,
    ensures
        (Session {
            active: Some(Holder { last_sequence: sequence, ..session.active->0 }),
            ..session
        }).inv(),
{
    let holder = session.active->0;
    let held = Holder { last_sequence: sequence, ..holder };
    assert forall|i: int| 0 <= i < session.queue.len() implies queued_properly(
        held,
        session.next_work,
        #[trigger] session.queue[i],
    ) by {
        assert(queued_properly(holder, session.next_work, session.queue[i]));
    }
}

/// A heartbeat keeps the invariant.
pub proof fn lemma_heartbeat(session: Session, id: u64, now: u128)
    requires
        session.inv(),
    ensures
        session.heartbeat(id, now).0.inv(),
{
    lemma_expire(session, now);
    let fresh = session.expire(now);
    if fresh.active is Some {
        let holder = fresh.active->0;
        let held = Holder { last_seen: now, ..holder };
        assert forall|i: int| 0 <= i < fresh.queue.len() implies queued_properly(
            held,
            fresh.next_work,
            #[trigger] fresh.queue[i],
        ) by {
            assert(queued_properly(holder, fresh.next_work, fresh.queue[i]));
        }
    }
}

/// Leaving and polling keep the invariant.
pub proof fn lemma_leave(session: Session, id: u64)
    requires
        session.inv(),
    ensures
        session.reset(id).0.inv(),
        session.close(id).inv(),
        session.detach(id).inv(),
        session.poll(id).0.inv(),
{
    lemma_cancel(session, Scope::All, Reason::Focus, false);
    lemma_cancel(session, Scope::All, Reason::Disconnect, true);
    let closed = session.close(id);
    if closed.active is Some {
        let holder = closed.active->0;
        let held = Holder { attached: false, ..holder };
        assert forall|i: int| 0 <= i < closed.queue.len() implies queued_properly(
            held,
            closed.next_work,
            #[trigger] closed.queue[i],
        ) by {
            assert(queued_properly(holder, closed.next_work, closed.queue[i]));
        }
    }
    if session.active is Some {
        let holder = session.active->0;
        let held = Holder { mailbox: holder.mailbox.drop_first(), ..holder };
        assert forall|i: int| 0 <= i < session.queue.len() implies queued_properly(
            held,
            session.next_work,
            #[trigger] session.queue[i],
        ) by {
            assert(queued_properly(holder, session.next_work, session.queue[i]));
        }
    }
}

} // verus!
