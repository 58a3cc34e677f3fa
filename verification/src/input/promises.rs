//! What an input session gives for what it is handed, case by case.

use super::binary64::{comparisons_follow_the_bits, Binary64};
use super::model::{
    Action, Config, Error, Event, Geometry, Key, Mode, Operation, Outcome, Position, Reason, Scope,
    ScrollUnit, Status, Work,
};
use super::state::{flight_bytes, queue_bytes, Holder, Session};
use super::validation::verdict;
use crate::text::byte_len;
use vstd::prelude::*;

verus! {

/// Whether the holder has been silent for the idle timeout.
pub open spec fn silent(session: Session, now: u128) -> bool {
    session.active matches Some(holder) && now > holder.last_seen && now - holder.last_seen
        >= session.config.idle_timeout
}

/// Whether the next thing that the executor gets is decided by the head of the queue.
pub open spec fn at_its_head(session: Session, now: u128) -> bool {
    &&& session.active is Some
    &&& session.flight is None
    &&& session.barrier is None
    &&& session.queue.len() > 0
    &&& session.config.idle_timeout > 0
    &&& !silent(session, now)
}

/// The session in which the head of the queue was answered and is gone.
pub open spec fn head_answered(session: Session, status: Status) -> Session {
    Session {
        queue: session.queue.drop_first(),
        active: Some(
            Holder {
                mailbox: (session.active->0).mailbox.push(status),
                ..session.active->0
            },
        ),
        ..session
    }
}

/// The executor gets this work, and what is queued after it stays.
pub open spec fn handed_out(session: Session, now: u128, work: Work) -> bool {
    let (after, given) = session.next(now);
    &&& given == Some(work)
    &&& after.flight matches Some(flight) && flight.work == work && !flight.end
    &&& after.queue == session.queue.drop_first()
    &&& after.active == session.active
    &&& after.barrier is None
    &&& after.config == session.config
}

/// A release of a press that the holder has down reaches the executor next, with the key that
/// the press went down with, and so does its repetition.
pub proof fn held_presses_are_released(
    session: Session,
    now: u128,
    press: u64,
    action: Action,
    key: Key,
    modifiers: u32,
)
    requires
        at_its_head(session, now),
        action == Action::Up || action == Action::Repeat,
        session.queue[0].operation
            == Operation::Event(Event::Key { press, action, key, modifiers }),
        (session.active->0).keys.contains_key(press),
    ensures
        session.next(now).1 matches Some(work) && {
            &&& work.operation == Operation::Event(
                Event::Key { press, action, key: (session.active->0).keys[press], modifiers },
            )
            &&& work.id == session.queue[0].id
            &&& work.sequence == session.queue[0].sequence
            &&& work.controller == session.queue[0].controller
            &&& work.epoch == session.queue[0].epoch
            &&& work.mode == session.queue[0].mode
            &&& handed_out(session, now, work)
        },
{
}

/// A press that is not down yet reaches the executor next as it was submitted, while the holder
/// has room for it.
pub proof fn fresh_presses_go_down(
    session: Session,
    now: u128,
    press: u64,
    key: Key,
    modifiers: u32,
)
    requires
        at_its_head(session, now),
        session.queue[0].operation == Operation::Event(
            Event::Key { press, action: Action::Down, key, modifiers },
        ),
        !(session.active->0).keys.contains_key(press),
        (session.active->0).keys.len() < session.config.max_events,
    ensures
        handed_out(session, now, session.queue[0]),
{
}

/// A button goes down if it is up and up if it is down, as it was submitted.
pub proof fn buttons_change(session: Session, now: u128, button: u32, action: Action)
    requires
        at_its_head(session, now),
        session.queue[0].operation matches Operation::Event(
            Event::Button { button: b, action: a, .. },
        ) && b == button && a == action,
        action == Action::Down && !(session.active->0).buttons.contains(button) || action
            == Action::Up && (session.active->0).buttons.contains(button),
    ensures
        handed_out(session, now, session.queue[0]),
{
}

/// Text, motion and scrolling reach the executor next as they were submitted.
pub proof fn other_events_are_handed_out(session: Session, now: u128)
    requires
        at_its_head(session, now),
        session.queue[0].operation matches Operation::Event(event) && (event is Text
            || event is Motion || event is Scroll),
    ensures
        handed_out(session, now, session.queue[0]),
{
}

/// Whether an event releases something that the holder does not hold down.
pub open spec fn idle_release(holder: Holder, operation: Operation) -> bool {
    ||| operation matches Operation::Event(Event::Key { press, action, .. }) && action
        == Action::Up && !holder.keys.contains_key(press)
    ||| operation matches Operation::Event(Event::Button { button, action, .. }) && action
        == Action::Up && !holder.buttons.contains(button)
}

/// Whether an event cannot be executed: it presses what is down already or more than there is
/// room for, or repeats what is not held.
pub open spec fn impossible(session: Session, operation: Operation) -> bool {
    let holder = session.active->0;
    ||| operation matches Operation::Event(Event::Key { press, action, .. }) && (action
        == Action::Down && (holder.keys.contains_key(press) || holder.keys.len()
        >= session.config.max_events) || action == Action::Repeat && !holder.keys.contains_key(
        press,
    ))
    ||| operation matches Operation::Event(Event::Button { button, action, .. }) && (action
        == Action::Down && holder.buttons.contains(button) || action == Action::Repeat
        && !holder.buttons.contains(button))
}

/// A release of what is not held is answered as executed without being handed out, and the
/// executor gets what it would get if the item had never been queued.
pub proof fn idle_releases_are_answered(session: Session, now: u128)
    requires
        at_its_head(session, now),
        idle_release(session.active->0, session.queue[0].operation),
        (session.active->0).mailbox.len() < session.config.max_events * 2 + 4,
    ensures
        session.next(now) == head_answered(
            session,
            Status::Completed { sequence: session.queue[0].sequence, outcome: Outcome::Executed },
        ).next(now),
{
    let answered = head_answered(
        session,
        Status::Completed { sequence: session.queue[0].sequence, outcome: Outcome::Executed },
    );
    assert(session.expire(now) == session);
    assert(answered.expire(now) == answered);
}

/// What cannot be executed is rejected as invalid without being handed out, and the executor
/// gets what it would get if the item had never been queued.
pub proof fn impossible_events_are_rejected(session: Session, now: u128)
    requires
        at_its_head(session, now),
        impossible(session, session.queue[0].operation),
        (session.active->0).mailbox.len() < session.config.max_events * 2 + 4,
    ensures
        session.next(now) == head_answered(
            session,
            Status::Rejected { sequence: session.queue[0].sequence, error: Error::Invalid },
        ).next(now),
{
    let answered = head_answered(
        session,
        Status::Rejected { sequence: session.queue[0].sequence, error: Error::Invalid },
    );
    assert(session.expire(now) == session);
    assert(answered.expire(now) == answered);
}

/// Every event at the head of the queue is handed out, unless it releases what is not held or
/// cannot be executed.
pub proof fn nothing_else_is_held_back(session: Session, now: u128)
    requires
        at_its_head(session, now),
        session.queue[0].operation is Event,
        !idle_release(session.active->0, session.queue[0].operation),
        !impossible(session, session.queue[0].operation),
    ensures
        session.next(now).1 matches Some(work) && work.sequence == session.queue[0].sequence
            && handed_out(session, now, work),
{
}

/// A full mailbox is never passed over in silence: what cannot be answered ends the controller
/// with a notice of its own.
pub proof fn full_mailboxes_end_the_controller(session: Session, now: u128)
    requires
        at_its_head(session, now),
        idle_release(session.active->0, session.queue[0].operation) || impossible(
            session,
            session.queue[0].operation,
        ),
        (session.active->0).mailbox.len() >= session.config.max_events * 2 + 4,
    ensures
        ({
            let (after, given) = session.next(now);
            &&& given is None
            &&& after.queue.len() == 0
            &&& (after.active->0).mailbox == seq![
                Status::Closed { reason: Reason::Overflow, clean: false },
            ]
            &&& after.barrier matches Some(barrier) && barrier.end && barrier.scope == Scope::All
                && barrier.reason == Reason::Overflow
        }),
{
    assert(session.expire(now) == session);
}

/// A cleanup that was decided on is handed out before anything that is queued, once nothing is
/// in flight, and says what it is for.
pub proof fn cleanup_comes_first(session: Session, now: u128)
    requires
        session.flight is None,
        session.active is Some,
        session.barrier is Some,
        !silent(session, now),
        session.config.idle_timeout > 0,
        session.next_work < u64::MAX,
    ensures
        ({
            let barrier = session.barrier->0;
            let (after, given) = session.next(now);
            &&& given matches Some(work) && {
                &&& work.operation == (Operation::Cleanup {
                    scope: barrier.scope,
                    reason: barrier.reason,
                })
                &&& work.controller == (session.active->0).id
                &&& work.epoch == (session.active->0).epoch
                &&& work.id > session.next_work
                &&& after.flight matches Some(flight) && flight.work == work && flight.end
                    == barrier.end
            }
            &&& after.barrier is None
            &&& after.queue == session.queue
            &&& after.active == session.active
        }),
{
}

/// The executor's report on an event: the controller is told the outcome under the event's
/// sequence number. What was executed changes what is held down as the event says; what was not
/// changes nothing; and an outcome that leaves doubt ends the controller.
pub proof fn outcomes_are_reported(session: Session, id: u64, outcome: Outcome, event: Event)
    requires
        session.active is Some,
        session.flight matches Some(flight) && flight.work.id == id && flight.work.operation
            == Operation::Event(event),
        (session.active->0).mailbox.len() < session.config.max_events * 2 + 4,
    ensures
        ({
            let holder = session.active->0;
            let (after, result) = session.complete(id, outcome);
            let told = Status::Completed { sequence: (session.flight->0).work.sequence, outcome };
            &&& result is Ok
            &&& outcome != Outcome::Partial && outcome != Outcome::Uncertain ==> {
                &&& after.flight is None
                &&& after.queue == session.queue
                &&& after.barrier == session.barrier
                &&& after.active matches Some(now) && {
                    &&& now.mailbox == holder.mailbox.push(told)
                    &&& now.epoch == holder.epoch
                    &&& now.id == holder.id
                    &&& now.last_sequence == holder.last_sequence
                    &&& now.last_seen == holder.last_seen
                    &&& outcome != Outcome::Executed ==> now.keys == holder.keys && now.buttons
                        == holder.buttons
                    &&& outcome == Outcome::Executed ==> match event {
                        Event::Key { press, action, key, .. } => {
                            &&& now.buttons == holder.buttons
                            &&& action == Action::Down
                                ==> now.keys == holder.keys.insert(press, key)
                            &&& action == Action::Up ==> now.keys == holder.keys.remove(press)
                            &&& action == Action::Repeat ==> now.keys == holder.keys
                        },
                        Event::Button { button, action, .. } => {
                            &&& now.keys == holder.keys
                            &&& action == Action::Down ==> now.buttons == holder.buttons.insert(
                                button,
                            )
                            &&& action == Action::Up
                                ==> now.buttons == holder.buttons.remove(button)
                        },
                        _ => now.keys == holder.keys && now.buttons == holder.buttons,
                    }
                }
            }
            &&& outcome == Outcome::Partial || outcome == Outcome::Uncertain ==> (
            session.flight->0).end || (after.barrier matches Some(barrier) && barrier.end)
        }),
{
    let landed = Session { flight: None, ..session };
    if outcome == Outcome::Partial || outcome == Outcome::Uncertain {
        let told = landed.deliver(
            Status::Completed { sequence: (session.flight->0).work.sequence, outcome },
        );
        let barrier = told.raised_barrier(Scope::All, Reason::Execution, true);
        super::upkeep::lemma_reject_queued_keeps(
            Session { barrier: Some(barrier), ..told },
            Scope::All,
            Seq::empty(),
        );
    }
}

/// Only the report on the work in flight counts.
pub proof fn other_reports_change_nothing(session: Session, id: u64, outcome: Outcome)
    requires
        session.flight matches Some(flight) ==> flight.work.id != id,
    ensures
        session.complete(id, outcome) == (session, Err::<(), Error>(Error::Invalid)),
{
}

/// A submission by the holder in its current epoch, under a new sequence number and outside
/// cleanup, is taken exactly where the event is allowed and there is room: it is queued last as
/// it was submitted, and nothing else changes but the number that counts.
pub proof fn allowed_events_are_queued(
    session: Session,
    id: u64,
    mode: Mode,
    now: u128,
    epoch: u64,
    sequence: u64,
    event: Event,
)
    requires
        session.active matches Some(holder) && holder.id == id && holder.epoch == epoch && sequence
            > holder.last_sequence,
        session.config.idle_timeout > 0,
        !silent(session, now),
        session.barrier is None,
        session.flight matches Some(flight) ==> flight.work.operation is Event && !flight.end,
        session.next_work < u64::MAX,
    ensures
        ({
            let holder = session.active->0;
            let (after, result) = session.submit(id, mode, now, epoch, sequence, event);
            let in_flight: int = if session.flight is Some {
                1
            } else {
                0
            };
            let fits = session.queue.len() + in_flight < session.config.max_events && queue_bytes(
                session.queue,
            ) + flight_bytes(session.flight) + 96 + event.text_bytes() <= session.config.max_bytes;
            let allowed = verdict(session.config, holder.mode, event) is Ok;
            &&& result is Ok <==> allowed && fits
            &&& allowed && fits ==> {
                &&& after.queue.len() == session.queue.len() + 1
                &&& after.queue.drop_last() == session.queue
                &&& after.queue.last().operation == Operation::Event(event)
                &&& after.queue.last().sequence == sequence
                &&& after.queue.last().epoch == epoch
                &&& after.queue.last().controller == id
                &&& after.queue.last().mode == mode
                &&& after.queue.last().id > session.next_work
                &&& after.flight == session.flight
                &&& after.barrier is None
                &&& after.active == Some(Holder { last_sequence: sequence, ..holder })
            }
            &&& !allowed ==> result == verdict(session.config, holder.mode, event) && after.queue
                == session.queue
            &&& allowed && !fits ==> {
                &&& result == Err::<(), Error>(Error::Overflow)
                &&& after.barrier matches Some(barrier) && barrier.end
            }
        }),
{
    let holder = session.active->0;
    assert(session.expire(now) == session);
    let counted = Session { active: Some(Holder { last_sequence: sequence, ..holder }), ..session };
    let barrier = counted.raised_barrier(Scope::All, Reason::Overflow, true);
    lemma_rejecting_ends(Session { barrier: Some(barrier), ..counted });
    let (after, result) = session.submit(id, mode, now, epoch, sequence, event);
    if result is Ok {
        assert(after.queue.drop_last() =~= session.queue);
    }
}

/// Who does not hold the target, comes with a used number, with another epoch, or while the target
/// is cleaned up is refused, each with its own error, and queues nothing.
pub proof fn other_submissions_are_refused(
    session: Session,
    id: u64,
    mode: Mode,
    now: u128,
    epoch: u64,
    sequence: u64,
    event: Event,
)
    requires
        session.config.idle_timeout > 0,
        !silent(session, now),
    ensures
        ({
            let (after, result) = session.submit(id, mode, now, epoch, sequence, event);
            match session.active {
                None => result == Err::<(), Error>(Error::Closed) && after == session,
                Some(holder) => {
                    &&& holder.id != id ==> result == Err::<(), Error>(Error::Closed) && after
                        == session
                    &&& holder.id == id && sequence <= holder.last_sequence ==> result == Err::<
                        (),
                        Error,
                    >(Error::Invalid) && after == session
                    &&& holder.id == id && sequence > holder.last_sequence && epoch != holder.epoch
                        ==> result == Err::<(), Error>(Error::Stale) && after.queue
                        == session.queue
                    &&& holder.id == id && sequence > holder.last_sequence && epoch == holder.epoch
                        && (session.barrier is Some || (session.flight matches Some(flight)
                        && flight.work.operation is Cleanup)) ==> result == Err::<(), Error>(
                        Error::Busy,
                    ) && after.queue == session.queue
                },
            }
        }),
{
    assert(session.expire(now) == session);
}

/// A controller that shows itself in time keeps the target; one that has been silent for the
/// idle timeout is ended, with what it queued.
pub proof fn silence_ends_the_holder(session: Session, id: u64, now: u128)
    requires
        session.inv(),
        session.active matches Some(holder) && holder.id == id,
    ensures
        !silent(session, now) && session.config.idle_timeout > 0 ==> {
            let (after, result) = session.heartbeat(id, now);
            &&& session.expire(now) == session
            &&& result is Ok
            &&& after == (Session {
                active: Some(Holder { last_seen: now, ..session.active->0 }),
                ..session
            })
        },
        silent(session, now) && (session.flight matches Some(flight) ==> !flight.end) ==> {
            let after = session.expire(now);
            &&& after.queue.len() == 0
            &&& after.barrier matches Some(barrier) && barrier.end && barrier.scope == Scope::All
            &&& session.barrier is None ==> (after.barrier->0).reason == Reason::Expired || (
            after.barrier->0).reason == Reason::Overflow
            &&& after.flight == session.flight
        },
{
    if silent(session, now) && (session.flight matches Some(flight) ==> !flight.end) {
        super::laws::ending_empties_the_queue(session, Scope::All, Reason::Expired);
        let raised = Session {
            barrier: Some(session.raised_barrier(Scope::All, Reason::Expired, true)),
            ..session
        };
        lemma_rejecting_ends(raised);
    }
}

proof fn lemma_rejecting_ends(session: Session)
    requires
        session.active is Some,
        session.barrier matches Some(barrier) && barrier.end && barrier.scope == Scope::All && (
        barrier.reason == Reason::Overflow || barrier.reason == (session.barrier->0).reason),
    ensures
        ({
            let after = session.reject_queued(Scope::All, Seq::empty());
            &&& after.barrier matches Some(barrier) && barrier.end && barrier.scope == Scope::All
                && (barrier.reason == Reason::Overflow || barrier.reason
                == (session.barrier->0).reason)
        }),
    decreases session.queue.len(),
{
    if session.queue.len() > 0 {
        let work = session.queue[0];
        let rest = Session { queue: session.queue.drop_first(), ..session };
        let told = rest.deliver(
            Status::Rejected { sequence: work.sequence, error: Error::Stale },
        );
        lemma_rejecting_ends(told);
    }
}

/// A reset that the target completes: the executor gets a cleanup of everything for a change of
/// focus, and its success starts the next epoch, with nothing held down and nothing queued, of
/// which the controller is told with the surface.
pub proof fn resets_start_the_next_epoch(session: Session, id: u64, now: u128)
    requires
        session.inv(),
        session.countable(),
        session.config.idle_timeout > 0,
        session.active matches Some(holder) && holder.id == id,
        session.flight is None,
        session.barrier is None,
        !silent(session, now),
        (session.active->0).mailbox.len() + session.queue.len() < session.config.max_events * 2 + 4,
    ensures
        ({
            let holder = session.active->0;
            let asked = session.reset(id).0;
            let (cleaning, given) = asked.next(now);
            let done = cleaning.complete((given->0).id, Outcome::Executed).0;
            &&& session.reset(id).1 is Ok
            &&& given matches Some(work) && work.operation == (Operation::Cleanup {
                scope: Scope::All,
                reason: Reason::Focus,
            })
            &&& done.active matches Some(fresh) && {
                &&& fresh.id == id
                &&& fresh.epoch == holder.epoch + 1
                &&& fresh.keys == Map::<u64, Key>::empty()
                &&& fresh.buttons == Set::<u32>::empty()
                &&& fresh.mailbox.len() > 0
                &&& fresh.mailbox.last() == (Status::Reset {
                    epoch: (holder.epoch + 1) as u64,
                    geometry: session.config.geometry,
                })
                &&& fresh.last_sequence == holder.last_sequence
            }
            &&& done.queue.len() == 0
            &&& done.flight is None
            &&& done.barrier is None
        }),
{
    let holder = session.active->0;
    super::laws::cancellation_answers_in_order(session, Scope::All, Reason::Focus, false);
    let asked = session.reset(id).0;
    let raised = Session {
        barrier: Some(session.raised_barrier(Scope::All, Reason::Focus, false)),
        ..session
    };
    super::upkeep::lemma_reject_queued_keeps(raised, Scope::All, Seq::empty());
    lemma_all_rejected(session.queue);
    assert(asked.queue.len() == 0);
    assert(asked.expire(now) == asked);
    let (cleaning, given) = asked.next(now);
    let done = cleaning.complete((given->0).id, Outcome::Executed).0;
    assert(cleaning.active == asked.active);
    assert((asked.active->0).mailbox.len() <= holder.mailbox.len() + session.queue.len());
}

proof fn lemma_all_rejected(queue: Seq<Work>)
    ensures
        queue.filter(|work: Work| !super::state::cancelled_by(Scope::All, work)).len() == 0,
        super::laws::rejections(Scope::All, queue).len() == queue.len(),
    decreases queue.len(),
{
    reveal(Seq::filter);
    if queue.len() > 0 {
        lemma_all_rejected(queue.drop_last());
    }
}

/// A close that the target completes: the executor gets a cleanup of everything, and its success
/// leaves the target to the next controller.
pub proof fn closes_free_the_target(session: Session, id: u64, now: u128)
    requires
        session.inv(),
        session.countable(),
        session.config.idle_timeout > 0,
        session.active matches Some(holder) && holder.id == id,
        session.flight is None,
        session.barrier is None,
        !silent(session, now),
        (session.active->0).mailbox.len() + session.queue.len() < session.config.max_events * 2 + 4,
    ensures
        ({
            let asked = session.close(id);
            let (cleaning, given) = asked.next(now);
            let (done, result) = cleaning.complete((given->0).id, Outcome::Executed);
            &&& given matches Some(work) && work.operation == (Operation::Cleanup {
                scope: Scope::All,
                reason: Reason::Disconnect,
            })
            &&& result is Ok
            &&& done.active is None
            &&& done.queue.len() == 0
            &&& done.flight is None
            &&& done.barrier is None
            &&& done.failed == session.failed
            &&& (session.active->0).attached ==> done.departed.contains_key(id)
                && done.departed[id].len() > 0 && done.departed[id].last() == (Status::Closed {
                reason: Reason::Disconnect,
                clean: true,
            })
        }),
{
    let holder = session.active->0;
    super::laws::cancellation_answers_in_order(session, Scope::All, Reason::Disconnect, true);
    let asked = session.close(id);
    let raised = Session {
        barrier: Some(session.raised_barrier(Scope::All, Reason::Disconnect, true)),
        ..session
    };
    super::upkeep::lemma_reject_queued_keeps(raised, Scope::All, Seq::empty());
    lemma_all_rejected(session.queue);
    assert(asked.queue.len() == 0);
    assert(asked.expire(now) == asked);
    assert((asked.active->0).mailbox.len() <= holder.mailbox.len() + session.queue.len());
}

/// A change of the surface is taken exactly where it is a later, valid one. From then on positions
/// refer to it; queued pointer events are rejected as stale, and the others stay in their order.
pub proof fn surfaces_only_move_on(session: Session, geometry: Geometry)
    requires
        session.inv(),
        session.active matches Some(holder) ==> holder.mailbox.len() + session.queue.len()
            <= session.config.max_events * 2 + 4,
        session.barrier is None,
        session.flight matches Some(flight) ==> !flight.end,
    ensures
        ({
            let (after, result) = session.set_geometry(geometry);
            let later = geometry.spec_valid() && geometry.revision
                > session.config.geometry.revision;
            &&& later ==> {
                &&& result is Ok
                &&& after.config.geometry == geometry
                &&& after.config == (Config { geometry, ..session.config })
                &&& after.flight == session.flight
                &&& session.active is Some ==> {
                    &&& after.barrier matches Some(barrier) && !barrier.end && barrier.scope
                        == Scope::Pointer && barrier.reason == Reason::Geometry
                    &&& after.queue == session.queue.filter(
                        |work: Work|
                            !(work.operation matches Operation::Event(event) && (event is Motion
                                || event is Button || event is Scroll)),
                    )
                }
            }
            &&& !later ==> result == Err::<(), Error>(Error::Invalid) && after == session
        }),
{
    let changed = Session {
        config: Config { geometry, ..session.config },
        ..session
    };
    if geometry.spec_valid() && geometry.revision > session.config.geometry.revision
        && session.active is Some {
        let barrier = changed.raised_barrier(Scope::Pointer, Reason::Geometry, false);
        let raised = Session { barrier: Some(barrier), ..changed };
        super::laws::lemma_reject_queued_in_order(raised, Scope::Pointer, Seq::empty());
        let keep = |work: Work| !super::state::cancelled_by(Scope::Pointer, work);
        let plain = |work: Work|
            !(work.operation matches Operation::Event(event) && (event is Motion || event is Button
                || event is Scroll));
        lemma_same_filter(session.queue, keep, plain);
        assert(Seq::<Work>::empty() + session.queue.filter(keep) =~= session.queue.filter(keep));
    }
}

proof fn lemma_same_filter(queue: Seq<Work>, a: spec_fn(Work) -> bool, b: spec_fn(Work) -> bool)
    requires
        forall|work: Work| #[trigger] a(work) == b(work),
    ensures
        queue.filter(a) == queue.filter(b),
    decreases queue.len(),
{
    reveal(Seq::filter);
    if queue.len() > 0 {
        lemma_same_filter(queue.drop_last(), a, b);
        assert(a(queue.last()) == b(queue.last()));
    }
}

/// A free target takes a controller whose mode it offers: it holds the target alone, with a new
/// identity, in its first epoch, with nothing held down and nothing to hear.
pub proof fn free_targets_take_controllers(session: Session, mode: Mode, now: u128)
    requires
        session.next_controller < u64::MAX,
        !session.failed,
        session.active is None,
    ensures
        ({
            let bit: u32 = match mode {
                Mode::Physical => 1,
                Mode::SourceText => 2,
                Mode::Cooperative => 4,
            };
            let (after, result) = session.admit_controller(mode, now);
            &&& session.config.modes & bit == 0 ==> result == Err::<u64, Error>(Error::Unsupported)
                && after == session
            &&& session.config.modes & bit != 0 ==> {
                &&& result matches Ok(id) && {
                    &&& id > session.next_controller
                    &&& after.next_controller >= id
                    &&& after.active matches Some(holder) && {
                        &&& holder.id == id
                        &&& holder.mode == mode
                        &&& holder.epoch == 1
                        &&& holder.last_sequence == 0
                        &&& holder.last_seen == now
                        &&& holder.keys == Map::<u64, Key>::empty()
                        &&& holder.buttons == Set::<u32>::empty()
                        &&& holder.mailbox.len() == 0
                        &&& holder.attached
                    }
                }
                &&& after.queue == session.queue
                &&& after.config == session.config
            }
        }),
{
}

/// Statuses come to their controller in the order in which they were given, each once.
pub proof fn statuses_come_in_order(session: Session, id: u64)
    ensures
        ({
            let (after, status) = session.poll(id);
            match session.active {
                Some(holder) if holder.id == id => if holder.mailbox.len() == 0 {
                    status is None && after == session
                } else {
                    &&& status == Some(holder.mailbox[0])
                    &&& after.active matches Some(left) && left == (Holder {
                        mailbox: holder.mailbox.subrange(1, holder.mailbox.len() as int),
                        ..holder
                    })
                    &&& after.queue == session.queue
                    &&& after.flight == session.flight
                    &&& after.barrier == session.barrier
                },
                _ => if session.departed.contains_key(id) && session.departed[id].len() > 0 {
                    &&& status == Some(session.departed[id][0])
                    &&& after.active == session.active
                    &&& after.departed[id] == session.departed[id].subrange(
                        1,
                        session.departed[id].len() as int,
                    )
                } else {
                    status is None && after == session
                },
            }
        }),
{
}

/// Whether a position lies on the surface that the target describes now, by the bits of its
/// coordinates: they are finite, not below zero, and less than the extents.
pub open spec fn on_surface(geometry: Geometry, position: Position) -> bool {
    let (x, y) = (position.x.bits, position.y.bits);
    &&& position.revision == geometry.revision
    &&& x < geometry.width.bits || x == 0x8000_0000_0000_0000
    &&& y < geometry.height.bits || y == 0x8000_0000_0000_0000
}

/// Whether no zero character stands in a name.
pub open spec fn without_zero(name: Seq<char>) -> bool {
    forall|i: int| 0 <= i < name.len() ==> (#[trigger] name[i]) != '\0'
}

/// Whether a name is made of ASCII letters and digits alone.
pub open spec fn letters_and_digits(name: Seq<char>) -> bool {
    forall|i: int|
        0 <= i < name.len() ==> ('0' <= #[trigger] name[i] <= '9' || 'A' <= name[i] <= 'Z' || 'a'
            <= name[i] <= 'z')
}

/// Which key events are allowed: a press has an identity, known modifiers and a name that is neither
/// empty nor too long and holds no zero; nothing is repeated in physical mode; and going down needs
/// the capability for that kind of key, and for a physical key a plain name. Letting go needs no
/// capability.
pub proof fn keys_are_allowed_by_their_form(
    config: Config,
    mode: Mode,
    press: u64,
    action: Action,
    key: Key,
    modifiers: u32,
)
    ensures
        ({
            let name = match key {
                Key::Physical(name) => name@,
                Key::Logical(name) => name@,
            };
            let needed: u32 = if key is Physical {
                1
            } else {
                2
            };
            verdict(config, mode, Event::Key { press, action, key, modifiers }) is Ok <==> {
                &&& press != 0
                &&& modifiers <= 255
                &&& !(action == Action::Repeat && mode == Mode::Physical)
                &&& name.len() > 0
                &&& byte_len(name) <= 63
                &&& without_zero(name)
                &&& action == Action::Down ==> config.capabilities & needed != 0
                &&& action == Action::Down && key is Physical ==> letters_and_digits(name)
            }
        }),
{
    let name = key.name();
    lemma_plain_names(name);
}

proof fn lemma_plain_names(name: Seq<char>)
    ensures
        name.contains('\0') <==> !without_zero(name),
        super::validation::alphanumeric_text(name) <==> letters_and_digits(name),
{
    if super::validation::alphanumeric_text(name) {
        assert forall|i: int| 0 <= i < name.len() implies ('0' <= #[trigger] name[i] <= '9' || 'A'
            <= name[i] <= 'Z' || 'a' <= name[i] <= 'z') by {
            assert(super::validation::alphanumeric(name[i]));
        }
    }
    if name.contains('\0') {
        let i = choose|i: int| 0 <= i < name.len() && name[i] == '\0';
        assert(name[i] == '\0');
    }
}

/// Which other events are allowed: text that is not empty and not longer than the target takes;
/// motion, scrolling and the pressing of a button on the current surface; and the release of a
/// button wherever the pointer is. Each needs its capability, and there are thirty-two buttons.
pub proof fn other_events_are_allowed_by_their_form(
    config: Config,
    mode: Mode,
    text: String,
    at: Position,
    button: u32,
    x: Binary64,
    y: Binary64,
    unit: ScrollUnit,
)
    requires
        config.geometry.spec_valid(),
    ensures
        verdict(config, mode, Event::Text(text)) is Ok <==> text@.len() > 0 && byte_len(text@)
            <= config.max_text_bytes && config.capabilities & 4 != 0,
        verdict(config, mode, Event::Motion(at)) is Ok <==> on_surface(config.geometry, at)
            && config.capabilities & 8 != 0,
        verdict(
            config,
            mode,
            Event::Button { button, action: Action::Down, position: at },
        ) is Ok <==> 1 <= button <= 32 && on_surface(config.geometry, at) && config.capabilities & 8
            != 0,
        verdict(
            config,
            mode,
            Event::Button { button, action: Action::Up, position: at },
        ) is Ok <==> 1 <= button <= 32 && at.x.finite() && at.y.finite() && config.capabilities & 8
            != 0,
        verdict(
            config,
            mode,
            Event::Button { button, action: Action::Repeat, position: at },
        ) is Err,
        verdict(config, mode, Event::Scroll { x, y, unit, position: at }) is Ok <==> x.finite()
            && y.finite() && on_surface(config.geometry, at) && config.capabilities & 16 != 0,
        at.revision != config.geometry.revision
            ==> verdict(config, mode, Event::Motion(at)) == Err::<
            (),
            Error,
        >(Error::Stale),
{
    let zero = Binary64 { bits: 0 };
    comparisons_follow_the_bits(at.x, zero);
    comparisons_follow_the_bits(at.y, zero);
    comparisons_follow_the_bits(at.x, config.geometry.width);
    comparisons_follow_the_bits(at.y, config.geometry.height);
    comparisons_follow_the_bits(zero, config.geometry.width);
    comparisons_follow_the_bits(zero, config.geometry.height);
    comparisons_follow_the_bits(config.geometry.width, zero);
    comparisons_follow_the_bits(config.geometry.height, zero);
}

/// A surface is valid exactly where it has a revision and both extents are finite and above zero.
pub proof fn valid_surfaces_have_an_extent(geometry: Geometry)
    ensures
        geometry.spec_valid() <==> geometry.revision != 0 && 0 < geometry.width.bits
            && geometry.width.bits < 0x7ff0_0000_0000_0000 && 0 < geometry.height.bits
            && geometry.height.bits < 0x7ff0_0000_0000_0000,
{
    let zero = Binary64 { bits: 0 };
    comparisons_follow_the_bits(zero, geometry.width);
    comparisons_follow_the_bits(zero, geometry.height);
    comparisons_follow_the_bits(geometry.width, zero);
    comparisons_follow_the_bits(geometry.height, zero);
}

/// A configuration is taken exactly where it offers a mode it can have, capabilities that exist, and
/// limits within the fixed bounds, on a valid surface.
pub proof fn configurations_stay_within_the_bounds(config: Config)
    ensures
        super::state::config_allowed(config) <==> {
            &&& 1 <= config.modes <= 7
            &&& config.capabilities <= 31
            &&& 1 <= config.max_events <= 65536
            &&& 96 <= config.max_bytes <= 16777216
            &&& 1 <= config.max_text_bytes <= 16384
            &&& 100_000_000 <= config.idle_timeout < 3_601_000_000_000
            &&& config.geometry.spec_valid()
        },
{
}

/// A cleanup that is owed already is widened by what is asked after it and never narrowed: one of
/// everything stays one, one that ends the controller stays so and keeps its first reason, and any
/// other takes the newest.
pub proof fn owed_cleanups_are_only_widened(session: Session, id: u64, geometry: Geometry)
    requires
        session.active matches Some(holder) && holder.id == id && holder.mailbox.len()
            + session.queue.len() <= session.config.max_events * 2 + 4,
        session.flight matches Some(flight) ==> !flight.end,
        session.barrier is Some,
        geometry.spec_valid(),
        geometry.revision > session.config.geometry.revision,
    ensures
        ({
            let owed = session.barrier->0;
            let reset = session.reset(id).0;
            let close = session.close(id);
            let moved = session.set_geometry(geometry).0;
            &&& reset.barrier matches Some(barrier) && {
                &&& barrier.scope == Scope::All
                &&& barrier.end == owed.end
                &&& barrier.reason == (if owed.end {
                    owed.reason
                } else {
                    Reason::Focus
                })
            }
            &&& close.barrier matches Some(barrier) && {
                &&& barrier.scope == Scope::All
                &&& barrier.end
                &&& barrier.reason == (if owed.end {
                    owed.reason
                } else {
                    Reason::Disconnect
                })
            }
            &&& moved.barrier matches Some(barrier) && {
                &&& barrier.scope == owed.scope
                &&& barrier.end == owed.end
                &&& barrier.reason == (if owed.end {
                    owed.reason
                } else {
                    Reason::Geometry
                })
            }
        }),
{
    lemma_cancel_raises(session, Scope::All, Reason::Focus, false);
    lemma_cancel_raises(session, Scope::All, Reason::Disconnect, true);
    let moved = Session { config: super::model::Config { geometry, ..session.config }, ..session };
    lemma_cancel_raises(moved, Scope::Pointer, Reason::Geometry, false);
}

/// With room for every answer, a cancellation leaves the cleanup that it raises.
proof fn lemma_cancel_raises(session: Session, scope: Scope, reason: Reason, end: bool)
    requires
        session.active matches Some(holder) && holder.mailbox.len() + session.queue.len()
            <= session.mailbox_limit(),
        session.flight matches Some(flight) ==> !flight.end,
    ensures
        session.cancel(scope, reason, end).barrier == Some(
            session.raised_barrier(scope, reason, end),
        ),
{
    let barrier = session.raised_barrier(scope, reason, end);
    let raised = Session { barrier: Some(barrier), ..session };
    super::laws::lemma_reject_queued_in_order(raised, barrier.scope, Seq::empty());
}

/// Whoever detaches is gone for good: it asks for the end, and nothing is kept for it to poll, now
/// or when the end has come.
pub proof fn detached_controllers_are_forgotten(session: Session, id: u64, now: u128)
    requires
        session.inv(),
        session.countable(),
        session.config.idle_timeout > 0,
        session.flight is None,
        session.barrier is None,
        !silent(session, now),
        session.active matches Some(holder) ==> holder.mailbox.len() + session.queue.len()
            < session.config.max_events * 2 + 4,
    ensures
        !session.held_by(id) ==> {
            let after = session.detach(id);
            &&& after.poll(id).1 is None
            &&& after.active == session.active
            &&& after.queue == session.queue
        },
        session.held_by(id) ==> {
            let asked = session.detach(id);
            let (cleaning, given) = asked.next(now);
            let (done, result) = cleaning.complete((given->0).id, Outcome::Executed);
            &&& given matches Some(work) && work.operation == (Operation::Cleanup {
                scope: Scope::All,
                reason: Reason::Disconnect,
            })
            &&& result is Ok
            &&& done.active is None
            &&& done.departed == session.departed
        },
{
    if session.held_by(id) {
        let holder = session.active->0;
        super::laws::cancellation_answers_in_order(session, Scope::All, Reason::Disconnect, true);
        let barrier = session.raised_barrier(Scope::All, Reason::Disconnect, true);
        let raised = Session { barrier: Some(barrier), ..session };
        super::laws::lemma_reject_queued_in_order(raised, Scope::All, Seq::empty());
        lemma_all_rejected(session.queue);
        let asked = session.detach(id);
        assert((asked.active->0).mailbox.len() <= holder.mailbox.len() + session.queue.len());
        assert(asked.expire(now) == asked);
    }
}

} // verus!
