//! What holds of an input session across calls.

use super::model::{Error, Event, Mode, Operation, Outcome, Reason, Scope, Status, Work};
use super::state::{cancelled_by, elapsed, rejection, Holder, Session};
use super::upkeep::{lemma_expire, lemma_expire_keeps, lemma_next, lemma_reject_queued_keeps};
use vstd::prelude::*;

verus! {

/// While an item is in flight the executor gets nothing else, and the item stays.
pub proof fn one_item_in_flight(session: Session, now: u128)
    requires
        session.inv(),
        session.flight is Some,
    ensures
        session.next(now).1 is None,
        session.next(now).0.flight == session.flight,
{
    lemma_expire_keeps(session, now);
}

/// The executor gets events in the order of submission: what `next` hands out was
/// submitted before everything that stays queued.
pub proof fn events_leave_in_order(session: Session, now: u128)
    requires
        session.inv(),
        session.countable(),
    ensures
        session.next(now).1 matches Some(work) ==> {
            &&& session.next(now).0.flight matches Some(flight) && flight.work == work
            &&& work.operation is Event ==> forall|i: int|
                0 <= i < session.next(now).0.queue.len() ==> work.sequence < (
                #[trigger] session.next(now).0.queue[i]).sequence
        },
{
    lemma_next(session, now);
    lemma_expire_keeps(session, now);
    lemma_expire(session, now);
    let fresh = session.expire(now);
    if fresh.flight is None && fresh.barrier is None {
        lemma_advance_flies(fresh);
    }
}

proof fn lemma_advance_flies(session: Session)
    requires
        session.flight is None,
    ensures
        session.advance().1 matches Some(work) ==> {
            session.advance().0.flight matches Some(flight) && flight.work == work
        },
    decreases session.queue.len(),
{
    if session.queue.len() > 0 {
        let work = session.queue[0];
        let rest = Session { queue: session.queue.drop_first(), ..session };
        match session.bind(work) {
            Ok(Some(_)) => {},
            Ok(None) => lemma_advance_flies(
                rest.deliver(
                    Status::Completed { sequence: work.sequence, outcome: Outcome::Executed },
                ),
            ),
            Err(error) => lemma_advance_flies(
                rest.deliver(Status::Rejected { sequence: work.sequence, error }),
            ),
        }
    }
}

/// The statuses that a cancellation owes for a queue.
pub open spec fn rejections(scope: Scope, queue: Seq<Work>) -> Seq<Status> {
    queue.filter(|work: Work| cancelled_by(scope, work)).map_values(|work: Work| rejection(work))
}

proof fn lemma_filter_first(queue: Seq<Work>, keep: spec_fn(Work) -> bool)
    requires
        queue.len() > 0,
    ensures
        queue.filter(keep) == (if keep(queue[0]) {
            seq![queue[0]]
        } else {
            Seq::empty()
        }) + queue.drop_first().filter(keep),
    decreases queue.len(),
{
    reveal(Seq::filter);
    if queue.len() > 1 {
        lemma_filter_first(queue.drop_last(), keep);
        assert(queue.drop_last().drop_first() =~= queue.drop_first().drop_last());
        assert(queue.drop_first().last() == queue.last());
    } else {
        assert(queue.drop_first() =~= Seq::empty());
        assert(queue.drop_last() =~= Seq::empty());
    }
    assert(queue.filter(keep) =~= (if keep(queue[0]) {
        seq![queue[0]]
    } else {
        Seq::empty()
    }) + queue.drop_first().filter(keep));
}

pub proof fn lemma_reject_queued_in_order(session: Session, scope: Scope, kept: Seq<Work>)
    requires
        session.active matches Some(holder) && holder.mailbox.len() + session.queue.len()
            <= session.mailbox_limit(),
    ensures
        session.reject_queued(scope, kept) == (Session {
            active: Some(
                Holder {
                    mailbox: (session.active->0).mailbox + rejections(scope, session.queue),
                    ..session.active->0
                },
            ),
            queue: kept + session.queue.filter(|work: Work| !cancelled_by(scope, work)),
            ..session
        }),
    decreases session.queue.len(),
{
    let drop = |work: Work| cancelled_by(scope, work);
    let keep = |work: Work| !cancelled_by(scope, work);
    let holder = session.active->0;
    let after = session.reject_queued(scope, kept);
    if session.queue.len() == 0 {
        reveal(Seq::filter);
        assert(kept + session.queue.filter(keep) =~= kept);
        assert(holder.mailbox + rejections(scope, session.queue) =~= holder.mailbox);
    } else {
        let work = session.queue[0];
        let rest = Session { queue: session.queue.drop_first(), ..session };
        lemma_filter_first(session.queue, drop);
        lemma_filter_first(session.queue, keep);
        if cancelled_by(scope, work) {
            lemma_reject_queued_in_order(rest.deliver(rejection(work)), scope, kept);
            assert(rejections(scope, session.queue) =~= seq![rejection(work)] + rejections(
                scope,
                rest.queue,
            ));
            assert(holder.mailbox.push(rejection(work)) + rejections(scope, rest.queue)
                =~= holder.mailbox + rejections(scope, session.queue));
            assert(session.queue.filter(keep) =~= rest.queue.filter(keep));
        } else {
            lemma_reject_queued_in_order(rest, scope, kept.push(work));
            assert(session.queue.filter(drop) =~= rest.queue.filter(drop));
            assert(kept.push(work) + rest.queue.filter(keep) =~= kept + session.queue.filter(keep));
        }
    }
}

/// A cancellation whose rejections fit in the mailbox answers every event that falls to
/// it, in queue order, and keeps all the others in theirs.
pub proof fn cancellation_answers_in_order(
    session: Session,
    scope: Scope,
    reason: Reason,
    end: bool,
)
    requires
        session.inv(),
        session.active matches Some(holder) && holder.mailbox.len() + session.queue.len()
            <= session.mailbox_limit(),
        session.flight matches Some(flight) ==> !flight.end,
    ensures
        ({
            let wide = session.raised_barrier(scope, reason, end).scope;
            let after = session.cancel(scope, reason, end);
            &&& after.queue == session.queue.filter(|work: Work| !cancelled_by(wide, work))
            &&& (after.active->0).mailbox == (session.active->0).mailbox + rejections(
                wide,
                session.queue,
            )
            &&& after.barrier == Some(session.raised_barrier(scope, reason, end))
        }),
{
    let barrier = session.raised_barrier(scope, reason, end);
    let raised = Session { barrier: Some(barrier), ..session };
    lemma_reject_queued_in_order(raised, barrier.scope, Seq::empty());
    let kept = session.queue.filter(|work: Work| !cancelled_by(barrier.scope, work));
    assert(Seq::<Work>::empty() + kept =~= kept);
}

proof fn lemma_reject_all_empties(session: Session)
    ensures
        session.reject_queued(Scope::All, Seq::empty()).queue.len() == 0,
    decreases session.queue.len(),
{
    if session.queue.len() > 0 {
        let work = session.queue[0];
        let rest = Session { queue: session.queue.drop_first(), ..session };
        lemma_reject_all_empties(rest.deliver(rejection(work)));
    }
}

/// Whether the holder's end has been decided on, or is being cleaned up for.
pub open spec fn ending(session: Session) -> bool {
    ||| session.barrier matches Some(barrier) && barrier.end
    ||| session.flight matches Some(flight) && flight.end
}

/// A cancellation that ends the controller is final: it leaves nothing queued that a
/// later `next` could hand out, and the end stays decided.
pub proof fn ending_empties_the_queue(session: Session, scope: Scope, reason: Reason)
    requires
        session.inv(),
        session.active is Some,
        session.flight matches Some(flight) ==> !flight.end,
    ensures
        session.cancel(scope, reason, true).queue.len() == 0,
        ending(session.cancel(scope, reason, true)),
        session.cancel(scope, reason, true).flight == session.flight,
{
    let barrier = session.raised_barrier(scope, reason, true);
    let raised = Session { barrier: Some(barrier), ..session };
    lemma_reject_all_empties(raised);
    lemma_reject_queued_keeps(raised, Scope::All, Seq::empty());
}

/// Once the end is decided, the executor gets no event any more, only cleanup.
pub proof fn ending_hands_out_only_cleanup(session: Session, now: u128)
    requires
        session.inv(),
        session.countable(),
        ending(session),
    ensures
        session.next(now).1 matches Some(work) ==> work.operation is Cleanup,
{
    let barrier = session.raised_barrier(Scope::All, Reason::Expired, true);
    lemma_reject_queued_keeps(
        Session { barrier: Some(barrier), ..session },
        Scope::All,
        Seq::empty(),
    );
}

/// Once the end is decided, no submission is taken.
pub proof fn ending_takes_no_submission(
    session: Session,
    id: u64,
    mode: Mode,
    now: u128,
    epoch: u64,
    sequence: u64,
    event: Event,
)
    requires
        session.inv(),
        ending(session),
        session.flight matches Some(flight) ==> (flight.end ==> flight.work.operation is Cleanup),
    ensures
        session.submit(id, mode, now, epoch, sequence, event).1 is Err,
{
    let barrier = session.raised_barrier(Scope::All, Reason::Expired, true);
    lemma_reject_queued_keeps(
        Session { barrier: Some(barrier), ..session },
        Scope::All,
        Seq::empty(),
    );
}

/// Expiring twice at one time is the same as expiring once.
pub proof fn expiry_is_idempotent(session: Session, now: u128)
    requires
        session.inv(),
    ensures
        session.expire(now).expire(now) == session.expire(now),
{
    let fresh = session.expire(now);
    lemma_expire_keeps(session, now);
    let raised = Session {
        barrier: Some(session.raised_barrier(Scope::All, Reason::Expired, true)),
        ..session
    };
    lemma_reject_all_empties(raised);
    lemma_reject_queued_all_barrier(raised);
    if session.active matches Some(holder) && elapsed(holder, now)
        >= session.config.idle_timeout {
        if session.flight matches Some(flight) && flight.end {
        } else {
            assert(fresh.queue =~= Seq::empty());
            assert(fresh.expire(now) =~= fresh);
        }
    }
}

proof fn lemma_reject_queued_all_barrier(session: Session)
    requires
        session.barrier matches Some(barrier) && barrier.end && barrier.scope == Scope::All,
    ensures
        session.reject_queued(Scope::All, Seq::empty()).barrier matches Some(barrier)
            && barrier.end && barrier.scope == Scope::All,
    decreases session.queue.len(),
{
    if session.queue.len() > 0 {
        let work = session.queue[0];
        let rest = Session { queue: session.queue.drop_first(), ..session };
        lemma_reject_queued_all_barrier(rest.deliver(rejection(work)));
    }
}

/// A sequence number counts once: whatever the first answer was, the holder's second
/// attempt with the same or a smaller number is invalid.
pub proof fn sequences_count_once(
    session: Session,
    id: u64,
    mode: Mode,
    now: u128,
    epoch: u64,
    sequence: u64,
    event: Event,
    later: u128,
    epoch2: u64,
    sequence2: u64,
    event2: Event,
)
    requires
        session.inv(),
        session.countable(),
        session.held_by(id),
        sequence2 <= sequence,
    ensures
        session.submit(id, mode, now, epoch, sequence, event).0.submit(
            id,
            mode,
            later,
            epoch2,
            sequence2,
            event2,
        ).1 == Err::<(), Error>(Error::Invalid),
{
    lemma_expire_keeps(session, now);
    let fresh = session.expire(now);
    let first = session.submit(id, mode, now, epoch, sequence, event).0;
    let holder = fresh.active->0;
    let counted = Session { active: Some(Holder { last_sequence: sequence, ..holder }), ..fresh };
    lemma_reject_queued_keeps(
        Session {
            barrier: Some(counted.raised_barrier(Scope::All, Reason::Overflow, true)),
            ..counted
        },
        Scope::All,
        Seq::empty(),
    );
    assert(first.held_by(id) && (first.active->0).last_sequence >= sequence);
    lemma_expire_keeps(first, later);
}

/// A submission for another epoch than the current one is stale.
pub proof fn other_epochs_are_stale(
    session: Session,
    id: u64,
    mode: Mode,
    now: u128,
    epoch: u64,
    sequence: u64,
    event: Event,
)
    requires
        session.inv(),
        session.held_by(id),
        sequence > (session.active->0).last_sequence,
        epoch != (session.active->0).epoch,
    ensures
        session.submit(id, mode, now, epoch, sequence, event).1 == Err::<(), Error>(Error::Stale),
        session.submit(id, mode, now, epoch, sequence, event).0.queue == session.expire(now).queue,
{
    lemma_expire_keeps(session, now);
}

/// The work that a submission becomes.
pub open spec fn submitted_work(
    session: Session,
    id: u64,
    mode: Mode,
    epoch: u64,
    sequence: u64,
    event: Event,
) -> Work {
    Work {
        mode,
        id: (session.next_work + 1) as u64,
        controller: id,
        epoch,
        sequence,
        operation: Operation::Event(event),
    }
}

/// An accepted event reaches the executor next if nothing is before it: as it was
/// submitted, but for a key that an earlier press bound.
pub proof fn accepted_events_reach_the_executor(
    session: Session,
    id: u64,
    mode: Mode,
    now: u128,
    epoch: u64,
    sequence: u64,
    event: Event,
    bound: Work,
)
    requires
        session.inv(),
        session.countable(),
        session.queue.len() == 0,
        session.flight is None,
        session.submit(id, mode, now, epoch, sequence, event).1 is Ok,
        session.bind(submitted_work(session, id, mode, epoch, sequence, event)) == Ok::<
            Option<Work>,
            Error,
        >(Some(bound)),
    ensures
        session.submit(id, mode, now, epoch, sequence, event).0.next(now).1 == Some(bound),
        event !is Key ==> bound.operation == Operation::Event(event),
{
    lemma_expire_keeps(session, now);
    lemma_expire(session, now);
    let first = session.submit(id, mode, now, epoch, sequence, event).0;
    let raised = Session {
        barrier: Some(session.raised_barrier(Scope::All, Reason::Expired, true)),
        ..session
    };
    lemma_reject_queued_keeps(raised, Scope::All, Seq::empty());
    assert(elapsed(session.active->0, now) < session.config.idle_timeout);
    assert(first.expire(now) == first);
    assert(first.queue[0] == submitted_work(session, id, mode, epoch, sequence, event));
    assert(first.bind(first.queue[0]) == session.bind(first.queue[0]));
}

/// A cleanup that ends the controller and succeeds leaves the target to the next one.
pub proof fn clean_end_frees_the_target(session: Session, id: u64)
    requires
        session.inv(),
        session.flight matches Some(flight) && flight.end && flight.work.id == id
            && flight.work.operation is Cleanup,
    ensures
        session.complete(id, Outcome::Executed).1 is Ok,
        ({
            let after = session.complete(id, Outcome::Executed).0;
            &&& after.active is None
            &&& after.flight is None
            &&& after.barrier is None
            &&& after.queue.len() == 0
            &&& !after.failed
            &&& forall|mode: Mode, now: u128|
                after.next_controller < u64::MAX && after.config.modes & mode.spec_bit() != 0
                    ==> (#[trigger] after.admit_controller(mode, now)).1 is Ok
        }),
{
}

/// A cleanup that did not succeed closes the target to every controller until the host
/// resolves it.
pub proof fn failed_cleanup_closes_the_target(
    session: Session,
    id: u64,
    outcome: Outcome,
    mode: Mode,
    now: u128,
)
    requires
        session.inv(),
        session.flight matches Some(flight) && flight.work.id == id
            && flight.work.operation is Cleanup,
        outcome != Outcome::Executed,
    ensures
        session.complete(id, outcome).1 == Err::<(), Error>(Error::CleanupFailed),
        session.complete(id, outcome).0.failed,
        session.complete(id, outcome).0.admit_controller(mode, now).1 == Err::<u64, Error>(
            Error::CleanupFailed,
        ),
{
}

/// A target that somebody holds is busy for everybody else, and nothing changes for the
/// holder.
pub proof fn only_one_holder(session: Session, mode: Mode, now: u128)
    requires
        session.inv(),
        session.active is Some,
    ensures
        session.admit_controller(mode, now) == (session, Err::<u64, Error>(Error::Busy)),
{
}

/// A controller that does not hold the target changes nothing but its own mailbox.
pub proof fn strangers_change_nothing(session: Session, id: u64)
    requires
        session.inv(),
        !session.held_by(id),
    ensures
        session.reset(id) == (session, Err::<(), Error>(Error::Closed)),
        session.close(id) == session,
        session.poll(id).0 == (Session { departed: session.poll(id).0.departed, ..session }),
{
}

/// A cleanup that does not end the controller starts a new epoch with nothing of its
/// scope held down, and the kept queue moves to that epoch.
pub proof fn reset_starts_an_epoch(session: Session, id: u64)
    requires
        session.inv(),
        session.countable(),
        session.barrier is None,
        session.flight matches Some(flight) && flight.work.id == id && !flight.end
            && flight.work.operation is Cleanup,
    ensures
        ({
            let after = session.complete(id, Outcome::Executed).0;
            let holder = session.active->0;
            &&& (after.active->0).epoch == holder.epoch + 1
            &&& (after.active->0).buttons == Set::<u32>::empty()
            &&& ((session.flight->0).work.operation == (Operation::Cleanup {
                scope: Scope::All,
                reason: (session.flight->0).work.operation->reason,
            }) ==> (after.active->0).keys == Map::<u64, super::model::Key>::empty())
            &&& holder.mailbox.len() < session.mailbox_limit() ==> {
                &&& after.queue.len() == session.queue.len()
                &&& forall|i: int|
                    0 <= i < after.queue.len() ==> (#[trigger] after.queue[i])
                        == super::state::with_epoch(session.queue[i], (holder.epoch + 1) as u64)
            }
        }),
{
}

} // verus!
