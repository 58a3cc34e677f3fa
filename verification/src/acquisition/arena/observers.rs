//! What watching over consumers and carrying replacements on comes to.

use super::claims::{ClaimMap, ClaimPage};
use super::cleanup::{
    Observation, ObservationState, ProcessExit, Question, ReleaseNotification, ReleaseTimeline,
};
use super::consumer::ArenaConsumer;
use super::holding::ConsumerState;
use super::process::{check_process_id, exited, exited_event, Polled, QueueEvent};
use super::producer::observer::ObserverStep;
use super::producer::reconfiguration::ReconfigurationStatus;
use super::producer::ArenaProducer;
use super::state::ProducerState;
use super::ArenaError;
use crate::acquisition::promises::bytes_charged;
use crate::acquisition::IncarnationId;
use vstd::prelude::*;

verus! {

/// An observer whose wakes cannot be taken ends, says why, and closes the page without giving a slot
/// back. Any other ends exactly when nothing is left on the page; until then it sleeps, and a
/// deadline wakes it only while nothing has failed.
pub proof fn observers_end_with_their_page<T: ReleaseTimeline>(
    observation: &mut ObservationState<T>,
    page: &mut ClaimMap,
    channel: Result<(), String>,
    exit: ProcessExit,
    now: u128,
    result: ObserverStep,
)
    requires
        call_ensures(ObservationState::<T>::work, (observation, page, channel, exit, now), result),
    ensures
        channel matches Err(reason) ==> {
            &&& result == ObserverStep::Ended
            &&& final(observation)@.failure == Some(reason@)
            &&& final(observation)@.notification_failed
            &&& final(page)@.active == 0
            &&& final(page)@.slots == old(page)@.slots
            &&& final(page)@.pending == old(page)@.pending
            &&& final(page)@.mappings == old(page)@.mappings
        },
        channel is Ok ==> {
            let left = final(page)@;
            let claiming = exists|i: int|
                0 <= i < left.slots.len() && (#[trigger] left.slots[i]) != 0;
            let mapped = exists|i: int|
                0 <= i < left.mappings.len() && (#[trigger] left.mappings[i]) != 0;
            &&& result == ObserverStep::Ended <==> left.quiescent != 0 && !claiming && !mapped
            &&& result matches ObserverStep::Sleep { watching, deadline } ==> {
                &&& watching == final(observation)@.watched
                &&& deadline matches Some(time) ==> final(observation)@.deadline == Some(time)
                    && final(observation)@.failure is None && !final(observation)@.expired
                &&& final(observation)@.failure is None && final(observation)@.unresolved == 0
                    && !final(observation)@.expired ==> deadline == final(observation)@.deadline
            }
        },
{
}

/// A producer's observer of an incarnation that nobody knows ends at once, and no round changes
/// anything but the observed incarnation's page.
pub proof fn observers_touch_their_own_page<T: ReleaseTimeline>(
    producer: &mut ArenaProducer<T>,
    incarnation: IncarnationId,
    channel: Result<(), String>,
    exit: ProcessExit,
    now: u128,
    result: ObserverStep,
    other: u64,
)
    requires
        other != incarnation.0,
        call_ensures(ArenaProducer::<T>::work, (producer, incarnation, channel, exit, now), result),
    ensures
        !old(producer)@.cleanup.contains_key(incarnation.0) ==> result == ObserverStep::Ended
            && final(producer)@ == old(producer)@,
        final(producer)@.pages.claims[other] == old(producer)@.pages.claims[other],
        final(producer)@.cleanup[other] == old(producer)@.cleanup[other],
        final(producer)@.pages.resources == old(producer)@.pages.resources,
        final(producer)@.pages.control == old(producer)@.pages.control,
        final(producer)@.accounts == old(producer)@.accounts,
        channel is Err && old(producer)@.cleanup.contains_key(incarnation.0) ==> result
            == ObserverStep::Ended && final(producer)@.pages.claims[incarnation.0].active == 0
            && final(producer)@.pages.claims[incarnation.0].slots == old(
            producer)@.pages.claims[incarnation.0].slots,
{
}

/// Only the notification that a slot was armed with wakes the observer of its incarnation, once, and
/// gives nothing back by itself.
pub proof fn producers_are_notified_once<T>(
    producer: &mut ArenaProducer<T>,
    incarnation: IncarnationId,
    notification: ReleaseNotification,
)
    requires
        call_ensures(ArenaProducer::<T>::notified, (producer, incarnation, notification), ()),
    ensures
        ({
            let id = incarnation.0;
            let was = old(producer)@.cleanup[id];
            let is = final(producer)@.cleanup[id];
            let slot = notification.slot as int;
            let meant = old(producer)@.cleanup.contains_key(id) && slot < was.armed.len() && (
            was.armed[slot] matches Some(armed) && armed.serial == notification.serial
                && !armed.fired);
            &&& meant ==> {
                &&& is.armed[slot] matches Some(armed) && armed.fired && armed.serial
                    == notification.serial
                &&& final(producer)@.pages.claims[id].release_wake
                &&& final(producer)@.pages.claims[id].slots == old(producer)@.pages.claims[id].slots
                &&& final(producer)@.pages.claims[id].pending == old(
                    producer)@.pages.claims[id].pending
            }
            &&& !meant ==> final(producer)@ == old(producer)@
        }),
{
}

/// A replacement that waits takes external storage only where its bytes are there beside everything
/// that is charged; it is then installed as it was begun, at its actual size, and the storage is
/// handed back with it. What is refused keeps the replacement waiting.
pub proof fn external_storage_is_installed_as_begun<T, A>(
    state: ProducerState<T>,
    after: ProducerState<T>,
    storage: Result<(A, u64), ArenaError>,
    result: Result<(ReconfigurationStatus, Option<A>), ArenaError>,
)
    requires
        state.inv(),
        state.advances(after, storage, result),
        state.pending_layout is Some,
    ensures
        ({
            let layout = state.pending_layout->0;
            let bound = (state.accounts.pending->0).upper_bound;
            let room = state.accounts.limits.memory_budget - bytes_charged(state.accounts);
            &&& bound > room ==> after == state && (result matches Ok(
                (ReconfigurationStatus::PausedCapacity { requested, available }, None),
            ) && requested == bound && available == room)
            &&& result matches Ok((ReconfigurationStatus::Ready { generation }, given)) ==> {
                &&& bound <= room
                &&& storage matches Ok((external, bytes)) && {
                    &&& given == Some(external)
                    &&& layout.len + bytes <= bound
                    &&& after.accounts.allocations[generation] == layout.len + bytes
                }
                &&& after.current == Some(generation)
                &&& after.pages.control.configuration == generation
                &&& after.pages.resources[generation].layout == layout
                &&& after.pending_layout is None
                &&& after.pages.claims == state.pages.claims
            }
            &&& result is Err ==> after.pending_layout == state.pending_layout && after.current
                == state.current && after.pages == state.pages
            &&& bound <= room && state.accounts.next_allocation < u64::MAX ==> {
                &&& storage matches Err(error) ==> result == Err::<
                    (ReconfigurationStatus, Option<A>),
                    ArenaError,
                >(error)
                &&& storage matches Ok((_, bytes)) ==> layout.len + bytes <= bound && layout.len
                    + bytes > 0
                        ==> (result matches Ok((ReconfigurationStatus::Ready { .. }, Some(_))))
            }
        }),
{
}

/// A process is watched by a number that the system can have given it, and it has exited exactly
/// where the system says so of it.
pub proof fn exits_are_seen_as_reported(
    pid: u32,
    signed: bool,
    checked: Result<(), ArenaError>,
    polled: Polled,
    seen: Result<bool, ArenaError>,
    event: Option<QueueEvent>,
    told: Result<bool, ArenaError>,
)
    requires
        call_ensures(check_process_id, (pid, signed), checked),
        call_ensures(exited, (polled,), seen),
        call_ensures(exited_event, (event, pid), told),
    ensures
        checked is Ok <==> pid > 0 && (signed ==> pid <= 0x7fff_ffff),
        seen is Err <==> polled.error || polled.invalid,
        seen matches Ok(gone) ==> (gone <==> polled.readable || polled.hung_up),
        told matches Ok(gone) ==> (gone <==> event is Some),
        told is Err <==> (event matches Some(e) && (!e.process || e.ident != pid || !e.exit)),
{
}

/// A watch that fails ends the watching and leaves everything claimed: the page is closed, recovery
/// is needed for that reason, and no look at the process gives anything back any more.
pub proof fn failed_watches_give_nothing_back<T>(
    observation: Observation<T>,
    page: ClaimPage,
    reason: String,
    later: ProcessExit,
)
    requires
        observation.watched,
        !page.drained(),
    ensures
        ({
            let (after, left) = observation.saw_process(page, ProcessExit::Failed(reason));
            &&& !after.watched
            &&& after.notification_failed
            &&& after.failure == Some(reason@)
            &&& left.active == 0
            &&& left.slots == page.slots
            &&& left.pending == page.pending
            &&& left.mappings == page.mappings
            &&& after.failure_reason(left) == Some(reason@)
            &&& after.saw_process(left, later) == (after, left)
        }),
{
    let left = observation.saw_process(page, ProcessExit::Failed(reason)).1;
    if left.drained() {
        assert(left.mappings == page.mappings && left.slots == page.slots);
        assert(!page.mapped()) by {
            if page.mapped() {
                let i = choose|i: int| 0 <= i < page.mappings.len()
                    && #[trigger] page.mappings[i] != 0;
                assert(left.mappings[i] != 0);
            }
        }
        assert(!page.claiming()) by {
            if page.claiming() {
                let i = choose|i: int| 0 <= i < page.slots.len() && #[trigger] page.slots[i] != 0;
                assert(left.slots[i] != 0);
            }
        }
    }
}

/// A producer asks the timeline that a deferred release names, about the value that it waits for, and
/// asks to be told only where it has not asked yet, under a number that it did not use last.
pub proof fn timelines_are_asked_about_their_value<T>(
    observation: &ObservationState<T>,
    page: &ClaimMap,
    slot: usize,
    result: Option<Question>,
)
    requires
        call_ensures(ObservationState::<T>::question, (observation, page, slot), result),
        slot < page@.slots.len(),
        observation@.timelines.len() <= usize::MAX,
    ensures
        ({
            let waits = page@.pending[slot as int] == 1 || page@.pending[slot as int] == 2;
            let id = page@.release_ids[slot as int];
            &&& result is Some <==> waits && 1 <= id <= observation@.timelines.len()
            &&& result matches Some(question) ==> {
                &&& question.timeline == id - 1
                &&& question.value == page@.release_values[slot as int]
                &&& question.arming is None <==> (observation@.armed[slot as int] matches Some(armed)
                    && !armed.fired)
                &&& question.arming matches Some(notify) ==> notify.slot == slot && notify.serial
                    != observation@.serial
            }
        }),
{
}

/// A consumer asks the source that a deferred release was bound to, about the value that it waits
/// for, and asks to be told only where it has not asked yet.
pub proof fn sources_are_asked_about_their_value<T>(
    consumer: &ArenaConsumer<T>,
    slot: usize,
    result: Option<Question>,
)
    requires
        call_ensures(ArenaConsumer::<T>::question, (consumer, slot), result),
        slot < consumer@.pending.len(),
    ensures
        result is Some <==> consumer@.pending[slot as int] is Some,
        result matches Some(question) ==> {
            let waits = consumer@.pending[slot as int]->0;
            &&& question.timeline == waits.timeline
            &&& question.value == waits.value
            &&& question.arming is None <==> (consumer@.armed[slot as int] matches Some(armed)
                && !armed.fired)
            &&& question.arming matches Some(notify) ==> notify.slot == slot && notify.serial
                != consumer@.serial
        },
{
}

/// A consumer needs recovery only while something of it waits for a completion: for the failure that
/// was seen, or because its time to drain is over, and for nothing else.
pub proof fn consumers_say_why_they_wait<T>(
    consumer: &ArenaConsumer<T>,
    now: u128,
    result: Option<String>,
)
    requires
        consumer.wf(),
        call_ensures(ArenaConsumer::<T>::failure_reason, (consumer, now), result),
    ensures
        ({
            let waiting = exists|i: int|
                0 <= i < consumer@.pending.len() && (#[trigger] consumer@.pending[i]) is Some;
            let late = consumer@.deadline matches Some(deadline) && now >= deadline;
            &&& result is Some <==> waiting && (consumer@.failure is Some || late)
            &&& result matches Some(reason) ==> (consumer@.failure matches Some(seen) ==> reason@
                == seen)
        }),
{
    consumer.state_is_consistent();
}

/// The time to drain runs from the moment that the first owner goes, for as long as the grant says,
/// and is not set again; acquisition is over from then on, and nothing is given back by it.
pub proof fn draining_has_one_deadline<T>(
    consumer: ConsumerState<T>,
    page: ClaimPage,
    now: u128,
    later: u128,
)
    ensures
        ({
            let (after, left) = consumer.draining(page, now);
            &&& consumer.deadline is Some ==> after.deadline == consumer.deadline
            &&& consumer.deadline is None && now + consumer.drain_timeout <= u128::MAX
                ==> after.deadline == Some((now + consumer.drain_timeout) as u128)
            &&& after.deadline is Some ==> after.draining(left, later).0.deadline == after.deadline
            &&& after.held == consumer.held
            &&& after.pending == consumer.pending
            &&& after.installed == consumer.installed
            &&& after.wake
            &&& left.active == 0
            &&& left.slots == page.slots
            &&& left.pending == page.pending
            &&& left.mappings == page.mappings
        }),
{
}

/// An incarnation needs recovery only while something is left on its page: for the failure that was
/// seen, for claims that an exit left without evidence, or because its time to drain is over.
pub proof fn incarnations_say_why_they_wait<T>(
    observation: &ObservationState<T>,
    page: &ClaimMap,
    result: Option<String>,
)
    requires
        page.wf(),
        call_ensures(ObservationState::<T>::failure_reason, (observation, page), result),
    ensures
        ({
            let left = page@;
            let claiming = exists|i: int|
                0 <= i < left.slots.len() && (#[trigger] left.slots[i]) != 0;
            let mapped = exists|i: int|
                0 <= i < left.mappings.len() && (#[trigger] left.mappings[i]) != 0;
            let waits = left.quiescent == 0 || claiming || mapped;
            &&& result is Some <==> waits && (observation@.failure is Some
                || observation@.unresolved
                != 0 || observation@.expired)
            &&& result matches Some(reason) ==> (observation@.failure matches Some(seen) ==> reason@
                == seen)
        }),
{
}

} // verus!
