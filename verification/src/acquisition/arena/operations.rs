//! What the operations themselves come to when they are called, one after another.

use super::claims::ClaimPage;
use super::cleanup::{
    ReleaseNotification, ReleaseTimeline, ReleaseTimelineRegistration, TimelineAnswer,
};
use super::consumer::retirement::{
    ConsumerReleaseTimeline, RejectedDeferredRelease, RetirementStep,
};
use super::consumer::waiting::{Cancellation, Wait};
use super::consumer::{AcquireOutcome, ArenaConsumer, FrameLease};
use super::grants::{
    ConfigurationGrant, ConfigurationTerms, ConsumerGrant, RemoteConsumerGrant,
};
use super::holding::{Acquisition, ConsumerState};
use super::lifecycle::{
    admitted_consumers_get_what_they_asked_for, installed_storage_replaces_the_old,
    offers_name_the_installed_storage,
};
use super::pages::ArenaPages;
use super::producer::attachment::{grant_view, remote_view};
use super::producer::reconfiguration::{
    offer_view, ConfigurationInstall, ReconfigurationStatus,
};
use super::producer::ArenaProducer;
use super::promises::{
    can_acquire, newest_frames_are_newer, next_frames_follow, open_on,
    published_metadata_is_delivered, same_metadata,
};
use super::replacement::replacements_have_the_room_asked_for;
use super::state::{Offer, ProducerState};
use super::turns::lemma_cleaned;
use super::wait::{WaitEvents, WaitInterest, WaitOutcome};
use super::{ArenaError, FrameDescriptor, PublishOutcome, ScopeId};
use crate::acquisition::IncarnationId;
use vstd::prelude::*;

verus! {

/// Publication that succeeds gives the next cursor; whoever can acquire then finds, as the newest
/// frame, the bytes that were published and the metadata that came with them, field by field.
pub proof fn publication_delivers_the_frame<T: ReleaseTimeline, U>(
    state: ProducerState<T>,
    left: ProducerState<T>,
    now: u128,
    descriptor: FrameDescriptor,
    bytes: Seq<u8>,
    result: Result<PublishOutcome, ArenaError>,
    consumer: ConsumerState<U>,
    after: u64,
)
    requires
        state.inv(),
        state.publishes_inline(left, now, descriptor, bytes, result),
        can_acquire(left, consumer),
        result matches Ok(PublishOutcome::Published { cursor }) && after < cursor,
    ensures
        result matches Ok(PublishOutcome::Published { cursor }) && {
            &&& cursor == state.cursor + 1
            &&& consumer.acquired_latest(left.pages, after).2 matches Acquisition::Frame(lease) && {
                &&& lease.descriptor.cursor == cursor
                &&& lease.descriptor.payload_len == bytes.len()
                &&& same_metadata(lease.descriptor, descriptor)
                &&& left.pages.resources[lease.mapping.generation].records[lease.index as int].payload
                    == bytes
            }
        },
{
    let offer = Offer::Inline(descriptor);
    let answers = choose|answers: Map<u64, Seq<TimelineAnswer>>|
        {
            &&& state.complete_look(now, answers)
            &&& (left, result) == (#[trigger] state.cleaned(now, answers)).published(
                offer,
                bytes,
            )
        };
    lemma_cleaned(state, now, answers);
    let cleaned = state.cleaned(now, answers);
    let id = consumer.incarnation.0;
    let g = cleaned.current->0;
    assert(cleaned.pages.resources.contains_key(g));
    super::upkeep::lemma_tried(cleaned, g, offer, cleaned.resources());
    assert(cleaned.pages.claims.contains_key(id));
    let slots = left.pages.claims[id].slots;
    let i = choose|i: int| 0 <= i < slots.len() && #[trigger] slots[i] == 0;
    assert(cleaned.pages.claims[id].slots[i] == 0);
    assert(can_acquire(cleaned, consumer));
    published_metadata_is_delivered(
        cleaned,
        consumer,
        descriptor,
        bytes,
        (result->Ok_0)->cursor,
        after,
    );
}

/// A call of `publish` that succeeds gives the next cursor; whoever can acquire then finds, as the
/// newest frame, the bytes that were published and the metadata that came with them, field by
/// field.
pub proof fn publishing_delivers_the_frame<T: ReleaseTimeline, U>(
    producer: &mut ArenaProducer<T>,
    now: u128,
    descriptor: FrameDescriptor,
    bytes: &[u8],
    result: Result<PublishOutcome, ArenaError>,
    consumer: ConsumerState<U>,
    after: u64,
)
    requires
        old(producer).wf(),
        call_ensures(ArenaProducer::<T>::publish, (producer, now, descriptor, bytes), result),
        can_acquire(final(producer)@, consumer),
        result matches Ok(PublishOutcome::Published { cursor }) && after < cursor,
    ensures
        result matches Ok(PublishOutcome::Published { cursor }) && {
            &&& cursor == old(producer)@.cursor + 1
            &&& consumer.acquired_latest(final(producer)@.pages,
                after).2 matches Acquisition::Frame(
                lease,
            ) && {
                &&& lease.descriptor.cursor == cursor
                &&& lease.descriptor.payload_len == bytes@.len()
                &&& same_metadata(lease.descriptor, descriptor)
                &&& final(producer)@.pages.resources[lease.mapping.generation].records[lease.index as int].payload
                    == bytes@
            }
        },
{
    old(producer).state_is_consistent();
    publication_delivers_the_frame(
        old(producer)@,
        final(producer)@,
        now,
        descriptor,
        bytes@,
        result,
        consumer,
        after,
    );
}

/// A call of `publish` on a closed arena is refused and changes nothing, and no payload is refused
/// as too large that the installed storage has room for.
pub proof fn publishing_is_refused_for_a_reason<T: ReleaseTimeline>(
    producer: &mut ArenaProducer<T>,
    now: u128,
    descriptor: FrameDescriptor,
    bytes: &[u8],
    result: Result<PublishOutcome, ArenaError>,
)
    requires
        old(producer).wf(),
        call_ensures(ArenaProducer::<T>::publish, (producer, now, descriptor, bytes), result),
    ensures
        old(producer)@.pages.control.terminal != 0 ==> result == Err::<PublishOutcome, ArenaError>(
            ArenaError::Closed,
        ) && final(producer)@ == old(producer)@,
        old(producer)@.pages.control.terminal == 0 ==> (result == Err::<PublishOutcome, ArenaError>(
            ArenaError::PayloadTooLarge,
        ) <==> (final(producer)@.current matches Some(g) && bytes@.len()
            > final(producer)@.pages.resources[g].layout.payload_capacity)),
        old(producer)@.pages.control.terminal == 0 && old(producer)@.pending_layout is Some
            ==> result == Ok::<PublishOutcome, ArenaError>(PublishOutcome::Dropped),
{
    old(producer).state_is_consistent();
    let state = old(producer)@;
    let offer = Offer::Inline(descriptor);
    if state.pages.control.terminal == 0 {
        let answers = choose|answers: Map<u64, Seq<TimelineAnswer>>|
            {
                &&& state.complete_look(now, answers)
                &&& (final(producer)@, result) == (#[trigger] state.cleaned(
                    now,
                    answers,
                )).published(offer, bytes@)
            };
        lemma_cleaned(state, now, answers);
        let cleaned = state.cleaned(now, answers);
        if cleaned.current is Some {
            assert(cleaned.pages.resources.contains_key(cleaned.current->0));
            super::upkeep::lemma_tried(
                cleaned,
                cleaned.current->0,
                offer,
                cleaned.resources(),
            );
        }
    }
}

/// A call of `acquire_latest` gives only a frame after the cursor that it was asked after, and the
/// newest one; where nothing newer was published it gives `Empty` and changes nothing.
pub proof fn acquiring_the_latest_gives_something_newer<T>(
    consumer: &mut ArenaConsumer<T>,
    pages: &mut ArenaPages,
    after: u64,
    result: Result<AcquireOutcome, ArenaError>,
)
    requires
        call_ensures(ArenaConsumer::<T>::acquire_latest, (consumer, pages, after), result),
    ensures
        result matches Ok(AcquireOutcome::Frame(lease)) ==> lease@.descriptor.cursor > after
            && lease@.descriptor.cursor == old(pages)@.control.latest,
        open_on(old(consumer)@, old(pages)@) && old(pages)@.control.latest <= after ==> {
            &&& result matches Ok(AcquireOutcome::Empty)
            &&& final(consumer)@ == old(consumer)@
            &&& final(pages)@ == old(pages)@
        },
        final(pages)@.resources == old(pages)@.resources,
        final(pages)@.control == old(pages)@.control,
{
    newest_frames_are_newer(old(consumer)@, old(pages)@, after);
}

/// A call of `acquire_next` gives only the frame right after the cursor that it was asked after, or
/// says which ones are gone.
pub proof fn acquiring_the_next_gives_what_follows<T>(
    consumer: &mut ArenaConsumer<T>,
    pages: &mut ArenaPages,
    after: u64,
    result: Result<AcquireOutcome, ArenaError>,
)
    requires
        call_ensures(ArenaConsumer::<T>::acquire_next, (consumer, pages, after), result),
    ensures
        result matches Ok(AcquireOutcome::Frame(lease)) ==> (after != 0 ==> lease@.descriptor.cursor
            == after + 1) && lease@.descriptor.cursor <= old(pages)@.control.latest,
        result matches Ok(AcquireOutcome::Gap { first, last }) ==> first == after + 1 && first
            <= last,
        open_on(old(consumer)@, old(pages)@) && old(pages)@.control.latest <= after ==> {
            &&& result matches Ok(AcquireOutcome::Empty)
            &&& final(consumer)@ == old(consumer)@
            &&& final(pages)@ == old(pages)@
        },
        final(pages)@.resources == old(pages)@.resources,
        final(pages)@.control == old(pages)@.control,
{
    next_frames_follow(old(consumer)@, old(pages)@, after);
}

/// A call of `acquire_exact` gives the frame with the cursor that was asked for and no other, and
/// there is no cursor zero.
pub proof fn acquiring_one_cursor_gives_that_one<T>(
    consumer: &mut ArenaConsumer<T>,
    pages: &mut ArenaPages,
    cursor: u64,
    result: Result<AcquireOutcome, ArenaError>,
)
    requires
        call_ensures(ArenaConsumer::<T>::acquire_exact, (consumer, pages, cursor), result),
    ensures
        result matches Ok(AcquireOutcome::Frame(lease)) ==> lease@.descriptor.cursor == cursor,
        result matches Ok(AcquireOutcome::Miss { cursor: missed }) ==> missed == cursor,
        cursor == 0 ==> result is Err,
        cursor != 0 && open_on(old(consumer)@, old(pages)@) && cursor > old(pages)@.control.latest
            ==> (result matches Ok(AcquireOutcome::Empty)),
        final(pages)@.resources == old(pages)@.resources,
{
}

/// What a lease reads is the payload of its resource, and what it describes is the descriptor that
/// it was acquired with.
pub proof fn leases_read_what_they_acquired(
    lease: &FrameLease,
    pages: &ArenaPages,
    bytes: &[u8],
    cursor: u64,
    descriptor: &FrameDescriptor,
)
    requires
        call_ensures(FrameLease::bytes, (lease, pages), bytes),
        call_ensures(FrameLease::cursor, (lease,), cursor),
        call_ensures(FrameLease::descriptor, (lease,), descriptor),
    ensures
        bytes@ == pages@.resources[lease@.mapping.generation].records[lease@.index as int].payload,
        cursor == lease@.descriptor.cursor,
        *descriptor == lease@.descriptor,
{
}

/// A call of `reconfigure_cpu` that is ready has installed storage with the room that was asked
/// for, under an identity that no storage had; the frames go on counting.
pub proof fn reconfiguring_installs_the_room_asked_for<T: ReleaseTimeline>(
    producer: &mut ArenaProducer<T>,
    payload_capacity: usize,
    now: u128,
    result: Result<ReconfigurationStatus, ArenaError>,
    bytes: Seq<u8>,
    descriptor: FrameDescriptor,
)
    requires
        old(producer).wf(),
        call_ensures(ArenaProducer::<T>::reconfigure_cpu, (producer, payload_capacity, now),
            result),
    ensures
        result matches Ok(ReconfigurationStatus::Ready { generation }) ==> {
            let after = final(producer)@;
            &&& after.current == Some(generation)
            &&& after.pages.control.configuration == generation
            &&& !old(producer)@.pages.resources.contains_key(generation)
            &&& after.pages.resources[generation].layout.payload_capacity == payload_capacity
            &&& after.pages.resources[generation].layout.resources == old(producer)@.resources()
            &&& after.pages.resources[generation].layout.history == old(producer)@.history()
            &&& after.cursor == old(producer)@.cursor
            &&& after.pages.control.first_cursor == old(producer)@.cursor + 1
            &&& bytes.len() <= payload_capacity && after.cursor < super::MAX_GENERATION
                ==> after.published(Offer::Inline(descriptor), bytes).1 is Ok
            &&& bytes.len() > payload_capacity ==> after.published(
                Offer::Inline(descriptor),
                bytes,
            ).1 is Err
        },
        result matches Ok(ReconfigurationStatus::PausedCapacity { .. })
            ==> final(producer)@.current is None && final(producer)@.pages.control.configuration
            == 0 && final(producer)@.pages.control.first_cursor == old(producer)@.cursor + 1
            && (final(producer)@.pending_layout matches Some(layout)
            && layout.payload_capacity == payload_capacity),
{
    old(producer).state_is_consistent();
    let state = old(producer)@;
    let after = final(producer)@;
    if result is Ok && result->Ok_0 is Ready {
        let generation = (result->Ok_0)->generation;
        replacements_have_the_room_asked_for(
            state,
            after,
            payload_capacity,
            now,
            generation,
            Offer::Inline(descriptor),
            bytes,
        );
        super::replacement::replacement_keeps_what_is_held(
            state,
            after,
            payload_capacity,
            now,
            generation,
        );
    } else if result is Ok {
        let (begun, started) = choose|begun: ProducerState<T>, started: Result<(), ArenaError>|
            {
                &&& #[trigger] state.begins(begun, payload_capacity, 0, false, started)
                &&& match started {
                    Err(error) => {
                        &&& result == Err::<ReconfigurationStatus, ArenaError>(error)
                        &&& after == begun
                    },
                    Ok(()) => exists|answers: Map<u64, Seq<TimelineAnswer>>|
                        {
                            &&& begun.complete_look(now, answers)
                            &&& (after, result) == (#[trigger] begun.cleaned(
                                now,
                                answers,
                            )).advanced()
                        },
                }
            };
        assert(state.begins(begun, payload_capacity, 0, false, Ok(())));
        super::replacement::pending_replacements_are_made_for_what_was_asked(
            state,
            begun,
            payload_capacity,
            0,
            false,
        );
    }
}

/// A call of `attach` that succeeds grants the holding that was asked for, on a page of its own
/// with that many free slots.
pub proof fn attaching_grants_the_holding<T: ReleaseTimeline>(
    producer: &mut ArenaProducer<T>,
    holding: u32,
    setup: Result<ScopeId, ArenaError>,
    now: u128,
    result: Result<ConsumerGrant, ArenaError>,
)
    requires
        old(producer).wf(),
        call_ensures(ArenaProducer::<T>::attach, (producer, holding, setup, now), result),
    ensures
        result matches Ok(grant) ==> {
            let id = grant@.incarnation.0;
            let page = final(producer)@.pages.claims[id];
            &&& grant@.frames == holding
            &&& grant@.recipient_pid == 0
            &&& Some(grant@.generation) == final(producer)@.current
            &&& grant@.layout == final(producer)@.pages.resources[grant@.generation].layout
            &&& final(producer)@.pages.claims.contains_key(id)
            &&& page.slots.len() == holding
            &&& page.active != 0
            &&& forall|i: int| 0 <= i < holding ==> (#[trigger] page.slots[i]) == 0
            &&& setup matches Ok(scope) && grant@.claim_scope == scope
        },
        old(producer)@.pages.control.terminal != 0 ==> result is Err,
        holding == 0 ==> result is Err,
        old(producer)@.pending_layout is Some ==> result is Err,
{
    old(producer).state_is_consistent();
    let state = old(producer)@;
    if state.pages.control.terminal == 0 {
        let answers = choose|answers: Map<u64, Seq<TimelineAnswer>>|
            {
                &&& state.complete_look(now, answers)
                &&& (#[trigger] state.cleaned(now, answers)).attaches(
                    final(producer)@,
                    holding,
                    0,
                    false,
                    setup,
                    grant_view(result),
                )
            };
        lemma_cleaned(state, now, answers);
        if result is Ok {
            admitted_consumers_get_what_they_asked_for(
                state.cleaned(now, answers),
                final(producer)@,
                holding,
                0,
                false,
                setup,
                (result->Ok_0)@,
            );
        }
    }
}

/// A call of `release` frees the slot of its lease and no other, while the consumer is there.
pub proof fn releasing_frees_the_slot<T: ReleaseTimeline>(
    consumer: &mut ArenaConsumer<T>,
    pages: &mut ArenaPages,
    lease: FrameLease,
    now: u128,
)
    requires
        old(consumer)@.alive,
        lease@.slot < old(pages)@.claims[old(consumer)@.incarnation.0].slots.len(),
        old(pages)@.claims[old(consumer)@.incarnation.0].pending.len()
            == old(pages)@.claims[old(consumer)@.incarnation.0].slots.len(),
        call_ensures(ArenaConsumer::<T>::release, (consumer, pages, lease, now), ()),
    ensures
        ({
            let id = old(consumer)@.incarnation.0;
            let was = old(pages)@.claims[id];
            let is = final(pages)@.claims[id];
            &&& is.slots == was.slots.update(lease@.slot as int, 0)
            &&& was.capacity_epoch < u64::MAX ==> is.capacity_epoch == was.capacity_epoch + 1
                && is.active == was.active
            &&& final(consumer)@.held == old(consumer)@.held.update(lease@.slot as int, None)
            &&& final(consumer)@.alive
            &&& final(pages)@.resources == old(pages)@.resources
            &&& final(pages)@.control == old(pages)@.control
        }),
{
}

/// A call of `defer_release` that succeeds keeps the slot, and the page says which timeline and
/// value it waits for; one that is refused hands the frame back and changes nothing.
pub proof fn deferring_keeps_the_slot<T: ReleaseTimeline>(
    consumer: &mut ArenaConsumer<T>,
    pages: &mut ArenaPages,
    frame: FrameLease,
    completion: &ConsumerReleaseTimeline,
    value: u64,
    now: u128,
    result: Result<(), RejectedDeferredRelease>,
)
    requires
        old(consumer)@.alive,
        frame@.slot < old(pages)@.claims[old(consumer)@.incarnation.0].slots.len(),
        old(pages)@.claims[old(consumer)@.incarnation.0].shaped(old(consumer)@.frames()),
        old(consumer)@.pending.len() == old(consumer)@.frames(),
        call_ensures(
            ArenaConsumer::<T>::defer_release,
            (consumer, pages, frame, completion, value, now),
            result,
        ),
    ensures
        ({
            let id = old(consumer)@.incarnation.0;
            let slot = frame@.slot as int;
            let was = old(pages)@.claims[id];
            let is = final(pages)@.claims[id];
            &&& is.slots == was.slots
            &&& result is Ok ==> {
                &&& is.pending[slot] == 1
                &&& is.release_ids[slot] == completion.registration.id
                &&& is.release_values[slot] == value
                &&& final(consumer)@.pending[slot] matches Some(waits) && waits.value == value
                    && waits.timeline == completion.index && waits.mapping == frame@.mapping
                &&& completion.registration.incarnation == id
            }
            &&& result matches Err(rejected) ==> {
                &&& rejected.frame == frame
                &&& final(consumer)@ == old(consumer)@
                &&& final(pages)@ == old(pages)@
            }
        }),
{
}

/// A call of `begin_wait` asks for closure and replacement in any case and for what the waiter
/// names, and its time is up the given time after now; `continue_wait` ends it for a reason and
/// then asks for nothing any more.
pub proof fn waiting_asks_and_ends<T>(
    consumer: &ArenaConsumer<T>,
    pages: &mut ArenaPages,
    observed: WaitEvents,
    interest: WaitInterest,
    timeout: Option<u128>,
    now: u128,
    begun: Result<Wait, ArenaError>,
)
    requires
        call_ensures(
            ArenaConsumer::<T>::begin_wait,
            (consumer, pages, observed, interest, timeout, now),
            begun,
        ),
    ensures
        begun matches Ok(wait) ==> {
            let page = final(pages)@.claims[consumer@.incarnation.0];
            &&& wait.observed == observed
            &&& wait.interest == interest
            &&& wait.deadline is None <==> timeout is None
            &&& timeout matches Some(time) ==> wait.deadline == Some((now + time) as u128) && now
                + time <= u128::MAX
            &&& page.wait_interest & 8 != 0
            &&& page.wait_interest & 4 != 0
            &&& interest.0 & 1 != 0 ==> page.wait_interest & 1 != 0
            &&& interest.0 & 2 != 0 ==> page.wait_interest & 2 != 0
            &&& page.slots == old(pages)@.claims[consumer@.incarnation.0].slots
        },
        timeout is None ==> begun is Ok,
        final(pages)@.resources == old(pages)@.resources,
{
    let w = interest.0;
    assert((w | 8 | 4) & 8 != 0 && (w | 8 | 4) & 4 != 0 && (w & 1 != 0 ==> (w | 8 | 4) & 1 != 0)
        && (
    w & 2 != 0 ==> (w | 8 | 4) & 2 != 0)) by (bit_vector);
}

/// A call of `continue_wait` ends a wait exactly where it was cancelled, something changed that it
/// waits for, or its time is up, in this order.
pub proof fn continued_waits_end_for_a_reason<T>(
    consumer: &ArenaConsumer<T>,
    pages: &mut ArenaPages,
    wait: &Wait,
    cancel: &Cancellation,
    now: u128,
    result: Option<WaitOutcome>,
)
    requires
        call_ensures(
            ArenaConsumer::<T>::continue_wait,
            (consumer, pages, wait, cancel, now),
            result,
        ),
    ensures
        ({
            let page = old(pages)@.claims[consumer@.incarnation.0];
            let control = old(pages)@.control;
            let closed = page.active == 0 || control.terminal != 0;
            &&& cancel.spec_cancelled() <==> result == Some(WaitOutcome::Cancelled)
            &&& !cancel.spec_cancelled() && (closed || control.epoch
                != wait.observed.reconfiguration_epoch) ==> (result matches Some(
                WaitOutcome::Changed(seen),
            ) && seen.closed == closed && seen.data_cursor == control.latest)
            &&& result matches Some(WaitOutcome::TimedOut) ==> (wait.deadline matches Some(deadline)
                && now >= deadline)
            &&& result is None ==> (wait.deadline matches Some(deadline) ==> now < deadline)
                && !closed
            &&& result is Some ==> final(pages)@.claims[consumer@.incarnation.0].wait_interest == 0
            &&& final(pages)@.claims[consumer@.incarnation.0].slots == page.slots
        }),
{
}

/// A call of `register_release_timeline` that succeeds registers the timeline last, under the next
/// identity, for that incarnation; the page names it.
pub proof fn registering_names_the_timeline<T>(
    producer: &mut ArenaProducer<T>,
    incarnation: IncarnationId,
    timeline: T,
    result: Result<ReleaseTimelineRegistration, ArenaError>,
)
    requires
        old(producer).wf(),
        call_ensures(
            ArenaProducer::<T>::register_release_timeline,
            (producer, incarnation, timeline),
            result,
        ),
    ensures
        result matches Ok(registration) ==> {
            let id = incarnation.0;
            let was = old(producer)@.cleanup[id].timelines;
            &&& registration.incarnation == id
            &&& registration.id == was.len() + 1
            &&& registration.scope == old(producer)@.pages.claims[id].scope
            &&& final(producer)@.cleanup[id].timelines == was.push(timeline)
            &&& final(producer)@.pages.claims[id].registered[was.len() as int] == registration.id
            &&& final(producer)@.pages.claims[id].slots == old(producer)@.pages.claims[id].slots
        },
        result is Err ==> final(producer)@ == old(producer)@,
        !old(producer)@.pages.claims.contains_key(incarnation.0) ==> result is Err,
{
    old(producer).state_is_consistent();
}

/// A call of `bind_release_timeline` that succeeds binds the source to the registration that the
/// page names, and a registration is not bound to another source afterwards.
pub proof fn binding_is_for_good<T>(
    consumer: &mut ArenaConsumer<T>,
    pages: &ArenaPages,
    registration: &ReleaseTimelineRegistration,
    identity: u64,
    source: T,
    result: Result<ConsumerReleaseTimeline, ArenaError>,
)
    requires
        old(consumer).wf(),
        old(consumer)@.frames() <= u32::MAX,
        call_ensures(
            ArenaConsumer::<T>::bind_release_timeline,
            (consumer, pages, registration, identity, source),
            result,
        ),
    ensures
        result matches Ok(binding) ==> {
            let index = registration.id - 1;
            &&& binding.registration == *registration
            &&& binding.index == index
            &&& registration.incarnation == old(consumer)@.incarnation.0
            &&& registration.scope == old(consumer)@.claim_scope
            &&& pages@.claims[old(consumer)@.incarnation.0].registered[index] == registration.id
            &&& final(consumer)@.bound[index] matches Some(bound) && bound.identity == identity
            &&& old(consumer)@.bound[index] is None ==> (
            final(consumer)@.bound[index]->0).timeline == source
            &&& old(consumer)@.bound[index] is Some
                ==> final(consumer)@.bound[index] == old(consumer)@.bound[index]
        },
        result is Err ==> final(consumer)@ == old(consumer)@,
{
    old(consumer).state_is_consistent();
}

/// A call of `close` on a producer ends acquisition for that incarnation, keeps what it holds, and
/// touches nobody else.
pub proof fn closing_an_incarnation_keeps_its_claims<T>(
    producer: &mut ArenaProducer<T>,
    incarnation: IncarnationId,
    result: Result<(), ArenaError>,
    other: u64,
)
    requires
        other != incarnation.0,
        call_ensures(ArenaProducer::<T>::close, (producer, incarnation), result),
    ensures
        result is Ok <==> old(producer)@.pages.claims.contains_key(incarnation.0),
        result is Ok ==> {
            let was = old(producer)@.pages.claims[incarnation.0];
            let is = final(producer)@.pages.claims[incarnation.0];
            &&& is.active == 0
            &&& is.slots == was.slots
            &&& is.pending == was.pending
            &&& is.mappings == was.mappings
            &&& final(producer)@.pages.claims[other] == old(producer)@.pages.claims[other]
            &&& final(producer)@.pages.control == old(producer)@.pages.control
            &&& final(producer)@.pages.resources == old(producer)@.pages.resources
        },
        result is Err ==> final(producer)@ == old(producer)@,
{
}

/// A call of `stop` closes the arena and everybody in it, and takes nothing away.
pub proof fn stopping_closes_and_keeps<T>(producer: &mut ArenaProducer<T>, id: u64)
    requires
        old(producer)@.pages.claims.contains_key(id),
        call_ensures(ArenaProducer::<T>::stop, (producer,), ()),
    ensures
        final(producer)@.pages.control.terminal != 0,
        final(producer)@.pages.claims[id].active == 0,
        final(producer)@.pages.claims[id].slots == old(producer)@.pages.claims[id].slots,
        final(producer)@.pages.resources == old(producer)@.pages.resources,
{
}

/// A call of `attach_process` whose process cannot be watched admits nobody; one that succeeds
/// grants the holding to that process, which is watched.
pub proof fn attaching_a_process_grants_it_the_holding<T: ReleaseTimeline>(
    producer: &mut ArenaProducer<T>,
    holding: u32,
    pid: u32,
    watch: Result<(), ArenaError>,
    setup: Result<ScopeId, ArenaError>,
    now: u128,
    result: Result<RemoteConsumerGrant, ArenaError>,
)
    requires
        old(producer).wf(),
        call_ensures(
            ArenaProducer::<T>::attach_process,
            (producer, holding, pid, watch, setup, now),
            result,
        ),
    ensures
        watch matches Err(error) ==> result == Err::<RemoteConsumerGrant, ArenaError>(error)
            && final(producer)@ == old(producer)@,
        result matches Ok(grant) ==> {
            let id = grant@.incarnation.0;
            let page = final(producer)@.pages.claims[id];
            &&& grant@.frames == holding
            &&& grant@.recipient_pid == pid
            &&& page.recipient_pid == pid
            &&& final(producer)@.cleanup[id].watched
            &&& Some(grant@.generation) == final(producer)@.current
            &&& page.slots.len() == holding
            &&& page.active != 0
            &&& forall|i: int| 0 <= i < holding ==> (#[trigger] page.slots[i]) == 0
            &&& setup matches Ok(scope) && grant@.claim_scope == scope
        },
        old(producer)@.pages.control.terminal != 0 ==> result is Err,
        holding == 0 ==> result is Err,
{
    old(producer).state_is_consistent();
    let state = old(producer)@;
    if watch is Ok && state.pages.control.terminal == 0 {
        let answers = choose|answers: Map<u64, Seq<TimelineAnswer>>|
            {
                &&& state.complete_look(now, answers)
                &&& (#[trigger] state.cleaned(now, answers)).attaches(
                    final(producer)@,
                    holding,
                    pid,
                    true,
                    setup,
                    remote_view(result),
                )
            };
        lemma_cleaned(state, now, answers);
        if result is Ok {
            admitted_consumers_get_what_they_asked_for(
                state.cleaned(now, answers),
                final(producer)@,
                holding,
                pid,
                true,
                setup,
                (result->Ok_0)@,
            );
        }
    }
}

/// A call of `configuration_offer` offers the storage that is installed, once, to an admitted and
/// open incarnation.
pub proof fn offering_names_the_installed_storage<T>(
    producer: &mut ArenaProducer<T>,
    incarnation: IncarnationId,
    result: Result<Option<ConfigurationGrant>, ArenaError>,
)
    requires
        old(producer).wf(),
        old(producer)@.pages.claims[incarnation.0].mappings.len() <= usize::MAX,
        call_ensures(ArenaProducer::<T>::configuration_offer, (producer, incarnation), result),
    ensures
        result matches Ok(Some(grant)) ==> {
            let was = old(producer)@.pages.claims[incarnation.0];
            let is = final(producer)@.pages.claims[incarnation.0];
            &&& Some(grant@.generation) == old(producer)@.current
            &&& grant@.layout == old(producer)@.pages.resources[grant@.generation].layout
            &&& grant@.incarnation == incarnation
            &&& grant@.arena_scope == old(producer)@.pages.control.scope
            &&& grant@.claim_scope == was.scope
            &&& grant@.recipient_pid == was.recipient_pid
            &&& was.active != 0
            &&& was.offered == 0
            &&& is.offered == grant@.generation
            &&& is.mappings == was.mappings.update(grant@.mapping_slot as int, grant@.generation)
            &&& is.slots == was.slots
        },
        !(result matches Ok(Some(_))) ==> final(producer)@ == old(producer)@,
        !old(producer)@.pages.claims.contains_key(incarnation.0) ==> result is Err,
        old(producer)@.pages.claims.contains_key(incarnation.0)
            && old(producer)@.pages.claims[incarnation.0].active == 0 ==> result is Err,
{
    old(producer).state_is_consistent();
    offers_name_the_installed_storage(
        old(producer)@,
        final(producer)@,
        incarnation.0,
        offer_view(result),
    );
}

/// A call of `configure_consumer` that installs puts the producer's storage on the consumer in place
/// of what it had, and leaves the frames that it holds; any other changes nothing.
pub proof fn configuring_installs_the_producers_storage<T, U>(
    producer: &mut ArenaProducer<T>,
    consumer: &mut ArenaConsumer<U>,
    result: Result<Option<ConfigurationInstall>, ArenaError>,
)
    requires
        old(producer).wf(),
        old(producer)@.pages.claims[old(consumer)@.incarnation.0].mappings.len() <= usize::MAX,
        call_ensures(ArenaProducer::<T>::configure_consumer::<U>, (producer, consumer), result),
    ensures
        ({
            let id = old(consumer)@.incarnation.0;
            let was = old(producer)@;
            let mine = was.pages.claims.contains_key(id)
                && was.pages.control.scope == old(consumer)@.arena_scope
                && was.pages.claims[id].scope == old(consumer)@.claim_scope;
            let open = was.pages.claims[id].active != 0 && was.pages.control.terminal == 0;
            &&& !mine || !open ==> result is Err
            &&& result matches Ok(Some(installed)) ==> {
                &&& installed is Installed
                &&& mine && open
                &&& final(consumer)@.installed matches Some(mapping) && Some(mapping.generation)
                    == was.current && mapping.layout
                    == was.pages.resources[mapping.generation].layout
                &&& final(consumer)@.held == old(consumer)@.held
                &&& final(consumer)@.pending == old(consumer)@.pending
                &&& final(producer)@.pages.claims[id].offered == 0
                &&& final(producer)@.pages.claims[id].slots == was.pages.claims[id].slots
            }
            &&& !(result matches Ok(Some(_))) ==> final(producer)@ == old(producer)@
                && final(consumer)@ == old(consumer)@
            &&& final(producer)@.pages.resources == was.pages.resources
            &&& final(producer)@.pages.control == was.pages.control
        }),
{
    old(producer).state_is_consistent();
    let state = old(producer)@;
    let id = old(consumer)@.incarnation.0;
    if result matches Ok(Some(_)) {
        let (middle, offer) = choose|
            middle: ProducerState<T>,
            offer: Result<Option<ConfigurationTerms>, ArenaError>,
        |
            {
                &&& #[trigger] state.offers(middle, id, offer)
                &&& offer matches Ok(Some(terms)) && (final(producer)@, final(consumer)@)
                    == middle.configured(old(consumer)@, terms)
            };
        offers_name_the_installed_storage(state, middle, id, offer);
        installed_storage_replaces_the_old(
            old(consumer)@,
            middle.pages.claims[id],
            (offer->Ok_0)->0,
        );
    }
}

/// A call of `signal_reconfiguration` moves the epoch on, once, for every consumer; when epochs have
/// run out the arena closes instead.
pub proof fn signalling_moves_the_epoch<T>(
    producer: &mut ArenaProducer<T>,
    result: Result<(), ArenaError>,
)
    requires
        call_ensures(ArenaProducer::<T>::signal_reconfiguration, (producer,), result),
    ensures
        old(producer)@.pages.control.epoch < u64::MAX ==> {
            &&& result is Ok
            &&& final(producer)@.pages.control.epoch == old(producer)@.pages.control.epoch + 1
            &&& final(producer)@.pages.control.latest == old(producer)@.pages.control.latest
            &&& final(producer)@.pages.control.configuration
                == old(producer)@.pages.control.configuration
            &&& final(producer)@.pages.control.terminal == old(producer)@.pages.control.terminal
            &&& final(producer)@.pages.resources == old(producer)@.pages.resources
        },
        old(producer)@.pages.control.epoch == u64::MAX ==> result is Err
            && final(producer)@.pages.control.terminal != 0,
        forall|id: u64| #[trigger]
            old(producer)@.pages.claims.contains_key(id) ==> {
                let was = old(producer)@.pages.claims[id];
                let is = final(producer)@.pages.claims[id];
                &&& final(producer)@.pages.claims.contains_key(id)
                &&& is.slots == was.slots
                &&& is.mappings == was.mappings
                &&& result is Ok && was.wait_interest & 4 != 0 ==> is.wake
                &&& result is Ok ==> is.active == was.active
            },
{
}

/// Native storage is replaced only in an arena that has it: it is withdrawn, and the producer's own
/// use of it goes on until it is said to be over.
pub proof fn native_storage_is_withdrawn_until_done<T>(
    producer: &mut ArenaProducer<T>,
    external_bytes: u64,
    result: Result<(), ArenaError>,
)
    requires
        old(producer).wf(),
        call_ensures(
            ArenaProducer::<T>::begin_native_reconfiguration,
            (producer, external_bytes),
            result,
        ),
    ensures
        !old(producer)@.native_resources ==> result is Err && final(producer)@ == old(producer)@,
        old(producer)@.pages.control.terminal != 0 ==> result is Err,
        old(producer)@.pending_layout is Some ==> result is Err,
        result is Ok ==> {
            let after = final(producer)@;
            &&& after.current is None
            &&& after.pages.control.configuration == 0
            &&& after.retired.len() == old(producer)@.retired.len() + 1
            &&& after.retired.last().native_pending
            &&& Some(after.retired.last().id.0) == old(producer)@.current
            &&& after.pending_layout matches Some(layout) && layout.payload_capacity == 0
                && layout.resources == old(producer)@.resources()
            &&& after.accounts.pending matches Some(pending) && pending.upper_bound
                >= external_bytes
        },
{
    old(producer).state_is_consistent();
}

/// The producer's use of one withdrawn storage is over with `complete_native`, and of no other.
pub proof fn native_use_ends_for_one_storage<T>(
    producer: &mut ArenaProducer<T>,
    generation: u64,
    i: int,
)
    requires
        0 <= i < old(producer)@.retired.len(),
        call_ensures(ArenaProducer::<T>::complete_native, (producer, generation), ()),
    ensures
        final(producer)@.retired.len() == old(producer)@.retired.len(),
        final(producer)@.retired[i].id == old(producer)@.retired[i].id,
        final(producer)@.retired[i].native_pending == (old(producer)@.retired[i].native_pending
            && old(producer)@.retired[i].id.0 != generation),
        final(producer)@.pages == old(producer)@.pages,
        final(producer)@.accounts == old(producer)@.accounts,
        final(producer)@.current == old(producer)@.current,
{
}

/// A look at what was handed over keeps the leases, who is there, and every slot, and opens nothing.
proof fn lemma_look_keeps_leases<T>(
    consumer: ConsumerState<T>,
    page: ClaimPage,
    answers: Seq<TimelineAnswer>,
)
    ensures
        ({
            let (after, left, _) = consumer.looked_at(page, answers);
            &&& after.alive == consumer.alive
            &&& after.held == consumer.held
            &&& after.closed == consumer.closed
            &&& left.slots == page.slots
            &&& page.active == 0 ==> left.active == 0
        }),
    decreases answers.len(),
{
    if answers.len() > 0 {
        lemma_look_keeps_leases(consumer, page, answers.drop_last());
    }
}

/// A consumer that closes lets its storage go and its incarnation ends; what it holds or has handed
/// to a completion stays claimed.
pub proof fn closing_a_consumer_ends_its_incarnation<T: ReleaseTimeline>(
    consumer: &mut ArenaConsumer<T>,
    pages: &mut ArenaPages,
    now: u128,
)
    requires
        old(consumer)@.alive,
        call_ensures(ArenaConsumer::<T>::close, (consumer, pages, now), ()),
    ensures
        ({
            let id = old(consumer)@.incarnation.0;
            &&& !final(consumer)@.alive
            &&& final(consumer)@.installed is None
            &&& final(consumer)@.held == old(consumer)@.held
            &&& final(pages)@.claims[id].active == 0
            &&& final(pages)@.claims[id].slots == old(pages)@.claims[id].slots
            &&& final(pages)@.resources == old(pages)@.resources
            &&& final(pages)@.control == old(pages)@.control
        }),
{
    let id = old(consumer)@.incarnation.0;
    let page = old(pages)@.claims[id];
    let answers = choose|answers: Seq<TimelineAnswer>|
        {
            &&& old(consumer)@.departs_with(page, now, answers)
            &&& final(consumer)@ == (#[trigger] old(consumer)@.departed(page, now, answers)).0
            &&& final(pages)@ == old(pages)@.with_claims(
                id,
                old(consumer)@.departed(page, now, answers).1,
            )
        };
    let (draining, closed) = old(consumer)@.draining(page, now);
    let leaving = ConsumerState { alive: false, ..draining };
    let (again, shut) = leaving.draining(closed, now);
    lemma_look_keeps_leases(ConsumerState { closed: true, ..again }, shut, answers);
}

/// Only the notification that a slot was armed with fires it, once, and the consumer wakes for it.
pub proof fn notifications_fire_once<T>(
    consumer: &mut ArenaConsumer<T>,
    notification: ReleaseNotification,
    i: int,
)
    requires
        0 <= i < old(consumer)@.armed.len(),
        call_ensures(ArenaConsumer::<T>::notified, (consumer, notification), ()),
    ensures
        ({
            let was = old(consumer)@.armed[i];
            let is = final(consumer)@.armed[i];
            let meant = i == notification.slot && (was matches Some(armed) && armed.serial
                == notification.serial && !armed.fired);
            &&& meant ==> (is matches Some(armed) && armed.fired && armed.serial
                == notification.serial) && final(consumer)@.wake
            &&& !meant ==> is == was
            &&& final(consumer)@.held == old(consumer)@.held
            &&& final(consumer)@.pending == old(consumer)@.pending
        }),
{
}

/// What waits on a binding: the slots that were handed to its timeline, each counted once.
pub proof fn pending_releases_are_counted<T>(
    binding: &ConsumerReleaseTimeline,
    consumer: &ArenaConsumer<T>,
    result: usize,
)
    requires
        consumer.wf(),
        call_ensures(ConsumerReleaseTimeline::pending_releases::<T>, (binding, consumer), result),
    ensures
        result > 0 ==> binding.registration.incarnation == consumer@.incarnation.0
            && binding.registration.scope == consumer@.claim_scope,
        result <= consumer@.pending.len(),
        result > 0 ==> exists|i: int|
            0 <= i < consumer@.pending.len() && ((#[trigger] consumer@.pending[i]) matches Some(
                waits,
            ) && waits.timeline == binding.index),
        binding.registration.incarnation == consumer@.incarnation.0 && binding.registration.scope
            == consumer@.claim_scope && binding.index < consumer@.pending.len()
            && consumer@.bound[binding.index as int] is Some && result == 0 ==> forall|i: int|
            0 <= i < consumer@.pending.len() ==> ((#[trigger] consumer@.pending[i]) matches Some(
                waits,
            ) ==> waits.timeline != binding.index),
{
    consumer.state_is_consistent();
    lemma_waiting_on(consumer@, binding.index, consumer@.frames() as int);
}

/// A count of waiting slots is none exactly where none waits.
proof fn lemma_waiting_on<T>(consumer: ConsumerState<T>, index: usize, count: int)
    requires
        0 <= count <= consumer.pending.len(),
    ensures
        consumer.waiting_on(index, count) <= count,
        consumer.waiting_on(index, count) > 0 <==> exists|i: int|
            0 <= i < count && ((#[trigger] consumer.pending[i]) matches Some(waits)
                && waits.timeline == index),
    decreases count,
{
    if count > 0 {
        lemma_waiting_on(consumer, index, count - 1);
        if consumer.waits_on(count - 1, index) {
            assert(consumer.pending[count - 1] matches Some(waits) && waits.timeline == index);
        }
        if exists|i: int|
            0 <= i < count && ((#[trigger] consumer.pending[i]) matches Some(waits)
                && waits.timeline == index) {
            let i = choose|i: int|
                0 <= i < count && ((#[trigger] consumer.pending[i]) matches Some(waits)
                    && waits.timeline == index);
            if i == count - 1 {
                assert(consumer.waits_on(count - 1, index));
            }
        }
    }
}

/// An arena may be let go once it is closed, every incarnation has gone and every storage is
/// collected, and not before.
pub proof fn shutdown_waits_for_everybody<T: ReleaseTimeline>(
    producer: &mut ArenaProducer<T>,
    now: u128,
    result: bool,
    id: u64,
)
    requires
        call_ensures(ArenaProducer::<T>::poll_shutdown_ready, (producer, now), result),
    ensures
        result ==> final(producer)@.pages.control.terminal != 0
            && !final(producer)@.pages.claims.contains_key(id)
            && final(producer)@.retired.len() == 0,
        final(producer)@.pages.control.terminal != 0 && final(producer)@.pages.claims.dom()
            =~= Set::empty() && final(producer)@.retired.len() == 0 ==> result,
{
}

/// A retried cleanup forgets the failure that was seen and gives back no slot.
pub proof fn retried_cleanup_gives_nothing_back<T>(
    producer: &mut ArenaProducer<T>,
    incarnation: IncarnationId,
    result: Result<(), ArenaError>,
)
    requires
        call_ensures(ArenaProducer::<T>::retry_cleanup, (producer, incarnation), result),
        old(producer)@.cleanup.contains_key(incarnation.0),
    ensures
        ({
            let id = incarnation.0;
            let was = old(producer)@.pages.claims[id];
            let is = final(producer)@.pages.claims[id];
            let seen = old(producer)@.cleanup[id];
            &&& is.slots == was.slots
            &&& is.pending == was.pending
            &&& is.mappings == was.mappings
            &&& seen.notification_failed ==> result is Err && final(producer)@ == old(producer)@
            &&& !seen.notification_failed ==> {
                &&& final(producer)@.cleanup[id].failure is None
                &&& is.release_wake
                &&& seen.unresolved == 0 && !seen.expired ==> result is Ok
                &&& was.drained() ==> result is Ok
                &&& seen.unresolved != 0 && !was.drained() ==> result is Err
                &&& seen.expired && !was.drained() ==> result is Err
            }
        }),
{
}

/// A retirement is over exactly when the last owner has gone and nothing waits for a completion any
/// more; until then it sleeps, until its deadline while that lies ahead. It frees no slot.
pub proof fn retirement_ends_when_nothing_waits<T: ReleaseTimeline>(
    consumer: &mut ArenaConsumer<T>,
    pages: &mut ArenaPages,
    now: u128,
    result: RetirementStep,
)
    requires
        old(consumer).wf(),
        call_ensures(ArenaConsumer::<T>::retire, (consumer, pages, now), result),
    ensures
        ({
            let id = old(consumer)@.incarnation.0;
            let left = final(consumer)@;
            let waiting = exists|i: int|
                0 <= i < left.pending.len() && (#[trigger] left.pending[i]) is Some;
            &&& final(consumer).wf() ==> (result is Done <==> left.closed && !waiting)
            &&& left.closed == old(consumer)@.closed
            &&& left.held == old(consumer)@.held
            &&& result matches RetirementStep::Sleep { deadline: Some(time) } ==> time > now
                && left.deadline == Some(time)
            &&& final(pages)@.claims[id].slots == old(pages)@.claims[id].slots
            &&& final(pages)@.resources == old(pages)@.resources
            &&& final(pages)@.control == old(pages)@.control
        }),
{
    let id = old(consumer)@.incarnation.0;
    let page = old(pages)@.claims[id];
    let woken = ConsumerState { wake: false, ..old(consumer)@ };
    let answers = choose|answers: Seq<TimelineAnswer>|
        {
            &&& woken.complete_look(page, answers)
            &&& final(consumer)@ == (#[trigger] woken.polled(page, answers)).0
            &&& final(pages)@ == old(pages)@.with_claims(id, woken.polled(page, answers).1)
        };
    lemma_look_keeps_leases(woken, page, answers);
    if final(consumer).wf() {
        final(consumer).state_is_consistent();
    }
}

/// A cancellation is for good: a token begins without one, and once it is cancelled every later look
/// finds it so, and a wake is on its way.
pub proof fn cancellations_are_for_good(
    fresh: Cancellation,
    token: &mut Cancellation,
    again: &mut Cancellation,
    asked: &Cancellation,
    result: bool,
)
    requires
        call_ensures(Cancellation::new, (), fresh),
        *old(token) == fresh,
        call_ensures(Cancellation::cancel, (token,), ()),
        *old(again) == *final(token),
        call_ensures(Cancellation::cancel, (again,), ()),
        *asked == *final(again),
        call_ensures(Cancellation::is_cancelled, (asked,), result),
    ensures
        !fresh.spec_cancelled() && !fresh.spec_signalled(),
        final(token).spec_cancelled() && final(token).spec_signalled(),
        final(again).spec_signalled(),
        result,
{
}

/// A wait that is given up asks for nothing any more, and changes nothing else.
pub proof fn abandoned_waits_ask_for_nothing<T>(consumer: &ArenaConsumer<T>, pages: &mut ArenaPages)
    requires
        call_ensures(ArenaConsumer::<T>::abandon_wait, (consumer, pages), ()),
    ensures
        ({
            let id = consumer@.incarnation.0;
            let was = old(pages)@.claims[id];
            let is = final(pages)@.claims[id];
            &&& is.wait_interest == 0
            &&& is.slots == was.slots
            &&& is.active == was.active
            &&& is.capacity_epoch == was.capacity_epoch
            &&& final(pages)@.control == old(pages)@.control
            &&& final(pages)@.resources == old(pages)@.resources
        }),
{
}

} // verus!
