//! What holds across the operations of producers and consumers.

use super::claims::{first_free, lemma_first_free, ClaimMap, ClaimPage};
use super::cleanup::{observes, read_from, Observation, ReleaseTimeline, TimelineAnswer};
use super::grants::{
    claims_agree, control_bytes, exportable, grant_descriptor, grant_fits, imported_terms,
    received_page, GrantTerms,
};
use super::holding::{mapping_fits, Acquisition, ConsumerState, LeaseTerms};
use super::layout::{claim_bytes, length_fits, resource_bytes, rounded_up};
use super::pages::Pages;
use super::state::{acquirable, record_proper, stamped, Offer, ProducerState};
use super::upkeep::{lemma_advertised, lemma_tried};
use super::{state_word, ArenaError, FrameDescriptor, PublishOutcome, MAX_GENERATION};
use crate::error::CaptureTransferError;
use vstd::prelude::*;

verus! {

/// A consumer that may acquire: it is open, has the installed storage mapped, and has a free
/// slot.
pub open spec fn ready<T, U>(state: ProducerState<T>, consumer: ConsumerState<U>) -> bool {
    let id = consumer.incarnation.0;
    &&& state.pages.control.terminal == 0
    &&& state.pages.claims.contains_key(id)
    &&& state.pages.claims[id].active != 0
    &&& first_free(state.pages.claims[id].slots) is Some
    &&& state.current matches Some(g) && consumer.installed matches Some(mapping)
        && mapping.generation == g && mapping.layout == state.pages.resources[g].layout
}

/// Every retained frame can be acquired by its cursor, and what is acquired is that frame with
/// the bytes that were published.
pub proof fn retained_frames_can_be_acquired<T, U>(
    state: ProducerState<T>,
    consumer: ConsumerState<U>,
    cursor: u64,
)
    requires
        state.inv(),
        ready(state, consumer),
        state.retains(cursor),
    ensures
        ({
            let (after, pages, outcome) = consumer.acquired_exact(state.pages, cursor);
            let id = consumer.incarnation.0;
            &&& outcome matches Acquisition::Frame(lease) && {
                let record = state.pages.resources[lease.mapping.generation].records[lease.index as int];
                &&& lease.descriptor == record.descriptor
                &&& lease.descriptor.cursor == cursor
                &&& record.generation() == cursor
                &&& lease.descriptor.payload_len == record.payload.len()
                &&& pages.claims[id].slots[lease.slot as int] == cursor
            }
            &&& pages.resources == state.pages.resources
        }),
{
    let g = state.current->0;
    assert(state.retains(cursor));
    assert(acquirable(state.pages.control, state.pages.resources[g], cursor));
    assert(state.pages.resources.contains_key(g));
    assert(state.resource_proper(g));
    let control = state.pages.control;
    let position = control.ring[control.position(cursor)];
    let index = position - 1;
    let record = state.pages.resources[g].records[index];
    assert(record.generation() == cursor);
    assert(record_proper(state.pages.resources[g], index));
    lemma_first_free(state.pages.claims[consumer.incarnation.0].slots);
}

/// Asking for one cursor never gives another frame in its place: what is acquired has that
/// cursor, and a frame that is not retained any more is a miss of that cursor.
pub proof fn exact_requests_are_never_substituted<T>(
    consumer: ConsumerState<T>,
    pages: Pages,
    cursor: u64,
)
    ensures
        consumer.acquired_exact(pages, cursor).2 matches Acquisition::Frame(lease)
            ==> lease.descriptor.cursor == cursor,
        consumer.acquired_exact(pages, cursor).2 matches Acquisition::Miss { cursor: missed }
            ==> missed == cursor,
        !consumer.shut(pages) && consumer.configured(pages) && cursor <= pages.control.latest
            && cursor < consumer.oldest(pages.control) ==> consumer.acquired_exact(
            pages,
            cursor,
        ).2 == (Acquisition::Miss { cursor }),
{
}

/// What was published is what is delivered: the newest frame's descriptor, stamped by the
/// arena, and its bytes.
pub proof fn published_frames_are_delivered<T, U>(
    state: ProducerState<T>,
    consumer: ConsumerState<U>,
    descriptor: FrameDescriptor,
    bytes: Seq<u8>,
    after_cursor: u64,
)
    requires
        state.inv(),
        ready(state, consumer),
        state.published(Offer::Inline(descriptor), bytes).1 == Ok::<PublishOutcome, ArenaError>(
            PublishOutcome::Published { cursor: (state.cursor + 1) as u64 },
        ),
        after_cursor <= state.cursor,
    ensures
        ({
            let published = state.published(Offer::Inline(descriptor), bytes).0;
            let outcome = consumer.acquired_latest(published.pages, after_cursor).2;
            let g = state.current->0;
            outcome matches Acquisition::Frame(lease) && {
                &&& lease.descriptor == stamped(
                    descriptor,
                    state.pages.resources[g],
                    lease.index as int,
                    (state.cursor + 1) as u64,
                    bytes.len(),
                )
                &&& published.pages.resources[lease.mapping.generation].records[lease.index as int].payload
                    == bytes
            }
        }),
{
    let g = state.current->0;
    let offer = Offer::Inline(descriptor);
    let n = state.resources();
    let cursor = (state.cursor + 1) as u64;
    assert(state.pages.resources.contains_key(g));
    assert(state.resource_proper(g));
    assert(state.cursor < MAX_GENERATION);
    let (page, found) = state.tried(g, offer, n);
    lemma_tried(state, g, offer, n);
    let index = found->0;
    let published = state.published(offer, bytes).0;
    assert(published == state.advertised(g, page, index, descriptor, bytes));
    lemma_advertised(state, g, offer, descriptor, bytes, index);
    let id = consumer.incarnation.0;
    assert(published.pages.claims.contains_key(id));
    assert(published.pages.claims[id].slots == state.pages.claims[id].slots);
    assert(published.pages.claims[id].active == state.pages.claims[id].active);
    let control = published.pages.control;
    vstd::arithmetic::div_mod::lemma_mod_bound(cursor - 1, control.ring.len() as int);
    assert(control.ring[control.position(cursor)] == index + 1);
    let record = published.pages.resources[g].records[index];
    assert(record.state == state_word(cursor, true));
    assert(record.payload == bytes);
    assert(published.resource_proper(g));
    assert(record_proper(published.pages.resources[g], index));
    lemma_first_free(published.pages.claims[id].slots);
}

/// Publication leaves every claimed frame alone: its bytes, its descriptor and its generation
/// stay, in whichever resource generation it lies.
pub proof fn publication_leaves_claimed_frames_alone<T>(
    state: ProducerState<T>,
    offer: Offer,
    bytes: Seq<u8>,
    generation: u64,
    index: int,
)
    requires
        state.inv(),
        state.pages.resources.contains_key(generation),
        0 <= index < state.pages.resources[generation].records.len(),
        state.pages.resources[generation].records[index].generation() != 0,
        state.pages.claimed(
            state.pages.resources[generation].records[index].generation() as u64,
        ),
    ensures
        ({
            let before = state.pages.resources[generation].records[index];
            let after = state.published(offer, bytes).0.pages.resources[generation].records[index];
            &&& state.published(offer, bytes).0.pages.resources.contains_key(generation)
            &&& after.payload == before.payload
            &&& after.descriptor == before.descriptor
            &&& after.generation() == before.generation()
        }),
{
    if state.current is Some {
        let g = state.current->0;
        assert(state.pages.resources.contains_key(g));
        assert(state.resource_proper(g));
        lemma_tried(state, g, offer, state.resources());
        let (page, found) = state.tried(g, offer, state.resources());
        let start = state.pages.resources[g];
        if generation == g {
            assert(page.records[index] == start.records[index] || page.records[index]
                == start.records[index].retired());
            if found is Some {
                assert(found->0 != index);
            }
        }
    }
}

/// Closing the arena revokes nothing: every claim, mapping, handed-over release and frame stays.
pub proof fn stopping_revokes_nothing<T>(state: ProducerState<T>, id: u64)
    requires
        state.pages.claims.contains_key(id),
    ensures
        ({
            let before = state.pages.claims[id];
            let after = state.stopped().pages.claims[id];
            &&& state.stopped().pages.claims.contains_key(id)
            &&& state.stopped().pages.resources == state.pages.resources
            &&& state.stopped().accounts == state.accounts
            &&& after.slots == before.slots
            &&& after.mappings == before.mappings
            &&& after.pending == before.pending
            &&& after.active == 0
        }),
{
}

/// A closed page, and a closed arena, give no new frame.
pub proof fn closed_pages_give_no_frame<T>(consumer: ConsumerState<T>, pages: Pages, cursor: u64)
    requires
        consumer.shut(pages),
    ensures
        consumer.acquired_latest(pages, cursor).2 is Closed,
        consumer.acquired_next(pages, cursor).2 is Closed,
        consumer.acquired_exact(pages, cursor).2 is Closed,
{
}

/// An attempt that gives no frame leaves every slot as it was: provisional claims return their
/// credit.
pub proof fn failed_attempts_return_their_credit<T>(consumer: ConsumerState<T>, pages: Pages, cursor: u64)
    requires
        !(consumer.acquired(pages, cursor).2 is Frame),
        pages.claims.contains_key(consumer.incarnation.0),
        consumer.frames() == pages.claims[consumer.incarnation.0].slots.len(),
        consumer.frames() <= usize::MAX,
        forall|i: int|
            0 <= i < consumer.frames() && #[trigger] pages.claims[consumer.incarnation.0].slots[i]
                == 0 ==> consumer.held[i] is None,
    ensures
        consumer.acquired(pages, cursor).0.held == consumer.held,
        consumer.acquired(pages, cursor).1.claims[consumer.incarnation.0].slots
            == pages.claims[consumer.incarnation.0].slots,
{
    let id = consumer.incarnation.0;
    lemma_first_free(pages.claims[id].slots);
    let (after, left, outcome) = consumer.acquired(pages, cursor);
    if first_free(pages.claims[id].slots) is Some {
        let slot = first_free(pages.claims[id].slots)->0;
        assert(pages.claims[id].slots[slot] == 0);
        assert(consumer.held[slot] is None);
    }
    assert(after.held =~= consumer.held);
    assert(left.claims[id].slots =~= pages.claims[id].slots);
}

/// A timeline was asked and answered with at least this value.
pub open spec fn reached<T: ReleaseTimeline>(timeline: T, value: u64) -> bool {
    exists|completed: u64|
        completed >= value && #[trigger] read_from(
            timeline,
            Ok::<u64, CaptureTransferError>(completed),
        )
}

/// What a look may give back: only a slot whose release was submitted, and whose registered
/// timeline has reached the value that it waits for.
pub open spec fn earned<T: ReleaseTimeline>(timelines: Seq<T>, page: ClaimPage, slot: int) -> bool {
    let id = page.release_ids[slot];
    &&& page.pending[slot] == 2
    &&& 1 <= id <= timelines.len()
    &&& reached(timelines[id - 1], page.release_values[slot])
}

proof fn lemma_looked_at_gives_back_what_is_earned<T: ReleaseTimeline>(
    observation: Observation<T>,
    page: ClaimPage,
    answers: Seq<TimelineAnswer>,
    slot: int,
)
    requires
        page.shaped(page.slots.len()),
        observes(observation, page.slots.len()),
        answers.len() <= page.slots.len(),
        observation.answered(page, answers),
        0 <= slot < page.slots.len(),
    ensures
        ({
            let (seen, after, _) = observation.looked_at(page, answers);
            &&& after.shaped(page.slots.len())
            &&& observes(seen, page.slots.len())
            &&& seen.timelines == observation.timelines
            &&& after.release_values == page.release_values
            &&& after.release_ids == page.release_ids
            &&& after.slots[slot] != page.slots[slot] ==> earned(
                observation.timelines,
                page,
                slot,
            )
            &&& slot >= answers.len() ==> after.pending[slot] == page.pending[slot]
        }),
    decreases answers.len(),
{
    if answers.len() > 0 {
        let fewer = answers.drop_last();
        lemma_looked_at_gives_back_what_is_earned(observation, page, fewer, slot);
        lemma_looked_at_gives_back_what_is_earned(observation, page, fewer, answers.len() - 1);
    }
}

/// Only a completed release returns credit: whatever the time and whatever the timelines
/// answer, a look gives back no slot but one whose release was submitted and whose registered
/// timeline has reached its value.
pub proof fn only_completed_releases_return_credit<T: ReleaseTimeline>(
    observation: Observation<T>,
    page: ClaimPage,
    now: u128,
    answers: Seq<TimelineAnswer>,
    slot: int,
)
    requires
        page.shaped(page.slots.len()),
        observes(observation, page.slots.len()),
        observation.complete_look(page, now, answers),
        0 <= slot < page.slots.len(),
    ensures
        ({
            let after = observation.polled(page, now, answers).1;
            &&& after.slots[slot] != page.slots[slot] ==> earned(
                observation.timelines,
                page,
                slot,
            )
            &&& after.slots.len() == page.slots.len()
        }),
{
    let timed = observation.saw_time(page, now);
    assert(timed.1.slots == page.slots);
    assert(timed.1.pending == page.pending);
    assert(timed.1.release_values == page.release_values);
    assert(timed.1.release_ids == page.release_ids);
    assert(timed.1.shaped(page.slots.len()));
    if timed.0.failure is None {
        lemma_looked_at_gives_back_what_is_earned(timed.0, timed.1, answers, slot);
    }
}

/// Whether a handed-over slot's source has reached the value that it waits for.
pub open spec fn finished<T: ReleaseTimeline>(consumer: ConsumerState<T>, slot: int) -> bool {
    consumer.pending[slot] matches Some(pending) && reached(
        (consumer.bound[pending.timeline as int]->0).timeline,
        pending.value,
    )
}

proof fn lemma_looked_at_submits_what_is_finished<T: ReleaseTimeline>(
    consumer: ConsumerState<T>,
    page: ClaimPage,
    answers: Seq<TimelineAnswer>,
    slot: int,
    page_size: int,
)
    requires
        consumer.inv(page_size),
        page.shaped(consumer.frames()),
        answers.len() <= consumer.frames(),
        consumer.answered(page, answers),
        0 <= slot < consumer.frames(),
    ensures
        ({
            let (seen, after, _) = consumer.looked_at(page, answers);
            &&& seen.inv(page_size)
            &&& seen.frames() == consumer.frames()
            &&& seen.bound == consumer.bound
            &&& after.shaped(consumer.frames())
            &&& after.slots == page.slots
            &&& after.release_values == page.release_values
            &&& after.release_ids == page.release_ids
            &&& after.pending[slot] != page.pending[slot] ==> finished(consumer, slot)
            &&& slot >= answers.len() ==> seen.pending[slot] == consumer.pending[slot]
        }),
    decreases answers.len(),
{
    if answers.len() > 0 {
        let fewer = answers.drop_last();
        lemma_looked_at_submits_what_is_finished(consumer, page, fewer, slot, page_size);
        lemma_looked_at_submits_what_is_finished(
            consumer,
            page,
            fewer,
            answers.len() - 1,
            page_size,
        );
    }
}

/// A consumer submits a handed-over release only after its own bound source has reached the
/// value, and gives no slot back itself.
pub proof fn only_finished_use_is_submitted<T: ReleaseTimeline>(
    consumer: ConsumerState<T>,
    page: ClaimPage,
    answers: Seq<TimelineAnswer>,
    slot: int,
    page_size: int,
)
    requires
        consumer.inv(page_size),
        page.shaped(consumer.frames()),
        consumer.complete_look(page, answers),
        0 <= slot < consumer.frames(),
    ensures
        ({
            let after = consumer.polled(page, answers).1;
            &&& after.slots == page.slots
            &&& after.release_ids == page.release_ids
            &&& after.release_values == page.release_values
            &&& after.shaped(consumer.frames())
            &&& after.pending[slot] != page.pending[slot] ==> finished(consumer, slot)
        }),
{
    if consumer.failure is None {
        lemma_looked_at_submits_what_is_finished(consumer, page, answers, slot, page_size);
    }
}

/// Deferred credit waits for both ends. After a lease was handed over, the consumer looks at its
/// sources and the producer at the registered timelines: the slot comes back only if the bound
/// source and the registered timeline have both reached the value.
pub proof fn deferred_credit_waits_for_both<T: ReleaseTimeline, U: ReleaseTimeline>(
    consumer: ConsumerState<U>,
    page: ClaimPage,
    lease: LeaseTerms,
    index: usize,
    id: u64,
    value: u64,
    own: Seq<TimelineAnswer>,
    observation: Observation<T>,
    now: u128,
    answers: Seq<TimelineAnswer>,
    page_size: int,
)
    requires
        consumer.inv(page_size),
        consumer.holds(lease),
        index < consumer.frames(),
        consumer.bound[index as int] is Some,
        page.shaped(consumer.frames()),
        observes(observation, consumer.frames()),
        ({
            let (after, handed) = consumer.deferred(page, lease, index, id, value);
            &&& after.complete_look(handed, own)
            &&& observation.complete_look(after.polled(handed, own).1, now, answers)
        }),
    ensures
        ({
            let (after, handed) = consumer.deferred(page, lease, index, id, value);
            let submitted = after.polled(handed, own).1;
            let left = observation.polled(submitted, now, answers).1;
            left.slots[lease.slot as int] != page.slots[lease.slot as int] ==> {
                &&& reached((consumer.bound[index as int]->0).timeline, value)
                &&& 1 <= id <= observation.timelines.len()
                &&& reached(observation.timelines[id - 1], value)
            }
        }),
{
    let slot = lease.slot as int;
    let (after, handed) = consumer.deferred(page, lease, index, id, value);
    assert(consumer.held[slot] == Some(lease.mapping));
    assert(after.inv(page_size)) by {
        assert forall|i: int| 0 <= i < after.frames() implies ((#[trigger] after.held[i]) matches Some(
            mapping,
        ) ==> mapping_fits(mapping, after.frames(), page_size)) by {
            assert(consumer.held[i] is Some || i == slot || after.held[i] is None);
        }
        assert forall|i: int| 0 <= i < after.frames() implies ((
        #[trigger] after.pending[i]) matches Some(pending) ==> mapping_fits(
            pending.mapping,
            after.frames(),
            page_size,
        ) && pending.timeline < after.frames() && after.bound[pending.timeline as int] is Some) by {
            if i != slot {
                assert(after.pending[i] == consumer.pending[i]);
            }
        }
    }
    only_finished_use_is_submitted(after, handed, own, slot, page_size);
    let submitted = after.polled(handed, own).1;
    only_completed_releases_return_credit(observation, submitted, now, answers, slot);
}

/// The deadline permits no reuse: when it passes, every claim, mapping and handed-over release
/// stays.
pub proof fn deadlines_release_nothing<T>(observation: Observation<T>, page: ClaimPage, now: u128)
    ensures
        ({
            let after = observation.saw_time(page, now).1;
            &&& after.slots == page.slots
            &&& after.mappings == page.mappings
            &&& after.pending == page.pending
            &&& after.quiescent == page.quiescent
        }),
{
}

/// A consumer's own deadline permits no reuse either: draining keeps every claim and mapping.
pub proof fn draining_releases_nothing<T>(consumer: ConsumerState<T>, page: ClaimPage, now: u128)
    ensures
        ({
            let (after, left) = consumer.draining(page, now);
            &&& left.slots == page.slots
            &&& left.mappings == page.mappings
            &&& left.pending == page.pending
            &&& after.held == consumer.held
            &&& after.pending == consumer.pending
        }),
{
}

/// An exited process that used the storage asynchronously, without having handed a release over,
/// keeps its claim charged: exit cannot prove completion.
pub proof fn exit_proves_no_completion<T>(observation: Observation<T>, page: ClaimPage, slot: int)
    requires
        0 <= slot < page.slots.len(),
        page.shaped(page.slots.len()),
        observation.native_resources || observation.timelines.len() > 0,
    ensures
        observation.swept(page, slot).1.slots == page.slots,
        page.slots[slot] != 0 && page.pending[slot] == 0 ==> observation.swept(
            page,
            slot,
        ).0.unresolved == observation.unresolved + 1,
{
}

/// Cleanup keeps all storage that is in use: the installed generation, and every generation
/// that a remaining incarnation has mapped or claims a frame of.
pub proof fn cleanup_keeps_used_storage<T>(
    state: ProducerState<T>,
    now: u128,
    answers: Map<u64, Seq<TimelineAnswer>>,
    generation: u64,
)
    requires
        state.inv(),
        state.pages.resources.contains_key(generation),
        ({
            let left = state.observed(now, answers).collected();
            ||| state.current == Some(generation)
            ||| left.pages.mapped(generation)
            ||| left.pages.holds_frame_of(generation)
        }),
    ensures
        state.cleaned(now, answers).pages.resources.contains_key(generation),
        state.cleaned(now, answers).pages.resources[generation]
            == state.pages.resources[generation],
{
    let left = state.observed(now, answers).collected();
    if left.disposable(generation) {
        let i = choose|i: int|
            0 <= i < left.retired.len() && (#[trigger] left.retired[i]).id.0 == generation
                && !left.retained(left.retired[i]);
        assert(left.retired[i] == state.retired[i]);
        assert(state.current != Some(state.retired[i].id.0));
    }
}

/// Epochs of reconfiguration never wrap: each transition counts one up, and when they run out
/// the arena closes instead.
pub proof fn epochs_never_wrap<T>(state: ProducerState<T>)
    ensures
        state.told().0.pages.control.epoch >= state.pages.control.epoch,
        state.told().1 is Ok ==> state.told().0.pages.control.epoch == state.pages.control.epoch
            + 1,
        state.told().1 is Err ==> state.told().0.pages.control.terminal != 0,
        state.told().0.pages.resources == state.pages.resources,
{
}

/// A consumer that goes while it holds nothing and nothing waits leaves nothing to wait for.
pub proof fn departed_consumers_drain<T: ReleaseTimeline>(
    consumer: ConsumerState<T>,
    page: ClaimPage,
    now: u128,
    answers: Seq<TimelineAnswer>,
    page_size: int,
)
    requires
        consumer.inv(page_size),
        !consumer.leasing(),
        !consumer.waiting(),
        consumer.failure is None,
        page.shaped(consumer.frames()),
        !page.claiming(),
        forall|m: int|
            0 <= m < page.mappings.len() && #[trigger] page.mappings[m] != 0 ==> (
            consumer.installed matches Some(mapping) && mapping.slot == m),
        consumer.departs_with(page, now, answers),
    ensures
        consumer.departed(page, now, answers).1.drained(),
{
    let (draining, closed) = consumer.draining(page, now);
    let gone = ConsumerState { alive: false, ..draining };
    assert(gone.held == consumer.held && gone.pending == consumer.pending);
    assert(!gone.leasing()) by {
        if gone.leasing() {
            let i = choose|i: int| 0 <= i < gone.frames() && (#[trigger] gone.held[i]) is Some;
            assert(consumer.held[i] is Some);
        }
    }
    let (again, shut) = gone.draining(closed, now);
    let closing = ConsumerState { closed: true, ..again };
    assert forall|i: int| 0 <= i < closing.frames() implies (#[trigger] closing.pending[i]) is None by {
        assert(consumer.pending[i] is None);
    }
    lemma_idle_look(closing, shut, answers);
    let (left, remaining) = gone.left(closed, now, answers);
    assert(remaining.quiescent == 1);
    assert(remaining.slots == page.slots);
    assert(remaining.mappings == page.mappings);
    let last = ConsumerState { installed: None, ..left };
    let end = consumer.departed(page, now, answers).1;
    assert(left.held == consumer.held);
    assert(left.pending == consumer.pending);
    if consumer.installed is Some {
        let slot = (consumer.installed->0).slot;
        assert(!last.uses(slot)) by {
            assert forall|i: int| 0 <= i < last.frames() implies (#[trigger] last.held[i]) is None by {
                assert(consumer.held[i] is None);
            }
            assert forall|i: int| 0 <= i < last.frames() implies (
            #[trigger] last.pending[i]) is None by {
                assert(consumer.pending[i] is None);
            }
        }
        assert(end.mappings == page.mappings.update(slot as int, 0));
    }
    assert forall|m: int| 0 <= m < end.mappings.len() implies (#[trigger] end.mappings[m]) == 0 by {
        assert(page.mappings[m] != 0 ==> (consumer.installed matches Some(mapping) && mapping.slot
            == m));
    }
    assert(end.slots == page.slots);
    assert forall|i: int| 0 <= i < end.slots.len() implies (#[trigger] end.slots[i]) == 0 by {
        assert(page.slots[i] == 0);
    }
}

/// A look at slots of which none waits changes no page, and ends nowhere.
proof fn lemma_idle_look<T>(consumer: ConsumerState<T>, page: ClaimPage, answers: Seq<TimelineAnswer>)
    requires
        forall|i: int| 0 <= i < consumer.pending.len() ==> (#[trigger] consumer.pending[i]) is None,
        answers.len() <= consumer.pending.len(),
    ensures
        ({
            let all = consumer.looked_at(page, answers);
            &&& all.1 == page
            &&& !all.2
            &&& all.0.pending == consumer.pending
            &&& all.0.held == consumer.held
            &&& all.0.closed == consumer.closed
            &&& all.0.installed == consumer.installed
        }),
    decreases answers.len(),
{
    if answers.len() > 0 {
        lemma_idle_look(consumer, page, answers.drop_last());
    }
}

/// A grant that is exported, and received with its claim page by the process that it is for,
/// has the terms that were granted.
pub proof fn exported_grants_arrive_unchanged(
    terms: GrantTerms,
    page: ClaimMap,
    now: u128,
    page_size: i64,
)
    requires
        exportable(terms, page_size),
        terms.drain_timeout != 0,
        now + terms.drain_timeout <= u128::MAX,
        terms.generation != 0,
        terms.incarnation.0 != 0,
        terms.frames != 0,
        terms.mapping_slot < terms.frames + 2,
        length_fits(
            resource_bytes(terms.layout.resources as int, terms.layout.payload_capacity as int),
            page_size as int,
        ),
        length_fits(claim_bytes(terms.frames as int), page_size as int),
        length_fits(control_bytes(terms.layout.history as int), page_size as int),
        terms.claim_len == rounded_up(claim_bytes(terms.frames as int), page_size as int),
        page.wf(),
        page@.incarnation == terms.incarnation,
        page@.scope == terms.claim_scope,
        page@.recipient_pid == terms.recipient_pid,
        page.spec_frames() == terms.frames,
        page.spec_len() == terms.claim_len,
        page@.offered == terms.generation,
        page@.mappings[terms.mapping_slot as int] == terms.generation,
    ensures
        ({
            let descriptor = grant_descriptor(terms, page_size);
            &&& grant_fits(descriptor, now, terms.recipient_pid, page_size)
            &&& claims_agree(descriptor, page.spec_words())
            &&& imported_terms(descriptor, page_size) == terms
        }),
{
    let descriptor = grant_descriptor(terms, page_size);
    page.words_can_be_received();
    page.page_is_shaped();
    super::layout::rounding_is_tight(
        control_bytes(terms.layout.history as int),
        page_size as int,
    );
    let received = received_page(descriptor, page.spec_words());
    assert(received.mappings =~= page@.mappings);
    assert(received.offered == page@.offered);
    assert(received.scope == page@.scope);
    assert(terms.layout.len == rounded_up(
        resource_bytes(terms.layout.resources as int, terms.layout.payload_capacity as int),
        page_size as int,
    ));
}

} // verus!
