//! What publication, acquisition and release come to, field by field and call by call.

use super::capacity::holdings_never_starve_publication;
use super::claims::{first_free, lemma_first_free, CAPACITY};
use super::holding::{Acquisition, ConsumerState, LeaseTerms};
use super::pages::Pages;
use super::state::{acquirable, record_proper, Offer, ProducerState};
use super::upkeep::{lemma_advertised, lemma_tried};
use super::{ArenaError, FrameDescriptor, PublishOutcome, MAX_GENERATION};
use vstd::prelude::*;

verus! {

/// Whether a consumer is open on these pages and has the installed storage.
pub open spec fn open_on<T>(consumer: ConsumerState<T>, pages: Pages) -> bool {
    let id = consumer.incarnation.0;
    &&& pages.control.terminal == 0
    &&& pages.claims[id].active != 0
    &&& consumer.installed matches Some(mapping) && mapping.generation
        == pages.control.configuration
}

/// Whether a consumer of this producer can acquire: it is open, has the installed storage, and
/// at least one of its slots holds nothing.
pub open spec fn can_acquire<T, U>(state: ProducerState<T>, consumer: ConsumerState<U>) -> bool {
    let id = consumer.incarnation.0;
    &&& open_on(consumer, state.pages)
    &&& state.pages.claims.contains_key(id)
    &&& exists|i: int|
        0 <= i < state.pages.claims[id].slots.len() && #[trigger] state.pages.claims[id].slots[i]
            == 0
    &&& state.current matches Some(g) && (consumer.installed->0).generation == g && (
    consumer.installed->0).layout == state.pages.resources[g].layout
}

/// A consumer that can acquire still can after a frame was published.
proof fn lemma_published_reaches<T, U>(
    state: ProducerState<T>,
    consumer: ConsumerState<U>,
    offer: Offer,
    bytes: Seq<u8>,
    cursor: u64,
    after: u64,
)
    requires
        state.inv(),
        can_acquire(state, consumer),
        state.published(offer, bytes).1 == Ok::<PublishOutcome, ArenaError>(
            PublishOutcome::Published { cursor },
        ),
        after < cursor,
    ensures
        cursor == state.cursor + 1,
        ({
            let published = state.published(offer, bytes).0;
            let g = state.current->0;
            let index = state.tried(g, offer, state.resources()).1->0;
            let record = published.pages.resources[g].records[index];
            &&& offer.at(index) matches Ok(Some(given)) && {
                &&& published == state.advertised(
                    g,
                    state.tried(g, offer, state.resources()).0,
                    index,
                    given,
                    bytes,
                )
            }
            &&& published.inv()
            &&& record.payload == bytes
            &&& consumer.acquired_latest(published.pages, after).2 matches Acquisition::Frame(lease)
                && {
                &&& lease.descriptor == record.descriptor
                &&& lease.index == index
                &&& lease.mapping.generation == g
            }
            &&& consumer.acquired_exact(published.pages, cursor).2 matches Acquisition::Frame(lease)
                && {
                &&& lease.descriptor == record.descriptor
                &&& lease.index == index
                &&& lease.mapping.generation == g
            }
        }),
{
    let g = state.current->0;
    let n = state.resources();
    assert(state.pages.resources.contains_key(g));
    assert(state.resource_proper(g));
    let (page, found) = state.tried(g, offer, n);
    lemma_tried(state, g, offer, n);
    let index = found->0;
    let given = offer.at(index)->Ok_0->0;
    let published = state.published(offer, bytes).0;
    assert(published == state.advertised(g, page, index, given, bytes));
    lemma_advertised(state, g, offer, given, bytes, index);
    let id = consumer.incarnation.0;
    assert(published.pages.claims.contains_key(id));
    assert(published.pages.claims[id].slots == state.pages.claims[id].slots);
    assert(published.pages.claims[id].active == state.pages.claims[id].active);
    let control = published.pages.control;
    vstd::arithmetic::div_mod::lemma_mod_bound(cursor - 1, control.ring.len() as int);
    assert(control.ring[control.position(cursor)] == index + 1);
    assert(published.resource_proper(g));
    assert(record_proper(published.pages.resources[g], index));
    lemma_first_free(published.pages.claims[id].slots);
}

/// Whether two descriptors agree in everything that a producer supplies. What the arena stamps
/// itself is left out: the cursor, the generation, and where the payload lies.
pub open spec fn same_metadata(a: FrameDescriptor, b: FrameDescriptor) -> bool {
    &&& a.sequence == b.sequence
    &&& a.timestamp_ns == b.timestamp_ns
    &&& a.pool_id == b.pool_id
    &&& a.modifier == b.modifier
    &&& a.fence_id == b.fence_id
    &&& a.fence_value == b.fence_value
    &&& a.damage_base_sequence == b.damage_base_sequence
    &&& a.producer_drop_count == b.producer_drop_count
    &&& a.width == b.width
    &&& a.height == b.height
    &&& a.stride == b.stride
    &&& a.pixel_format == b.pixel_format
    &&& a.slot_id == b.slot_id
    &&& a.clock_domain == b.clock_domain
    &&& a.color_space == b.color_space
    &&& a.sync_kind == b.sync_kind
    &&& a.payload_kind == b.payload_kind
    &&& a.damage_kind == b.damage_kind
    &&& a.dropped_before_publish == b.dropped_before_publish
    &&& a.flags == b.flags
}

/// A frame that is published with its bytes is delivered with all the metadata that the producer
/// supplied, each field as it was given, and with those bytes, to whoever asks for the newest
/// frame or for that cursor. The arena itself stamps the next cursor, the installed generation,
/// and the place and the length of the payload.
pub proof fn published_metadata_is_delivered<T, U>(
    state: ProducerState<T>,
    consumer: ConsumerState<U>,
    descriptor: FrameDescriptor,
    bytes: Seq<u8>,
    cursor: u64,
    after: u64,
)
    requires
        state.inv(),
        can_acquire(state, consumer),
        state.published(Offer::Inline(descriptor), bytes).1 == Ok::<PublishOutcome, ArenaError>(
            PublishOutcome::Published { cursor },
        ),
        after < cursor,
    ensures
        cursor == state.cursor + 1,
        ({
            let published = state.published(Offer::Inline(descriptor), bytes).0;
            let g = state.current->0;
            &&& consumer.acquired_latest(published.pages, after).2 matches Acquisition::Frame(lease)
                && {
                let d = lease.descriptor;
                &&& d.sequence == descriptor.sequence
                &&& d.timestamp_ns == descriptor.timestamp_ns
                &&& d.pool_id == descriptor.pool_id
                &&& d.modifier == descriptor.modifier
                &&& d.fence_id == descriptor.fence_id
                &&& d.fence_value == descriptor.fence_value
                &&& d.damage_base_sequence == descriptor.damage_base_sequence
                &&& d.producer_drop_count == descriptor.producer_drop_count
                &&& d.width == descriptor.width
                &&& d.height == descriptor.height
                &&& d.stride == descriptor.stride
                &&& d.pixel_format == descriptor.pixel_format
                &&& d.slot_id == descriptor.slot_id
                &&& d.clock_domain == descriptor.clock_domain
                &&& d.color_space == descriptor.color_space
                &&& d.sync_kind == descriptor.sync_kind
                &&& d.payload_kind == descriptor.payload_kind
                &&& d.damage_kind == descriptor.damage_kind
                &&& d.dropped_before_publish == descriptor.dropped_before_publish
                &&& d.flags == descriptor.flags
                &&& d.cursor == cursor
                &&& d.config_generation == g
                &&& d.payload_len == bytes.len()
                &&& d.payload_offset + bytes.len() <= published.pages.resources[g].layout.len
                &&& lease.mapping.generation == g
                &&& published.pages.resources[g].records[lease.index as int].payload == bytes
            }
            &&& consumer.acquired_exact(published.pages, cursor).2 matches Acquisition::Frame(lease)
                && {
                &&& lease.descriptor.cursor == cursor
                &&& same_metadata(lease.descriptor, descriptor)
                &&& published.pages.resources[g].records[lease.index as int].payload == bytes
            }
        }),
{
    let offer = Offer::Inline(descriptor);
    lemma_published_reaches(state, consumer, offer, bytes, cursor, after);
    let g = state.current->0;
    assert(state.pages.resources.contains_key(g));
    assert(state.resource_proper(g));
    lemma_tried(state, g, offer, state.resources());
    let published = state.published(offer, bytes).0;
    let index = state.tried(g, offer, state.resources()).1->0;
    assert(published.resource_proper(g));
    let layout = published.pages.resources[g].layout;
    let n = layout.resources as int;
    let c = layout.payload_capacity as int;
    assert(index * c + c <= n * c) by (nonlinear_arith)
        requires
            index + 1 <= n,
            c >= 0,
    ;
}

/// A frame that is published in a prepared resource is delivered with the metadata that
/// preparing that resource gave, each field as it was given.
pub proof fn prepared_metadata_is_delivered<T, U>(
    state: ProducerState<T>,
    consumer: ConsumerState<U>,
    frames: Seq<Result<Option<FrameDescriptor>, ArenaError>>,
    cursor: u64,
    after: u64,
)
    requires
        state.inv(),
        can_acquire(state, consumer),
        state.published(Offer::Each(frames), Seq::empty()).1 == Ok::<PublishOutcome, ArenaError>(
            PublishOutcome::Published { cursor },
        ),
        after < cursor,
    ensures
        cursor == state.cursor + 1,
        ({
            let published = state.published(Offer::Each(frames), Seq::empty()).0;
            consumer.acquired_latest(published.pages, after).2 matches Acquisition::Frame(lease)
                && {
                &&& lease.index < frames.len()
                &&& frames[lease.index as int] matches Ok(Some(given)) && same_metadata(
                    lease.descriptor,
                    given,
                )
                &&& lease.descriptor.cursor == cursor
                &&& lease.descriptor.payload_len == 0
            }
        }),
{
    let offer = Offer::Each(frames);
    lemma_published_reaches(state, consumer, offer, Seq::empty(), cursor, after);
    let g = state.current->0;
    assert(state.pages.resources.contains_key(g));
    assert(state.resource_proper(g));
    lemma_tried(state, g, offer, state.resources());
}

/// A payload is refused as too large exactly where it is longer than the installed storage has
/// room for; nothing is published while no storage is installed; and after the last cursor the
/// arena is closed. Whatever is refused leaves the newest cursor as it was.
pub proof fn publication_refuses_what_does_not_fit<T>(
    state: ProducerState<T>,
    offer: Offer,
    bytes: Seq<u8>,
)
    requires
        state.inv(),
    ensures
        ({
            let (after, result) = state.published(offer, bytes);
            &&& state.current is None ==> result == Ok::<PublishOutcome, ArenaError>(
                PublishOutcome::Dropped,
            ) && after == state
            &&& state.current matches Some(g) ==> {
                let capacity = state.pages.resources[g].layout.payload_capacity;
                &&& bytes.len() > capacity ==> result == Err::<PublishOutcome, ArenaError>(
                    ArenaError::PayloadTooLarge,
                ) && after == state
                &&& bytes.len() <= capacity && state.cursor == MAX_GENERATION ==> {
                    &&& result
                        == Err::<PublishOutcome, ArenaError>(ArenaError::GenerationsExhausted)
                    &&& after.pages.control.terminal != 0
                    &&& forall|id: u64| #[trigger]
                        after.pages.claims.contains_key(id) ==> after.pages.claims[id].active == 0
                }
                &&& bytes.len() <= capacity && state.cursor < MAX_GENERATION && offer is Inline
                    ==> (
                result == Ok::<PublishOutcome, ArenaError>(PublishOutcome::Dropped)
                    || result == Ok::<
                    PublishOutcome,
                    ArenaError,
                >(PublishOutcome::Published { cursor: (state.cursor + 1) as u64 }))
            }
            &&& result is Err || result == Ok::<PublishOutcome, ArenaError>(PublishOutcome::Dropped)
                ==> after.cursor == state.cursor && after.pages.control.latest
                == state.pages.control.latest && after.pages.control.ring
                == state.pages.control.ring
            &&& result matches Ok(PublishOutcome::Published { cursor }) ==> {
                &&& after.cursor == cursor
                &&& after.pages.control.latest == cursor
                &&& cursor == state.cursor + 1
            }
        }),
{
}

/// Publication gives every frame that stays within the history as it was before: the same
/// descriptor and the same bytes under the same cursor.
pub proof fn publication_keeps_retained_frames<T>(
    state: ProducerState<T>,
    offer: Offer,
    bytes: Seq<u8>,
    cursor: u64,
)
    requires
        state.inv(),
        state.current is Some,
        1 <= cursor <= state.cursor,
        cursor >= state.pages.control.first_cursor,
        cursor > state.published(offer, bytes).0.cursor - state.history(),
    ensures
        ({
            let g = state.current->0;
            let after = state.published(offer, bytes).0;
            let at = state.pages.control.ring[(cursor - 1) % state.history()] - 1;
            let now = after.pages.control.ring[(cursor - 1) % state.history()] - 1;
            &&& after.pages.resources[g].records[now] == state.pages.resources[g].records[at]
            &&& after.pages.resources[g].records[now].descriptor.cursor == cursor
            &&& after.pages.resources[g].records[now].state == cursor * 2 + 1
        }),
{
    let g = state.current->0;
    assert(state.pages.resources.contains_key(g));
    assert(state.resource_proper(g));
    assert(state.retains(cursor));
    assert(acquirable(state.pages.control, state.pages.resources[g], cursor));
    let at = state.pages.control.ring[(cursor - 1) % state.history()] - 1;
    assert(record_proper(state.pages.resources[g], at));
    assert(state.pages.resources[g].records[at].generation() == cursor);
    lemma_tried(state, g, offer, state.resources());
    let (page, found) = state.tried(g, offer, state.resources());
    assert(page.records[at] == state.pages.resources[g].records[at] || page.records[at]
        == state.pages.resources[g].records[at].retired());
    let after = state.published(offer, bytes).0;
    if after.cursor != state.cursor {
        let h = state.history();
        vstd::arithmetic::div_mod::lemma_mod_bound(cursor - 1, h);
        vstd::arithmetic::div_mod::lemma_mod_bound(state.cursor as int, h);
        super::upkeep::lemma_positions_differ(cursor - 1, state.cursor as int, h);
    }
}

/// Publication takes no claim away and gives none: every slot of every incarnation stays what it
/// was, and everybody who waits for data is woken when a frame was published.
pub proof fn publication_leaves_claims_alone<T>(
    state: ProducerState<T>,
    offer: Offer,
    bytes: Seq<u8>,
    id: u64,
)
    requires
        state.inv(),
        state.pages.claims.contains_key(id),
    ensures
        ({
            let (after, result) = state.published(offer, bytes);
            let was = state.pages.claims[id];
            let is = after.pages.claims[id];
            &&& after.pages.claims.contains_key(id)
            &&& is.slots == was.slots
            &&& is.pending == was.pending
            &&& is.release_ids == was.release_ids
            &&& is.release_values == was.release_values
            &&& is.mappings == was.mappings
            &&& is.capacity_epoch == was.capacity_epoch
            &&& result is Ok ==> is.active == was.active
            &&& result is Ok && !(result->Ok_0 is Dropped) && was.wait_interest & 1 != 0 ==> is.wake
        }),
{
}

/// Asking for the newest frame after a cursor never gives a frame at or before that cursor. Where
/// nothing newer was published the outcome is `Empty` and nothing changes; and what is given is
/// the newest frame of the installed storage.
pub proof fn newest_frames_are_newer<T>(consumer: ConsumerState<T>, pages: Pages, after: u64)
    ensures
        ({
            let (left, held, outcome) = consumer.acquired_latest(pages, after);
            &&& outcome matches Acquisition::Frame(lease) ==> {
                &&& lease.descriptor.cursor > after
                &&& lease.descriptor.cursor == pages.control.latest
                &&& lease.descriptor.cursor >= pages.control.first_cursor
            }
            &&& open_on(consumer, pages) && pages.control.latest <= after ==> {
                &&& outcome is Empty
                &&& left == consumer
                &&& held == pages
            }
            &&& open_on(consumer, pages) && pages.control.latest < pages.control.first_cursor ==> {
                &&& outcome is Empty
                &&& left == consumer
                &&& held == pages
            }
            &&& outcome is Empty ==> open_on(consumer, pages) && (pages.control.latest <= after
                || pages.control.latest < pages.control.first_cursor)
            &&& !(outcome is Gap)
        }),
{
}

/// Ordered delivery never gives a frame at or before the cursor that was asked after, and from a
/// cursor on only the frame right after it; where nothing newer was published the outcome is
/// `Empty` and nothing changes.
pub proof fn next_frames_follow<T>(consumer: ConsumerState<T>, pages: Pages, after: u64)
    ensures
        ({
            let (left, held, outcome) = consumer.acquired_next(pages, after);
            &&& outcome matches Acquisition::Frame(lease) ==> {
                &&& lease.descriptor.cursor > after || pages.control.first_cursor == 0
                &&& after != 0 ==> lease.descriptor.cursor == after + 1
                &&& lease.descriptor.cursor <= pages.control.latest
                &&& lease.descriptor.cursor >= pages.control.first_cursor
            }
            &&& outcome matches Acquisition::Gap { first, last } ==> {
                &&& first == after + 1
                &&& first <= last
                &&& left == consumer
                &&& held == pages
            }
            &&& open_on(consumer, pages) && pages.control.latest <= after ==> {
                &&& outcome is Empty
                &&& left == consumer
                &&& held == pages
            }
            &&& outcome is Empty ==> open_on(consumer, pages)
        }),
{
}

/// Asking for one cursor that was not published yet gives `Empty`, and asking for one that was
/// never gives `Empty`.
pub proof fn exact_requests_wait_only_for_the_future<T>(
    consumer: ConsumerState<T>,
    pages: Pages,
    cursor: u64,
)
    ensures
        open_on(consumer, pages) && cursor > pages.control.latest ==> {
            let (left, held, outcome) = consumer.acquired_exact(pages, cursor);
            outcome is Empty && left == consumer && held == pages
        },
        cursor <= pages.control.latest ==> !(consumer.acquired_exact(pages, cursor).2 is Empty),
{
}

/// Nothing is acquired once the arena or the incarnation is closed, nor under storage that is not
/// the installed one, whatever is asked for: the first is told as `Closed`, the second as
/// `Reconfiguration`, and nothing changes.
pub proof fn nothing_is_acquired_unless_open<T>(
    consumer: ConsumerState<T>,
    pages: Pages,
    cursor: u64,
)
    ensures
        ({
            let id = consumer.incarnation.0;
            let closed = pages.control.terminal != 0 || pages.claims[id].active == 0;
            let stale = match consumer.installed {
                Some(mapping) => mapping.generation != pages.control.configuration,
                None => true,
            };
            &&& closed ==> {
                &&& consumer.acquired_latest(pages, cursor)
                    == (consumer, pages, Acquisition::Closed)
                &&& consumer.acquired_next(pages, cursor) == (consumer, pages, Acquisition::Closed)
                &&& consumer.acquired_exact(pages, cursor) == (consumer, pages, Acquisition::Closed)
            }
            &&& !closed && stale ==> {
                &&& consumer.acquired_latest(pages, cursor) == (
                    consumer,
                    pages,
                    Acquisition::Reconfiguration,
                )
                &&& consumer.acquired_next(pages, cursor) == (
                    consumer,
                    pages,
                    Acquisition::Reconfiguration,
                )
                &&& consumer.acquired_exact(pages, cursor) == (
                    consumer,
                    pages,
                    Acquisition::Reconfiguration,
                )
            }
        }),
{
}

/// Whether an acquisition took one slot that held nothing, for the frame that it gives, and
/// changed nothing else on the pages.
pub open spec fn one_slot_taken<T>(
    consumer: ConsumerState<T>,
    pages: Pages,
    left: ConsumerState<T>,
    held: Pages,
    lease: LeaseTerms,
) -> bool {
    let id = consumer.incarnation.0;
    let was = pages.claims[id];
    let is = held.claims[id];
    &&& lease.slot < was.slots.len()
    &&& was.slots[lease.slot as int] == 0
    &&& is.slots == was.slots.update(lease.slot as int, lease.descriptor.cursor)
    &&& is.pending == was.pending
    &&& is.mappings == was.mappings
    &&& is.capacity_epoch == was.capacity_epoch
    &&& is.active == was.active
    &&& held.control == pages.control
    &&& held.resources == pages.resources
    &&& forall|other: u64|
        other != id ==> #[trigger] held.claims.contains_key(other) == pages.claims.contains_key(
            other,
        ) && held.claims[other] == pages.claims[other]
    &&& left.held == consumer.held.update(lease.slot as int, Some(lease.mapping))
    &&& left.installed == consumer.installed
    &&& lease.mapping == consumer.installed->0
    &&& pages.resources[lease.mapping.generation].records[lease.index as int].descriptor
        == lease.descriptor
    &&& pages.resources[lease.mapping.generation].records[lease.index as int].state
        == lease.descriptor.cursor * 2 + 1
}

/// A frame is acquired into one slot that held nothing, and only while its resource can be
/// acquired under its cursor. Everything else that is asked for leaves every slot as it was; and
/// where no slot is free, the outcome is never a frame.
pub proof fn frames_take_one_free_slot<T>(consumer: ConsumerState<T>, pages: Pages, cursor: u64)
    requires
        pages.claims.contains_key(consumer.incarnation.0),
        pages.claims[consumer.incarnation.0].slots.len() <= usize::MAX,
    ensures
        ({
            let (left, held, outcome) = consumer.acquired_latest(pages, cursor);
            &&& outcome matches Acquisition::Frame(lease) ==> one_slot_taken(
                consumer,
                pages,
                left,
                held,
                lease,
            )
            &&& !(outcome is Frame) ==> held.claims[consumer.incarnation.0].slots
                =~= pages.claims[consumer.incarnation.0].slots && held.resources == pages.resources
                && held.control == pages.control
        }),
        ({
            let (left, held, outcome) = consumer.acquired_next(pages, cursor);
            &&& outcome matches Acquisition::Frame(lease) ==> one_slot_taken(
                consumer,
                pages,
                left,
                held,
                lease,
            )
            &&& !(outcome is Frame) ==> held.claims[consumer.incarnation.0].slots
                =~= pages.claims[consumer.incarnation.0].slots && held.resources == pages.resources
                && held.control == pages.control
        }),
        ({
            let (left, held, outcome) = consumer.acquired_exact(pages, cursor);
            &&& outcome matches Acquisition::Frame(lease) ==> one_slot_taken(
                consumer,
                pages,
                left,
                held,
                lease,
            )
            &&& !(outcome is Frame) ==> held.claims[consumer.incarnation.0].slots
                =~= pages.claims[consumer.incarnation.0].slots && held.resources == pages.resources
                && held.control == pages.control
        }),
{
    lemma_first_free(pages.claims[consumer.incarnation.0].slots);
    assert forall|at: u64| #![trigger consumer.acquired(pages, at)] true implies {
        let (left, held, outcome) = consumer.acquired(pages, at);
        &&& outcome matches Acquisition::Frame(lease) ==> one_slot_taken(
            consumer,
            pages,
            left,
            held,
            lease,
        )
        &&& !(outcome is Frame) ==> held.claims[consumer.incarnation.0].slots
            =~= pages.claims[consumer.incarnation.0].slots && held.resources == pages.resources
            && held.control == pages.control
    } by {}
}

/// The holding limit is met exactly where every slot holds something: a consumer with a free
/// slot never meets it, and one without gets no frame.
pub proof fn holdings_are_bounded_by_their_slots<T>(
    consumer: ConsumerState<T>,
    pages: Pages,
    cursor: u64,
)
    ensures
        ({
            let slots = pages.claims[consumer.incarnation.0].slots;
            let full = forall|i: int| 0 <= i < slots.len() ==> #[trigger] slots[i] != 0;
            &&& consumer.acquired_latest(pages, cursor).2 is HoldingLimit ==> full
            &&& consumer.acquired_next(pages, cursor).2 is HoldingLimit ==> full
            &&& consumer.acquired_exact(pages, cursor).2 is HoldingLimit ==> full
            &&& full ==> !(consumer.acquired_latest(pages, cursor).2 is Frame)
            &&& full ==> !(consumer.acquired_next(pages, cursor).2 is Frame)
            &&& full ==> !(consumer.acquired_exact(pages, cursor).2 is Frame)
        }),
{
    lemma_first_free(pages.claims[consumer.incarnation.0].slots);
}

/// Giving a lease back frees its slot and no other, counts the epoch of returned credit up,
/// wakes a consumer that waits for capacity, and leaves what the others hold alone.
pub proof fn released_slots_are_free_again<T>(
    consumer: ConsumerState<T>,
    pages: Pages,
    lease: LeaseTerms,
)
    requires
        lease.slot < pages.claims[consumer.incarnation.0].slots.len(),
        lease.slot < pages.claims[consumer.incarnation.0].pending.len(),
        pages.claims[consumer.incarnation.0].pending.len()
            == pages.claims[consumer.incarnation.0].slots.len(),
    ensures
        ({
            let was = pages.claims[consumer.incarnation.0];
            let (left, is) = consumer.released(was, lease);
            &&& is.slots.len() == was.slots.len()
            &&& is.slots[lease.slot as int] == 0
            &&& is.pending[lease.slot as int] == 0
            &&& forall|i: int|
                0 <= i < was.slots.len() && i != lease.slot ==> #[trigger] is.slots[i]
                    == was.slots[i] && is.pending[i] == was.pending[i]
            &&& was.capacity_epoch < u64::MAX ==> is.capacity_epoch == was.capacity_epoch + 1
                && is.active == was.active
            &&& was.capacity_epoch == u64::MAX ==> is.active == 0
            &&& was.wait_interest & CAPACITY != 0 ==> is.wake
            &&& is.release_ids == was.release_ids
            &&& is.quiescent == was.quiescent
            &&& left.held == consumer.held.update(lease.slot as int, None)
            &&& left.pending == consumer.pending
            &&& left.installed == consumer.installed
            &&& left.alive == consumer.alive
            &&& first_free(is.slots) is Some
        }),
{
    let was = pages.claims[consumer.incarnation.0];
    let is = consumer.released(was, lease).1;
    assert(is.slots[lease.slot as int] == 0);
    lemma_first_free(is.slots);
}

/// A search ends where it would end for a frame that needs no preparation, while every resource is
/// ready or fails.
proof fn lemma_ready_like_inline<T>(
    state: ProducerState<T>,
    generation: u64,
    frames: Seq<Result<Option<FrameDescriptor>, ArenaError>>,
    descriptor: FrameDescriptor,
    count: int,
)
    requires
        state.resources() > 0,
        frames.len() == state.resources(),
        forall|i: int|
            0 <= i < frames.len() ==> !((#[trigger] frames[i]) == Ok::<
                Option<FrameDescriptor>,
                ArenaError,
            >(None)),
    ensures
        state.tried(generation, Offer::Each(frames), count) == state.tried(
            generation,
            Offer::Inline(descriptor),
            count,
        ),
        state.tried(generation, Offer::Each(frames), count).1 matches Some(at) ==> 0 <= at
            < frames.len(),
    decreases count,
{
    if count > 0 {
        lemma_ready_like_inline(state, generation, frames, descriptor, count - 1);
        let n = state.resources();
        let index = (state.next_slot + count - 1) % n;
        assert(0 <= index < n);
        assert(frames[index] != Ok::<Option<FrameDescriptor>, ArenaError>(None));
    }
}

/// Where every resource is ready when it is asked for, publication succeeds, whatever consumers
/// hold: the next cursor is given out.
pub proof fn ready_resources_are_published<T>(
    state: ProducerState<T>,
    frames: Seq<Result<Option<FrameDescriptor>, ArenaError>>,
    bytes: Seq<u8>,
)
    requires
        state.inv(),
        state.current matches Some(g) && bytes.len()
            <= state.pages.resources[g].layout.payload_capacity,
        state.cursor < MAX_GENERATION,
        frames.len() == state.resources(),
        forall|i: int| 0 <= i < frames.len() ==> ((#[trigger] frames[i]) matches Ok(Some(_))),
    ensures
        state.published(Offer::Each(frames), bytes).1 == Ok::<PublishOutcome, ArenaError>(
            PublishOutcome::Published { cursor: (state.cursor + 1) as u64 },
        ),
{
    let g = state.current->0;
    let any = (frames[0]->Ok_0)->0;
    assert(state.pages.resources.contains_key(g));
    lemma_ready_like_inline(state, g, frames, any, state.resources());
    holdings_never_starve_publication(state, any, bytes);
}

/// A resource whose preparation fails ends the search: the error is told, and no frame is given out.
pub proof fn failed_preparations_are_told<T>(
    state: ProducerState<T>,
    frames: Seq<Result<Option<FrameDescriptor>, ArenaError>>,
    bytes: Seq<u8>,
)
    requires
        state.inv(),
        state.current matches Some(g) && bytes.len()
            <= state.pages.resources[g].layout.payload_capacity,
        state.cursor < MAX_GENERATION,
        frames.len() == state.resources(),
        forall|i: int| 0 <= i < frames.len() ==> ((#[trigger] frames[i]) is Err),
    ensures
        state.published(Offer::Each(frames), bytes).1 is Err,
        state.published(Offer::Each(frames), bytes).0.cursor == state.cursor,
        state.published(Offer::Each(frames), bytes).0.pages.control == state.pages.control,
        state.published(Offer::Each(frames), bytes).0.pages.claims == state.pages.claims,
        exists|i: int|
            0 <= i < frames.len() && state.published(Offer::Each(frames), bytes).1 == Err::<
                PublishOutcome,
                ArenaError,
            >((#[trigger] frames[i])->Err_0),
{
    let g = state.current->0;
    let any = state.pages.resources[g].records[0].descriptor;
    assert(state.pages.resources.contains_key(g));
    lemma_ready_like_inline(state, g, frames, any, state.resources());
    holdings_never_starve_publication(state, any, bytes);
    let at = state.tried(g, Offer::Each(frames), state.resources()).1->0;
    assert(frames[at] is Err);
}

/// A search that ends at its first resource ends there however far it might go.
proof fn lemma_first_candidate_ends_the_search<T>(
    state: ProducerState<T>,
    generation: u64,
    offer: Offer,
    count: int,
)
    requires
        count >= 1,
        state.tried(generation, offer, 1).1 is Some,
    ensures
        state.tried(generation, offer, count) == state.tried(generation, offer, 1),
    decreases count,
{
    if count > 1 {
        lemma_first_candidate_ends_the_search(state, generation, offer, count - 1);
    }
}

/// Resources are used in turn: a frame goes into the resource whose turn it is, if that holds no
/// frame of the history and none that anybody claims, and then it is the next one's turn.
pub proof fn resources_are_used_in_turn<T>(
    state: ProducerState<T>,
    descriptor: FrameDescriptor,
    bytes: Seq<u8>,
)
    requires
        state.inv(),
        state.current matches Some(g) && bytes.len()
            <= state.pages.resources[g].layout.payload_capacity,
        state.cursor < MAX_GENERATION,
        ({
            let held = state.pages.resources[state.current->0].records[state.next_slot as int].state
                as int / 2;
            held == 0 || held + state.history() <= state.cursor && forall|id: u64, i: int|
                #![trigger state.pages.claims[id].slots[i]]
                state.pages.claims.contains_key(id) && 0 <= i < state.pages.claims[id].slots.len()
                    ==> state.pages.claims[id].slots[i] != held
        }),
    ensures
        ({
            let (after, result) = state.published(Offer::Inline(descriptor), bytes);
            let turn = state.next_slot as int;
            let record = after.pages.resources[state.current->0].records[turn];
            &&& result == Ok::<PublishOutcome, ArenaError>(
                PublishOutcome::Published { cursor: (state.cursor + 1) as u64 },
            )
            &&& record.state as int / 2 == state.cursor + 1
            &&& record.payload == bytes
            &&& after.next_slot == (if turn + 1 == state.resources() {
                0
            } else {
                turn + 1
            })
        }),
{
    let g = state.current->0;
    let offer = Offer::Inline(descriptor);
    let n = state.resources();
    let turn = state.next_slot as int;
    assert(state.pages.resources.contains_key(g));
    assert(state.resource_proper(g));
    assert((turn + 1 - 1) % n == turn) by (nonlinear_arith)
        requires
            0 <= turn < n,
    ;
    let held = state.pages.resources[g].records[turn].generation();
    if held != 0 {
        assert(!state.pages.claimed(held as u64));
    }
    assert(state.tried(g, offer, 0) == (state.pages.resources[g], None::<int>));
    assert(state.tried(g, offer, 1).1 == Some(turn));
    lemma_first_candidate_ends_the_search(state, g, offer, n);
    lemma_tried(state, g, offer, n);
    if turn + 1 < n {
        assert((turn + 1) % n == turn + 1) by (nonlinear_arith)
            requires
                0 <= turn,
                turn + 1 < n,
        ;
    } else {
        assert((turn + 1) % n == 0) by (nonlinear_arith)
            requires
                turn + 1 == n,
                n > 0,
        ;
    }
}

/// Ordered delivery skips nothing in silence: whoever is behind is told of precisely the cursors
/// that are gone, up to the oldest that is kept, and is served from there; a newcomer is served from
/// the oldest that is kept.
pub proof fn gaps_are_exactly_what_is_gone<T>(consumer: ConsumerState<T>, pages: Pages, after: u64)
    requires
        open_on(consumer, pages),
        pages.control.first_cursor >= 1,
        pages.control.ring.len() >= 1,
        after < pages.control.latest,
        pages.control.first_cursor <= pages.control.latest,
    ensures
        ({
            let control = pages.control;
            let kept = control.ring.len();
            let outcome = consumer.acquired_next(pages, after).2;
            let gone = after + 1 < control.first_cursor || after + kept < control.latest;
            &&& after > 0 && gone ==> outcome is Gap
            &&& after == 0 || !gone ==> !(outcome is Gap) && !(outcome is Empty)
            &&& outcome matches Acquisition::Gap { first, last } ==> {
                &&& first == after + 1
                &&& last < control.latest
                &&& last + 1 >= control.first_cursor
                &&& last + kept >= control.latest
                &&& last + 1 == control.first_cursor || last + kept == control.latest
                &&& !(consumer.acquired_next(pages, last).2 is Gap)
                &&& !(consumer.acquired_next(pages, last).2 is Empty)
            }
            &&& after == 0 ==> (outcome matches Acquisition::Frame(lease) ==> {
                let cursor = lease.descriptor.cursor;
                &&& cursor >= control.first_cursor
                &&& cursor + kept > control.latest
                &&& cursor == control.first_cursor || cursor + kept == control.latest + 1
            })
        }),
{
}

/// A claim that does not hold is given up and its slot is free again: a resource that holds another
/// frame by now is a miss, and otherwise closure and replacement are told. One that holds is a lease
/// of that slot and that cursor.
pub proof fn claims_are_concluded_in_order<T>(
    consumer: ConsumerState<T>,
    pages: Pages,
    cursor: u64,
    index: usize,
    slot: usize,
    valid: bool,
)
    requires
        slot < pages.claims[consumer.incarnation.0].slots.len(),
        consumer.installed is Some,
    ensures
        ({
            let id = consumer.incarnation.0;
            let (after, left, outcome) = consumer.concluded(pages, cursor, index, slot, valid);
            let shut = pages.claims[id].active == 0 || pages.control.terminal != 0;
            let current = (consumer.installed->0).generation == pages.control.configuration;
            &&& !valid ==> outcome == (Acquisition::Miss { cursor })
            &&& valid && shut ==> outcome is Closed
            &&& valid && !shut && !current ==> outcome is Reconfiguration
            &&& outcome matches Acquisition::Frame(lease) ==> {
                &&& valid && !shut && current
                &&& lease.slot == slot
                &&& lease.index == index
                &&& lease.descriptor.cursor == cursor
                &&& lease.descriptor.payload_len <= lease.mapping.layout.payload_capacity
                &&& lease.descriptor.payload_offset == lease.mapping.layout.payload + index
                    * lease.mapping.layout.payload_capacity
                &&& Some(lease.mapping) == consumer.installed
                &&& after == consumer
                &&& left == pages
            }
            &&& !(outcome is Frame) ==> {
                &&& left.claims[id].slots == pages.claims[id].slots.update(slot as int, 0)
                &&& after.held == consumer.held.update(slot as int, None)
                &&& left.resources == pages.resources
                &&& left.control == pages.control
            }
        }),
{
}

/// A lease that ends lets its storage go exactly where nothing else keeps it: not what is installed,
/// not another lease, and nothing that was handed to a completion.
pub proof fn storage_is_let_go_with_its_last_use<T>(
    consumer: ConsumerState<T>,
    page: super::claims::ClaimPage,
    lease: LeaseTerms,
)
    requires
        lease.slot < consumer.held.len(),
        consumer.pending.len() == consumer.held.len(),
        lease.mapping.slot < page.mappings.len(),
    ensures
        ({
            let (_, left) = consumer.released(page, lease);
            let kept = (consumer.installed matches Some(mapping) && mapping.slot
                == lease.mapping.slot) || (exists|i: int|
                0 <= i < consumer.held.len() && i != lease.slot && ((
                #[trigger] consumer.held[i]) matches Some(mapping) && mapping.slot
                    == lease.mapping.slot)) || (exists|i: int|
                0 <= i < consumer.held.len() && ((#[trigger] consumer.pending[i]) matches Some(
                    waits,
                ) && waits.mapping.slot == lease.mapping.slot));
            &&& kept ==> left.mappings == page.mappings
            &&& !kept ==> left.mappings == page.mappings.update(lease.mapping.slot as int, 0)
                && left.release_wake
        }),
{
    let after = consumer.gave_back(lease.slot);
    assert(forall|i: int|
        0 <= i < consumer.held.len() && i != lease.slot ==> #[trigger] after.held[i]
            == consumer.held[i]);
    let word = lease.mapping.slot;
    if exists|i: int|
        0 <= i < consumer.held.len() && i != lease.slot
            && ((#[trigger] consumer.held[i]) matches Some(
            mapping,
        ) && mapping.slot == word) {
        let i = choose|i: int|
            0 <= i < consumer.held.len() && i != lease.slot && ((
            #[trigger] consumer.held[i]) matches Some(mapping) && mapping.slot == word);
        assert(after.held[i] == consumer.held[i]);
        assert(after.uses(word));
    }
    if after.uses(word) {
        if exists|i: int|
            0 <= i < after.frames() && ((#[trigger] after.held[i]) matches Some(mapping)
                && mapping.slot == word) {
            let i = choose|i: int|
                0 <= i < after.frames() && ((#[trigger] after.held[i]) matches Some(mapping)
                    && mapping.slot == word);
            assert(consumer.held[i] == after.held[i]);
        }
    }
}

} // verus!
