//! What a replacement of the storage keeps, and what it ends.

use super::cleanup::{ReleaseTimeline, TimelineAnswer};
use super::grants::GrantTerms;
use super::holding::{Acquisition, ConsumerState};
use super::laws::cleanup_keeps_used_storage;
use super::layout::{claim_bytes, length_fits, resource_bytes, rounding_is_tight};
use super::producer::reconfiguration::{lemma_begun, lemma_told, ReconfigurationStatus};
use super::state::{Offer, ProducerState};
use super::turns::lemma_cleanup_leaves_claims;
use super::{ArenaError, PublishOutcome, ScopeId};
use crate::acquisition::AdmissionError;
use vstd::prelude::*;

verus! {

/// Whether a frame that is claimed in `before` is the same in `after`: its resource generation
/// is still there, and it has its descriptor and its bytes.
pub open spec fn frame_kept<T>(
    before: ProducerState<T>,
    after: ProducerState<T>,
    generation: u64,
    index: int,
) -> bool {
    let was = before.pages.resources[generation].records[index];
    let is = after.pages.resources[generation].records[index];
    &&& after.pages.resources.contains_key(generation)
    &&& is.descriptor == was.descriptor
    &&& is.payload == was.payload
    &&& is.generation() == was.generation()
}

/// Whether everything that is held in `before` is held in `after`: every claim whose use was
/// not handed over, and every claimed frame, of whichever generation; and cursors, limits and
/// reservations are the same.
pub open spec fn carried_over<T>(before: ProducerState<T>, after: ProducerState<T>) -> bool {
    &&& after.cursor == before.cursor
    &&& after.accounts.limits == before.accounts.limits
    &&& after.pages.control.ring.len() == before.pages.control.ring.len()
    &&& forall|id: u64| #[trigger]
        after.accounts.reservations.contains_key(id)
            ==> before.accounts.reservations.contains_key(id)
            && after.accounts.reservations[id] == before.accounts.reservations[id]
    &&& forall|id: u64, slot: int, cursor: u64| #[trigger]
        before.claims_in(id, slot, cursor) ==> after.claims_in(id, slot, cursor)
    &&& forall|generation: u64, index: int, id: u64, slot: int|
        before.pages.resources.contains_key(generation) && 0 <= index
            < before.pages.resources[generation].records.len() && before.claims_in(
            id,
            slot,
            before.pages.resources[generation].records[index].generation() as u64,
        ) ==> #[trigger] frame_kept(before, after, generation, index) && #[trigger] after.claims_in(
            id,
            slot,
            before.pages.resources[generation].records[index].generation() as u64,
        )
}

/// Whether `after` has installed a generation that `before` never had, in which the next frame
/// is the first.
pub open spec fn installed_anew<T>(
    before: ProducerState<T>,
    after: ProducerState<T>,
    generation: u64,
) -> bool {
    &&& after.current == Some(generation)
    &&& after.pages.control.configuration == generation
    &&& after.pages.control.first_cursor == before.cursor + 1
    &&& before.accounts.next_allocation <= generation < after.accounts.next_allocation
    &&& forall|g: u64| #[trigger] before.pages.resources.contains_key(g) ==> g < generation
    &&& forall|g: u64| #[trigger] before.accounts.allocations.contains_key(g) ==> g < generation
}

/// What is held outlasts that the old generation is withdrawn.
proof fn lemma_beginning<T>(
    state: ProducerState<T>,
    begun: ProducerState<T>,
    payload_capacity: usize,
    external_bytes: u64,
    native_pending: bool,
)
    requires
        state.inv(),
        state.begins(begun, payload_capacity, external_bytes, native_pending, Ok(())),
    ensures
        begun.inv(),
        carried_over(state, begun),
        begun.pending_layout is Some,
        begun.accounts.next_allocation == state.accounts.next_allocation,
        begun.accounts.allocations == state.accounts.allocations,
        begun.pages.resources.dom() == state.pages.resources.dom(),
        begun.pages.control.first_cursor == state.cursor + 1,
{
    let g = state.current->0;
    assert(state.pages.resources.contains_key(g));
    assert(state.resource_proper(g));
    let layout = state.replaced_layout(payload_capacity);
    let bytes = resource_bytes(state.resources(), payload_capacity as int);
    let c = payload_capacity as int;
    let n = state.resources();
    assert(n * c >= 0) by (nonlinear_arith)
        requires
            n >= 0,
            c >= 0,
    ;
    rounding_is_tight(bytes, state.page_size as int);
    let bound = (layout.len + external_bytes) as u64;
    let middle = state.begun(layout, bound, native_pending);
    lemma_begun(state, layout, bound, native_pending);
    lemma_told(middle);
    assert(begun == middle.told().0);
    assert(begun.pages.resources.dom() =~= state.pages.resources.dom());
    assert forall|generation: u64, index: int, id: u64, slot: int|
        state.pages.resources.contains_key(generation) && 0 <= index
            < state.pages.resources[generation].records.len() && state.claims_in(
            id,
            slot,
            state.pages.resources[generation].records[index].generation() as u64,
        ) implies #[trigger] frame_kept(state, begun, generation, index) && #[trigger] begun.claims_in(
        id,
        slot,
        state.pages.resources[generation].records[index].generation() as u64,
    ) by {
        assert(begun.claims_in(
            id,
            slot,
            state.pages.resources[generation].records[index].generation() as u64,
        ));
    }
}

/// What is held outlasts a round of cleanup.
proof fn lemma_cleaning<T: ReleaseTimeline>(
    state: ProducerState<T>,
    now: u128,
    answers: Map<u64, Seq<TimelineAnswer>>,
)
    requires
        state.inv(),
        state.complete_look(now, answers),
    ensures
        carried_over(state, state.cleaned(now, answers)),
{
    let after = state.cleaned(now, answers);
    lemma_cleanup_leaves_claims(state, now, answers);
    assert forall|generation: u64, index: int, id: u64, slot: int|
        state.pages.resources.contains_key(generation) && 0 <= index
            < state.pages.resources[generation].records.len() && state.claims_in(
            id,
            slot,
            state.pages.resources[generation].records[index].generation() as u64,
        ) implies #[trigger] frame_kept(state, after, generation, index) && #[trigger] after.claims_in(
        id,
        slot,
        state.pages.resources[generation].records[index].generation() as u64,
    ) by {
        let cursor = state.pages.resources[generation].records[index].generation() as u64;
        assert(after.claims_in(id, slot, cursor));
        let left = state.observed(now, answers).collected();
        assert(left.pages.claims[id].slots[slot] == cursor);
        assert(left.pages.claims[id].holds(cursor));
        assert(left.pages.claims.contains_key(id));
        assert(left.pages.claimed(cursor));
        assert(left.pages.resources[generation].records[index].generation() != 0);
        assert(left.pages.holds_frame_of(generation));
        cleanup_keeps_used_storage(state, now, answers, generation);
    }
}

/// What is held outlasts that the new generation is installed.
proof fn lemma_installing<T>(state: ProducerState<T>, generation: u64)
    requires
        state.inv(),
        state.pending_layout is Some,
        state.advanced().1 == Ok::<ReconfigurationStatus, ArenaError>(
            ReconfigurationStatus::Ready { generation },
        ),
    ensures
        carried_over(state, state.advanced().0),
        installed_anew(state, state.advanced().0, generation),
{
    let after = state.advanced().0;
    assert forall|g: u64, index: int, id: u64, slot: int|
        state.pages.resources.contains_key(g) && 0 <= index
            < state.pages.resources[g].records.len() && state.claims_in(
            id,
            slot,
            state.pages.resources[g].records[index].generation() as u64,
        ) implies #[trigger] frame_kept(state, after, g, index) && #[trigger] after.claims_in(
        id,
        slot,
        state.pages.resources[g].records[index].generation() as u64,
    ) by {
        assert(after.claims_in(
            id,
            slot,
            state.pages.resources[g].records[index].generation() as u64,
        ));
    }
}

proof fn lemma_carried_twice<T>(a: ProducerState<T>, b: ProducerState<T>, c: ProducerState<T>)
    requires
        carried_over(a, b),
        carried_over(b, c),
        forall|g: u64| #[trigger]
            a.pages.resources.contains_key(g) && b.pages.resources.contains_key(g)
                ==> a.pages.resources[g].records.len() == b.pages.resources[g].records.len(),
    ensures
        carried_over(a, c),
{
    assert forall|id: u64, slot: int, cursor: u64| #[trigger]
        a.claims_in(id, slot, cursor) implies c.claims_in(id, slot, cursor) by {
        assert(b.claims_in(id, slot, cursor));
    }
    assert forall|generation: u64, index: int, id: u64, slot: int|
        a.pages.resources.contains_key(generation) && 0 <= index
            < a.pages.resources[generation].records.len() && a.claims_in(
            id,
            slot,
            a.pages.resources[generation].records[index].generation() as u64,
        ) implies #[trigger] frame_kept(a, c, generation, index) && #[trigger] c.claims_in(
        id,
        slot,
        a.pages.resources[generation].records[index].generation() as u64,
    ) by {
        let cursor = a.pages.resources[generation].records[index].generation() as u64;
        assert(frame_kept(a, b, generation, index) && b.claims_in(id, slot, cursor));
        assert(b.pages.resources[generation].records[index].generation() as u64 == cursor);
        assert(frame_kept(b, c, generation, index) && c.claims_in(id, slot, cursor));
    }
}

/// A replacement of inline storage that is ready installs a generation with an identity that
/// was never used. Everything that was held is held as before, with its bytes; cursors go on
/// from where they were; and the history and every holding reservation stay what they were.
pub proof fn replacement_keeps_what_is_held<T: ReleaseTimeline>(
    state: ProducerState<T>,
    after: ProducerState<T>,
    payload_capacity: usize,
    now: u128,
    generation: u64,
)
    requires
        state.inv(),
        state.reconfigures_cpu(
            after,
            payload_capacity,
            now,
            Ok(ReconfigurationStatus::Ready { generation }),
        ),
    ensures
        carried_over(state, after),
        installed_anew(state, after, generation),
{
    let result = Ok::<ReconfigurationStatus, ArenaError>(
        ReconfigurationStatus::Ready { generation },
    );
    let (begun, started) = choose|begun: ProducerState<T>, started: Result<(), ArenaError>|
        {
            &&& #[trigger] state.begins(begun, payload_capacity, 0, false, started)
            &&& match started {
                Err(error) => {
                    &&& result == Err::<ReconfigurationStatus, ArenaError>(error)
                    &&& after == begun
                },
                Ok(()) => exists|answers: Map<u64, Seq<TimelineAnswer>>|
                    {
                        &&& begun.complete_look(now, answers)
                        &&& (after, result) == (#[trigger] begun.cleaned(now, answers)).advanced()
                    },
            }
        };
    assert(started is Ok);
    assert(state.begins(begun, payload_capacity, 0, false, started));
    assert(state.begins(begun, payload_capacity, 0, false, Ok(())));
    lemma_beginning(state, begun, payload_capacity, 0, false);
    let answers = choose|answers: Map<u64, Seq<TimelineAnswer>>|
        {
            &&& begun.complete_look(now, answers)
            &&& (after, result) == (#[trigger] begun.cleaned(now, answers)).advanced()
        };
    resumed_replacement(begun, after, now, answers, generation);
    lemma_carried_twice(state, begun, after);
    assert forall|g: u64| #[trigger] state.pages.resources.contains_key(g) implies g
        < generation by {
        assert(begun.pages.resources.contains_key(g));
    }
}

/// A pending replacement is carried on, after a round of cleanup with these answers.
proof fn resumed_replacement<T: ReleaseTimeline>(
    state: ProducerState<T>,
    after: ProducerState<T>,
    now: u128,
    answers: Map<u64, Seq<TimelineAnswer>>,
    generation: u64,
)
    requires
        state.inv(),
        state.pending_layout is Some,
        state.complete_look(now, answers),
        (after, Ok::<ReconfigurationStatus, ArenaError>(ReconfigurationStatus::Ready { generation }))
            == state.cleaned(now, answers).advanced(),
    ensures
        carried_over(state, after),
        installed_anew(state, after, generation),
{
    let cleaned = state.cleaned(now, answers);
    lemma_cleaning(state, now, answers);
    lemma_cleanup_leaves_claims(state, now, answers);
    lemma_installing(cleaned, generation);
    lemma_carried_twice(state, cleaned, after);
    assert forall|g: u64| #[trigger] state.pages.resources.contains_key(g) implies g
        < generation by {
        assert(g < state.accounts.next_allocation);
    }
}

/// Whether the storage under a generation has room for that many bytes in each of its resources,
/// and every resource in it is empty.
pub open spec fn made_for<T>(
    state: ProducerState<T>,
    generation: u64,
    payload_capacity: usize,
    resources: int,
    history: int,
) -> bool {
    let page = state.pages.resources[generation];
    &&& state.pages.resources.contains_key(generation)
    &&& page.generation == generation
    &&& page.layout.payload_capacity == payload_capacity
    &&& page.layout.resources == resources
    &&& page.layout.history == history
    &&& page.layout.payload + resources * payload_capacity <= page.layout.len
    &&& page.records.len() == resources
    &&& forall|i: int| 0 <= i < resources ==> (#[trigger] page.records[i]).state == 0
}

/// A replacement that is ready has the room that was asked for: every resource of the installed
/// generation takes a payload of that many bytes, none is refused as too large that is not longer,
/// and one that is longer is.
pub proof fn replacements_have_the_room_asked_for<T: ReleaseTimeline>(
    state: ProducerState<T>,
    after: ProducerState<T>,
    payload_capacity: usize,
    now: u128,
    generation: u64,
    offer: Offer,
    bytes: Seq<u8>,
)
    requires
        state.inv(),
        state.reconfigures_cpu(
            after,
            payload_capacity,
            now,
            Ok(ReconfigurationStatus::Ready { generation }),
        ),
    ensures
        after.current == Some(generation),
        made_for(after, generation, payload_capacity, state.resources(), state.history()),
        bytes.len() > payload_capacity ==> after.published(offer, bytes).1 == Err::<
            PublishOutcome,
            ArenaError,
        >(ArenaError::PayloadTooLarge),
        bytes.len() <= payload_capacity && offer is Inline && state.cursor < super::MAX_GENERATION
            ==> after.published(offer, bytes).1 is Ok,
{
    let result = Ok::<ReconfigurationStatus, ArenaError>(
        ReconfigurationStatus::Ready { generation },
    );
    let (begun, started) = choose|begun: ProducerState<T>, started: Result<(), ArenaError>|
        {
            &&& #[trigger] state.begins(begun, payload_capacity, 0, false, started)
            &&& match started {
                Err(error) => {
                    &&& result == Err::<ReconfigurationStatus, ArenaError>(error)
                    &&& after == begun
                },
                Ok(()) => exists|answers: Map<u64, Seq<TimelineAnswer>>|
                    {
                        &&& begun.complete_look(now, answers)
                        &&& (after, result) == (#[trigger] begun.cleaned(now, answers)).advanced()
                    },
            }
        };
    assert(started is Ok);
    assert(state.begins(begun, payload_capacity, 0, false, started));
    assert(state.begins(begun, payload_capacity, 0, false, Ok(())));
    pending_replacements_are_made_for_what_was_asked(state, begun, payload_capacity, 0, false);
    lemma_beginning(state, begun, payload_capacity, 0, false);
    let answers = choose|answers: Map<u64, Seq<TimelineAnswer>>|
        {
            &&& begun.complete_look(now, answers)
            &&& (after, result) == (#[trigger] begun.cleaned(now, answers)).advanced()
        };
    lemma_made_for(begun, after, now, answers, generation);
}

/// A replacement that has begun is pending with the room that was asked for, whatever external
/// storage comes with it.
pub proof fn pending_replacements_are_made_for_what_was_asked<T>(
    state: ProducerState<T>,
    begun: ProducerState<T>,
    payload_capacity: usize,
    external_bytes: u64,
    native_pending: bool,
)
    requires
        state.inv(),
        state.begins(begun, payload_capacity, external_bytes, native_pending, Ok(())),
    ensures
        begun.current is None,
        begun.pending_layout matches Some(layout) && {
            &&& layout.payload_capacity == payload_capacity
            &&& layout.resources == state.resources()
            &&& layout.history == state.history()
            &&& layout.payload + layout.resources * payload_capacity <= layout.len
            &&& begun.accounts.pending matches Some(pending) && pending.upper_bound == layout.len
                + external_bytes
        },
        begun.pages.control.configuration == 0,
        begun.pages.control.epoch == state.pages.control.epoch + 1,
        state.current matches Some(g) ==> {
            &&& begun.pages.resources.contains_key(g)
            &&& forall|i: int|
                0 <= i < begun.pages.resources[g].records.len() ==> (
                #[trigger] begun.pages.resources[g].records[i]).state % 2 == 0
        },
        forall|id: u64| #[trigger]
            begun.pages.claims.contains_key(id) && begun.pages.claims[id].wait_interest & 4 != 0
                ==> begun.pages.claims[id].wake,
{
    lemma_beginning(state, begun, payload_capacity, external_bytes, native_pending);
    let layout = begun.pending_layout->0;
    assert(layout.consistent(begun.page_size as int));
}

/// What a pending replacement was made for is installed when it becomes ready.
proof fn lemma_made_for<T: ReleaseTimeline>(
    state: ProducerState<T>,
    after: ProducerState<T>,
    now: u128,
    answers: Map<u64, Seq<TimelineAnswer>>,
    generation: u64,
)
    requires
        state.inv(),
        state.pending_layout is Some,
        state.complete_look(now, answers),
        (after, Ok::<ReconfigurationStatus, ArenaError>(ReconfigurationStatus::Ready { generation }))
            == state.cleaned(now, answers).advanced(),
    ensures
        after.current == Some(generation),
        after.cursor == state.cursor,
        made_for(
            after,
            generation,
            (state.pending_layout->0).payload_capacity,
            state.resources(),
            state.history(),
        ),
{
    lemma_cleanup_leaves_claims(state, now, answers);
    let layout = state.pending_layout->0;
    assert(layout.consistent(state.page_size as int));
}

/// A paused replacement that becomes ready later has the room that it was pending for.
pub proof fn resumed_replacements_have_the_room_asked_for<T: ReleaseTimeline>(
    state: ProducerState<T>,
    after: ProducerState<T>,
    now: u128,
    generation: u64,
)
    requires
        state.inv(),
        state.pending_layout is Some,
        state.advances_cpu(after, now, Ok(ReconfigurationStatus::Ready { generation })),
    ensures
        after.current == Some(generation),
        made_for(
            after,
            generation,
            (state.pending_layout->0).payload_capacity,
            state.resources(),
            state.history(),
        ),
{
    let result = Ok::<ReconfigurationStatus, ArenaError>(
        ReconfigurationStatus::Ready { generation },
    );
    let answers = choose|answers: Map<u64, Seq<TimelineAnswer>>|
        {
            &&& state.complete_look(now, answers)
            &&& (after, result) == (#[trigger] state.cleaned(now, answers)).advanced()
        };
    lemma_made_for(state, after, now, answers, generation);
}

/// A replacement waits exactly where its bytes do not fit beside what is still charged, and says
/// how many it asks for and how many there are; and what it is charged for is the storage that was
/// installed.
pub proof fn replacements_wait_for_room<T: ReleaseTimeline>(
    state: ProducerState<T>,
    after: ProducerState<T>,
    now: u128,
    status: ReconfigurationStatus,
)
    requires
        state.inv(),
        state.pending_layout is Some,
        state.advances_cpu(after, now, Ok(status)),
    ensures
        status matches ReconfigurationStatus::PausedCapacity { requested, available } ==> {
            &&& requested == (state.accounts.pending->0).upper_bound
            &&& requested > available
            &&& available == after.accounts.limits.memory_budget - after.accounts.committed()
            &&& after.current is None
            &&& after.pending_layout == state.pending_layout
        },
        status matches ReconfigurationStatus::Ready { generation } ==> {
            &&& after.accounts.allocations.contains_key(generation)
            &&& after.accounts.allocations[generation] == (state.pending_layout->0).len
        },
{
    let result = Ok::<ReconfigurationStatus, ArenaError>(status);
    let answers = choose|answers: Map<u64, Seq<TimelineAnswer>>|
        {
            &&& state.complete_look(now, answers)
            &&& (after, result) == (#[trigger] state.cleaned(now, answers)).advanced()
        };
    lemma_cleanup_leaves_claims(state, now, answers);
    let cleaned = state.cleaned(now, answers);
    assert(cleaned.inv());
}

/// A paused replacement that becomes ready later keeps as much of what is held then.
pub proof fn resumed_replacement_keeps_what_is_held<T: ReleaseTimeline>(
    state: ProducerState<T>,
    after: ProducerState<T>,
    now: u128,
    generation: u64,
)
    requires
        state.inv(),
        state.pending_layout is Some,
        state.advances_cpu(after, now, Ok(ReconfigurationStatus::Ready { generation })),
    ensures
        carried_over(state, after),
        installed_anew(state, after, generation),
{
    let result = Ok::<ReconfigurationStatus, ArenaError>(
        ReconfigurationStatus::Ready { generation },
    );
    let answers = choose|answers: Map<u64, Seq<TimelineAnswer>>|
        {
            &&& state.complete_look(now, answers)
            &&& (after, result) == (#[trigger] state.cleaned(now, answers)).advanced()
        };
    resumed_replacement(state, after, now, answers, generation);
}

/// After a replacement, a consumer that still has older storage installed is told to
/// reconfigure, whatever it asks for, unless acquisition is over. Under no mapping can a frame be
/// acquired that was published before.
pub proof fn replaced_frames_are_not_acquired_again<T, U>(
    state: ProducerState<T>,
    after: ProducerState<T>,
    generation: u64,
    consumer: ConsumerState<U>,
    from: u64,
)
    requires
        state.inv(),
        carried_over(state, after),
        installed_anew(state, after, generation),
        after.inv(),
        !consumer.shut(after.pages),
    ensures
        !after.retains(from) || from > state.cursor,
        consumer.installed matches Some(mapping) ==> {
            &&& state.pages.resources.contains_key(mapping.generation) ==> {
                &&& consumer.acquired_latest(after.pages, from).2 is Reconfiguration
                &&& consumer.acquired_next(after.pages, from).2 is Reconfiguration
                &&& consumer.acquired_exact(after.pages, from).2 is Reconfiguration
            }
            &&& mapping.generation == generation ==> {
                &&& consumer.acquired_latest(after.pages, from).2 is Empty
                &&& from <= state.cursor ==> consumer.acquired_exact(after.pages, from).2
                    == (Acquisition::Miss { cursor: from })
                &&& consumer.acquired_next(after.pages, from).2 is Empty
                    || consumer.acquired_next(after.pages, from).2 is Gap
            }
        },
{
}

/// While a replacement is pending, nothing is published, nobody is admitted and no other
/// replacement starts: a frame is dropped, and the others are told that a replacement is
/// pending. A holding is told so as well unless its claim page could not be addressed at all.
pub proof fn pending_replacements_admit_nothing<T>(
    state: ProducerState<T>,
    after: ProducerState<T>,
    offer: Offer,
    bytes: Seq<u8>,
    holding: u32,
    recipient_pid: u32,
    watched: bool,
    setup: Result<ScopeId, ArenaError>,
    payload_capacity: usize,
)
    requires
        state.inv(),
        state.pending_layout is Some,
        state.pages.control.terminal == 0,
    ensures
        state.published(offer, bytes) == (
            state,
            Ok::<PublishOutcome, ArenaError>(PublishOutcome::Dropped),
        ),
        forall|granted: Result<GrantTerms, ArenaError>|
            length_fits(claim_bytes(holding as int), state.page_size as int)
                && #[trigger] state.attaches(
                after,
                holding,
                recipient_pid,
                watched,
                setup,
                granted,
            ) ==> after == state && granted == Err::<GrantTerms, ArenaError>(
                ArenaError::Admission(AdmissionError::ReconfigurationPending),
            ),
        forall|started: Result<(), ArenaError>| #[trigger]
            state.begins(after, payload_capacity, 0, false, started) ==> after == state && started
                == Err::<(), ArenaError>(
                ArenaError::Admission(AdmissionError::ReconfigurationPending),
            ),
{
}

} // verus!
