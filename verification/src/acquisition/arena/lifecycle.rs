//! What admission, release, departure and cleanup come to, word by word.

use super::claims::{lemma_first_free, ClaimPage};
use super::cleanup::{Observation, ProcessExit, TimelineAnswer};
use super::grants::{
    grant_fits, replacement_result, ConfigurationDescriptor, ConfigurationGrant,
    ConfigurationTerms, GrantDescriptor, GrantTerms,
};
use super::holding::{ConsumerState, LeaseTerms};
use super::layout::{claim_bytes, length_fits, rounded_up, rounding_is_tight};
use super::mapping::ControlPage;
use super::producer::{creatable, initial_state};
use super::state::ProducerState;
use super::wait::{snapshot, wait_verdict, WaitEvents, WaitInterest, WaitOutcome};
use super::{ArenaConfig, ArenaError, ScopeId};
use vstd::prelude::*;

verus! {

/// A new arena has the storage, the history and the budget that its configuration asks for, with
/// nothing published and nobody admitted.
pub proof fn arenas_are_made_as_configured<T>(
    config: ArenaConfig,
    external_bytes: u64,
    native: bool,
    page_size: i64,
    scope: ScopeId,
    now: u128,
)
    requires
        creatable(config, external_bytes, page_size, now),
    ensures
        ({
            let state = initial_state::<T>(config, external_bytes, native, page_size, scope);
            let page = state.pages.resources[1];
            &&& state.current == Some(1u64)
            &&& state.pages.control.configuration == 1
            &&& state.pages.control.latest == 0
            &&& state.pages.control.terminal == 0
            &&& state.pages.control.first_cursor == 1
            &&& state.pages.control.scope == scope
            &&& state.pages.control.ring.len() == config.retained_history
            &&& state.cursor == 0
            &&& state.pages.claims.dom() == Set::<u64>::empty()
            &&& state.pages.resources.contains_key(1)
            &&& page.generation == 1
            &&& page.scope == scope
            &&& page.layout.payload_capacity == config.payload_capacity
            &&& page.layout.resources == config.resource_capacity
            &&& page.layout.history == config.retained_history
            &&& page.layout.payload + config.resource_capacity * config.payload_capacity
                <= page.layout.len
            &&& page.records.len() == config.resource_capacity
            &&& forall|i: int|
                0 <= i < page.records.len() ==> (#[trigger] page.records[i]).state == 0
            &&& state.native_resources == native
            &&& state.drain_timeout == config.drain_timeout
            &&& state.accounts.limits.memory_budget == config.memory_budget
            &&& state.accounts.limits.max_incarnations == config.max_incarnations
            &&& state.accounts.limits.producer_reserve == config.producer_reserve
            &&& state.accounts.limits.resource_capacity == config.resource_capacity
            &&& state.accounts.limits.retained_history == config.retained_history
            &&& state.accounts.allocations[1] == page.layout.len + external_bytes
            &&& state.pending_layout is None
            &&& state.retired.len() == 0
        }),
        config.drain_timeout > 0,
        0 < config.retained_history < config.resource_capacity,
{
    let bytes = super::layout::resource_bytes(
        config.resource_capacity as int,
        config.payload_capacity as int,
    );
    let n = config.resource_capacity as int;
    let c = config.payload_capacity as int;
    assert(n * c >= 0) by (nonlinear_arith)
        requires
            n >= 0,
            c >= 0,
    ;
    rounding_is_tight(bytes, page_size as int);
    assert(initial_state::<T>(config, external_bytes, native, page_size, scope).pages.claims.dom()
        =~= Set::<u64>::empty());
}

/// An admitted consumer gets the holding that it asked for under an identity that nobody had: its
/// own page with that many free slots, open, with the installed storage offered to it, and what it
/// is granted says the same. Nobody else's page changes, and exactly its slots and its page are
/// charged.
pub proof fn admitted_consumers_get_what_they_asked_for<T>(
    state: ProducerState<T>,
    after: ProducerState<T>,
    holding: u32,
    recipient_pid: u32,
    watched: bool,
    setup: Result<ScopeId, ArenaError>,
    terms: GrantTerms,
)
    requires
        state.inv(),
        state.attaches(after, holding, recipient_pid, watched, setup, Ok(terms)),
    ensures
        ({
            let id = terms.incarnation.0;
            let page = after.pages.claims[id];
            &&& !state.pages.claims.contains_key(id)
            &&& state.accounts.next_incarnation <= id < after.accounts.next_incarnation
            &&& after.pages.claims.dom() == state.pages.claims.dom().insert(id)
            &&& forall|other: u64|
                state.pages.claims.contains_key(other) ==> #[trigger] after.pages.claims[other]
                    == state.pages.claims[other]
            &&& after.pages.control == state.pages.control
            &&& after.pages.resources == state.pages.resources
            &&& terms.frames == holding
            &&& terms.recipient_pid == recipient_pid
            &&& terms.arena_scope == state.pages.control.scope
            &&& setup matches Ok(scope) && terms.claim_scope == scope && page.scope == scope
            &&& state.current == Some(terms.generation)
            &&& terms.layout == state.pages.resources[terms.generation].layout
            &&& terms.drain_timeout == state.drain_timeout
            &&& terms.claim_len >= claim_bytes(holding as int)
            &&& page.slots.len() == holding
            &&& forall|i: int|
                0 <= i < holding ==> (#[trigger] page.slots[i]) == 0 && page.pending[i] == 0
            &&& page.active != 0
            &&& page.quiescent == 0
            &&& page.capacity_epoch == 0
            &&& page.incarnation.0 == id
            &&& page.recipient_pid == recipient_pid
            &&& page.offered == terms.generation
            &&& page.mappings.len() == holding + 2
            &&& page.mappings[terms.mapping_slot as int] == terms.generation
            &&& forall|i: int|
                0 <= i < page.mappings.len() && i != terms.mapping_slot ==> (
                #[trigger] page.mappings[i]) == 0
            &&& after.accounts.reservations.contains_key(id)
            &&& after.accounts.reservations[id].frames == holding
            &&& after.accounts.reservations[id].claim_bytes == terms.claim_len
            &&& after.cleanup[id].watched == watched
            &&& after.cleanup[id].failure is None
            &&& !after.cleanup[id].notification_failed
            &&& after.cleanup[id].drain_timeout == state.drain_timeout
            &&& after.cleanup[id].deadline is None
            &&& !after.cleanup[id].expired
            &&& after.cleanup[id].unresolved == 0
            &&& after.cleanup[id].native_resources == state.native_resources
            &&& after.cleanup[id].timelines.len() == 0
            &&& holding > 0
        }),
{
    let id = terms.incarnation.0;
    rounding_is_tight(claim_bytes(holding as int), state.page_size as int);
    assert(after.pages.claims.dom() =~= state.pages.claims.dom().insert(id));
}

/// Who is not admitted leaves no trace but a used identity: no page, no charge, nobody forgotten.
pub proof fn refused_consumers_leave_no_trace<T>(
    state: ProducerState<T>,
    after: ProducerState<T>,
    holding: u32,
    recipient_pid: u32,
    watched: bool,
    setup: Result<ScopeId, ArenaError>,
    error: ArenaError,
)
    requires
        state.attaches(after, holding, recipient_pid, watched, setup, Err(error)),
    ensures
        after.pages == state.pages,
        after.accounts.reservations == state.accounts.reservations,
        after.accounts.allocations == state.accounts.allocations,
        after.cleanup == state.cleanup,
        after.accounts.next_incarnation >= state.accounts.next_incarnation,
{
}

/// Admission is owed wherever there is room: no replacement is pending, something is asked for, the
/// slots and the bytes are there, and neither the incarnations nor the identities are used up. And
/// it is refused wherever one of these fails.
pub proof fn admission_is_owed_where_there_is_room<T>(
    state: ProducerState<T>,
    after: ProducerState<T>,
    holding: u32,
    recipient_pid: u32,
    watched: bool,
    scope: ScopeId,
    result: Result<GrantTerms, ArenaError>,
)
    requires
        state.inv(),
        length_fits(claim_bytes(holding as int), state.page_size as int),
        state.attaches(after, holding, recipient_pid, watched, Ok(scope), result),
    ensures
        ({
            let limits = state.accounts.limits;
            let bytes = rounded_up(claim_bytes(holding as int), state.page_size as int);
            result is Ok <==> {
                &&& state.accounts.pending is None
                &&& holding > 0
                &&& holding + state.accounts.reserved_frames() + limits.retained_history
                    + limits.producer_reserve <= limits.resource_capacity
                &&& state.accounts.reservations.len() < limits.max_incarnations
                &&& bytes + state.accounts.committed() <= limits.memory_budget
                &&& state.accounts.next_incarnation < u64::MAX
            }
        }),
{
    rounding_is_tight(claim_bytes(holding as int), state.page_size as int);
}

/// What the exit of a watched process leaves in its page.
pub open spec fn left_by_exit<T>(
    observation: Observation<T>,
    was: ClaimPage,
    is: ClaimPage,
    slot: int,
) -> bool {
    let plain = !observation.native_resources && observation.timelines.len() == 0;
    &&& was.slots[slot] == 0 ==> is.slots[slot] == 0
    &&& was.slots[slot] != 0 && was.pending[slot] == 0 && plain ==> is.slots[slot] == 0
    &&& was.slots[slot] != 0 && was.pending[slot] == 0 && !plain ==> is.slots[slot]
        == was.slots[slot] && is.pending[slot] == 0
    &&& was.slots[slot] != 0 && (was.pending[slot] == 1 || was.pending[slot] == 2) ==> is.slots[slot]
        == was.slots[slot] && is.pending[slot] == 2
}

/// The exit of a watched process: nothing of it acquires any more or has anything mapped. A plain
/// claim on inline storage is given back. Use that was handed to a completion stays until that
/// completion, as submitted; and use of which nothing is known stays for good, and is counted.
pub proof fn exits_give_back_plain_claims_only<T>(observation: Observation<T>, page: ClaimPage)
    requires
        observation.watched,
        page.pending.len() == page.slots.len(),
    ensures
        ({
            let (seen, after) = observation.saw_process(page, ProcessExit::Exited);
            &&& !seen.watched
            &&& after.active == 0
            &&& after.quiescent != 0
            &&& after.slots.len() == page.slots.len()
            &&& after.pending.len() == page.slots.len()
            &&& after.mappings.len() == page.mappings.len()
            &&& forall|i: int| 0 <= i < after.mappings.len() ==> (#[trigger] after.mappings[i]) == 0
            &&& forall|i: int|
                0 <= i < page.slots.len() ==> #[trigger] left_by_exit(observation, page, after, i)
            &&& after.release_ids == page.release_ids
            &&& after.release_values == page.release_values
        }),
{
    let left = page.closed().acknowledged();
    let bare = ClaimPage { mappings: Seq::new(page.mappings.len(), |i: int| 0u64), ..left };
    lemma_swept(
        Observation { watched: false, ..observation },
        bare,
        page.slots.len() as int,
    );
    let (seen, after) = observation.saw_process(page, ProcessExit::Exited);
    assert forall|i: int| 0 <= i < page.slots.len() implies #[trigger] left_by_exit(
        observation,
        page,
        after,
        i,
    ) by {
        assert(left_by_exit(Observation { watched: false, ..observation }, bare, after, i));
    }
}

proof fn lemma_swept<T>(observation: Observation<T>, page: ClaimPage, count: int)
    requires
        0 <= count <= page.slots.len(),
        page.pending.len() == page.slots.len(),
        page.active == 0,
        page.quiescent != 0,
    ensures
        ({
            let (seen, after) = observation.swept_to(page, count);
            &&& seen.watched == observation.watched
            &&& seen.native_resources == observation.native_resources
            &&& seen.timelines == observation.timelines
            &&& after.active == 0
            &&& after.quiescent == page.quiescent
            &&& after.mappings == page.mappings
            &&& after.slots.len() == page.slots.len()
            &&& after.pending.len() == page.slots.len()
            &&& after.release_ids == page.release_ids
            &&& after.release_values == page.release_values
            &&& forall|i: int|
                0 <= i < count ==> #[trigger] left_by_exit(observation, page, after, i)
            &&& forall|i: int|
                count <= i < page.slots.len() ==> (#[trigger] after.slots[i]) == page.slots[i]
                    && after.pending[i] == page.pending[i]
        }),
    decreases count,
{
    if count > 0 {
        lemma_swept(observation, page, count - 1);
        let (seen, before) = observation.swept_to(page, count - 1);
        let after = observation.swept_to(page, count).1;
        assert(before.slots[count - 1] == page.slots[count - 1]);
        assert forall|i: int| 0 <= i < count implies #[trigger] left_by_exit(
            observation,
            page,
            after,
            i,
        ) by {
            if i < count - 1 {
                assert(left_by_exit(observation, page, before, i));
            }
        }
        assert forall|i: int| count <= i < page.slots.len() implies (#[trigger] after.slots[i])
            == page.slots[i] && after.pending[i] == page.pending[i] by {
            assert(before.slots[i] == page.slots[i]);
        }
    }
}

/// A process that still runs, or that nobody watches, changes nothing.
pub proof fn running_processes_change_nothing<T>(
    observation: Observation<T>,
    page: ClaimPage,
    exit: ProcessExit,
)
    requires
        !observation.watched || exit is Running,
    ensures
        observation.saw_process(page, exit) == (observation, page),
{
}

/// The time to drain runs from when closure is first seen, passes once that long has gone by, and
/// gives nothing back. An open or a drained page has none.
pub proof fn drain_deadlines_only_report<T>(observation: Observation<T>, page: ClaimPage, now: u128)
    ensures
        ({
            let (seen, after) = observation.saw_time(page, now);
            let drained = page.quiescent != 0 && !page.mapped() && !page.claiming();
            &&& after.slots == page.slots
            &&& after.pending == page.pending
            &&& after.mappings == page.mappings
            &&& after.quiescent == page.quiescent
            &&& page.active != 0 || drained ==> seen == observation && after == page
            &&& page.active == 0 && !drained && observation.deadline is None && now
                + observation.drain_timeout <= u128::MAX ==> seen.deadline == Some(
                (now + observation.drain_timeout) as u128,
            ) && after == page
            &&& page.active == 0 && !drained && observation.deadline is Some ==> {
                &&& seen.deadline == observation.deadline
                &&& seen.expired == (observation.expired || now >= observation.deadline->0)
                &&& after == page
            }
        }),
{
}

/// A lease that is handed to a completion keeps its slot: the page says which timeline and which
/// value it waits for, and the consumer keeps the mapping until its own source says so. Nothing
/// else changes hands.
pub proof fn deferred_leases_keep_their_slots<T>(
    consumer: ConsumerState<T>,
    page: ClaimPage,
    lease: LeaseTerms,
    timeline: usize,
    id: u64,
    value: u64,
)
    requires
        page.shaped(consumer.frames()),
        lease.slot < consumer.frames(),
        consumer.pending.len() == consumer.frames(),
    ensures
        ({
            let slot = lease.slot as int;
            let (after, left) = consumer.deferred(page, lease, timeline, id, value);
            &&& left.slots == page.slots
            &&& left.mappings == page.mappings
            &&& left.capacity_epoch == page.capacity_epoch
            &&& left.active == page.active
            &&& left.pending[slot] == 1
            &&& left.release_ids[slot] == id
            &&& left.release_values[slot] == value
            &&& left.release_wake
            &&& forall|i: int|
                0 <= i < consumer.frames() && i != slot ==> (#[trigger] left.pending[i])
                    == page.pending[i] && left.release_ids[i] == page.release_ids[i]
                    && left.release_values[i] == page.release_values[i]
            &&& after.pending[slot] matches Some(pending) && pending.mapping == lease.mapping
                && pending.timeline == timeline && pending.value == value
            &&& after.held[slot] is None
            &&& forall|i: int|
                0 <= i < consumer.frames() && i != slot ==> (#[trigger] after.held[i])
                    == consumer.held[i] && after.pending[i] == consumer.pending[i]
            &&& after.wake
            &&& after.installed == consumer.installed
        }),
{
}

/// The producer gives a handed-over slot back exactly when its release was submitted and its
/// timeline has come to the release's value: the slot is free then, one more is counted, and the
/// others stay. Until then the slot stays, and a timeline that fails or cannot notify ends the
/// incarnation with its slots kept.
pub proof fn producers_return_credit_on_completion<T>(
    observation: Observation<T>,
    page: ClaimPage,
    slot: int,
    answer: TimelineAnswer,
)
    requires
        0 <= slot < page.slots.len(),
        page.shaped(page.slots.len()),
        observation.armed.len() == page.slots.len(),
        page.pending[slot] == 1 || page.pending[slot] == 2,
        1 <= page.release_ids[slot] <= observation.timelines.len(),
    ensures
        ({
            let (seen, after, ended) = observation.looked(page, slot, answer);
            let value = page.release_values[slot];
            &&& answer.completed matches Ok(completed) ==> {
                &&& completed >= value && page.pending[slot] == 2 ==> {
                    &&& after.slots == page.slots.update(slot, 0)
                    &&& after.pending == page.pending.update(slot, 0)
                    &&& observation.released < usize::MAX ==> seen.released == observation.released
                        + 1
                    &&& seen.failure == observation.failure
                    &&& !ended
                }
                &&& completed < value || page.pending[slot] == 1 ==> after.slots == page.slots
                    && after.pending == page.pending && seen.released == observation.released
                &&& completed < value && answer.armed is Ok && (observation.armed[slot] matches Some(
                    armed,
                ) ==> armed.fired) ==> (seen.armed[slot] matches Some(armed) && !armed.fired)
            }
            &&& answer.completed is Err ==> {
                &&& after.slots == page.slots
                &&& after.pending == page.pending
                &&& after.active == 0
                &&& seen.failure is Some
                &&& seen.released == observation.released
                &&& ended
            }
        }),
{
}

/// The consumer submits a handed-over slot exactly when its own source has come to the value that
/// was handed over: its mapping is no longer kept for it, and the page says that the release is
/// the producer's to complete. The slot itself stays.
pub proof fn consumers_submit_on_completion<T>(
    consumer: ConsumerState<T>,
    page: ClaimPage,
    slot: int,
    answer: TimelineAnswer,
)
    requires
        0 <= slot < consumer.frames(),
        page.shaped(consumer.frames()),
        consumer.pending.len() == consumer.frames(),
        consumer.armed.len() == consumer.frames(),
        consumer.pending[slot] is Some,
    ensures
        ({
            let (seen, after, ended) = consumer.looked(page, slot, answer);
            let value = (consumer.pending[slot]->0).value;
            &&& after.slots == page.slots
            &&& answer.completed matches Ok(completed) ==> {
                &&& completed >= value ==> {
                    &&& after.pending == page.pending.update(slot, 2)
                    &&& seen.pending == consumer.pending.update(slot, None)
                    &&& after.release_wake
                    &&& after.active == page.active
                    &&& !ended
                }
                &&& completed < value ==> after.pending == page.pending && seen.pending
                    == consumer.pending && after.mappings == page.mappings
            }
            &&& answer.completed is Err ==> {
                &&& after.pending == page.pending
                &&& seen.pending == consumer.pending
                &&& seen.failure is Some
                &&& after.active == 0
                &&& ended
            }
            &&& seen.held == consumer.held
            &&& seen.installed == consumer.installed
        }),
{
}

/// A wait ends as cancelled wherever it was cancelled; else with what is seen now wherever the
/// arena or the incarnation is closed, the storage was replaced, a frame was published that the
/// waiter asked for, or credit came back that it asked for; else when its time is up; and else it
/// goes on.
pub proof fn waits_end_for_a_reason(
    cancelled: bool,
    observed: WaitEvents,
    control: ControlPage,
    page: ClaimPage,
    data: bool,
    capacity: bool,
    expired: bool,
)
    ensures
        ({
            let interest = WaitInterest(
                if data && capacity {
                    3
                } else if data {
                    1
                } else if capacity {
                    2
                } else {
                    0
                },
            );
            let verdict = wait_verdict(
                cancelled,
                observed,
                snapshot(control, page),
                interest,
                expired,
            );
            let changed = page.active == 0 || control.terminal != 0 || control.epoch
                != observed.reconfiguration_epoch || (data && control.latest
                != observed.data_cursor) || (capacity && page.capacity_epoch
                != observed.capacity_epoch);
            &&& cancelled ==> verdict == Some(WaitOutcome::Cancelled)
            &&& !cancelled && changed ==> (verdict matches Some(WaitOutcome::Changed(seen)) && {
                &&& seen.data_cursor == control.latest
                &&& seen.capacity_epoch == page.capacity_epoch
                &&& seen.reconfiguration_epoch == control.epoch
                &&& seen.closed == (page.active == 0 || control.terminal != 0)
            })
            &&& !cancelled && !changed && expired ==> verdict == Some(WaitOutcome::TimedOut)
            &&& !cancelled && !changed && !expired ==> verdict is None
        }),
{
    assert(3u64 & 1 != 0 && 3u64 & 2 != 0 && 1u64 & 1 != 0 && 1u64 & 2 == 0 && 2u64 & 1 == 0 && 2u64
        & 2 != 0 && 0u64 & 1 == 0 && 0u64 & 2 == 0) by (bit_vector);
}

/// Offered storage that is installed takes the place of what was installed before, and ends the
/// offer. The word of what was installed is cleared exactly where nothing keeps it, and every slot
/// stays.
pub proof fn installed_storage_replaces_the_old<T>(
    consumer: ConsumerState<T>,
    page: ClaimPage,
    terms: ConfigurationTerms,
)
    ensures
        ({
            let (after, left) = consumer.reinstalled(page, terms);
            &&& after.installed matches Some(mapping) && {
                &&& mapping.generation == terms.generation
                &&& mapping.slot == terms.mapping_slot
                &&& mapping.layout == terms.layout
            }
            &&& after.held == consumer.held
            &&& after.pending == consumer.pending
            &&& left.offered == 0
            &&& left.slots == page.slots
            &&& left.pending == page.pending
            &&& left.active == page.active
            &&& consumer.installed matches Some(old) ==> {
                let kept = old.slot == terms.mapping_slot || (exists|i: int|
                    0 <= i < consumer.held.len() && ((#[trigger] consumer.held[i]) matches Some(m)
                        && m.slot == old.slot)) || (exists|i: int|
                    0 <= i < consumer.held.len() && ((#[trigger] consumer.pending[i]) matches Some(p)
                        && p.mapping.slot == old.slot));
                &&& kept ==> left.mappings == page.mappings
                &&& !kept ==> left.mappings == page.mappings.update(old.slot as int, 0)
            }
            &&& consumer.installed is None ==> left.mappings == page.mappings
        }),
        ({
            let (after, left) = consumer.relinquished(page);
            &&& after.installed is None
            &&& after.held == consumer.held
            &&& after.pending == consumer.pending
            &&& left.slots == page.slots
            &&& left.pending == page.pending
            &&& left.active == page.active
        }),
{
}

/// A grant is taken only by the process that it was made for, in the version that both know, with
/// a holding and an identity, and with mappings that have room for what it names.
pub proof fn grants_are_for_one_process(
    descriptor: GrantDescriptor,
    now: u128,
    own_pid: u32,
    page_size: i64,
)
    requires
        grant_fits(descriptor, now, own_pid, page_size),
    ensures
        descriptor.recipient_pid == own_pid,
        descriptor.generation != 0,
        descriptor.incarnation != 0,
        descriptor.holding != 0,
        descriptor.drain_timeout != 0,
        0 < descriptor.history < descriptor.resources,
        descriptor.resource_map_len >= descriptor.resources * descriptor.payload_capacity,
        descriptor.claim_map_len >= descriptor.holding * 32,
        descriptor.control_map_len >= descriptor.history * 8,
{
    let n = descriptor.resources as int;
    let c = descriptor.payload_capacity as int;
    assert(n * c >= 0) by (nonlinear_arith)
        requires
            n >= 0,
            c >= 0,
    ;
    rounding_is_tight(super::layout::resource_bytes(n, c), page_size as int);
    rounding_is_tight(claim_bytes(descriptor.holding as int), page_size as int);
    rounding_is_tight(
        super::grants::control_bytes(descriptor.history as int),
        page_size as int,
    );
}

/// An offer of replaced storage is taken only by the incarnation and the process that it was made
/// for, while it is the outstanding one, and what is taken is what it names.
pub proof fn offers_are_for_one_incarnation(
    grant: ConfigurationGrant,
    descriptor: ConfigurationDescriptor,
    arena_scope: ScopeId,
    history: nat,
    page: ClaimPage,
    own_pid: u32,
    page_size: i64,
)
    requires
        replacement_result(
            Ok(grant),
            descriptor,
            arena_scope,
            history,
            page,
            own_pid,
            page_size,
        ),
    ensures
        descriptor.arena_scope == arena_scope,
        descriptor.claim_scope == page.scope,
        descriptor.incarnation == page.incarnation.0,
        descriptor.recipient_pid == own_pid,
        descriptor.recipient_pid == page.recipient_pid,
        descriptor.history == history,
        page.offered == descriptor.generation,
        page.mappings[descriptor.mapping_slot as int] == descriptor.generation,
        grant@.generation == descriptor.generation,
        grant@.mapping_slot == descriptor.mapping_slot,
        grant@.layout.resources == descriptor.resources,
        grant@.layout.history == descriptor.history,
        grant@.layout.payload_capacity == descriptor.payload_capacity,
        grant@.layout.len == descriptor.resource_map_len,
        grant@.incarnation == page.incarnation,
        grant@.arena_scope == arena_scope,
        grant@.claim_scope == page.scope,
{
}

/// Installed storage is offered once at a time, to an open incarnation: the offer names the
/// installed generation with its layout, and a word that held nothing now holds it. An offer that
/// is outstanding is not repeated.
pub proof fn offers_name_the_installed_storage<T>(
    state: ProducerState<T>,
    after: ProducerState<T>,
    id: u64,
    result: Result<Option<ConfigurationTerms>, ArenaError>,
)
    requires
        state.inv(),
        state.offers(after, id, result),
        state.pages.claims[id].mappings.len() <= usize::MAX,
    ensures
        result matches Ok(Some(terms)) ==> {
            let was = state.pages.claims[id];
            let is = after.pages.claims[id];
            &&& state.pages.claims.contains_key(id)
            &&& was.active != 0
            &&& was.offered == 0
            &&& state.current == Some(terms.generation)
            &&& terms.layout == state.pages.resources[terms.generation].layout
            &&& terms.incarnation.0 == id
            &&& terms.arena_scope == state.pages.control.scope
            &&& terms.claim_scope == was.scope
            &&& terms.recipient_pid == was.recipient_pid
            &&& is.offered == terms.generation
            &&& terms.mapping_slot < was.mappings.len()
            &&& was.mappings[terms.mapping_slot as int] == 0
            &&& is.mappings == was.mappings.update(terms.mapping_slot as int, terms.generation)
            &&& is.slots == was.slots
        },
        state.pages.claims.contains_key(id) && state.pages.claims[id].active != 0
            && state.pages.claims[id].offered == 0 && state.current is Some && (exists|i: int|
            0 <= i < state.pages.claims[id].mappings.len() && (
            #[trigger] state.pages.claims[id].mappings[i]) == 0) ==> result matches Ok(Some(_)),
        state.pages.claims.contains_key(id) && state.pages.claims[id].active != 0 && (
        state.pages.claims[id].offered != 0 || state.current is None) ==> result matches Ok(None),
        !(result matches Ok(Some(_))) ==> after == state,
{
    if state.pages.claims.contains_key(id) {
        assert(state.claim_proper(id));
        lemma_first_free(state.pages.claims[id].mappings);
    }
}

/// An incarnation is forgotten, with its charge, exactly when it will not touch its page again, has
/// nothing mapped and claims nothing.
pub proof fn only_drained_incarnations_are_forgotten<T>(state: ProducerState<T>, id: u64)
    requires
        state.inv(),
        state.pages.claims.contains_key(id),
    ensures
        ({
            let page = state.pages.claims[id];
            let after = state.collected();
            let done = page.quiescent != 0 && (forall|i: int|
                0 <= i < page.mappings.len() ==> (#[trigger] page.mappings[i]) == 0) && (forall|
                i: int,
            |
                0 <= i < page.slots.len() ==> (#[trigger] page.slots[i]) == 0);
            &&& after.pages.claims.contains_key(id) == !done
            &&& after.accounts.reservations.contains_key(id) == !done
            &&& after.cleanup.contains_key(id) == !done
            &&& !done ==> after.pages.claims[id] == page && after.accounts.reservations[id]
                == state.accounts.reservations[id] && after.cleanup[id] == state.cleanup[id]
            &&& after.pages.control == state.pages.control
            &&& after.pages.resources == state.pages.resources
        }),
{
    assert(state.accounts.reservations.contains_key(id));
    assert(state.cleanup.contains_key(id));
}

/// Retired storage is destroyed, with its charge, exactly when the producer itself is done with it,
/// nobody has it mapped, and nobody claims a frame in it. The installed storage stays.
pub proof fn only_unused_storage_is_destroyed<T>(state: ProducerState<T>, at: int)
    requires
        state.inv(),
        0 <= at < state.retired.len(),
    ensures
        ({
            let retired = state.retired[at];
            let g = retired.id.0;
            let page = state.pages.resources[g];
            let used = retired.native_pending || (exists|id: u64, i: int|
                state.pages.claims.contains_key(id) && 0 <= i
                    < state.pages.claims[id].mappings.len()
                    && #[trigger] state.pages.claims[id].mappings[i] == g) || (exists|
                id: u64,
                i: int,
                k: int,
            |
                state.pages.claims.contains_key(id) && 0 <= i < state.pages.claims[id].slots.len()
                    && 0 <= k < page.records.len() && (#[trigger] state.pages.claims[id].slots[i]) == (
                #[trigger] page.records[k]).state / 2 && state.pages.claims[id].slots[i] != 0);
            let after = state.reclaimed();
            &&& after.pages.resources.contains_key(g) == used
            &&& after.accounts.allocations.contains_key(g) == used
            &&& used ==> after.pages.resources[g] == page
            &&& after.retired.contains(retired) == used
        }),
        state.current matches Some(g) ==> state.reclaimed().pages.resources.contains_key(g)
            && state.reclaimed().pages.resources[g] == state.pages.resources[g],
        state.reclaimed().pages.claims == state.pages.claims,
{
    let retired = state.retired[at];
    let g = retired.id.0;
    let page = state.pages.resources[g];
    assert(state.pages.resources.contains_key(g));
    assert(state.resource_proper(g));
    if state.pages.mapped(g) {
        let id = choose|id: u64| #[trigger]
            state.pages.claims.contains_key(id) && state.pages.claims[id].maps(g);
        let i = choose|i: int|
            0 <= i < state.pages.claims[id].mappings.len()
                && #[trigger] state.pages.claims[id].mappings[i] == g;
        assert(state.pages.claims.contains_key(id) && state.pages.claims[id].mappings[i] == g);
    }
    if exists|id: u64, i: int|
        state.pages.claims.contains_key(id) && 0 <= i < state.pages.claims[id].mappings.len()
            && #[trigger] state.pages.claims[id].mappings[i] == g {
        let (id, i) = choose|id: u64, i: int|
            state.pages.claims.contains_key(id) && 0 <= i < state.pages.claims[id].mappings.len()
                && #[trigger] state.pages.claims[id].mappings[i] == g;
        assert(state.pages.claims[id].maps(g));
        assert(state.pages.mapped(g));
    }
    if state.pages.holds_frame_of(g) {
        let k = choose|k: int|
            0 <= k < page.records.len() && (#[trigger] page.records[k]).generation() != 0
                && state.pages.claimed(page.records[k].generation() as u64);
        let cursor = page.records[k].generation() as u64;
        let id = choose|id: u64| #[trigger]
            state.pages.claims.contains_key(id) && state.pages.claims[id].holds(cursor);
        let i = choose|i: int|
            0 <= i < state.pages.claims[id].slots.len()
                && #[trigger] state.pages.claims[id].slots[i] == cursor;
        assert(state.pages.claims[id].slots[i] == page.records[k].state / 2);
    }
    if exists|id: u64, i: int, k: int|
        state.pages.claims.contains_key(id) && 0 <= i < state.pages.claims[id].slots.len() && 0 <= k
            < page.records.len() && (#[trigger] state.pages.claims[id].slots[i]) == (
        #[trigger] page.records[k]).state / 2 && state.pages.claims[id].slots[i] != 0 {
        let (id, i, k) = choose|id: u64, i: int, k: int|
            state.pages.claims.contains_key(id) && 0 <= i < state.pages.claims[id].slots.len() && 0
                <= k < page.records.len() && (#[trigger] state.pages.claims[id].slots[i]) == (
            #[trigger] page.records[k]).state / 2 && state.pages.claims[id].slots[i] != 0;
        let cursor = page.records[k].generation() as u64;
        assert(state.pages.claims[id].holds(cursor));
        assert(state.pages.claimed(cursor));
        assert(state.pages.holds_frame_of(g));
    }
    if state.disposable(g) {
        let m = choose|m: int|
            0 <= m < state.retired.len() && (#[trigger] state.retired[m]).id.0 == g
                && !state.retained(state.retired[m]);
        assert(state.retired[m].id == retired.id);
        assert(m == at);
    }
    if state.current is Some && state.disposable(state.current->0) {
        let m = choose|m: int|
            0 <= m < state.retired.len() && (#[trigger] state.retired[m]).id.0
                == state.current->0 && !state.retained(state.retired[m]);
        assert(state.current != Some(state.retired[m].id.0));
    }
}

/// Closing an arena ends acquisition for everybody and takes nothing away.
pub proof fn stopping_closes_every_incarnation<T>(state: ProducerState<T>, id: u64)
    requires
        state.pages.claims.contains_key(id),
    ensures
        ({
            let after = state.stopped();
            let was = state.pages.claims[id];
            let is = after.pages.claims[id];
            &&& after.pages.control.terminal != 0
            &&& after.pages.claims.contains_key(id)
            &&& is.active == 0
            &&& is.slots == was.slots
            &&& is.pending == was.pending
            &&& is.mappings == was.mappings
            &&& is.quiescent == was.quiescent
            &&& was.active != 0 && was.wait_interest & 8 != 0 ==> is.wake
            &&& after.cursor == state.cursor
            &&& after.pages.resources == state.pages.resources
            &&& after.accounts == state.accounts
        }),
{
}

} // verus!
