//! What the calls from C come to, one after another.

use super::connection::{
    ft_acquisition_cpu_attach, ft_acquisition_cpu_connect_session, FtCpuAcquisitionConnection,
};
use super::d3d11::{filled, fitting, AdapterInfo, FtD3d11Adapter};
use super::import::{
    ft_acquisition_import_cpu, ft_acquisition_install_cpu_configuration, installed_status,
    installs_import,
};
use super::producer::{
    ft_cpu_producer_attach, ft_cpu_producer_create, ft_cpu_producer_destroy,
    ft_cpu_producer_poll_cleanup, ft_cpu_producer_publish,
    ft_cpu_producer_reconfigure, FtCpuProducer, FtCpuProducerConfig, FtCpuReconfiguration,
};
use super::promises::{
    acquisitions_are_told_apart, copies_keep_their_metadata, errors_are_told_apart,
    modes_ask_for_what_they_name,
};
use super::{
    acquire_frame, acquire_range, acquire_status, acquires, ft_acquired_frame_defer_release,
    ft_acquired_frame_release, ft_acquisition_acquire, FtAcquiredFrame, FtAcquisitionConsumer,
    FtAcquisitionRange,
};
use crate::acquisition::arena::cleanup::{ReleaseTimeline, TimelineAnswer};
use crate::acquisition::arena::consumer::retirement::ConsumerReleaseTimeline;
use crate::acquisition::arena::consumer::{AcquireOutcome, ArenaConsumer};
use crate::acquisition::arena::grants::{
    replacement_result, ConfigurationDescriptor, ConfigurationGrant, GrantDescriptor, GrantTerms,
};
use crate::acquisition::arena::holding::{Acquisition, ConsumerState};
use crate::acquisition::arena::lifecycle::{
    admitted_consumers_get_what_they_asked_for, installed_storage_replaces_the_old,
    offers_are_for_one_incarnation,
};
use crate::acquisition::arena::operations::publication_delivers_the_frame;
use crate::acquisition::arena::pages::ArenaPages;
use crate::acquisition::arena::producer::reconfiguration::{
    ConfigurationInstall, ReconfigurationStatus,
};
use crate::acquisition::arena::promises::can_acquire;
use crate::acquisition::arena::state::{Offer, ProducerState};
use crate::acquisition::arena::turns::lemma_cleaned;
use crate::acquisition::arena::{ArenaError, FrameDescriptor, PublishOutcome, ScopeId};
use crate::acquisition::socket::client::{installs_offer, CpuSetupClient};
use crate::acquisition::socket::SocketError;
use crate::daemon::SessionInfo;
use crate::ffi::FtStatus;
use vstd::prelude::*;
use vstd::utf8::encode_utf8;

verus! {

/// A picture that C publishes is refused unless it is whole; one that is taken gets the next cursor,
/// and whoever can acquire finds its bytes and its metadata, as of a finished copy.
pub proof fn published_pictures_are_delivered<T: ReleaseTimeline, U>(
    producer: &mut FtCpuProducer<T>,
    descriptor: &FrameDescriptor,
    bytes: &[u8],
    cursor: &mut u64,
    now: u128,
    result: FtStatus,
    consumer: ConsumerState<U>,
    after: u64,
)
    requires
        old(producer).producer.wf(),
        call_ensures(
            ft_cpu_producer_publish::<T>,
            (producer, descriptor, bytes, cursor, now),
            result,
        ),
    ensures
        descriptor.payload_kind != 0 || descriptor.width == 0 || descriptor.height == 0
            || bytes@.len()
            == 0 || descriptor.stride < descriptor.width * 4
            || descriptor.stride * descriptor.height
            != bytes@.len() ==> result == 2 && *final(cursor) == 0 && final(producer).producer@
            == old(producer).producer@,
        result != 0 ==> *final(cursor) == 0,
        result == 0 && can_acquire(final(producer).producer@, consumer) && after < *final(cursor)
            ==> {
            &&& *final(cursor) == old(producer).producer@.cursor + 1
            &&& consumer.acquired_latest(final(producer).producer@.pages,
                after).2 matches Acquisition::Frame(
                lease,
            ) && {
                &&& lease.descriptor.cursor == *final(cursor)
                &&& lease.descriptor.payload_len == bytes@.len()
                &&& lease.descriptor.width == descriptor.width
                &&& lease.descriptor.height == descriptor.height
                &&& lease.descriptor.stride == descriptor.stride
                &&& lease.descriptor.pixel_format == descriptor.pixel_format
                &&& lease.descriptor.timestamp_ns == descriptor.timestamp_ns
                &&& lease.descriptor.sequence == descriptor.sequence
                &&& lease.descriptor.color_space == descriptor.color_space
                &&& lease.descriptor.flags == descriptor.flags
                &&& lease.descriptor.fence_id == 0
                &&& lease.descriptor.fence_value == 0
                &&& final(producer).producer@.pages.resources[lease.mapping.generation].records[lease.index as int].payload
                    == bytes@
            }
        },
{
    let sent = super::producer::copied(*descriptor);
    copies_keep_their_metadata(*descriptor);
    if super::producer::publishable(*descriptor, bytes@.len()) {
        let outcome = choose|outcome: Result<PublishOutcome, ArenaError>|
            {
                &&& #[trigger] old(producer).producer@.publishes_inline(
                    final(producer).producer@,
                    now,
                    sent,
                    bytes@,
                    outcome,
                )
                &&& match outcome {
                    Ok(PublishOutcome::Published { cursor: published }) => {
                        result == 0 && *final(cursor) == published
                    },
                    Ok(PublishOutcome::Dropped) => {
                        result != 0 && *final(cursor) == 0
                    },
                    Err(error) => {
                        result == super::producer::producer_status_of(error) && *final(cursor) == 0
                    },
                }
            };
        if outcome is Err {
            errors_are_told_apart(outcome->Err_0);
        }
        if result == 0 && can_acquire(final(producer).producer@, consumer)
            && after < *final(cursor) {
            old(producer).producer.state_is_consistent();
            publication_delivers_the_frame(
                old(producer).producer@,
                final(producer).producer@,
                now,
                sent,
                bytes@,
                outcome,
                consumer,
                after,
            );
        }
    }
}

/// A consumer that C attaches holds as many frames as were asked for, of the installed storage, and
/// the offer is taken; where none is attached nothing is handed out.
pub proof fn attached_consumers_hold_what_was_asked<T: ReleaseTimeline, U>(
    producer: &mut FtCpuProducer<T>,
    holding: u32,
    out: &mut Option<FtAcquisitionConsumer<U>>,
    setup: Result<ScopeId, ArenaError>,
    now: u128,
    result: FtStatus,
)
    requires
        old(producer).producer.wf(),
        *old(out) is None,
        call_ensures(
            ft_cpu_producer_attach::<T, U>,
            (producer, holding, out, setup, now),
            result,
        ),
    ensures
        result == 0 <==> *final(out) is Some,
        holding == 0 ==> result != 0,
        *final(out) matches Some(handle) ==> {
            let id = handle.consumer@.incarnation.0;
            let page = final(producer).producer@.pages.claims[id];
            &&& handle.consumer@.held.len() == holding
            &&& handle.consumer@.alive
            &&& handle.consumer@.installed matches Some(mapping) && Some(mapping.generation)
                == final(producer).producer@.current
                && mapping.layout
                == final(producer).producer@.pages.resources[mapping.generation].layout
            &&& page.slots.len() == holding
            &&& page.active != 0
            &&& page.offered == 0
            &&& forall|i: int| 0 <= i < holding ==> (#[trigger] page.slots[i]) == 0
            &&& setup matches Ok(scope) && handle.consumer@.claim_scope == scope
        },
{
    old(producer).producer.state_is_consistent();
    let state = old(producer).producer@;
    let (middle, granted) = choose|middle: ProducerState<T>, granted: Result<GrantTerms,
        ArenaError>|
        {
            &&& #[trigger] state.attaches_local(middle, holding, setup, now, granted)
            &&& super::producer::admits(middle, granted, final(producer).producer@, result)
            &&& match granted {
                Err(_) => *final(out) is None,
                Ok(terms) => {
                    &&& *final(out) matches Some(handle)
                    &&& handle.consumer.wf()
                    &&& handle.consumer.attached(final(producer).producer.spec_pages())
                    &&& handle.consumer@
                        == crate::acquisition::arena::consumer::fresh_consumer::<U>(
                        terms,
                        middle.page_size,
                    )
                },
            }
        };
    if granted is Err {
        errors_are_told_apart(granted->Err_0);
    }
    if state.pages.control.terminal == 0 {
        let answers = choose|answers: Map<u64, Seq<TimelineAnswer>>|
            {
                &&& state.complete_look(now, answers)
                &&& (#[trigger] state.cleaned(now, answers)).attaches(
                    middle,
                    holding,
                    0,
                    false,
                    setup,
                    granted,
                )
            };
        lemma_cleaned(state, now, answers);
        if granted is Ok {
            admitted_consumers_get_what_they_asked_for(
                state.cleaned(now, answers),
                middle,
                holding,
                0,
                false,
                setup,
                granted->Ok_0,
            );
        }
    }
}

/// A producer that C creates is empty and has the storage that was asked for; where none is created
/// nothing is handed out, and a handle that is taken already is left alone.
pub proof fn created_producers_have_their_storage<T>(
    config: &FtCpuProducerConfig,
    out: &mut Option<FtCpuProducer<T>>,
    page_size: i64,
    scope: ScopeId,
    now: u128,
    result: FtStatus,
)
    requires
        call_ensures(
            ft_cpu_producer_create::<T>,
            (config, out, page_size, scope, now),
            result,
        ),
    ensures
        *old(out) is Some ==> result == 2 && *final(out) == *old(out),
        *old(out) is None ==> (result == 0 <==> *final(out) is Some),
        *old(out) is None ==> (*final(out) matches Some(handle) ==> {
            let state = handle.producer@;
            &&& state.current matches Some(g) && {
                &&& state.pages.resources[g].layout.payload_capacity == config.payload_capacity
                &&& state.pages.resources[g].layout.resources == config.resource_capacity
                &&& state.pages.resources[g].layout.history == config.retained_history
            }
            &&& state.cursor == 0
            &&& state.pages.control.latest == 0
            &&& state.pages.control.terminal == 0
            &&& state.pages.control.scope == scope
            &&& state.pages.claims.dom() =~= Set::empty()
            &&& state.drain_timeout == config.drain_timeout_ns
            &&& !state.native_resources
        }),
{
    if *old(out) is None && *final(out) is None && config.payload_capacity <= usize::MAX {
        let error = choose|error: ArenaError|
            {
                &&& #[trigger] crate::acquisition::arena::producer::creation_refused(
                    error,
                    super::producer::config_of(*config),
                    0,
                    page_size,
                    now,
                )
                &&& result == super::producer::producer_status_of(error)
            };
        errors_are_told_apart(error);
    }
}

/// A replacement that C asks for and that is ready has the room asked for, under the generation that
/// it is told.
pub proof fn replaced_storage_has_its_room<T: ReleaseTimeline>(
    producer: &mut FtCpuProducer<T>,
    payload_capacity: u64,
    out: &mut FtCpuReconfiguration,
    now: u128,
    result: FtStatus,
    descriptor: FrameDescriptor,
    bytes: Seq<u8>,
)
    requires
        old(producer).producer.wf(),
        call_ensures(
            ft_cpu_producer_reconfigure::<T>,
            (producer, payload_capacity, out, now),
            result,
        ),
    ensures
        result == 0 ==> {
            let state = final(producer).producer@;
            let generation = final(out).generation;
            &&& state.current == Some(generation)
            &&& state.pages.resources[generation].layout.payload_capacity == payload_capacity
            &&& bytes.len() <= payload_capacity ==> state.published(
                Offer::Inline(descriptor),
                bytes,
            ).1 != Err::<PublishOutcome, ArenaError>(ArenaError::PayloadTooLarge)
        },
{
    if payload_capacity <= usize::MAX {
        old(producer).producer.state_is_consistent();
        let outcome = choose|outcome: Result<ReconfigurationStatus, ArenaError>|
            {
                &&& #[trigger] old(producer).producer@.reconfigures_cpu(
                    final(producer).producer@,
                    payload_capacity as usize,
                    now,
                    outcome,
                )
                &&& (result, *final(out)) == super::producer::transition_of(outcome)
            };
        super::promises::replacements_report_their_state(outcome);
        if outcome is Err {
            errors_are_told_apart(outcome->Err_0);
        } else if result == 0 {
            crate::acquisition::arena::replacement::replacements_have_the_room_asked_for(
                old(producer).producer@,
                final(producer).producer@,
                payload_capacity as usize,
                now,
                final(out).generation,
                Offer::Inline(descriptor),
                bytes,
            );
        }
    }
}

/// A frame is acquired by C in one of three ways: only one after the cursor for the newest, only the
/// one right after it for the next, and only the very one for an exact request; it is handed out
/// exactly where the status says so, and never over a frame that is there already.
pub proof fn acquired_frames_are_what_was_asked<T>(
    consumer: &mut FtAcquisitionConsumer<T>,
    pages: &mut ArenaPages,
    mode: u32,
    cursor: u64,
    out: &mut Option<FtAcquiredFrame>,
    range: &mut FtAcquisitionRange,
    result: FtStatus,
)
    requires
        call_ensures(
            ft_acquisition_acquire::<T>,
            (consumer, pages, mode, cursor, out, range),
            result,
        ),
    ensures
        *old(out) is Some ==> result == 2 && *final(out) == *old(out)
            && final(pages)@ == old(pages)@,
        *old(out) is None ==> (result == 0 <==> *final(out) is Some),
        *old(out) is None && mode != 1 && mode != 2 && mode != 3 ==> result == 2,
        *old(out) is None ==> (*final(out) matches Some(frame) ==> {
            &&& mode == 1 ==> frame.lease@.descriptor.cursor > cursor
            &&& mode == 2 && cursor != 0 ==> frame.lease@.descriptor.cursor == cursor + 1
            &&& mode == 3 ==> frame.lease@.descriptor.cursor == cursor
        }),
{
    if *old(out) is None && (mode == 1 || mode == 2 || mode == 3) {
        let outcome = choose|outcome: Result<AcquireOutcome, ArenaError>|
            {
                &&& #[trigger] acquires(
                    mode,
                    cursor,
                    old(consumer).consumer@,
                    old(pages)@,
                    final(consumer).consumer@,
                    final(pages)@,
                    outcome,
                )
                &&& result == acquire_status(outcome)
                &&& *final(range) == acquire_range(outcome)
                &&& *final(out) == acquire_frame(outcome)
            };
        acquisitions_are_told_apart(outcome);
        modes_ask_for_what_they_name(
            cursor,
            old(consumer).consumer@,
            old(pages)@,
            final(consumer).consumer@,
            final(pages)@,
            outcome,
        );
    }
}

/// A frame that C releases is gone from its handle and its slot is free again, no other changes; a
/// handle without a frame is refused.
pub proof fn released_frames_free_their_slot<T: ReleaseTimeline>(
    consumer: &mut FtAcquisitionConsumer<T>,
    pages: &mut ArenaPages,
    frame: &mut Option<FtAcquiredFrame>,
    now: u128,
    result: FtStatus,
)
    requires
        old(consumer).consumer@.alive,
        call_ensures(
            ft_acquired_frame_release::<T>,
            (consumer, pages, frame, now),
            result,
        ),
    ensures
        *final(frame) is None,
        *old(frame) is None ==> result == 2 && final(pages)@ == old(pages)@,
        *old(frame) matches Some(owner) ==> result == 0
            && final(pages)@.claims[old(consumer).consumer@.incarnation.0].slots
            == old(pages)@.claims[old(consumer).consumer@.incarnation.0].slots.update(owner.lease@.slot as int, 0)
            && final(pages)@.resources == old(pages)@.resources,
{
}

/// A frame that C hands to a completion keeps its slot; the page says what it waits for. One that
/// cannot be handed over stays in its handle.
pub proof fn deferred_frames_keep_their_slot<T: ReleaseTimeline>(
    consumer: &mut FtAcquisitionConsumer<T>,
    pages: &mut ArenaPages,
    frame: &mut Option<FtAcquiredFrame>,
    timeline: &ConsumerReleaseTimeline,
    value: u64,
    now: u128,
    result: FtStatus,
)
    requires
        old(consumer).consumer@.alive,
        call_ensures(
            ft_acquired_frame_defer_release::<T>,
            (consumer, pages, frame, timeline, value, now),
            result,
        ),
        *old(frame) matches Some(owner)
            && owner.lease@.slot < old(pages)@.claims[old(consumer).consumer@.incarnation.0].slots.len(),
        old(pages)@.claims[old(consumer).consumer@.incarnation.0].shaped(
            old(pages)@.claims[old(consumer).consumer@.incarnation.0].slots.len(),
        ),
    ensures
        ({
            let id = old(consumer).consumer@.incarnation.0;
            let slot = ((*old(frame))->0).lease@.slot as int;
            &&& final(pages)@.claims[id].slots == old(pages)@.claims[id].slots
            &&& result == 0 <==> *final(frame) is None
            &&& result != 0 ==> *final(frame) == *old(frame) && final(pages)@ == old(pages)@
            &&& result == 0 ==> final(pages)@.claims[id].pending[slot] == 1
                && final(pages)@.claims[id].release_values[slot] == value
                && final(pages)@.claims[id].release_ids[slot] == timeline.registration.id
        }),
{
}

/// A grant that C imports makes a consumer of its incarnation with its storage, for this process,
/// and the claim page that came with it joins the pages.
pub proof fn imported_grants_make_their_consumer<T>(
    pages: &mut ArenaPages,
    descriptor: Option<GrantDescriptor>,
    words: Vec<u64>,
    out: &mut Option<FtAcquisitionConsumer<T>>,
    now: u128,
    own_pid: u32,
    page_size: i64,
    result: FtStatus,
)
    requires
        *old(out) is None,
        call_ensures(
            ft_acquisition_import_cpu::<T>,
            (pages, descriptor, words, out, now, own_pid, page_size),
            result,
        ),
    ensures
        result == 0 <==> *final(out) is Some,
        descriptor is None ==> result == 2 && final(pages)@ == old(pages)@,
        *final(out) matches Some(handle) ==> {
            let given = descriptor->0;
            let page = final(pages)@.claims[given.incarnation];
            &&& given.recipient_pid == own_pid
            &&& given.payload_capacity != 0
            &&& handle.consumer@.incarnation.0 == given.incarnation
            &&& handle.consumer@.arena_scope == given.arena_scope
            &&& handle.consumer@.claim_scope == given.claim_scope
            &&& handle.consumer@.held.len() == given.holding
            &&& handle.consumer@.installed matches Some(mapping) && mapping.generation
                == given.generation && mapping.layout.payload_capacity == given.payload_capacity
                && mapping.layout.resources == given.resources
            &&& old(pages)@.control.scope == given.arena_scope
            &&& old(pages)@.resources.contains_key(given.generation)
            &&& page.offered == 0
            &&& page.slots.len() == given.holding
            &&& forall|i: int|
                0 <= i < given.holding ==> (#[trigger] page.slots[i]) == words@[32 + 4 * i]
        },
        final(pages)@.resources == old(pages)@.resources,
        final(pages)@.control == old(pages)@.control,
{
    if descriptor is Some && *final(out) is None {
        let error = choose|error: ArenaError|
            {
                &&& #[trigger] super::import::import_refused(
                    old(pages)@,
                    descriptor->0,
                    words@,
                    now,
                    own_pid,
                    page_size,
                    final(pages)@,
                    error,
                )
                &&& result == super::status_of(error)
            };
        errors_are_told_apart(error);
    }
}

/// A producer is let go only when it is closed and nobody and nothing of it is left; until then its
/// handle stays, closed.
pub proof fn producers_stay_until_they_are_empty<T: ReleaseTimeline>(
    handle: &mut Option<FtCpuProducer<T>>,
    now: u128,
    result: FtStatus,
)
    requires
        call_ensures(ft_cpu_producer_destroy::<T>, (handle, now), result),
    ensures
        result == 0 <==> *final(handle) is None,
        *old(handle) is None ==> result == 0,
        *final(handle) matches Some(owner) ==> owner.producer@.pages.control.terminal != 0 && !(
        owner.producer@.pages.claims.dom() =~= Set::empty() && owner.producer@.retired.len() == 0),
{
    if *old(handle) is Some {
        let owner = (*old(handle))->0;
        let answers = choose|answers: Map<u64, Seq<TimelineAnswer>>|
            {
                &&& owner.producer@.stopped().complete_look(now, answers)
                &&& super::producer::destroys(
                    #[trigger] owner.producer@.stopped().cleaned(now, answers),
                    *final(handle),
                    result,
                )
            };
    }
}

/// Upkeep says that recovery is needed exactly where some incarnation's cleanup has failed.
pub proof fn upkeep_reports_failures<T: ReleaseTimeline>(
    producer: &mut FtCpuProducer<T>,
    now: u128,
    result: FtStatus,
    id: u64,
)
    requires
        call_ensures(ft_cpu_producer_poll_cleanup::<T>, (producer, now), result),
    ensures
        result == 0 || result == 18,
        final(producer).producer@.cleanup.contains_key(id)
            && final(producer).producer@.cleanup[id].failure_reason(final(producer).producer@.pages.claims[id]) is Some
            ==> result != 0,
{
}

/// Connecting to a session hands out the connection, the consumer and the track together or none of
/// them, and never over what is there already.
pub proof fn sessions_are_handed_out_whole<T>(
    holding: u32,
    found: Option<SessionInfo>,
    opened: Option<CpuSetupClient>,
    admitted: Result<ArenaConsumer<T>, SocketError>,
    out_connection: &mut Option<FtCpuAcquisitionConnection>,
    out_consumer: &mut Option<FtAcquisitionConsumer<T>>,
    out_track: &mut u64,
    result: FtStatus,
)
    requires
        call_ensures(
            ft_acquisition_cpu_connect_session::<T>,
            (holding, found, opened, admitted, out_connection, out_consumer, out_track),
            result,
        ),
    ensures
        *old(out_connection) is Some || *old(out_consumer) is Some || holding == 0 ==> result == 2
            && *final(out_connection) == *old(out_connection) && *final(out_consumer)
            == *old(out_consumer),
        *old(out_connection) is None && *old(out_consumer) is None && holding > 0 ==> {
            &&& result == 0 <==> found is Some && opened is Some && admitted is Ok
            &&& result == 0 <==> *final(out_connection) is Some
            &&& result == 0 <==> *final(out_consumer) is Some
            &&& *final(out_consumer) matches Some(handle) ==> (admitted matches Ok(consumer)
                && handle.consumer == consumer)
            &&& result == 0 ==> *final(out_track) == (found->0).track_id
            &&& result != 0 ==> *final(out_track) == 0
        },
{
}

/// A consumer that was admitted over a connection is handed out; one that was not is reported, as
/// cancelled where the connection was.
pub proof fn admissions_are_handed_out<T>(
    connection: &FtCpuAcquisitionConnection,
    holding: u32,
    admitted: Result<ArenaConsumer<T>, SocketError>,
    out: &mut Option<FtAcquisitionConsumer<T>>,
    result: FtStatus,
)
    requires
        *old(out) is None,
        call_ensures(ft_acquisition_cpu_attach::<T>, (connection, holding, admitted, out), result),
    ensures
        result == 0 <==> *final(out) is Some,
        result == 0 <==> holding > 0 && admitted is Ok,
        *final(out) matches Some(handle) ==> (admitted matches Ok(consumer) && handle.consumer
            == consumer),
        holding > 0 && admitted is Err ==> result == (if connection.cancelled {
            12i32
        } else {
            3
        }),
{
}

/// An adapter is described with its numbers, and with as much of its name as there is room for before
/// a final zero.
pub proof fn adapters_are_described_whole(info: &AdapterInfo, adapter: FtD3d11Adapter)
    requires
        call_ensures(FtD3d11Adapter::of, (info,), adapter),
    ensures
        adapter.luid == info.luid,
        adapter.vendor_id == info.vendor_id,
        adapter.device_id == info.device_id,
        adapter.software == 1 <==> info.software,
        adapter.software <= 1,
        adapter.description@.len() == 128,
        adapter.description@[127] == 0,
        exists|end: int|
            {
                &&& 0 <= end <= 127
                &&& end <= encode_utf8(info.description@).len()
                &&& #[trigger] adapter.description@.take(end) == encode_utf8(
                    info.description@,
                ).take(end)
                &&& forall|i: int| end <= i < 128 ==> (#[trigger] adapter.description@[i]) == 0
            },
{
    let bytes = encode_utf8(info.description@);
    let end = choose|end: int|
        {
            &&& #[trigger] fitting(bytes, end)
            &&& adapter.description@ == filled(bytes, end)
        };
    assert(adapter.description@.take(end) =~= bytes.take(end));
}

/// A replacement that C installs is the storage that its metadata names, for this process and this
/// consumer; frames that are held stay held, and whatever is not installed leaves the consumer as it
/// was.
pub proof fn installed_replacements_are_what_was_offered<T>(
    consumer: &mut FtAcquisitionConsumer<T>,
    pages: &mut ArenaPages,
    descriptor: Option<ConfigurationDescriptor>,
    own_pid: u32,
    result: FtStatus,
)
    requires
        call_ensures(
            ft_acquisition_install_cpu_configuration::<T>,
            (consumer, pages, descriptor, own_pid),
            result,
        ),
    ensures
        final(consumer).consumer@.held == old(consumer).consumer@.held,
        final(consumer).consumer@.pending == old(consumer).consumer@.pending,
        descriptor is None ==> result == 2 && final(pages)@ == old(pages)@,
        result != 0 ==> final(consumer).consumer@ == old(consumer).consumer@,
        result == 0 ==> (descriptor matches Some(given) && {
            &&& given.recipient_pid == own_pid
            &&& given.payload_capacity != 0
            &&& given.generation == old(pages)@.control.configuration
            &&& given.arena_scope == old(consumer).consumer@.arena_scope
            &&& final(consumer).consumer@.installed matches Some(mapping) && mapping.generation
                == given.generation && mapping.slot == given.mapping_slot
                && mapping.layout.payload_capacity == given.payload_capacity
                && mapping.layout.resources == given.resources
        }),
{
    if descriptor is Some {
        let given = descriptor->0;
        let state = old(consumer).consumer@;
        let page = old(pages)@.claims[state.incarnation.0];
        let page_size = old(consumer).consumer.spec_page_size() as i64;
        let imported = choose|imported: Result<ConfigurationGrant, ArenaError>|
            {
                &&& #[trigger] replacement_result(
                    imported,
                    given,
                    state.arena_scope,
                    old(pages)@.control.ring.len(),
                    page,
                    own_pid,
                    page_size,
                )
                &&& installs_import(
                    state,
                    old(pages)@,
                    given,
                    imported,
                    final(consumer).consumer@,
                    final(pages)@,
                    result,
                )
            };
        if imported is Err {
            errors_are_told_apart(imported->Err_0);
        } else if given.payload_capacity != 0 {
            let grant = imported->Ok_0;
            offers_are_for_one_incarnation(
                grant,
                given,
                state.arena_scope,
                old(pages)@.control.ring.len(),
                page,
                own_pid,
                page_size,
            );
            installed_storage_replaces_the_old(state, page, grant@);
            let outcome = choose|outcome: Result<Option<ConfigurationInstall>, SocketError>|
                {
                    &&& #[trigger] installs_offer(
                        state,
                        old(pages)@,
                        grant@,
                        final(consumer).consumer@,
                        final(pages)@,
                        outcome,
                    )
                    &&& result == installed_status(outcome)
                };
        }
    }
}

} // verus!
