//! What acquisition hands to C and takes from it, number by number.

use super::connection::{FtCpuAcquisitionConnection, FtCpuSetupServer};
use super::producer::{
    config_of, copied, destruction, producer_status_of, publishable, transition_of,
    FtCpuProducerConfig,
};
use super::{
    acquire_frame, acquire_range, acquire_status, acquires, events_of, import_arguments,
    install_status, status_of, wait_request, wait_status, FtAcquisitionEvents, WaitRequest,
};
use crate::acquisition::arena::consumer::AcquireOutcome;
use crate::acquisition::arena::holding::ConsumerState;
use crate::acquisition::arena::pages::Pages;
use crate::acquisition::arena::producer::reconfiguration::{
    ConfigurationInstall, ReconfigurationStatus,
};
use crate::acquisition::arena::state::ProducerState;
use crate::acquisition::arena::wait::WaitOutcome;
use crate::acquisition::arena::{ArenaError, FrameDescriptor};
use crate::acquisition::AdmissionError;
use crate::ffi::FtStatus;
use vstd::prelude::*;

verus! {

/// Every outcome of an acquisition has a number of its own. Exactly an acquired frame is handed out;
/// a miss and a gap report their cursors, and nothing else reports any.
pub proof fn acquisitions_are_told_apart(outcome: Result<AcquireOutcome, ArenaError>)
    ensures
        ({
            let status = acquire_status(outcome);
            let range = acquire_range(outcome);
            let frame = acquire_frame(outcome);
            match outcome {
                Ok(AcquireOutcome::Frame(lease)) => status == 0 && frame is Some && (
                frame->0).lease == lease && range.first == 0 && range.last == 0,
                Ok(AcquireOutcome::Empty) => status == 1 && frame is None && range.first == 0
                    && range.last == 0,
                Ok(AcquireOutcome::Miss { cursor }) => status == 10 && frame is None && range.first
                    == cursor && range.last == cursor,
                Ok(AcquireOutcome::Gap { first, last }) => status == 11 && frame is None
                    && range.first == first && range.last == last,
                Ok(AcquireOutcome::HoldingLimit) => status == 8 && frame is None && range.first == 0,
                Ok(AcquireOutcome::Reconfiguration) => status == 9 && frame is None && range.first
                    == 0,
                Ok(AcquireOutcome::Closed) => status == 5 && frame is None && range.first == 0,
                Err(error) => frame is None && range.first == 0 && status == (match error {
                    ArenaError::Closed => 5i32,
                    ArenaError::Configuration(_) => 2,
                    _ => 3,
                }),
            }
        }),
{
}

/// The three ways to ask have their numbers: the newest frame after a cursor, the next one after it,
/// and precisely one, for which there is no cursor zero.
pub proof fn modes_ask_for_what_they_name<T>(
    cursor: u64,
    consumer: ConsumerState<T>,
    pages: Pages,
    left: ConsumerState<T>,
    after: Pages,
    outcome: Result<AcquireOutcome, ArenaError>,
)
    ensures
        acquires(1, cursor, consumer, pages, left, after, outcome) ==> left
            == consumer.acquired_latest(pages, cursor).0 && after == consumer.acquired_latest(
            pages,
            cursor,
        ).1 && (outcome matches Ok(AcquireOutcome::Frame(lease)) ==> lease@.descriptor.cursor
            > cursor),
        acquires(2, cursor, consumer, pages, left, after, outcome) ==> left
            == consumer.acquired_next(pages, cursor).0 && after == consumer.acquired_next(
            pages,
            cursor,
        ).1 && (cursor != 0 ==> (outcome matches Ok(AcquireOutcome::Frame(lease))
            ==> lease@.descriptor.cursor == cursor + 1)),
        acquires(3, cursor, consumer, pages, left, after, outcome) ==> (outcome matches Ok(
            AcquireOutcome::Frame(lease),
        ) ==> lease@.descriptor.cursor == cursor) && (cursor == 0 ==> outcome is Err && left
            == consumer && after == pages),
{
}

/// A producer's errors have their numbers: what is missing is capacity, what is asked for wrongly is
/// an argument, and what is pending or needs recovery says so.
pub proof fn errors_are_told_apart(error: ArenaError)
    ensures
        producer_status_of(error) == (match error {
            ArenaError::Closed => 5i32,
            ArenaError::Configuration(_) => 2,
            ArenaError::PayloadTooLarge => 2,
            ArenaError::RecoveryRequired { .. } => 18,
            ArenaError::Admission(AdmissionError::InsufficientMemory { .. }) => 17,
            ArenaError::Admission(AdmissionError::InsufficientResources { .. }) => 17,
            ArenaError::Admission(AdmissionError::IncarnationCapacity) => 17,
            ArenaError::Admission(AdmissionError::ReconfigurationPending) => 16,
            ArenaError::Admission(AdmissionError::InvalidLimits(_)) => 2,
            ArenaError::Admission(AdmissionError::InvalidRequest) => 2,
            _ => 3,
        }),
        status_of(error) == (match error {
            ArenaError::Closed => 5i32,
            ArenaError::Configuration(_) => 2,
            _ => 3,
        }),
{
}

/// A copied frame is published with the producer's metadata; only what speaks of native handles is
/// set aside, and its readiness is that of the finished copy.
pub proof fn copies_keep_their_metadata(descriptor: FrameDescriptor)
    ensures
        ({
            let c = copied(descriptor);
            &&& c.sequence == descriptor.sequence
            &&& c.timestamp_ns == descriptor.timestamp_ns
            &&& c.pool_id == descriptor.pool_id
            &&& c.damage_base_sequence == descriptor.damage_base_sequence
            &&& c.producer_drop_count == descriptor.producer_drop_count
            &&& c.width == descriptor.width
            &&& c.height == descriptor.height
            &&& c.stride == descriptor.stride
            &&& c.pixel_format == descriptor.pixel_format
            &&& c.slot_id == descriptor.slot_id
            &&& c.clock_domain == descriptor.clock_domain
            &&& c.color_space == descriptor.color_space
            &&& c.payload_kind == descriptor.payload_kind
            &&& c.damage_kind == descriptor.damage_kind
            &&& c.dropped_before_publish == descriptor.dropped_before_publish
            &&& c.flags == descriptor.flags
            &&& c.modifier == 0
            &&& c.fence_id == 0
            &&& c.fence_value == 0
            &&& c.sync_kind == 1
        }),
{
}

/// Bytes are published exactly where they are a whole picture of four-byte pixels as the descriptor
/// says: rows of its stride, each with room for its width, as many as its height.
pub proof fn pictures_are_whole(descriptor: FrameDescriptor, len: nat)
    ensures
        publishable(descriptor, len) <==> {
            &&& 0 < len <= isize::MAX
            &&& descriptor.payload_kind == 0
            &&& descriptor.width > 0
            &&& descriptor.height > 0
            &&& descriptor.stride >= descriptor.width * 4
            &&& len == descriptor.stride * descriptor.height
            &&& descriptor.pixel_format == 1 || descriptor.pixel_format == 2
        },
{
}

/// An arena is made with what C asked for, field by field.
pub proof fn configurations_cross_unchanged(config: FtCpuProducerConfig)
    requires
        config.payload_capacity <= usize::MAX,
    ensures
        ({
            let c = config_of(config);
            &&& c.resource_capacity == config.resource_capacity
            &&& c.retained_history == config.retained_history
            &&& c.producer_reserve == config.producer_reserve
            &&& c.payload_capacity == config.payload_capacity
            &&& c.memory_budget == config.memory_budget
            &&& c.max_incarnations == config.max_incarnations
            &&& c.drain_timeout == config.drain_timeout_ns
        }),
{
}

/// A replacement tells its generation once it is ready, and the bytes that it asks for and that there
/// are while it waits or where it can never fit.
pub proof fn replacements_report_their_state(
    outcome: Result<ReconfigurationStatus, ArenaError>,
)
    ensures
        ({
            let (status, report) = transition_of(outcome);
            match outcome {
                Ok(ReconfigurationStatus::Ready { generation }) => status == 0 && report.generation
                    == generation && report.requested_bytes == 0 && report.available_bytes == 0,
                Ok(ReconfigurationStatus::PausedCapacity { requested, available }) => status == 16
                    && report.generation == 0 && report.requested_bytes == requested
                    && report.available_bytes == available,
                Err(
                    ArenaError::Admission(
                        AdmissionError::InsufficientMemory { requested, available },
                    ),
                ) => status == 17 && report.generation == 0 && report.requested_bytes == requested
                    && report.available_bytes == available,
                Err(error) => status == producer_status_of(error) && report.generation == 0
                    && report.requested_bytes == 0 && report.available_bytes == 0,
            }
        }),
{
}

/// A producer is destroyed exactly where it is stopped, nobody is admitted any more and no retired
/// storage is left; else it drains, or says that something has to be recovered.
pub proof fn producers_are_destroyed_only_when_empty<T>(state: ProducerState<T>)
    ensures
        destruction(state) == 0 <==> state.pages.control.terminal != 0 && (forall|id: u64|
            !#[trigger] state.pages.claims.contains_key(id)) && state.retired.len() == 0,
        destruction(state) == 0 || destruction(state) == 14 || destruction(state) == 18,
        destruction(state) == 18 ==> exists|id: u64| #[trigger]
            state.cleanup.contains_key(id) && state.cleanup[id].failure_reason(
                state.pages.claims[id],
            ) is Some,
{
    if state.pages.claims.is_empty() {
        assert forall|id: u64| !#[trigger] state.pages.claims.contains_key(id) by {
            assert(!state.pages.claims.dom().contains(id));
        }
    } else if forall|id: u64| !#[trigger] state.pages.claims.contains_key(id) {
        assert(state.pages.claims.dom() =~= Set::<u64>::empty());
    }
}

/// What a wait is asked for crosses as it is: the snapshot, the events of interest and the time,
/// of which the largest stands for no end.
pub proof fn waits_cross_unchanged(
    observed: &FtAcquisitionEvents,
    interest: u32,
    timeout_ns: u64,
    request: Option<WaitRequest>,
    outcome: &Result<WaitOutcome, ArenaError>,
    told: (FtStatus, FtAcquisitionEvents),
)
    requires
        call_ensures(wait_request, (observed, interest, timeout_ns), request),
        call_ensures(wait_status, (outcome,), told),
    ensures
        request is Some <==> observed.closed <= 1 && observed.reserved == 0 && 1 <= interest <= 3,
        request matches Some(asked) ==> {
            &&& asked.observed.data_cursor == observed.data_cursor
            &&& asked.observed.capacity_epoch == observed.capacity_epoch
            &&& asked.observed.reconfiguration_epoch == observed.reconfiguration_epoch
            &&& asked.observed.closed == (observed.closed == 1)
            &&& asked.timeout is None <==> timeout_ns == u64::MAX
            &&& asked.timeout matches Some(time) ==> time == timeout_ns
            &&& asked.interest.0 & 1 != 0 <==> interest != 2
            &&& asked.interest.0 & 2 != 0 <==> interest != 1
        },
        match *outcome {
            Ok(WaitOutcome::Changed(events)) => {
                &&& told.0 == (if events.closed {
                    5i32
                } else {
                    0
                })
                &&& told.1.data_cursor == events.data_cursor
                &&& told.1.capacity_epoch == events.capacity_epoch
                &&& told.1.reconfiguration_epoch == events.reconfiguration_epoch
                &&& told.1.closed == (if events.closed {
                    1u32
                } else {
                    0
                })
            },
            Ok(WaitOutcome::Cancelled) => told.0 == 12,
            Ok(WaitOutcome::TimedOut) => told.0 == 4,
            Err(error) => told.0 != 0,
        },
{
    assert(1u64 & 1 != 0 && 1u64 & 2 == 0 && 2u64 & 1 == 0 && 2u64 & 2 != 0 && 7u64 & 1 != 0 && 7u64
        & 2 != 0) by (bit_vector);
}

/// An import is begun only with metadata of a bounded length and five descriptors that can all be
/// owned; and what installing comes to has its number.
pub proof fn imports_take_whole_arguments(
    len: usize,
    fds: &[i32; 5],
    status: FtStatus,
    installed: Result<Option<ConfigurationInstall>, FtStatus>,
    told: FtStatus,
)
    requires
        call_ensures(import_arguments, (len, fds), status),
        call_ensures(install_status, (installed,), told),
    ensures
        status == 0 || status == 2,
        status == 0 <==> 1 <= len <= 1048576 && (forall|i: int| 0 <= i < 5 ==> (#[trigger] fds@[i])
            >= 0) && (forall|i: int, j: int|
            0 <= i < j < 5 ==> (#[trigger] fds@[i]) != (#[trigger] fds@[j])),
        told == (match installed {
            Ok(Some(ConfigurationInstall::Installed)) => 0i32,
            Ok(Some(ConfigurationInstall::Stale)) => 13,
            Ok(None) => 1,
            Err(status) => status,
        }),
{
    assert(fds@.len() == 5);
}

/// A connection that was cancelled starts nothing any more; what had completed before keeps its
/// result, and what fails then failed by the cancellation.
pub proof fn cancelled_connections_start_nothing<V>(
    connection: &FtCpuAcquisitionConnection,
    begun: Result<(), FtStatus>,
    result: Result<V, FtStatus>,
    ended: Result<V, FtStatus>,
)
    requires
        call_ensures(FtCpuAcquisitionConnection::begin, (connection,), begun),
        call_ensures(FtCpuAcquisitionConnection::finish::<V>, (connection, result), ended),
    ensures
        begun is Err <==> connection.cancelled,
        begun matches Err(status) ==> status == 12,
        result is Ok ==> ended == result,
        result is Err && connection.cancelled ==> ended == Err::<V, FtStatus>(12),
        result is Err && !connection.cancelled ==> ended == result,
{
}

/// A server drains exactly while its worker runs, its result is not known, and it is not waited for.
pub proof fn servers_drain_while_they_work(
    server: &FtCpuSetupServer,
    wait: bool,
    running: bool,
    drains: bool,
)
    requires
        call_ensures(FtCpuSetupServer::draining, (server, wait, running), drains),
    ensures
        drains <==> running && !wait && server.worker && server.result is None,
{
}

/// A snapshot crosses as it is.
pub proof fn snapshots_cross_unchanged(events: crate::acquisition::arena::wait::WaitEvents)
    ensures
        ({
            let e = events_of(events);
            &&& e.data_cursor == events.data_cursor
            &&& e.capacity_epoch == events.capacity_epoch
            &&& e.reconfiguration_epoch == events.reconfiguration_epoch
            &&& e.closed == 1 <==> events.closed
            &&& e.closed <= 1
            &&& e.reserved == 0
        }),
{
}

} // verus!
