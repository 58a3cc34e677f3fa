//! The C boundary of acquisition, on plain values.
//!
//! Where C passes pointers, these functions take references; where C passes a handle that may
//! be null, an `Option`. The host rejects null pointers before it calls them. Frames retain the
//! same lease; neither this boundary nor its callers maintain another lease book.

use crate::acquisition::arena::cleanup::ReleaseTimeline;
use crate::acquisition::arena::consumer::retirement::ConsumerReleaseTimeline;
use crate::acquisition::arena::consumer::{outcome_is, AcquireOutcome, ArenaConsumer, FrameLease};
use crate::acquisition::arena::holding::ConsumerState;
use crate::acquisition::arena::pages::{ArenaPages, Pages};
use crate::acquisition::arena::producer::reconfiguration::ConfigurationInstall;
use crate::acquisition::arena::wait::{snapshot, WaitEvents, WaitInterest, WaitOutcome};
use crate::acquisition::arena::{configuration_error, ArenaError, FrameDescriptor};
use crate::ffi::{
    FtStatus, FT_STATUS_CANCELLED, FT_STATUS_CLOSED, FT_STATUS_EMPTY, FT_STATUS_ERROR,
    FT_STATUS_GAP, FT_STATUS_HOLDING_LIMIT, FT_STATUS_INVALID_ARGUMENT, FT_STATUS_MISS,
    FT_STATUS_OK, FT_STATUS_RECONFIGURATION, FT_STATUS_STALE, FT_STATUS_TIMEOUT,
};
use vstd::prelude::*;

pub mod connection;
pub mod d3d11;
pub mod import;
pub mod macos;
pub mod producer;
pub mod operations;
pub mod promises;

verus! {

pub const FT_ACQUIRE_LATEST: u32 = 1;
pub const FT_ACQUIRE_NEXT: u32 = 2;
pub const FT_ACQUIRE_EXACT: u32 = 3;
pub const FT_WAIT_DATA: u32 = 1;
pub const FT_WAIT_CAPACITY: u32 = 2;
pub const FT_WAIT_ALL: u32 = 3;

/// The longest setup metadata that an import takes, in bytes.
pub const MAX_SETUP: usize = 0x10_0000;

/// An admitted consumer that was handed to C.
pub struct FtAcquisitionConsumer<T> {
    pub consumer: ArenaConsumer<T>,
}

/// An acquired frame that was handed to C.
pub struct FtAcquiredFrame {
    pub lease: FrameLease,
}

/// An inclusive range of cursors.
#[derive(Debug, Clone, Copy, PartialEq, Eq, Structural)]
pub struct FtAcquisitionRange {
    pub first: u64,
    pub last: u64,
}

/// A snapshot of everything that a wait compares.
#[derive(Debug, Clone, Copy, PartialEq, Eq, Structural)]
pub struct FtAcquisitionEvents {
    pub data_cursor: u64,
    pub capacity_epoch: u64,
    pub reconfiguration_epoch: u64,
    pub closed: u32,
    pub reserved: u32,
}

/// The range that names no cursor.
pub open spec fn no_range() -> FtAcquisitionRange {
    FtAcquisitionRange { first: 0, last: 0 }
}

/// The snapshot that says nothing.
pub open spec fn no_events() -> FtAcquisitionEvents {
    FtAcquisitionEvents {
        data_cursor: 0,
        capacity_epoch: 0,
        reconfiguration_epoch: 0,
        closed: 0,
        reserved: 0,
    }
}

/// A snapshot as C sees it.
pub open spec fn events_of(events: WaitEvents) -> FtAcquisitionEvents {
    FtAcquisitionEvents {
        data_cursor: events.data_cursor,
        capacity_epoch: events.capacity_epoch,
        reconfiguration_epoch: events.reconfiguration_epoch,
        closed: if events.closed {
            1
        } else {
            0
        },
        reserved: 0,
    }
}

impl FtAcquisitionEvents {
    /// A snapshot as C sees it.
    pub fn of(events: WaitEvents) -> (result: Self)
        ensures
            result == events_of(events),
    {
        FtAcquisitionEvents {
            data_cursor: events.data_cursor,
            capacity_epoch: events.capacity_epoch,
            reconfiguration_epoch: events.reconfiguration_epoch,
            closed: if events.closed {
                1
            } else {
                0
            },
            reserved: 0,
        }
    }
}

/// The status of an error.
pub open spec fn status_of(error: ArenaError) -> FtStatus {
    match error {
        ArenaError::Closed => FT_STATUS_CLOSED,
        ArenaError::Configuration(_) => FT_STATUS_INVALID_ARGUMENT,
        _ => FT_STATUS_ERROR,
    }
}

/// The status of an error.
pub fn status(error: &ArenaError) -> (result: FtStatus)
    ensures
        result == status_of(*error),
{
    match error {
        ArenaError::Closed => FT_STATUS_CLOSED,
        ArenaError::Configuration(_) => FT_STATUS_INVALID_ARGUMENT,
        _ => FT_STATUS_ERROR,
    }
}

/// Whether descriptors are five that can be owned: none is negative, and none comes twice.
pub open spec fn distinct_descriptors(fds: Seq<i32>) -> bool {
    &&& forall|i: int| 0 <= i < fds.len() ==> #[trigger] fds[i] >= 0
    &&& forall|i: int, j: int| 0 <= i < j < fds.len() ==> #[trigger] fds[i] != #[trigger] fds[j]
}

/// Checks the arguments of an import before any ownership is taken.
pub fn import_arguments(len: usize, fds: &[i32; 5]) -> (result: FtStatus)
    ensures
        result == (if 1 <= len <= MAX_SETUP && distinct_descriptors(fds@) {
            FT_STATUS_OK
        } else {
            FT_STATUS_INVALID_ARGUMENT
        }),
{
    if len == 0 || len > MAX_SETUP {
        return FT_STATUS_INVALID_ARGUMENT;
    }
    let mut i: usize = 0;
    while i < 5
        invariant
            i <= 5,
            fds@.len() == 5,
            forall|k: int| 0 <= k < i ==> #[trigger] fds@[k] >= 0,
            forall|k: int, j: int| 0 <= k < j < i ==> #[trigger] fds@[k] != #[trigger] fds@[j],
        decreases 5 - i,
    {
        if fds[i] < 0 {
            return FT_STATUS_INVALID_ARGUMENT;
        }
        let mut j: usize = 0;
        while j < i
            invariant
                j <= i < 5,
                fds@.len() == 5,
                forall|k: int| 0 <= k < j ==> #[trigger] fds@[k] != fds@[i as int],
            decreases i - j,
        {
            if fds[j] == fds[i] {
                assert(fds@[j as int] == fds@[i as int]);
                return FT_STATUS_INVALID_ARGUMENT;
            }
            j = j + 1;
        }
        i = i + 1;
    }
    FT_STATUS_OK
}

/// Checks the arguments of a replacement's import before any ownership is taken.
pub fn replacement_arguments(len: usize, fd: i32) -> (result: FtStatus)
    ensures
        result == (if 1 <= len <= MAX_SETUP && fd >= 0 {
            FT_STATUS_OK
        } else {
            FT_STATUS_INVALID_ARGUMENT
        }),
{
    if len == 0 || len > MAX_SETUP || fd < 0 {
        return FT_STATUS_INVALID_ARGUMENT;
    }
    FT_STATUS_OK
}

/// Whether setup metadata is for inline storage; `replacement` for that of an offer.
pub fn inline_storage(payload_capacity: u64, replacement: bool) -> (result: Result<(), ArenaError>)
    ensures
        if payload_capacity != 0 {
            result is Ok
        } else {
            result matches Err(error) && configuration_error(
                error,
                if replacement {
                    "CPU replacement requires inline storage"@
                } else {
                    "CPU import requires inline storage"@
                },
            )
        },
{
    if payload_capacity != 0 {
        return Ok(());
    }
    if replacement {
        Err(ArenaError::Configuration("CPU replacement requires inline storage"))
    } else {
        Err(ArenaError::Configuration("CPU import requires inline storage"))
    }
}

/// The status of an installation.
pub open spec fn install_status_of(result: Result<Option<ConfigurationInstall>, FtStatus>) -> FtStatus {
    match result {
        Ok(Some(ConfigurationInstall::Installed)) => FT_STATUS_OK,
        Ok(Some(ConfigurationInstall::Stale)) => FT_STATUS_STALE,
        Ok(None) => FT_STATUS_EMPTY,
        Err(status) => status,
    }
}

/// The status of an installation: an overtaken offer is stale, and empty means no offer.
pub fn install_status(result: Result<Option<ConfigurationInstall>, FtStatus>) -> (status: FtStatus)
    ensures
        status == install_status_of(result),
{
    match result {
        Ok(Some(ConfigurationInstall::Installed)) => FT_STATUS_OK,
        Ok(Some(ConfigurationInstall::Stale)) => FT_STATUS_STALE,
        Ok(None) => FT_STATUS_EMPTY,
        Err(status) => status,
    }
}

/// What acquiring in a mode gives.
pub open spec fn acquires<T>(
    mode: u32,
    cursor: u64,
    consumer: ConsumerState<T>,
    pages: Pages,
    left: ConsumerState<T>,
    after: Pages,
    outcome: Result<AcquireOutcome, ArenaError>,
) -> bool {
    if mode == FT_ACQUIRE_LATEST {
        let (state, page, expected) = consumer.acquired_latest(pages, cursor);
        left == state && after == page && outcome_is(outcome, expected)
    } else if mode == FT_ACQUIRE_NEXT {
        let (state, page, expected) = consumer.acquired_next(pages, cursor);
        left == state && after == page && outcome_is(outcome, expected)
    } else if cursor == 0 {
        &&& outcome matches Err(error) && configuration_error(error, "frame cursors start at one"@)
        &&& left == consumer
        &&& after == pages
    } else {
        let (state, page, expected) = consumer.acquired_exact(pages, cursor);
        left == state && after == page && outcome_is(outcome, expected)
    }
}

/// The status of an attempt to acquire.
pub open spec fn acquire_status(outcome: Result<AcquireOutcome, ArenaError>) -> FtStatus {
    match outcome {
        Ok(AcquireOutcome::Frame(_)) => FT_STATUS_OK,
        Ok(AcquireOutcome::Empty) => FT_STATUS_EMPTY,
        Ok(AcquireOutcome::Miss { .. }) => FT_STATUS_MISS,
        Ok(AcquireOutcome::Gap { .. }) => FT_STATUS_GAP,
        Ok(AcquireOutcome::HoldingLimit) => FT_STATUS_HOLDING_LIMIT,
        Ok(AcquireOutcome::Reconfiguration) => FT_STATUS_RECONFIGURATION,
        Ok(AcquireOutcome::Closed) => FT_STATUS_CLOSED,
        Err(error) => status_of(error),
    }
}

/// The range that an attempt to acquire reports.
pub open spec fn acquire_range(outcome: Result<AcquireOutcome, ArenaError>) -> FtAcquisitionRange {
    match outcome {
        Ok(AcquireOutcome::Miss { cursor }) => FtAcquisitionRange { first: cursor, last: cursor },
        Ok(AcquireOutcome::Gap { first, last }) => FtAcquisitionRange { first, last },
        _ => no_range(),
    }
}

/// The frame that an attempt to acquire hands out.
pub open spec fn acquire_frame(outcome: Result<AcquireOutcome, ArenaError>) -> Option<FtAcquiredFrame> {
    match outcome {
        Ok(AcquireOutcome::Frame(lease)) => Some(FtAcquiredFrame { lease }),
        _ => None,
    }
}

/// Acquires latest or next after `cursor`, or exactly `cursor`. Miss and gap ranges are
/// inclusive. A successful call hands out one independently owned frame.
pub fn ft_acquisition_acquire<T>(
    consumer: &mut FtAcquisitionConsumer<T>,
    pages: &mut ArenaPages,
    mode: u32,
    cursor: u64,
    out: &mut Option<FtAcquiredFrame>,
    range: &mut FtAcquisitionRange,
) -> (result: FtStatus)
    requires
        old(consumer).consumer.wf(),
        old(consumer).consumer.attached(*old(pages)),
        mode == FT_ACQUIRE_NEXT ==> old(consumer).consumer@.cursors_start_at_one(
            old(pages)@.control,
            cursor,
        ),
    ensures
        final(consumer).consumer.wf(),
        final(consumer).consumer.attached(*final(pages)),
        if *old(out) is Some {
            &&& result == FT_STATUS_INVALID_ARGUMENT
            &&& final(consumer).consumer@ == old(consumer).consumer@
            &&& final(pages)@ == old(pages)@
            &&& *final(out) == *old(out)
            &&& *final(range) == *old(range)
        } else if mode != FT_ACQUIRE_LATEST && mode != FT_ACQUIRE_NEXT && mode != FT_ACQUIRE_EXACT {
            &&& result == FT_STATUS_INVALID_ARGUMENT
            &&& final(consumer).consumer@ == old(consumer).consumer@
            &&& final(pages)@ == old(pages)@
            &&& *final(out) is None
            &&& *final(range) == no_range()
        } else {
            exists|outcome: Result<AcquireOutcome, ArenaError>|
                {
                    &&& #[trigger] acquires(
                        mode,
                        cursor,
                        old(consumer).consumer@,
                        old(pages)@,
                        final(consumer).consumer@,
                        final(pages)@,
                        outcome,
                    )
                    &&& result == acquire_status(outcome)
                    &&& *final(range) == acquire_range(outcome)
                    &&& *final(out) == acquire_frame(outcome)
                }
        },
{
    if out.is_some() {
        return FT_STATUS_INVALID_ARGUMENT;
    }
    *range = FtAcquisitionRange { first: 0, last: 0 };
    let outcome = if mode == FT_ACQUIRE_LATEST {
        consumer.consumer.acquire_latest(pages, cursor)
    } else if mode == FT_ACQUIRE_NEXT {
        consumer.consumer.acquire_next(pages, cursor)
    } else if mode == FT_ACQUIRE_EXACT {
        consumer.consumer.acquire_exact(pages, cursor)
    } else {
        return FT_STATUS_INVALID_ARGUMENT;
    };
    assert(acquires(
        mode,
        cursor,
        old(consumer).consumer@,
        old(pages)@,
        consumer.consumer@,
        pages@,
        outcome,
    ));
    match outcome {
        Ok(AcquireOutcome::Frame(lease)) => {
            *out = Some(FtAcquiredFrame { lease });
            FT_STATUS_OK
        },
        Ok(AcquireOutcome::Empty) => FT_STATUS_EMPTY,
        Ok(AcquireOutcome::Miss { cursor }) => {
            *range = FtAcquisitionRange { first: cursor, last: cursor };
            FT_STATUS_MISS
        },
        Ok(AcquireOutcome::Gap { first, last }) => {
            *range = FtAcquisitionRange { first, last };
            FT_STATUS_GAP
        },
        Ok(AcquireOutcome::HoldingLimit) => FT_STATUS_HOLDING_LIMIT,
        Ok(AcquireOutcome::Reconfiguration) => FT_STATUS_RECONFIGURATION,
        Ok(AcquireOutcome::Closed) => FT_STATUS_CLOSED,
        Err(error) => status(&error),
    }
}

/// Relinquishes unleased configuration storage, preserving leases and admission.
pub fn ft_acquisition_relinquish_configuration<T>(
    consumer: &mut FtAcquisitionConsumer<T>,
    pages: &mut ArenaPages,
) -> (result: FtStatus)
    requires
        old(consumer).consumer.wf(),
        old(consumer).consumer.attached(*old(pages)),
    ensures
        result == FT_STATUS_OK,
        final(consumer).consumer.wf(),
        final(consumer).consumer.attached(*final(pages)),
        ({
            let id = old(consumer).consumer@.incarnation.0;
            let (after, page) = old(consumer).consumer@.relinquished(old(pages)@.claims[id]);
            &&& final(consumer).consumer@ == after
            &&& final(pages)@ == old(pages)@.with_claims(id, page)
        }),
{
    consumer.consumer.relinquish_configuration(pages);
    FT_STATUS_OK
}

/// Copies the full immutable descriptor, including producer readiness.
pub fn ft_acquired_frame_describe(frame: &FtAcquiredFrame, out: &mut FrameDescriptor) -> (result:
    FtStatus)
    ensures
        result == FT_STATUS_OK,
        *final(out) == frame.lease@.descriptor,
{
    *out = *frame.lease.descriptor();
    FT_STATUS_OK
}

/// Borrows CPU bytes until the frame is released. Native frames have no inline bytes.
pub fn ft_acquired_frame_bytes<'a>(frame: &FtAcquiredFrame, pages: &'a ArenaPages) -> (result:
    &'a [u8])
    requires
        pages.wf(),
        pages@.resources.contains_key(frame.lease@.mapping.generation),
        frame.lease@.index
            < pages@.resources[frame.lease@.mapping.generation].layout.resources,
    ensures
        result@
            == pages@.resources[frame.lease@.mapping.generation].records[frame.lease@.index as int].payload,
{
    frame.lease.bytes(pages)
}

/// Releases completed use and takes the handle. Whether the consumer still acquires is
/// irrelevant.
pub fn ft_acquired_frame_release<T: ReleaseTimeline>(
    consumer: &mut FtAcquisitionConsumer<T>,
    pages: &mut ArenaPages,
    frame: &mut Option<FtAcquiredFrame>,
    now: u128,
) -> (result: FtStatus)
    requires
        old(consumer).consumer.wf(),
        old(consumer).consumer.attached(*old(pages)),
        *old(frame) matches Some(frame) ==> old(consumer).consumer@.holds(frame.lease@),
    ensures
        final(consumer).consumer.wf(),
        final(consumer).consumer.attached(*final(pages)),
        *final(frame) is None,
        match *old(frame) {
            None => {
                &&& result == FT_STATUS_INVALID_ARGUMENT
                &&& final(consumer).consumer@ == old(consumer).consumer@
                &&& final(pages)@ == old(pages)@
            },
            Some(owner) => {
                let id = old(consumer).consumer@.incarnation.0;
                let (after, page) = old(consumer).consumer@.released(
                    old(pages)@.claims[id],
                    owner.lease@,
                );
                &&& result == FT_STATUS_OK
                &&& after.may_leave(
                    page,
                    now,
                    final(consumer).consumer@,
                    final(pages)@.claims[id],
                )
                &&& final(pages)@ == old(pages)@.with_claims(id, final(pages)@.claims[id])
            },
        },
{
    match frame.take() {
        None => FT_STATUS_INVALID_ARGUMENT,
        Some(owner) => {
            consumer.consumer.release(pages, owner.lease, now);
            FT_STATUS_OK
        },
    }
}

/// Defers release to actual completion. Success takes the handle; rejection preserves it, with
/// its storage and holding credit.
pub fn ft_acquired_frame_defer_release<T: ReleaseTimeline>(
    consumer: &mut FtAcquisitionConsumer<T>,
    pages: &mut ArenaPages,
    frame: &mut Option<FtAcquiredFrame>,
    timeline: &ConsumerReleaseTimeline,
    value: u64,
    now: u128,
) -> (result: FtStatus)
    requires
        old(consumer).consumer.wf(),
        old(consumer).consumer.attached(*old(pages)),
        *old(frame) matches Some(frame) ==> old(consumer).consumer@.holds(frame.lease@),
    ensures
        final(consumer).consumer.wf(),
        final(consumer).consumer.attached(*final(pages)),
        match *old(frame) {
            None => {
                &&& result == FT_STATUS_INVALID_ARGUMENT
                &&& *final(frame) is None
                &&& final(consumer).consumer@ == old(consumer).consumer@
                &&& final(pages)@ == old(pages)@
            },
            Some(owner) => {
                let state = old(consumer).consumer@;
                let id = state.incarnation.0;
                let deferrable = {
                    &&& state.bound_to(*timeline)
                    &&& state.failure_reason(now) is None
                    &&& state.pending[owner.lease@.slot as int] is None
                };
                if deferrable {
                    let (after, page) = state.deferred(
                        old(pages)@.claims[id],
                        owner.lease@,
                        timeline.index,
                        timeline.registration.id,
                        value,
                    );
                    &&& result == FT_STATUS_OK
                    &&& *final(frame) is None
                    &&& after.may_leave(
                        page,
                        now,
                        final(consumer).consumer@,
                        final(pages)@.claims[id],
                    )
                    &&& final(pages)@ == old(pages)@.with_claims(id, final(pages)@.claims[id])
                } else {
                    &&& result == FT_STATUS_ERROR
                    &&& *final(frame) == Some(owner)
                    &&& final(consumer).consumer@ == state
                    &&& final(pages)@ == old(pages)@
                }
            },
        },
{
    let owner = match frame.take() {
        None => {
            return FT_STATUS_INVALID_ARGUMENT;
        },
        Some(owner) => owner,
    };
    match consumer.consumer.defer_release(pages, owner.lease, timeline, value, now) {
        Ok(()) => FT_STATUS_OK,
        Err(rejected) => {
            *frame = Some(FtAcquiredFrame { lease: rejected.frame });
            status(&rejected.error)
        },
    }
}

/// Snapshot before checking acquisition, then wait on that snapshot if needed.
pub fn ft_acquisition_snapshot<T>(
    consumer: &FtAcquisitionConsumer<T>,
    pages: &ArenaPages,
    out: &mut FtAcquisitionEvents,
) -> (result: FtStatus)
    requires
        consumer.consumer.attached(*pages),
    ensures
        result == FT_STATUS_OK,
        *final(out) == events_of(
            snapshot(pages@.control, pages@.claims[consumer.consumer@.incarnation.0]),
        ),
{
    *out = FtAcquisitionEvents::of(consumer.consumer.events(pages));
    FT_STATUS_OK
}

/// What a wait is asked for.
#[derive(Debug, Clone, Copy, PartialEq, Eq, Structural)]
pub struct WaitRequest {
    pub observed: WaitEvents,
    pub interest: WaitInterest,
    /// In nanoseconds; `None` waits without end.
    pub timeout: Option<u128>,
}

/// Reads what a wait is asked for: the largest timeout means none.
pub fn wait_request(observed: &FtAcquisitionEvents, interest: u32, timeout_ns: u64) -> (result:
    Option<WaitRequest>)
    ensures
        if observed.closed > 1 || observed.reserved != 0 || !(1 <= interest <= 3) {
            result is None
        } else {
            result == Some(
                WaitRequest {
                    observed: WaitEvents {
                        data_cursor: observed.data_cursor,
                        capacity_epoch: observed.capacity_epoch,
                        reconfiguration_epoch: observed.reconfiguration_epoch,
                        closed: observed.closed != 0,
                    },
                    interest: if interest == FT_WAIT_DATA {
                        WaitInterest(1)
                    } else if interest == FT_WAIT_CAPACITY {
                        WaitInterest(2)
                    } else {
                        WaitInterest(7)
                    },
                    timeout: if timeout_ns == u64::MAX {
                        None
                    } else {
                        Some(timeout_ns as u128)
                    },
                },
            )
        },
{
    if observed.closed > 1 || observed.reserved != 0 {
        return None;
    }
    let interest = if interest == FT_WAIT_DATA {
        WaitInterest::data()
    } else if interest == FT_WAIT_CAPACITY {
        WaitInterest::capacity()
    } else if interest == FT_WAIT_ALL {
        WaitInterest::all()
    } else {
        return None;
    };
    let observed = WaitEvents {
        data_cursor: observed.data_cursor,
        capacity_epoch: observed.capacity_epoch,
        reconfiguration_epoch: observed.reconfiguration_epoch,
        closed: observed.closed != 0,
    };
    let timeout: Option<u128> = if timeout_ns == u64::MAX {
        None
    } else {
        Some(timeout_ns as u128)
    };
    Some(WaitRequest { observed, interest, timeout })
}

/// What a finished wait tells C.
pub fn wait_status(outcome: &Result<WaitOutcome, ArenaError>) -> (result: (
    FtStatus,
    FtAcquisitionEvents,
))
    ensures
        result == (match *outcome {
            Ok(WaitOutcome::Changed(events)) => (
                if events.closed {
                    FT_STATUS_CLOSED
                } else {
                    FT_STATUS_OK
                },
                events_of(events),
            ),
            Ok(WaitOutcome::Cancelled) => (FT_STATUS_CANCELLED, no_events()),
            Ok(WaitOutcome::TimedOut) => (FT_STATUS_TIMEOUT, no_events()),
            Err(error) => (status_of(error), no_events()),
        }),
{
    let none = FtAcquisitionEvents {
        data_cursor: 0,
        capacity_epoch: 0,
        reconfiguration_epoch: 0,
        closed: 0,
        reserved: 0,
    };
    match outcome {
        Ok(WaitOutcome::Changed(events)) => (
            if events.closed {
                FT_STATUS_CLOSED
            } else {
                FT_STATUS_OK
            },
            FtAcquisitionEvents::of(*events),
        ),
        Ok(WaitOutcome::Cancelled) => (FT_STATUS_CANCELLED, none),
        Ok(WaitOutcome::TimedOut) => (FT_STATUS_TIMEOUT, none),
        Err(error) => (status(error), none),
    }
}

} // verus!
