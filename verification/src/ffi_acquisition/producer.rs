//! Single-stream CPU producer boundary. Hosts own source and track selection and serialize
//! producer calls; consumers and frames use the common arena API.

use super::{install_status, install_status_of, status_of, FtAcquisitionConsumer};
use crate::acquisition::arena::claims::ClaimPage;
use crate::acquisition::arena::cleanup::{ReleaseTimeline, TimelineAnswer};
use crate::acquisition::arena::consumer::{fresh_consumer, grant_agrees, ArenaConsumer};
use crate::acquisition::arena::grants::GrantTerms;
use crate::acquisition::arena::producer::attachment::{grant_view, mapped_len};
use crate::acquisition::arena::producer::reconfiguration::{
    ConfigurationInstall, ReconfigurationStatus,
};
use crate::acquisition::arena::producer::{
    creatable, creation_refused, initial_state, ArenaProducer,
};
use crate::acquisition::arena::state::ProducerState;
use crate::acquisition::arena::upkeep::same_page;
use crate::acquisition::arena::{
    ArenaConfig, ArenaError, FrameDescriptor, PublishOutcome, ScopeId,
};
use crate::acquisition::AdmissionError;
use crate::ffi::{
    FtStatus, FT_FRAME_SYNC_CPU_COPY_COMPLETE, FT_PIXEL_FORMAT_BGRA8_UNORM,
    FT_PIXEL_FORMAT_RGBA8_UNORM, FT_STATUS_CAPACITY, FT_STATUS_DRAINING, FT_STATUS_DROPPED,
    FT_STATUS_INVALID_ARGUMENT, FT_STATUS_OK, FT_STATUS_PAUSED_CAPACITY,
    FT_STATUS_RECOVERY_REQUIRED,
};
use vstd::prelude::*;

verus! {

/// A producer that was handed to C.
pub struct FtCpuProducer<T> {
    pub producer: ArenaProducer<T>,
}

#[derive(Debug, Clone, Copy, PartialEq, Eq, Structural)]
pub struct FtCpuProducerConfig {
    pub resource_capacity: u32,
    pub retained_history: u32,
    pub producer_reserve: u32,
    pub max_incarnations: u32,
    pub payload_capacity: u64,
    pub memory_budget: u64,
    pub drain_timeout_ns: u64,
}

#[derive(Debug, Clone, Copy, PartialEq, Eq, Structural)]
pub struct FtCpuReconfiguration {
    pub generation: u64,
    pub requested_bytes: u64,
    pub available_bytes: u64,
}

/// The status of a producer's error.
pub open spec fn producer_status_of(error: ArenaError) -> FtStatus {
    match error {
        ArenaError::Admission(AdmissionError::InsufficientMemory { .. }) => FT_STATUS_CAPACITY,
        ArenaError::Admission(AdmissionError::InsufficientResources { .. }) => FT_STATUS_CAPACITY,
        ArenaError::Admission(AdmissionError::IncarnationCapacity) => FT_STATUS_CAPACITY,
        ArenaError::Admission(AdmissionError::ReconfigurationPending) => FT_STATUS_PAUSED_CAPACITY,
        ArenaError::Admission(AdmissionError::InvalidLimits(_)) => FT_STATUS_INVALID_ARGUMENT,
        ArenaError::Admission(AdmissionError::InvalidRequest) => FT_STATUS_INVALID_ARGUMENT,
        ArenaError::PayloadTooLarge => FT_STATUS_INVALID_ARGUMENT,
        ArenaError::RecoveryRequired { .. } => FT_STATUS_RECOVERY_REQUIRED,
        error => status_of(error),
    }
}

/// The status of a producer's error.
pub fn status(error: &ArenaError) -> (result: FtStatus)
    ensures
        result == producer_status_of(*error),
{
    match error {
        ArenaError::Admission(AdmissionError::InsufficientMemory { .. }) => FT_STATUS_CAPACITY,
        ArenaError::Admission(AdmissionError::InsufficientResources { .. }) => FT_STATUS_CAPACITY,
        ArenaError::Admission(AdmissionError::IncarnationCapacity) => FT_STATUS_CAPACITY,
        ArenaError::Admission(AdmissionError::ReconfigurationPending) => FT_STATUS_PAUSED_CAPACITY,
        ArenaError::Admission(AdmissionError::InvalidLimits(_)) => FT_STATUS_INVALID_ARGUMENT,
        ArenaError::Admission(AdmissionError::InvalidRequest) => FT_STATUS_INVALID_ARGUMENT,
        ArenaError::PayloadTooLarge => FT_STATUS_INVALID_ARGUMENT,
        ArenaError::RecoveryRequired { .. } => FT_STATUS_RECOVERY_REQUIRED,
        other => super::status(other),
    }
}

/// A C configuration as the arena's.
pub open spec fn config_of(config: FtCpuProducerConfig) -> ArenaConfig {
    ArenaConfig {
        resource_capacity: config.resource_capacity,
        retained_history: config.retained_history,
        producer_reserve: config.producer_reserve,
        payload_capacity: config.payload_capacity as usize,
        memory_budget: config.memory_budget,
        max_incarnations: config.max_incarnations,
        drain_timeout: config.drain_timeout_ns as u128,
    }
}

/// Creates one bounded CPU stream. No source selection or authorization occurs.
pub fn ft_cpu_producer_create<T>(
    config: &FtCpuProducerConfig,
    out: &mut Option<FtCpuProducer<T>>,
    page_size: i64,
    scope: ScopeId,
    now: u128,
) -> (result: FtStatus)
    requires
        page_size % 8 == 0,
    ensures
        if *old(out) is Some {
            result == FT_STATUS_INVALID_ARGUMENT && *final(out) == *old(out)
        } else if config.payload_capacity > usize::MAX {
            result == FT_STATUS_INVALID_ARGUMENT && *final(out) is None
        } else if creatable(config_of(*config), 0, page_size, now) {
            &&& result == FT_STATUS_OK
            &&& *final(out) matches Some(handle)
            &&& handle.producer.wf()
            &&& handle.producer@ == initial_state::<T>(config_of(*config), 0, false, page_size, scope)
        } else {
            &&& *final(out) is None
            &&& exists|error: ArenaError|
                {
                    &&& #[trigger] creation_refused(error, config_of(*config), 0, page_size, now)
                    &&& result == producer_status_of(error)
                }
        },
{
    if out.is_some() {
        return FT_STATUS_INVALID_ARGUMENT;
    }
    if config.payload_capacity > usize::MAX as u64 {
        return FT_STATUS_INVALID_ARGUMENT;
    }
    let arena = ArenaConfig {
        resource_capacity: config.resource_capacity,
        retained_history: config.retained_history,
        producer_reserve: config.producer_reserve,
        payload_capacity: config.payload_capacity as usize,
        memory_budget: config.memory_budget,
        max_incarnations: config.max_incarnations,
        drain_timeout: config.drain_timeout_ns as u128,
    };
    match ArenaProducer::new(arena, page_size, scope, now) {
        Ok(producer) => {
            *out = Some(FtCpuProducer { producer });
            FT_STATUS_OK
        },
        Err(error) => {
            assert(creation_refused(error, config_of(*config), 0, page_size, now));
            proof {
                lemma_refused_is_not_creatable(error, config_of(*config), page_size, now);
            }
            status(&error)
        },
    }
}

/// A configuration that is refused gives no arena.
proof fn lemma_refused_is_not_creatable(
    error: ArenaError,
    config: ArenaConfig,
    page_size: i64,
    now: u128,
)
    requires
        creation_refused(error, config, 0, page_size, now),
    ensures
        !creatable(config, 0, page_size, now),
{
}

/// What admitting a consumer in this process and taking its grant gives.
pub open spec fn admits<T>(
    middle: ProducerState<T>,
    granted: Result<GrantTerms, ArenaError>,
    after: ProducerState<T>,
    result: FtStatus,
) -> bool {
    match granted {
        Err(error) => result == producer_status_of(error) && after == middle,
        Ok(terms) => {
            &&& result == FT_STATUS_OK
            &&& after == (ProducerState {
                pages: middle.pages.with_claims(
                    terms.incarnation.0,
                    (ClaimPage { offered: 0, ..middle.pages.claims[terms.incarnation.0] }),
                ),
                ..middle
            })
        },
    }
}

/// Admits a fresh in-process incarnation with an explicit holding reservation. The host makes
/// the claim mapping: `setup` is its scope, or why that failed.
pub fn ft_cpu_producer_attach<T: ReleaseTimeline, U>(
    producer: &mut FtCpuProducer<T>,
    holding: u32,
    out: &mut Option<FtAcquisitionConsumer<U>>,
    setup: Result<ScopeId, ArenaError>,
    now: u128,
) -> (result: FtStatus)
    requires
        old(producer).producer.wf(),
    ensures
        final(producer).producer.wf(),
        if *old(out) is Some {
            &&& result == FT_STATUS_INVALID_ARGUMENT
            &&& *final(out) == *old(out)
            &&& final(producer).producer@ == old(producer).producer@
        } else {
            exists|middle: ProducerState<T>, granted: Result<GrantTerms, ArenaError>|
                {
                    &&& #[trigger] old(producer).producer@.attaches_local(
                        middle,
                        holding,
                        setup,
                        now,
                        granted,
                    )
                    &&& admits(middle, granted, final(producer).producer@, result)
                    &&& match granted {
                        Err(_) => *final(out) is None,
                        Ok(terms) => {
                            &&& *final(out) matches Some(handle)
                            &&& handle.consumer.wf()
                            &&& handle.consumer.attached(final(producer).producer.spec_pages())
                            &&& handle.consumer@ == fresh_consumer::<U>(
                                terms,
                                middle.page_size,
                            )
                        },
                    }
                }
        },
{
    if out.is_some() {
        return FT_STATUS_INVALID_ARGUMENT;
    }
    let ghost before = producer.producer@;
    let page_size: i64 = producer.producer.page_size();
    let granted = producer.producer.attach(holding, setup, now);
    let ghost middle = producer.producer@;
    let ghost outcome = grant_view(granted);
    assert(before.attaches_local(middle, holding, setup, now, outcome));
    match granted {
        Err(error) => status(&error),
        Ok(grant) => {
            let ghost terms = grant@;
            proof {
                producer.producer.pages_are_shared();
                producer.producer.state_is_consistent();
                lemma_fresh_grant_agrees(producer.producer, before, holding, setup, now, terms);
                lemma_taken_is_kept(middle, terms.incarnation.0);
            }
            match ArenaConsumer::from_grant(grant, producer.producer.pages(), page_size) {
                Ok(consumer) => {
                    *out = Some(FtAcquisitionConsumer { consumer });
                    FT_STATUS_OK
                },
                Err(error) => {
                    assert(false);
                    status(&error)
                },
            }
        },
    }
}

/// The grant of a fresh admission agrees with the pages that it was made with.
proof fn lemma_fresh_grant_agrees<T: ReleaseTimeline>(
    producer: ArenaProducer<T>,
    before: ProducerState<T>,
    holding: u32,
    setup: Result<ScopeId, ArenaError>,
    now: u128,
    terms: GrantTerms,
)
    requires
        producer.wf(),
        before.attaches_local(producer@, holding, setup, now, Ok::<GrantTerms, ArenaError>(terms)),
        mapped_len(producer.spec_pages(), terms),
    ensures
        terms.layout.consistent(producer@.page_size as int),
        producer@.page_size == before.page_size,
        grant_agrees(producer.spec_pages(), terms),
        producer@.pages.claims.contains_key(terms.incarnation.0),
{
    producer.pages_are_shared();
    producer.state_is_consistent();
    let state = producer@;
    let id = terms.incarnation.0;
    assert(state.pages.resources.contains_key(terms.generation));
    assert(state.resource_proper(terms.generation));
    assert(state.pages.claims.contains_key(id));
    assert(state.claim_proper(id));
    producer.spec_pages().claims@[id].page_is_shaped();
}

/// Taking the first offer leaves every page its owner and shape.
proof fn lemma_taken_is_kept<T>(state: ProducerState<T>, id: u64)
    requires
        state.inv(),
        state.pages.claims.contains_key(id),
    ensures
        state.pages_kept(
            state.pages.with_claims(id, (ClaimPage { offered: 0, ..state.pages.claims[id] })),
        ),
{
    let pages = state.pages.with_claims(id, (ClaimPage { offered: 0, ..state.pages.claims[id] }));
    assert(pages.claims.dom() =~= state.pages.claims.dom());
    assert forall|k: u64| #[trigger] pages.claims.contains_key(k) implies same_page(
        state.pages.claims[k],
        pages.claims[k],
        state.accounts.reservations[k].frames as nat,
    ) by {
        assert(state.pages.claims.contains_key(k));
        assert(state.claim_proper(k));
    }
}

/// Whether a frame can be published from inline bytes.
pub open spec fn publishable(descriptor: FrameDescriptor, len: nat) -> bool {
    &&& 0 < len <= isize::MAX
    &&& descriptor.payload_kind == 0
    &&& descriptor.width != 0
    &&& descriptor.height != 0
    &&& descriptor.width * 4 <= descriptor.stride
    &&& descriptor.stride * descriptor.height == len
    &&& descriptor.pixel_format == FT_PIXEL_FORMAT_BGRA8_UNORM || descriptor.pixel_format
        == FT_PIXEL_FORMAT_RGBA8_UNORM
}

/// The descriptor of a completed copy: native handles are not accepted.
pub open spec fn copied(descriptor: FrameDescriptor) -> FrameDescriptor {
    FrameDescriptor {
        sync_kind: FT_FRAME_SYNC_CPU_COPY_COMPLETE,
        fence_id: 0,
        fence_value: 0,
        modifier: 0,
        ..descriptor
    }
}

/// Copies one CPU frame. OK writes its publication cursor; DROPPED writes zero. Readiness
/// describes this completed copy; native handles are not accepted.
pub fn ft_cpu_producer_publish<T: ReleaseTimeline>(
    producer: &mut FtCpuProducer<T>,
    descriptor: &FrameDescriptor,
    bytes: &[u8],
    cursor: &mut u64,
    now: u128,
) -> (result: FtStatus)
    requires
        old(producer).producer.wf(),
    ensures
        final(producer).producer.wf(),
        if !publishable(*descriptor, bytes@.len()) {
            &&& result == FT_STATUS_INVALID_ARGUMENT
            &&& *final(cursor) == 0
            &&& final(producer).producer@ == old(producer).producer@
        } else {
            exists|outcome: Result<PublishOutcome, ArenaError>|
                {
                    &&& #[trigger] old(producer).producer@.publishes_inline(
                        final(producer).producer@,
                        now,
                        copied(*descriptor),
                        bytes@,
                        outcome,
                    )
                    &&& match outcome {
                        Ok(PublishOutcome::Published { cursor: published }) => {
                            result == FT_STATUS_OK && *final(cursor) == published
                        },
                        Ok(PublishOutcome::Dropped) => {
                            result == FT_STATUS_DROPPED && *final(cursor) == 0
                        },
                        Err(error) => {
                            result == producer_status_of(error) && *final(cursor) == 0
                        },
                    }
                }
        },
{
    *cursor = 0;
    let stride: u64 = descriptor.stride as u64;
    let height: u64 = descriptor.height as u64;
    assert(stride * height <= u64::MAX) by (nonlinear_arith)
        requires
            stride <= u32::MAX,
            height <= u32::MAX,
    ;
    if bytes.len() == 0 || bytes.len() as u64 > isize::MAX as u64 || descriptor.payload_kind != 0
        || descriptor.width == 0 || descriptor.height == 0 || descriptor.width as u64 * 4 > stride
        || stride * height != bytes.len() as u64 || !(descriptor.pixel_format
        == FT_PIXEL_FORMAT_BGRA8_UNORM || descriptor.pixel_format == FT_PIXEL_FORMAT_RGBA8_UNORM) {
        return FT_STATUS_INVALID_ARGUMENT;
    }
    let mut stamped = *descriptor;
    stamped.sync_kind = FT_FRAME_SYNC_CPU_COPY_COMPLETE;
    stamped.fence_id = 0;
    stamped.fence_value = 0;
    stamped.modifier = 0;
    let outcome = producer.producer.publish(now, stamped, bytes);
    assert(old(producer).producer@.publishes_inline(
        producer.producer@,
        now,
        copied(*descriptor),
        bytes@,
        outcome,
    ));
    match outcome {
        Ok(PublishOutcome::Published { cursor: published }) => {
            *cursor = published;
            FT_STATUS_OK
        },
        Ok(PublishOutcome::Dropped) => FT_STATUS_DROPPED,
        Err(error) => status(&error),
    }
}

/// What a step of a replacement tells C.
pub open spec fn transition_of(outcome: Result<ReconfigurationStatus, ArenaError>) -> (
    FtStatus,
    FtCpuReconfiguration,
) {
    let none = FtCpuReconfiguration { generation: 0, requested_bytes: 0, available_bytes: 0 };
    match outcome {
        Ok(ReconfigurationStatus::Ready { generation }) => (
            FT_STATUS_OK,
            FtCpuReconfiguration { generation, ..none },
        ),
        Ok(ReconfigurationStatus::PausedCapacity { requested, available }) => (
            FT_STATUS_PAUSED_CAPACITY,
            FtCpuReconfiguration {
                requested_bytes: requested,
                available_bytes: available,
                ..none
            },
        ),
        Err(ArenaError::Admission(AdmissionError::InsufficientMemory { requested, available })) => (
            FT_STATUS_CAPACITY,
            FtCpuReconfiguration {
                requested_bytes: requested,
                available_bytes: available,
                ..none
            },
        ),
        Err(error) => (producer_status_of(error), none),
    }
}

/// What a step of a replacement tells C.
fn transition(outcome: Result<ReconfigurationStatus, ArenaError>, out: &mut FtCpuReconfiguration) -> (result:
    FtStatus)
    ensures
        (result, *final(out)) == transition_of(outcome),
{
    *out = FtCpuReconfiguration { generation: 0, requested_bytes: 0, available_bytes: 0 };
    match outcome {
        Ok(ReconfigurationStatus::Ready { generation }) => {
            out.generation = generation;
            FT_STATUS_OK
        },
        Ok(ReconfigurationStatus::PausedCapacity { requested, available }) => {
            out.requested_bytes = requested;
            out.available_bytes = available;
            FT_STATUS_PAUSED_CAPACITY
        },
        Err(ArenaError::Admission(AdmissionError::InsufficientMemory { requested, available })) => {
            out.requested_bytes = requested;
            out.available_bytes = available;
            FT_STATUS_CAPACITY
        },
        Err(error) => status(&error),
    }
}

/// Begins a byte-budgeted replacement, including for a same-size format change.
pub fn ft_cpu_producer_reconfigure<T: ReleaseTimeline>(
    producer: &mut FtCpuProducer<T>,
    payload_capacity: u64,
    out: &mut FtCpuReconfiguration,
    now: u128,
) -> (result: FtStatus)
    requires
        old(producer).producer.wf(),
    ensures
        final(producer).producer.wf(),
        if payload_capacity > usize::MAX {
            &&& result == FT_STATUS_INVALID_ARGUMENT
            &&& *final(out) == *old(out)
            &&& final(producer).producer@ == old(producer).producer@
        } else {
            exists|outcome: Result<ReconfigurationStatus, ArenaError>|
                {
                    &&& #[trigger] old(producer).producer@.reconfigures_cpu(
                        final(producer).producer@,
                        payload_capacity as usize,
                        now,
                        outcome,
                    )
                    &&& (result, *final(out)) == transition_of(outcome)
                }
        },
{
    if payload_capacity > usize::MAX as u64 {
        return FT_STATUS_INVALID_ARGUMENT;
    }
    let outcome = producer.producer.reconfigure_cpu(payload_capacity as usize, now);
    assert(old(producer).producer@.reconfigures_cpu(
        producer.producer@,
        payload_capacity as usize,
        now,
        outcome,
    ));
    transition(outcome, out)
}

/// Retries a pending replacement while capture is idle. Call after old maps or claims retire;
/// a capacity pause must not depend on another incoming frame.
pub fn ft_cpu_producer_advance<T: ReleaseTimeline>(
    producer: &mut FtCpuProducer<T>,
    out: &mut FtCpuReconfiguration,
    now: u128,
) -> (result: FtStatus)
    requires
        old(producer).producer.wf(),
    ensures
        final(producer).producer.wf(),
        exists|outcome: Result<ReconfigurationStatus, ArenaError>|
            {
                &&& #[trigger] old(producer).producer@.advances_cpu(
                    final(producer).producer@,
                    now,
                    outcome,
                )
                &&& (result, *final(out)) == transition_of(outcome)
            },
{
    let outcome = producer.producer.advance_reconfiguration(now);
    assert(old(producer).producer@.advances_cpu(producer.producer@, now, outcome));
    transition(outcome, out)
}

/// An installation's outcome, with its error as a status.
pub open spec fn install_outcome(outcome: Result<Option<ConfigurationInstall>, ArenaError>) -> Result<
    Option<ConfigurationInstall>,
    FtStatus,
> {
    match outcome {
        Ok(install) => Ok(install),
        Err(error) => Err(producer_status_of(error)),
    }
}

/// Installs a replacement on a matching local consumer. Empty means no offer. Foreign
/// associations are rejected before a current-generation check or an offer is imported.
pub fn ft_cpu_producer_configure_consumer<T, U>(
    producer: &mut FtCpuProducer<T>,
    consumer: &mut FtAcquisitionConsumer<U>,
) -> (result: FtStatus)
    requires
        old(producer).producer.wf(),
        old(consumer).consumer.wf(),
        old(producer).producer@.knows(old(consumer).consumer@) ==> {
            &&& old(consumer).consumer.attached(old(producer).producer.spec_pages())
            &&& old(consumer).consumer.spec_page_size() == old(producer).producer@.page_size
        },
    ensures
        final(producer).producer.wf(),
        final(consumer).consumer.wf(),
        old(consumer).consumer.attached(old(producer).producer.spec_pages())
            ==> final(consumer).consumer.attached(final(producer).producer.spec_pages()),
        exists|outcome: Result<Option<ConfigurationInstall>, ArenaError>|
            {
                &&& #[trigger] old(producer).producer@.configures(
                    old(consumer).consumer@,
                    final(producer).producer@,
                    final(consumer).consumer@,
                    outcome,
                )
                &&& result == install_status_of(install_outcome(outcome))
            },
{
    let outcome = producer.producer.configure_consumer(&mut consumer.consumer);
    assert(old(producer).producer@.configures(
        old(consumer).consumer@,
        producer.producer@,
        consumer.consumer@,
        outcome,
    ));
    match outcome {
        Ok(install) => install_status(Ok(install)),
        Err(error) => status(&error),
    }
}

/// Whether an incarnation's cleanup has failed.
pub open spec fn needs_recovery<T>(state: ProducerState<T>) -> bool {
    exists|id: u64|
        #[trigger] state.cleanup.contains_key(id) && state.cleanup[id].failure_reason(
            state.pages.claims[id],
        ) is Some
}

/// Whether an incarnation's cleanup has failed.
fn recovery_needed<T>(producer: &ArenaProducer<T>) -> (result: bool)
    requires
        producer.wf(),
    ensures
        result == needs_recovery(producer@),
{
    let failures = producer.cleanup_failures();
    proof {
        if failures@.len() > 0 {
            let failure = failures@[0];
            assert(producer@.cleanup.contains_key(failure.incarnation.0));
        }
        if needs_recovery(producer@) {
            let id = choose|id: u64|
                #[trigger] producer@.cleanup.contains_key(id)
                    && producer@.cleanup[id].failure_reason(producer@.pages.claims[id]) is Some;
            assert(exists|i: int|
                0 <= i < failures@.len() && #[trigger] failures@[i].incarnation.0 == id);
        }
    }
    failures.len() > 0
}

/// Runs idle cleanup; a recovery failure is distinct from successful maintenance.
pub fn ft_cpu_producer_poll_cleanup<T: ReleaseTimeline>(producer: &mut FtCpuProducer<T>, now: u128) -> (result:
    FtStatus)
    requires
        old(producer).producer.wf(),
    ensures
        final(producer).producer.wf(),
        exists|answers: Map<u64, Seq<TimelineAnswer>>|
            {
                &&& old(producer).producer@.complete_look(now, answers)
                &&& final(producer).producer@ == #[trigger] old(producer).producer@.cleaned(
                    now,
                    answers,
                )
            },
        result == (if needs_recovery(final(producer).producer@) {
            FT_STATUS_RECOVERY_REQUIRED
        } else {
            FT_STATUS_OK
        }),
{
    producer.producer.poll_cleanup(now);
    if recovery_needed(&producer.producer) {
        FT_STATUS_RECOVERY_REQUIRED
    } else {
        FT_STATUS_OK
    }
}

/// What a stopped producer's state after a round of cleanup tells its owner.
pub open spec fn destruction<T>(state: ProducerState<T>) -> FtStatus {
    if state.pages.control.terminal != 0 && state.pages.claims.is_empty() && state.retired.len()
        == 0 {
        FT_STATUS_OK
    } else if needs_recovery(state) {
        FT_STATUS_RECOVERY_REQUIRED
    } else {
        FT_STATUS_DRAINING
    }
}

/// Stops publication and admission, and tells whether the producer can be destroyed: OK only
/// after actual retirement.
pub fn wind_down<T: ReleaseTimeline>(owner: &mut FtCpuProducer<T>, now: u128) -> (result: FtStatus)
    requires
        old(owner).producer.wf(),
    ensures
        final(owner).producer.wf(),
        result == destruction(final(owner).producer@),
        exists|answers: Map<u64, Seq<TimelineAnswer>>|
            {
                &&& old(owner).producer@.stopped().complete_look(now, answers)
                &&& final(owner).producer@ == #[trigger] old(owner).producer@.stopped().cleaned(
                    now,
                    answers,
                )
            },
{
    owner.producer.stop();
    if owner.producer.poll_shutdown_ready(now) {
        return FT_STATUS_OK;
    }
    if recovery_needed(&owner.producer) {
        FT_STATUS_RECOVERY_REQUIRED
    } else {
        FT_STATUS_DRAINING
    }
}

/// Stops publication and admission, and destroys only after actual retirement: OK takes the
/// handle. DRAINING and RECOVERY_REQUIRED leave it, with its owners. Release frames, continue
/// maintenance, then retry. Timeout is never permission to force destruction.
pub fn ft_cpu_producer_destroy<T: ReleaseTimeline>(
    handle: &mut Option<FtCpuProducer<T>>,
    now: u128,
) -> (result: FtStatus)
    requires
        *old(handle) matches Some(owner) ==> owner.producer.wf(),
    ensures
        *final(handle) matches Some(owner) ==> owner.producer.wf(),
        match *old(handle) {
            None => result == FT_STATUS_OK && *final(handle) is None,
            Some(owner) => exists|answers: Map<u64, Seq<TimelineAnswer>>|
                {
                    &&& owner.producer@.stopped().complete_look(now, answers)
                    &&& destroys(
                        #[trigger] owner.producer@.stopped().cleaned(now, answers),
                        *final(handle),
                        result,
                    )
                },
        },
{
    let mut owner = match handle.take() {
        None => {
            return FT_STATUS_OK;
        },
        Some(owner) => owner,
    };
    let status: FtStatus = wind_down(&mut owner, now);
    let ghost left = owner.producer@;
    if status != FT_STATUS_OK {
        *handle = Some(owner);
    }
    assert(destroys(left, *handle, status));
    status
}

/// What destruction does with a stopped producer after a round of cleanup.
pub open spec fn destroys<T>(
    state: ProducerState<T>,
    handle: Option<FtCpuProducer<T>>,
    result: FtStatus,
) -> bool {
    &&& result == destruction(state)
    &&& if result == FT_STATUS_OK {
        handle is None
    } else {
        handle matches Some(owner) && owner.producer@ == state
    }
}

} // verus!
