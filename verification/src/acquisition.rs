//! Shared ownership of acquired frames.
//!
//! Admission reserves worst-case distinct resource holdings. Publication and claim slots
//! consume these reservations; sharing one frame does not justify promising the same
//! capacity to another incarnation.

use std::collections::BTreeMap;

use crate::text::{decimal, decimal_text};
use crate::totals::{lemma_total_insert, lemma_total_remove, total};
use vstd::prelude::*;

pub mod allocation;
pub mod arena;
pub mod promises;
pub mod socket;

pub use allocation::{AllocationId, PendingAllocation};

verus! {

/// One admitted lifetime, scoped to its producer's admission book. A name or
/// authorization identity is deliberately not part of this identifier.
#[derive(Debug, Clone, Copy, PartialEq, Eq, PartialOrd, Ord, Structural)]
pub struct IncarnationId(pub u64);

#[derive(Debug, Clone, Copy, PartialEq, Eq, Structural)]
pub struct AdmissionLimits {
    /// Usable resource slots in the current allocation.
    pub resource_capacity: u32,
    pub retained_history: u32,
    pub producer_reserve: u32,
    /// Bytes already allocated for the initial resource generation.
    pub allocated_bytes: u64,
    /// Persistent producer control data, independent of resource generations.
    pub fixed_bytes: u64,
    /// Total allocation budget, including consumer claim mappings.
    pub memory_budget: u64,
    /// Includes closing incarnations until their cleanup has completed.
    pub max_incarnations: u32,
}

#[derive(Debug, Clone, Copy, PartialEq, Eq, Structural)]
pub struct HoldingRequest {
    pub frames: u32,
    /// The library-computed allocation size of the claim mapping, including headers and
    /// OS allocation rounding. Not a value supplied by the peer.
    pub claim_bytes: u64,
}

/// A grant is an admission record, not a frame lease. Dropping this value does not release
/// capacity; cleanup of the incarnation owns that transition.
#[derive(Debug, Clone, Copy, PartialEq, Eq, Structural)]
pub struct HoldingReservation {
    incarnation: IncarnationId,
    frames: u32,
    claim_bytes: u64,
}

impl HoldingReservation {
    pub closed spec fn spec_incarnation(self) -> IncarnationId {
        self.incarnation
    }

    pub closed spec fn spec_frames(self) -> u32 {
        self.frames
    }

    pub closed spec fn spec_claim_bytes(self) -> u64 {
        self.claim_bytes
    }

    #[must_use]
    pub fn incarnation(self) -> (result: IncarnationId)
        ensures
            result == self.spec_incarnation(),
    {
        self.incarnation
    }

    #[must_use]
    pub fn frames(self) -> (result: u32)
        ensures
            result == self.spec_frames(),
    {
        self.frames
    }
}

#[derive(Debug, Clone, Copy, PartialEq, Eq)]
#[allow(inconsistent_fields)]
pub enum AdmissionError {
    InvalidLimits(&'static str),
    InvalidRequest,
    InsufficientResources { requested: u32, available: u32 },
    InsufficientMemory { requested: u64, available: u64 },
    IncarnationCapacity,
    IdsExhausted,
    UnknownIncarnation,
    StillActive,
    ReconfigurationPending,
    NoReconfiguration,
    AllocationNotReserved,
    UnknownAllocation,
    AllocationInUse,
    InvalidAllocationSize,
}

impl AdmissionError {
    /// What the error says.
    pub open spec fn text(self) -> Seq<char> {
        match self {
            AdmissionError::InvalidLimits(why) => "invalid admission limits: "@ + why@,
            AdmissionError::InvalidRequest =>
            "a holding request needs nonzero frames and claim allocation bytes"@,
            AdmissionError::InsufficientResources { requested, available } => "requested "@
                + decimal(requested as nat) + " holding slots, but only "@ + decimal(
                available as nat,
            ) + " can be reserved"@,
            AdmissionError::InsufficientMemory { requested, available } => "requested "@ + decimal(
                requested as nat,
            ) + " allocation bytes, but only "@ + decimal(available as nat) + " remain"@,
            AdmissionError::IncarnationCapacity =>
            "the incarnation table is full, including incarnations still draining"@,
            AdmissionError::IdsExhausted => "incarnation identities exhausted"@,
            AdmissionError::UnknownIncarnation =>
            "incarnation is unknown or its cleanup already completed"@,
            AdmissionError::StillActive => "an active incarnation cannot complete cleanup"@,
            AdmissionError::ReconfigurationPending =>
            "a configuration replacement is pending; admission is paused"@,
            AdmissionError::NoReconfiguration =>
            "there is no pending configuration replacement"@,
            AdmissionError::AllocationNotReserved =>
            "replacement allocation has not been reserved"@,
            AdmissionError::UnknownAllocation =>
            "allocation is unknown or its cleanup already completed"@,
            AdmissionError::AllocationInUse =>
            "the current or pending allocation cannot complete cleanup"@,
            AdmissionError::InvalidAllocationSize =>
            "actual allocation size must be nonzero and no greater than its reserved upper bound"@,
        }
    }

    /// The error in words.
    pub fn message(&self) -> (result: String)
        ensures
            result@ == self.text(),
    {
        match self {
            AdmissionError::InvalidLimits(why) => String::from_str(
                "invalid admission limits: ",
            ).concat(why),
            AdmissionError::InvalidRequest => String::from_str(
                "a holding request needs nonzero frames and claim allocation bytes",
            ),
            AdmissionError::InsufficientResources { requested, available } => String::from_str(
                "requested ",
            ).concat(decimal_text(*requested as u64).as_str()).concat(
                " holding slots, but only ",
            ).concat(decimal_text(*available as u64).as_str()).concat(" can be reserved"),
            AdmissionError::InsufficientMemory { requested, available } => String::from_str(
                "requested ",
            ).concat(decimal_text(*requested).as_str()).concat(
                " allocation bytes, but only ",
            ).concat(decimal_text(*available).as_str()).concat(" remain"),
            AdmissionError::IncarnationCapacity => String::from_str(
                "the incarnation table is full, including incarnations still draining",
            ),
            AdmissionError::IdsExhausted => String::from_str("incarnation identities exhausted"),
            AdmissionError::UnknownIncarnation => String::from_str(
                "incarnation is unknown or its cleanup already completed",
            ),
            AdmissionError::StillActive => String::from_str(
                "an active incarnation cannot complete cleanup",
            ),
            AdmissionError::ReconfigurationPending => String::from_str(
                "a configuration replacement is pending; admission is paused",
            ),
            AdmissionError::NoReconfiguration => String::from_str(
                "there is no pending configuration replacement",
            ),
            AdmissionError::AllocationNotReserved => String::from_str(
                "replacement allocation has not been reserved",
            ),
            AdmissionError::UnknownAllocation => String::from_str(
                "allocation is unknown or its cleanup already completed",
            ),
            AdmissionError::AllocationInUse => String::from_str(
                "the current or pending allocation cannot complete cleanup",
            ),
            AdmissionError::InvalidAllocationSize => String::from_str(
                "actual allocation size must be nonzero and no greater than its reserved upper bound",
            ),
        }
    }
}

/// What the book knows of one incarnation.
#[derive(Debug, Clone, Copy, PartialEq, Eq, Structural)]
pub struct IncarnationRecord {
    pub frames: u32,
    pub claim_bytes: u64,
    pub closing: bool,
}

/// What an admission book accounts for.
#[verifier::ext_equal]
pub struct Accounts {
    pub limits: AdmissionLimits,
    /// The identity of the next incarnation.
    pub next_incarnation: u64,
    pub reservations: Map<u64, IncarnationRecord>,
    /// Bytes of each resource generation, or the bound that is reserved for it.
    pub allocations: Map<u64, u64>,
    pub current: Option<AllocationId>,
    /// The identity of the next allocation.
    pub next_allocation: u64,
    pub pending: Option<PendingAllocation>,
}

/// Slots that each incarnation holds.
pub open spec fn frames_of(reservations: Map<u64, IncarnationRecord>) -> Map<u64, u64> {
    reservations.map_values(|record: IncarnationRecord| record.frames as u64)
}

/// Claim bytes of each incarnation.
pub open spec fn claims_of(reservations: Map<u64, IncarnationRecord>) -> Map<u64, u64> {
    reservations.map_values(|record: IncarnationRecord| record.claim_bytes)
}

impl Accounts {
    /// Slots promised to all incarnations together, closing ones included.
    pub open spec fn reserved_frames(self) -> nat {
        total(frames_of(self.reservations))
    }

    /// Bytes of all resource generations together.
    pub open spec fn resource_bytes(self) -> nat {
        total(self.allocations)
    }

    /// Fixed control bytes, claim mappings and all unreclaimed resource generations,
    /// with the bound of a reserved replacement.
    pub open spec fn committed(self) -> nat {
        self.limits.fixed_bytes as nat + self.resource_bytes() + total(
            claims_of(self.reservations),
        )
    }

    /// Slots that can still be promised.
    pub open spec fn available(self) -> int {
        self.limits.resource_capacity - self.limits.retained_history - self.limits.producer_reserve
            - self.reserved_frames()
    }

    /// Bytes that can still be committed.
    pub open spec fn free_bytes(self) -> int {
        self.limits.memory_budget - self.committed()
    }

    /// Promises never exceed the resources and the budget, identities are not reused, and
    /// the current and the pending allocation are charged.
    pub open spec fn inv(self) -> bool {
        &&& limits_consistent(self.limits)
        &&& self.reservations.dom().finite()
        &&& self.allocations.dom().finite()
        &&& self.available() >= 0
        &&& self.free_bytes() >= 0
        &&& self.reservations.len() <= self.limits.max_incarnations
        &&& forall|id: u64| #[trigger]
            self.reservations.contains_key(id) ==> 1 <= id < self.next_incarnation
        &&& forall|id: u64| #[trigger]
            self.allocations.contains_key(id) ==> 1 <= id < self.next_allocation
        &&& self.next_incarnation >= 1
        &&& self.next_allocation >= 2
        &&& self.current matches Some(id) ==> self.allocations.contains_key(id.0)
        &&& self.pending is Some ==> self.current is None
        &&& self.pending matches Some(pending) ==> {
            pending.reserved matches Some(id) ==> self.allocations.contains_key(id.0)
                && self.allocations[id.0] == pending.upper_bound
        }
    }

    /// A new incarnation under the next identity.
    pub open spec fn admitted(self, request: HoldingRequest) -> Accounts {
        Accounts {
            next_incarnation: (self.next_incarnation + 1) as u64,
            reservations: self.reservations.insert(
                self.next_incarnation,
                IncarnationRecord {
                    frames: request.frames,
                    claim_bytes: request.claim_bytes,
                    closing: false,
                },
            ),
            ..self
        }
    }

    /// An incarnation that is closing.
    pub open spec fn closed(self, incarnation: IncarnationId) -> Accounts {
        Accounts {
            reservations: self.reservations.insert(
                incarnation.0,
                IncarnationRecord { closing: true, ..self.reservations[incarnation.0] },
            ),
            ..self
        }
    }

    /// An incarnation whose cleanup is complete.
    pub open spec fn cleaned(self, incarnation: IncarnationId) -> Accounts {
        Accounts { reservations: self.reservations.remove(incarnation.0), ..self }
    }
}

pub open spec fn limits_consistent(limits: AdmissionLimits) -> bool {
    &&& limits.producer_reserve > 0
    &&& limits.retained_history + limits.producer_reserve <= limits.resource_capacity
    &&& limits.allocated_bytes + limits.fixed_bytes <= limits.memory_budget
    &&& limits.max_incarnations > 0
}

/// Why limits are refused, in the order in which they are looked at.
pub open spec fn limits_fault(limits: AdmissionLimits) -> Option<Seq<char>> {
    if limits.retained_history + limits.producer_reserve > u32::MAX {
        Some("history and producer reserve overflow"@)
    } else if limits.producer_reserve == 0 || limits.retained_history + limits.producer_reserve
        > limits.resource_capacity {
        Some("resource capacity must cover history and a nonzero producer reserve"@)
    } else if limits.allocated_bytes + limits.fixed_bytes > u64::MAX {
        Some("initial allocation byte total overflows"@)
    } else if limits.allocated_bytes + limits.fixed_bytes > limits.memory_budget {
        Some("existing allocation exceeds the memory budget"@)
    } else if limits.max_incarnations == 0 {
        Some("incarnation capacity must be nonzero"@)
    } else {
        None
    }
}

/// The producer serializes admission and reclamation through this book. It contains no
/// authorization policy and requires no per-frame broker request.
#[derive(Debug)]
pub struct AdmissionBook {
    limits: AdmissionLimits,
    next_incarnation: u64,
    reservations: BTreeMap<u64, IncarnationRecord>,
    reserved_frames: u32,
    committed_bytes: u64,
    allocations: BTreeMap<u64, u64>,
    current_allocation: Option<AllocationId>,
    next_allocation: u64,
    pending_allocation: Option<PendingAllocation>,
}

impl View for AdmissionBook {
    type V = Accounts;

    closed spec fn view(&self) -> Accounts {
        Accounts {
            limits: self.limits,
            next_incarnation: self.next_incarnation,
            reservations: self.reservations@,
            allocations: self.allocations@,
            current: self.current_allocation,
            next_allocation: self.next_allocation,
            pending: self.pending_allocation,
        }
    }
}

/// Why an admission is refused, in the order in which the reasons are looked at.
pub open spec fn admission_refusal(accounts: Accounts, request: HoldingRequest) -> Option<
    AdmissionError,
> {
    if accounts.pending is Some {
        Some(AdmissionError::ReconfigurationPending)
    } else if request.frames == 0 || request.claim_bytes == 0 {
        Some(AdmissionError::InvalidRequest)
    } else if request.frames > accounts.available() {
        Some(
            AdmissionError::InsufficientResources {
                requested: request.frames,
                available: accounts.available() as u32,
            },
        )
    } else if accounts.reservations.len() >= accounts.limits.max_incarnations {
        Some(AdmissionError::IncarnationCapacity)
    } else if request.claim_bytes > accounts.free_bytes() {
        Some(
            AdmissionError::InsufficientMemory {
                requested: request.claim_bytes,
                available: accounts.free_bytes() as u64,
            },
        )
    } else if accounts.next_incarnation == u64::MAX {
        Some(AdmissionError::IdsExhausted)
    } else {
        None
    }
}

impl AdmissionBook {
    /// The counters agree with the accounts.
    pub closed spec fn inv(self) -> bool {
        &&& self@.inv()
        &&& self.reserved_frames == self@.reserved_frames()
        &&& self.committed_bytes == self@.committed()
    }

    /// What the counters agree with is consistent.
    pub proof fn accounts_are_consistent(self)
        requires
            self.inv(),
        ensures
            self@.inv(),
    {
    }

    pub fn new(limits: AdmissionLimits) -> (result: Result<Self, AdmissionError>)
        ensures
            match result {
                Ok(book) => {
                    &&& limits_fault(limits) is None
                    &&& book.inv()
                    &&& book@ == (Accounts {
                        limits,
                        next_incarnation: 1,
                        reservations: Map::empty(),
                        allocations: Map::empty().insert(1, limits.allocated_bytes),
                        current: Some(AllocationId(1)),
                        next_allocation: 2,
                        pending: None,
                    })
                },
                Err(AdmissionError::InvalidLimits(why)) => limits_fault(limits) == Some(why@),
                Err(_) => false,
            },
    {
        let protected: u32 = match limits.retained_history.checked_add(limits.producer_reserve) {
            Some(protected) => protected,
            None => {
                return Err(AdmissionError::InvalidLimits("history and producer reserve overflow"));
            },
        };
        if limits.producer_reserve == 0 || protected > limits.resource_capacity {
            return Err(
                AdmissionError::InvalidLimits(
                    "resource capacity must cover history and a nonzero producer reserve",
                ),
            );
        }
        let committed_bytes: u64 = match limits.allocated_bytes.checked_add(limits.fixed_bytes) {
            Some(committed) => committed,
            None => {
                return Err(
                    AdmissionError::InvalidLimits("initial allocation byte total overflows"),
                );
            },
        };
        if committed_bytes > limits.memory_budget {
            return Err(
                AdmissionError::InvalidLimits("existing allocation exceeds the memory budget"),
            );
        }
        if limits.max_incarnations == 0 {
            return Err(AdmissionError::InvalidLimits("incarnation capacity must be nonzero"));
        }
        let mut allocations: BTreeMap<u64, u64> = BTreeMap::new();
        allocations.insert(1, limits.allocated_bytes);
        let book = AdmissionBook {
            limits,
            next_incarnation: 1,
            reservations: BTreeMap::new(),
            reserved_frames: 0,
            committed_bytes,
            allocations,
            current_allocation: Some(AllocationId(1)),
            next_allocation: 2,
            pending_allocation: None,
        };
        proof {
            assert(frames_of(book.reservations@) =~= Map::empty());
            assert(claims_of(book.reservations@) =~= Map::empty());
            lemma_total_insert(Map::empty(), 1, limits.allocated_bytes);
        }
        Ok(book)
    }

    /// Reserves before allocating or transferring the claim mapping. Every failure leaves
    /// existing grants and accounting unchanged, and names the smaller available amount
    /// rather than silently shrinking the request.
    pub fn admit_consumer(&mut self, request: HoldingRequest) -> (result: Result<
        HoldingReservation,
        AdmissionError,
    >)
        requires
            old(self).inv(),
        ensures
            final(self).inv(),
            match result {
                Ok(reservation) => {
                    &&& admission_refusal(old(self)@, request) is None
                    &&& reservation.spec_incarnation() == IncarnationId(old(self)@.next_incarnation)
                    &&& reservation.spec_frames() == request.frames
                    &&& reservation.spec_claim_bytes() == request.claim_bytes
                    &&& final(self)@ == old(self)@.admitted(request)
                },
                Err(error) => {
                    &&& admission_refusal(old(self)@, request) == Some(error)
                    &&& final(self)@ == old(self)@
                },
            },
    {
        if self.pending_allocation.is_some() {
            return Err(AdmissionError::ReconfigurationPending);
        }
        if request.frames == 0 || request.claim_bytes == 0 {
            return Err(AdmissionError::InvalidRequest);
        }
        let available: u32 = self.available_frames();
        if request.frames > available {
            return Err(
                AdmissionError::InsufficientResources { requested: request.frames, available },
            );
        }
        if self.reservations.len() as u64 >= self.limits.max_incarnations as u64 {
            return Err(AdmissionError::IncarnationCapacity);
        }
        let available: u64 = self.limits.memory_budget - self.committed_bytes;
        if request.claim_bytes > available {
            return Err(
                AdmissionError::InsufficientMemory { requested: request.claim_bytes, available },
            );
        }
        let next: u64 = match self.next_incarnation.checked_add(1) {
            Some(next) => next,
            None => {
                return Err(AdmissionError::IdsExhausted);
            },
        };
        let id: u64 = self.next_incarnation;
        let record = IncarnationRecord {
            frames: request.frames,
            claim_bytes: request.claim_bytes,
            closing: false,
        };
        proof {
            let before = self.reservations@;
            assert(frames_of(before.insert(id, record)) =~= frames_of(before).insert(
                id,
                record.frames as u64,
            ));
            assert(claims_of(before.insert(id, record)) =~= claims_of(before).insert(
                id,
                record.claim_bytes,
            ));
            assert(frames_of(before).dom() =~= before.dom());
            assert(claims_of(before).dom() =~= before.dom());
            lemma_total_insert(frames_of(before), id, record.frames as u64);
            lemma_total_insert(claims_of(before), id, record.claim_bytes);
        }
        self.next_incarnation = next;
        self.reserved_frames = self.reserved_frames + request.frames;
        self.committed_bytes = self.committed_bytes + request.claim_bytes;
        self.reservations.insert(id, record);
        Ok(
            HoldingReservation {
                incarnation: IncarnationId(id),
                frames: request.frames,
                claim_bytes: request.claim_bytes,
            },
        )
    }

    /// Records closure without reclaiming anything. The arena must first close the shared
    /// acquisition gate; connection loss alone proves neither process termination nor
    /// completion of reads or device commands.
    pub fn close(&mut self, incarnation: IncarnationId) -> (result: Result<(), AdmissionError>)
        requires
            old(self).inv(),
        ensures
            final(self).inv(),
            match result {
                Ok(()) => {
                    &&& old(self)@.reservations.contains_key(incarnation.0)
                    &&& final(self)@ == old(self)@.closed(incarnation)
                },
                Err(error) => {
                    &&& error == AdmissionError::UnknownIncarnation
                    &&& !old(self)@.reservations.contains_key(incarnation.0)
                    &&& final(self)@ == old(self)@
                },
            },
    {
        let record = match self.reservations.get(&incarnation.0) {
            Some(record) => *record,
            None => {
                return Err(AdmissionError::UnknownIncarnation);
            },
        };
        let closed = IncarnationRecord { closing: true, ..record };
        proof {
            let before = self.reservations@;
            assert(before.insert(incarnation.0, closed).dom() =~= before.dom());
            assert(frames_of(before.insert(incarnation.0, closed)) =~= frames_of(before));
            assert(claims_of(before.insert(incarnation.0, closed)) =~= claims_of(before));
        }
        self.reservations.insert(incarnation.0, closed);
        Ok(())
    }

    /// Acknowledges reclamation by the arena's cleanup owner. Call only after that owner has
    /// established completion of all use and the end of claim-page access, and has
    /// reclaimed the incarnation's mapping. This accounting operation supplies no such
    /// proof itself; it is never an end-of-stream handler or a timeout-based release.
    pub fn complete_cleanup(&mut self, incarnation: IncarnationId) -> (result: Result<
        (),
        AdmissionError,
    >)
        requires
            old(self).inv(),
        ensures
            final(self).inv(),
            match result {
                Ok(()) => {
                    &&& old(self)@.reservations.contains_key(incarnation.0)
                    &&& old(self)@.reservations[incarnation.0].closing
                    &&& final(self)@ == old(self)@.cleaned(incarnation)
                },
                Err(error) => {
                    &&& error == (if old(self)@.reservations.contains_key(incarnation.0) {
                        AdmissionError::StillActive
                    } else {
                        AdmissionError::UnknownIncarnation
                    })
                    &&& old(self)@.reservations.contains_key(incarnation.0)
                        ==> !old(self)@.reservations[incarnation.0].closing
                    &&& final(self)@ == old(self)@
                },
            },
    {
        let record = match self.reservations.get(&incarnation.0) {
            Some(record) => *record,
            None => {
                return Err(AdmissionError::UnknownIncarnation);
            },
        };
        if !record.closing {
            return Err(AdmissionError::StillActive);
        }
        proof {
            let before = self.reservations@;
            let id = incarnation.0;
            assert(frames_of(before).dom() =~= before.dom());
            assert(claims_of(before).dom() =~= before.dom());
            lemma_total_remove(frames_of(before), id);
            lemma_total_remove(claims_of(before), id);
            assert(frames_of(before.remove(id)) =~= frames_of(before).remove(id));
            assert(claims_of(before.remove(id)) =~= claims_of(before).remove(id));
        }
        self.reservations.remove(&incarnation.0);
        self.reserved_frames = self.reserved_frames - record.frames;
        self.committed_bytes = self.committed_bytes - record.claim_bytes;
        Ok(())
    }

    /// Resource availability only; memory and incarnation capacity are also checked by
    /// `admit_consumer`.
    #[must_use]
    pub fn available_frames(&self) -> (result: u32)
        requires
            self.inv(),
        ensures
            result == self@.available(),
    {
        self.limits.resource_capacity - self.limits.retained_history - self.limits.producer_reserve
            - self.reserved_frames
    }
}

/// An admission takes exactly what was asked for from what can be promised.
pub proof fn admission_charges_the_request(accounts: Accounts, request: HoldingRequest)
    requires
        accounts.inv(),
        admission_refusal(accounts, request) is None,
    ensures
        accounts.admitted(request).available() == accounts.available() - request.frames,
        accounts.admitted(request).committed() == accounts.committed() + request.claim_bytes,
        !accounts.reservations.contains_key(accounts.next_incarnation),
{
    let before = accounts.reservations;
    let id = accounts.next_incarnation;
    let record = IncarnationRecord {
        frames: request.frames,
        claim_bytes: request.claim_bytes,
        closing: false,
    };
    assert(frames_of(before.insert(id, record)) =~= frames_of(before).insert(
        id,
        record.frames as u64,
    ));
    assert(claims_of(before.insert(id, record)) =~= claims_of(before).insert(
        id,
        record.claim_bytes,
    ));
    assert(frames_of(before).dom() =~= before.dom());
    assert(claims_of(before).dom() =~= before.dom());
    lemma_total_insert(frames_of(before), id, record.frames as u64);
    lemma_total_insert(claims_of(before), id, record.claim_bytes);
}

/// Closing an incarnation gives nothing back; only its completed cleanup does, and then
/// all of it.
pub proof fn cleanup_returns_the_holding_in_full(accounts: Accounts, request: HoldingRequest)
    requires
        accounts.inv(),
        admission_refusal(accounts, request) is None,
    ensures
        ({
            let id = IncarnationId(accounts.next_incarnation);
            let held = accounts.admitted(request);
            let closing = held.closed(id);
            let cleaned = closing.cleaned(id);
            &&& closing.available() == held.available()
            &&& closing.committed() == held.committed()
            &&& cleaned.reservations == accounts.reservations
            &&& cleaned.available() == accounts.available()
            &&& cleaned.committed() == accounts.committed()
        }),
{
    let id = IncarnationId(accounts.next_incarnation);
    let held = accounts.admitted(request);
    let closing = held.closed(id);
    assert(frames_of(closing.reservations) =~= frames_of(held.reservations));
    assert(claims_of(closing.reservations) =~= claims_of(held.reservations));
    assert(closing.cleaned(id).reservations =~= accounts.reservations);
}

/// An identity is given out once: a later incarnation never has that of an earlier one.
pub proof fn identities_are_not_reused(accounts: Accounts, request: HoldingRequest)
    requires
        accounts.inv(),
        admission_refusal(accounts, request) is None,
    ensures
        accounts.admitted(request).next_incarnation > accounts.next_incarnation,
        forall|id: u64|
            #![trigger accounts.reservations.contains_key(id)]
            accounts.reservations.contains_key(id) ==> id != accounts.next_incarnation && id
                != accounts.admitted(request).next_incarnation,
{
}

} // verus!
