//! What admission promises, over the numbers themselves.

use super::allocation::start_refusal;
use super::{
    admission_refusal, limits_fault, Accounts, AdmissionBook, AdmissionError, AdmissionLimits,
    AllocationId, HoldingRequest, HoldingReservation, IncarnationId, IncarnationRecord,
};
use crate::totals::{lemma_total_insert, lemma_total_remove, total};
use vstd::prelude::*;

verus! {

/// The slots of every incarnation, closing ones as well, together.
pub open spec fn slots_promised(accounts: Accounts) -> nat {
    total(accounts.reservations.map_values(|record: IncarnationRecord| record.frames as u64))
}

/// The bytes of the control page, of every claim page and of every resource generation together.
pub open spec fn bytes_charged(accounts: Accounts) -> nat {
    accounts.limits.fixed_bytes as nat + total(accounts.allocations) + total(
        accounts.reservations.map_values(|record: IncarnationRecord| record.claim_bytes),
    )
}

/// Promises never exceed what there is: the slots of all incarnations leave the history and the
/// producer's reserve untouched, all bytes together stay within the budget, and there are never
/// more incarnations than allowed.
pub proof fn promises_stay_within_the_limits(accounts: Accounts)
    requires
        accounts.inv(),
    ensures
        slots_promised(accounts) + accounts.limits.retained_history
            + accounts.limits.producer_reserve <= accounts.limits.resource_capacity,
        bytes_charged(accounts) <= accounts.limits.memory_budget,
        accounts.reservations.len() <= accounts.limits.max_incarnations,
        accounts.limits.producer_reserve > 0,
{
}

/// A holding is admitted exactly where its slots and its bytes are there beside everything that was
/// promised already, and an incarnation and an identity are left; each refusal names what is
/// missing, and how much of it there is.
pub proof fn holdings_are_judged_by_what_is_left(accounts: Accounts, request: HoldingRequest)
    requires
        accounts.inv(),
    ensures
        ({
            let limits = accounts.limits;
            let slots = limits.resource_capacity - limits.retained_history
                - limits.producer_reserve - slots_promised(accounts);
            let bytes = limits.memory_budget - bytes_charged(accounts);
            let refusal = admission_refusal(accounts, request);
            &&& refusal is None <==> {
                &&& accounts.pending is None
                &&& request.frames > 0
                &&& request.claim_bytes > 0
                &&& request.frames <= slots
                &&& accounts.reservations.len() < limits.max_incarnations
                &&& request.claim_bytes <= bytes
                &&& accounts.next_incarnation < u64::MAX
            }
            &&& refusal matches Some(
                AdmissionError::InsufficientResources { requested, available },
            ) ==> requested == request.frames && available == slots && requested > available
            &&& refusal matches Some(AdmissionError::InsufficientMemory { requested, available })
                ==> requested == request.claim_bytes && available == bytes && requested > available
            &&& refusal == Some(AdmissionError::IncarnationCapacity) ==> accounts.reservations.len()
                >= limits.max_incarnations
            &&& refusal == Some(AdmissionError::InvalidRequest) ==> request.frames == 0
                || request.claim_bytes == 0
        }),
{
}

/// An admitted holding is recorded under the next identity with what it asked for; closing it keeps
/// that, and its completed cleanup takes it out. Nobody else's record changes.
pub proof fn records_follow_the_incarnation(
    accounts: Accounts,
    request: HoldingRequest,
    incarnation: IncarnationId,
    other: u64,
)
    requires
        accounts.reservations.contains_key(incarnation.0),
        other != incarnation.0,
        other != accounts.next_incarnation,
    ensures
        ({
            let admitted = accounts.admitted(request);
            let record = admitted.reservations[accounts.next_incarnation];
            &&& admitted.reservations.contains_key(accounts.next_incarnation)
            &&& record.frames == request.frames
            &&& record.claim_bytes == request.claim_bytes
            &&& !record.closing
            &&& admitted.reservations.contains_key(other)
                == accounts.reservations.contains_key(other)
            &&& admitted.reservations[other] == accounts.reservations[other]
            &&& admitted.allocations == accounts.allocations
        }),
        ({
            let closed = accounts.closed(incarnation);
            let was = accounts.reservations[incarnation.0];
            let is = closed.reservations[incarnation.0];
            &&& closed.reservations.contains_key(incarnation.0)
            &&& is.frames == was.frames
            &&& is.claim_bytes == was.claim_bytes
            &&& is.closing
            &&& closed.reservations.contains_key(other) == accounts.reservations.contains_key(other)
            &&& closed.reservations[other] == accounts.reservations[other]
            &&& closed.allocations == accounts.allocations
        }),
        ({
            let cleaned = accounts.cleaned(incarnation);
            &&& !cleaned.reservations.contains_key(incarnation.0)
            &&& cleaned.reservations.contains_key(other)
                == accounts.reservations.contains_key(other)
            &&& cleaned.reservations[other] == accounts.reservations[other]
            &&& cleaned.allocations == accounts.allocations
            &&& cleaned.next_incarnation == accounts.next_incarnation
        }),
{
}

/// A replacement can be started exactly where none is pending, it has a size, it would fit once the
/// storage that it replaces is gone, and an identity is left.
pub proof fn replacements_start_where_they_can_fit(accounts: Accounts, upper_bound: u64)
    requires
        accounts.inv(),
    ensures
        ({
            let room = accounts.limits.memory_budget - bytes_charged(accounts) + total(
                accounts.allocations,
            );
            let refusal = start_refusal(accounts, upper_bound);
            &&& refusal is None <==> accounts.pending is None && 0 < upper_bound <= room
                && accounts.next_allocation < u64::MAX
            &&& refusal matches Some(AdmissionError::InsufficientMemory { requested, available })
                ==> requested == upper_bound && upper_bound > room
        }),
{
}

/// A replacement passes through its states with its bytes: pending it charges nothing, reserved its
/// bound under a new identity, installed its actual size; and what is destroyed is charged no more.
pub proof fn replacements_carry_their_bytes(
    accounts: Accounts,
    upper_bound: u64,
    actual: u64,
    gone: AllocationId,
)
    requires
        gone.0 != accounts.next_allocation,
        accounts.next_allocation < u64::MAX,
    ensures
        ({
            let started = accounts.started(upper_bound);
            &&& started.allocations == accounts.allocations
            &&& started.current is None
            &&& started.pending matches Some(pending) && pending.upper_bound == upper_bound
                && pending.reserved is None
            &&& started.reservations == accounts.reservations
        }),
        ({
            let id = accounts.next_allocation;
            let reserved = accounts.started(upper_bound).reserved();
            let installed = reserved.installed(AllocationId(id), actual);
            &&& reserved.allocations.contains_key(id)
            &&& reserved.allocations[id] == upper_bound
            &&& reserved.next_allocation == id + 1
            &&& reserved.current is None
            &&& installed.allocations[id] == actual
            &&& installed.current == Some(AllocationId(id))
            &&& installed.pending is None
            &&& installed.allocations.contains_key(gone.0) == accounts.allocations.contains_key(
                gone.0,
            )
            &&& installed.allocations[gone.0] == accounts.allocations[gone.0]
            &&& !installed.reclaimed(gone).allocations.contains_key(gone.0)
            &&& installed.reclaimed(gone).allocations[id] == actual
            &&& installed.reclaimed(gone).reservations == accounts.reservations
        }),
{
}

/// Limits are taken exactly where a producer can go on publishing beside a full history, and what
/// is allocated at once fits the budget.
pub proof fn limits_are_taken_where_they_can_hold(limits: AdmissionLimits)
    ensures
        limits_fault(limits) is None <==> {
            &&& limits.producer_reserve > 0
            &&& limits.retained_history + limits.producer_reserve <= limits.resource_capacity
            &&& limits.allocated_bytes + limits.fixed_bytes <= limits.memory_budget
            &&& limits.max_incarnations > 0
        },
{
}

/// A holding that is admitted is charged: its slots and its bytes are promised beside the others,
/// under an identity that nobody had; one that is refused changes nothing.
pub proof fn admitted_holdings_are_charged(
    book: &mut AdmissionBook,
    request: HoldingRequest,
    result: Result<HoldingReservation, AdmissionError>,
)
    requires
        old(book)@.inv(),
        call_ensures(AdmissionBook::admit_consumer, (book, request), result),
    ensures
        result matches Ok(reservation) ==> {
            let id = reservation.spec_incarnation().0;
            &&& request.frames > 0
            &&& reservation.spec_frames() == request.frames
            &&& !old(book)@.reservations.contains_key(id)
            &&& final(book)@.reservations.contains_key(id)
            &&& slots_promised(final(book)@) == slots_promised(old(book)@) + request.frames
            &&& bytes_charged(final(book)@) == bytes_charged(old(book)@) + request.claim_bytes
            &&& final(book)@.next_incarnation > id
        },
        result is Err ==> final(book)@ == old(book)@,
{
    if result is Ok {
        let accounts = old(book)@;
        let after = final(book)@;
        let id = accounts.next_incarnation;
        let frames = |record: IncarnationRecord| record.frames as u64;
        let bytes = |record: IncarnationRecord| record.claim_bytes;
        holdings_are_judged_by_what_is_left(accounts, request);
        assert(after.reservations.map_values(frames) =~= accounts.reservations.map_values(
            frames,
        ).insert(id, request.frames as u64));
        assert(after.reservations.map_values(bytes) =~= accounts.reservations.map_values(
            bytes,
        ).insert(id, request.claim_bytes));
        assert(accounts.reservations.map_values(frames).dom() =~= accounts.reservations.dom());
        assert(accounts.reservations.map_values(bytes).dom() =~= accounts.reservations.dom());
        lemma_total_insert(
            accounts.reservations.map_values(frames),
            id,
            request.frames as u64,
        );
        lemma_total_insert(accounts.reservations.map_values(bytes), id, request.claim_bytes);
    }
}

/// What an incarnation was promised stays promised while it closes, and is there again once its
/// cleanup has completed, which it cannot before it closes.
pub proof fn cleaned_holdings_are_there_again(
    closing: &mut AdmissionBook,
    cleaned: &mut AdmissionBook,
    incarnation: IncarnationId,
    closed: Result<(), AdmissionError>,
    result: Result<(), AdmissionError>,
)
    requires
        old(closing)@.inv(),
        call_ensures(AdmissionBook::close, (closing, incarnation), closed),
        old(cleaned)@ == final(closing)@,
        call_ensures(AdmissionBook::complete_cleanup, (cleaned, incarnation), result),
    ensures
        closed is Ok <==> old(closing)@.reservations.contains_key(incarnation.0),
        result is Ok <==> closed is Ok,
        closed is Ok ==> {
            let record = old(closing)@.reservations[incarnation.0];
            &&& slots_promised(final(closing)@) == slots_promised(old(closing)@)
            &&& bytes_charged(final(closing)@) == bytes_charged(old(closing)@)
            &&& final(closing)@.reservations.contains_key(incarnation.0)
            &&& slots_promised(final(cleaned)@) + record.frames == slots_promised(old(closing)@)
            &&& bytes_charged(final(cleaned)@) + record.claim_bytes == bytes_charged(old(closing)@)
            &&& !final(cleaned)@.reservations.contains_key(incarnation.0)
        },
        closed is Err ==> final(cleaned)@ == old(closing)@,
{
    if closed is Ok {
        let start = old(closing)@;
        let middle = final(closing)@;
        let after = final(cleaned)@;
        let id = incarnation.0;
        let frames = |record: IncarnationRecord| record.frames as u64;
        let bytes = |record: IncarnationRecord| record.claim_bytes;
        assert(middle.reservations.map_values(frames) =~= start.reservations.map_values(frames));
        assert(middle.reservations.map_values(bytes) =~= start.reservations.map_values(bytes));
        assert(after.reservations.map_values(frames) =~= start.reservations.map_values(
            frames,
        ).remove(id));
        assert(after.reservations.map_values(bytes) =~= start.reservations.map_values(bytes).remove(
            id,
        ));
        assert(start.reservations.map_values(frames).dom() =~= start.reservations.dom());
        assert(start.reservations.map_values(bytes).dom() =~= start.reservations.dom());
        lemma_total_remove(start.reservations.map_values(frames), id);
        lemma_total_remove(start.reservations.map_values(bytes), id);
    }
}

/// An active incarnation is not cleaned up.
pub proof fn active_holdings_are_not_cleaned(
    book: &mut AdmissionBook,
    incarnation: IncarnationId,
    result: Result<(), AdmissionError>,
)
    requires
        call_ensures(AdmissionBook::complete_cleanup, (book, incarnation), result),
        !(old(book)@.reservations.contains_key(incarnation.0)
            && old(book)@.reservations[incarnation.0].closing),
    ensures
        result is Err,
        final(book)@ == old(book)@,
{
}

/// A book says how much is left: the slots that are promised to nobody, and the bytes that are
/// charged.
pub proof fn books_say_what_is_left(book: &AdmissionBook, frames: u32, bytes: u64)
    requires
        book@.inv(),
        call_ensures(AdmissionBook::available_frames, (book,), frames),
        call_ensures(AdmissionBook::committed_bytes, (book,), bytes),
    ensures
        frames + slots_promised(book@) + book@.limits.retained_history
            + book@.limits.producer_reserve == book@.limits.resource_capacity,
        bytes == bytes_charged(book@),
{
}

/// The storage of a replacement is charged by its bound once it is reserved, and by its size once
/// it is installed, which is never more; given up it is charged no more, and the replacement stays
/// pending.
pub proof fn reserved_storage_is_charged(
    book: &mut AdmissionBook,
    reserved: Result<AllocationId, AdmissionError>,
    installing: &mut AdmissionBook,
    actual: u64,
    installed: Result<AllocationId, AdmissionError>,
    abandoning: &mut AdmissionBook,
    abandoned: Result<(), AdmissionError>,
)
    requires
        old(book)@.inv(),
        old(book)@.pending matches Some(pending) && pending.reserved is None,
        call_ensures(AdmissionBook::reserve_reconfiguration, (book,), reserved),
        old(installing)@ == final(book)@,
        call_ensures(AdmissionBook::install_reconfiguration, (installing, actual), installed),
        old(abandoning)@ == final(book)@,
        call_ensures(AdmissionBook::abandon_reconfiguration_allocation, (abandoning,), abandoned),
    ensures
        ({
            let bound = (old(book)@.pending->0).upper_bound;
            let before = bytes_charged(old(book)@);
            &&& reserved is Ok ==> {
                &&& bytes_charged(final(book)@) == before + bound
                &&& final(book)@.current == old(book)@.current
                &&& installed is Ok <==> 1 <= actual <= bound
                &&& installed matches Ok(id) ==> {
                    &&& Ok::<AllocationId, AdmissionError>(id) == reserved
                    &&& bytes_charged(final(installing)@) == before + actual
                    &&& final(installing)@.current == Some(id)
                    &&& final(installing)@.pending is None
                }
                &&& abandoned is Ok
                &&& bytes_charged(final(abandoning)@) == before
                &&& final(abandoning)@.pending == old(book)@.pending
            }
            &&& reserved is Err ==> final(book)@ == old(book)@ && installed is Err
                && abandoned is Err
            &&& bound + before <= old(book)@.limits.memory_budget && old(book)@.next_allocation
                < u64::MAX ==> reserved is Ok
            &&& bound + before > old(book)@.limits.memory_budget ==> reserved is Err
        }),
{
    let accounts = old(book)@;
    promises_stay_within_the_limits(accounts);
    if reserved is Ok {
        let id = accounts.next_allocation;
        let bound = (accounts.pending->0).upper_bound;
        assert(!accounts.allocations.contains_key(id));
        lemma_total_insert(accounts.allocations, id, bound);
        lemma_total_insert(accounts.allocations, id, actual);
        assert(accounts.allocations.insert(id, bound).insert(id, actual)
            =~= accounts.allocations.insert(id, actual));
        assert(accounts.allocations.insert(id, bound).remove(id) =~= accounts.allocations);
    }
}

} // verus!
