//! What ordered retained delivery gives, from the first call to the last.

use super::claims::{first_free, lemma_first_free};
use super::holding::{Acquisition, ConsumerState, LeaseTerms};
use super::laws::{ready, retained_frames_can_be_acquired};
use super::pages::Pages;
use super::producer::lemma_pages_kept;
use super::state::ProducerState;
use super::upkeep::same_page;
use vstd::prelude::*;

verus! {

/// Ordered delivery after a cursor, called that many times at most and as long as it gives
/// something: each frame is released before the next call, which asks for what comes after it,
/// and a gap is passed over. The frames in their order, and what the last call gave.
pub open spec fn delivery<T>(
    consumer: ConsumerState<T>,
    pages: Pages,
    after: u64,
    calls: nat,
) -> (Seq<LeaseTerms>, Acquisition)
    decreases calls,
{
    let id = consumer.incarnation.0;
    let (holder, held, outcome) = consumer.acquired_next(pages, after);
    if calls == 0 {
        (Seq::empty(), outcome)
    } else {
        match outcome {
            Acquisition::Frame(lease) => {
                let (free, page) = holder.released(held.claims[id], lease);
                let rest = delivery(
                    free,
                    held.with_claims(id, page),
                    lease.descriptor.cursor,
                    (calls - 1) as nat,
                );
                (seq![lease] + rest.0, rest.1)
            },
            Acquisition::Gap { first, last } => delivery(consumer, pages, last, (calls - 1) as nat),
            _ => (Seq::empty(), outcome),
        }
    }
}

/// The first cursor that ordered delivery after a cursor can still give.
pub open spec fn delivered_from<T, U>(
    state: ProducerState<T>,
    consumer: ConsumerState<U>,
    after: u64,
) -> int {
    let oldest = consumer.oldest(state.pages.control);
    if after + 1 < oldest {
        oldest
    } else {
        after + 1
    }
}

/// How many frames ordered delivery after a cursor can still give.
pub open spec fn remaining<T, U>(
    state: ProducerState<T>,
    consumer: ConsumerState<U>,
    after: u64,
) -> int {
    let start = delivered_from(state, consumer, after);
    if start <= state.cursor {
        state.cursor - start + 1
    } else {
        0
    }
}

/// Whether these leases are that many published frames from a cursor on, in order, each as it
/// lies in its resource.
pub open spec fn frames_from<T>(
    state: ProducerState<T>,
    leases: Seq<LeaseTerms>,
    start: int,
    count: int,
) -> bool {
    &&& leases.len() == count
    &&& forall|i: int|
        0 <= i < leases.len() ==> {
            let lease = #[trigger] leases[i];
            let record = state.pages.resources[state.current->0].records[lease.index as int];
            &&& lease.descriptor.cursor == start + i
            &&& record.generation() == start + i
            &&& lease.descriptor == record.descriptor
        }
}

/// What delivery after a cursor, called until it gives nothing more, comes to: every frame that
/// remains, until nothing is left. Each frame is given back, which counts the epoch of returned
/// credit up; where the epoch runs out, the incarnation closes and delivery ends with it.
pub open spec fn delivered<T, U>(
    state: ProducerState<T>,
    consumer: ConsumerState<U>,
    after: u64,
    leases: Seq<LeaseTerms>,
    last: Acquisition,
) -> bool {
    let start = delivered_from(state, consumer, after);
    let count = remaining(state, consumer, after);
    let epochs = u64::MAX - state.pages.claims[consumer.incarnation.0].capacity_epoch;
    if count <= epochs {
        frames_from(state, leases, start, count) && last is Empty
    } else {
        frames_from(state, leases, start, epochs + 1) && last is Closed
    }
}

/// The cursors that are still advertised are the retained ones.
pub proof fn advertised_cursors_are_retained<T, U>(
    state: ProducerState<T>,
    consumer: ConsumerState<U>,
    cursor: u64,
)
    requires
        state.inv(),
    ensures
        state.retains(cursor) <==> consumer.oldest(state.pages.control) <= cursor <= state.cursor,
        1 <= consumer.oldest(state.pages.control) <= state.cursor + 1,
{
}

/// A gap in ordered delivery starts right after the cursor that was asked after, names only
/// published frames that are not retained any more, and ends right before the oldest frame
/// that is, or before the next one.
pub proof fn gaps_name_what_is_gone<T, U>(
    state: ProducerState<T>,
    consumer: ConsumerState<U>,
    after: u64,
)
    requires
        state.inv(),
        ready(state, consumer),
    ensures
        ({
            let oldest = consumer.oldest(state.pages.control);
            match consumer.acquired_next(state.pages, after).2 {
                Acquisition::Gap { first, last } => {
                    &&& after != 0
                    &&& first == after + 1
                    &&& first <= last
                    &&& last + 1 == oldest
                    &&& state.retains(oldest as u64) || oldest == state.cursor + 1
                    &&& forall|c: u64|
                        first <= c <= last ==> 1 <= c <= state.cursor && !#[trigger] state.retains(
                            c,
                        )
                },
                _ => after == 0 || after >= state.cursor || after + 1 >= oldest,
            }
        }),
{
    let oldest = consumer.oldest(state.pages.control);
    advertised_cursors_are_retained(state, consumer, oldest as u64);
}

/// Ordered delivery, called until it gives nothing more, gives every retained frame after the
/// cursor exactly once, in ascending order, and nothing else. It ends because nothing is left, or
/// because the epoch of returned credit has run out and the incarnation is closed.
pub proof fn ordered_delivery_is_complete<T, U>(
    state: ProducerState<T>,
    consumer: ConsumerState<U>,
    after: u64,
    calls: nat,
)
    requires
        state.inv(),
        ready(state, consumer),
        calls > remaining(state, consumer, after),
    ensures
        ({
            let (leases, last) = delivery(consumer, state.pages, after, calls);
            let start = delivered_from(state, consumer, after);
            &&& delivered(state, consumer, after, leases, last)
            &&& forall|c: u64|
                (start <= c <= state.cursor) <==> c > after && #[trigger] state.retains(c)
        }),
{
    let control = state.pages.control;
    let oldest = consumer.oldest(control);
    if after == 0 || after + 1 >= oldest || after >= state.cursor {
        lemma_delivery(state, consumer, after, calls);
    } else {
        let last = (oldest - 1) as u64;
        assert(consumer.acquired_next(state.pages, after).2 == (Acquisition::Gap {
            first: (after + 1) as u64,
            last,
        }));
        lemma_delivery(state, consumer, last, (calls - 1) as nat);
    }
}

/// Delivery from a cursor after which everything is still retained.
proof fn lemma_delivery<T, U>(
    state: ProducerState<T>,
    consumer: ConsumerState<U>,
    after: u64,
    calls: nat,
)
    requires
        state.inv(),
        ready(state, consumer),
        after == 0 || after + 1 >= consumer.oldest(state.pages.control) || after >= state.cursor,
        calls >= remaining(state, consumer, after),
    ensures
        ({
            let (leases, last) = delivery(consumer, state.pages, after, calls);
            delivered(state, consumer, after, leases, last)
        }),
    decreases calls,
{
    let id = consumer.incarnation.0;
    let g = state.current->0;
    let start = delivered_from(state, consumer, after);
    let (holder, held, outcome) = consumer.acquired_next(state.pages, after);
    let (leases, last) = delivery(consumer, state.pages, after, calls);
    if start > state.cursor {
        assert(outcome is Empty);
        assert(leases.len() == 0);
    } else {
        let cursor = start as u64;
        advertised_cursors_are_retained(state, consumer, cursor);
        assert(state.retains(cursor));
        retained_frames_can_be_acquired(state, consumer, cursor);
        assert(consumer.acquired_next(state.pages, after) == consumer.acquired(
            state.pages,
            cursor,
        ));
        assert(consumer.acquired_exact(state.pages, cursor) == consumer.acquired(
            state.pages,
            cursor,
        ));
        let lease = outcome->Frame_0;
        let slots = state.pages.claims[id].slots;
        lemma_first_free(slots);
        let slot = first_free(slots)->0;
        assert(state.claim_proper(id));
        assert(lease.slot == slot);
        let (free, page) = holder.released(held.claims[id], lease);
        let pages = held.with_claims(id, page);
        let next = ProducerState { pages, ..state };
        assert(holder.installed == consumer.installed);
        assert(free.uses(lease.mapping.slot));
        assert(page == state.pages.claims[id].taken(slot, cursor).credited(slot));
        assert(page.slots[slot] == 0);
        lemma_first_free(page.slots);
        assert(pages.claims.dom() =~= state.pages.claims.dom());
        assert forall|n: u64| #[trigger] pages.claims.contains_key(n) implies same_page(
            state.pages.claims[n],
            pages.claims[n],
            state.accounts.reservations[n].frames as nat,
        ) by {
            assert(state.claim_proper(n));
        }
        lemma_pages_kept(state, pages);
        let rest = delivery(free, pages, cursor, (calls - 1) as nat);
        assert(leases == seq![lease] + rest.0);
        if state.pages.claims[id].capacity_epoch == u64::MAX {
            assert(free.shut(pages));
            assert(rest.0.len() == 0 && rest.1 is Closed);
        } else {
            assert(ready(next, free));
            lemma_delivery(next, free, cursor, (calls - 1) as nat);
            assert(delivered_from(next, free, cursor) == start + 1);
        }
        assert forall|i: int| 0 <= i < leases.len() implies {
            let lease = #[trigger] leases[i];
            let record = state.pages.resources[g].records[lease.index as int];
            &&& lease.descriptor.cursor == start + i
            &&& record.generation() == start + i
            &&& lease.descriptor == record.descriptor
        } by {
            if i > 0 {
                assert(leases[i] == rest.0[i - 1]);
            }
        }
    }
}

} // verus!
