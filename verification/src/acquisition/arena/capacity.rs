//! Why admitted consumers cannot starve publication: admission promises every incarnation a
//! number of distinct frames, and a search fails only if every resource is retained or held.

use super::claims::ClaimPage;
use super::state::{Offer, ProducerState};
use super::upkeep::lemma_tried;
use super::{ArenaError, FrameDescriptor, PublishOutcome, MAX_GENERATION};
use crate::acquisition::frames_of;
use crate::totals::{lemma_total_remove, total};
use vstd::prelude::*;
use vstd::set_lib::{
    lemma_int_range, lemma_len_subset, lemma_len_union, lemma_map_size, lemma_map_size_bound,
    set_int_range,
};

verus! {

/// The cursors that some incarnation claims.
pub open spec fn claimed_cursors(claims: Map<u64, ClaimPage>) -> Set<u64> {
    Set::new(
        |cursor: u64|
            exists|id: u64| #[trigger] claims.contains_key(id) && claims[id].holds(cursor),
    )
}

/// No more cursors are claimed than there are slots.
proof fn lemma_claimed_cursors(claims: Map<u64, ClaimPage>, frames: Map<u64, u64>)
    requires
        frames.dom().finite(),
        claims.dom() == frames.dom(),
        forall|id: u64| #[trigger]
            claims.contains_key(id) ==> claims[id].slots.len() == frames[id],
    ensures
        claimed_cursors(claims).finite(),
        claimed_cursors(claims).len() <= total(frames),
    decreases frames.dom().len(),
{
    if frames.dom().len() == 0 {
        assert(claimed_cursors(claims) =~= Set::empty());
    } else {
        let k = frames.dom().choose();
        assert(claims.contains_key(k));
        let rest = claims.remove(k);
        assert(rest.dom() =~= frames.remove(k).dom());
        assert forall|id: u64| #[trigger] rest.contains_key(id) implies rest[id].slots.len()
            == frames.remove(k)[id] by {
            assert(claims.contains_key(id));
        }
        lemma_claimed_cursors(rest, frames.remove(k));
        lemma_total_remove(frames, k);
        let own = claims[k].slots.to_set();
        claims[k].slots.lemma_cardinality_of_set();
        vstd::seq_lib::seq_to_set_is_finite(claims[k].slots);
        lemma_len_union(own, claimed_cursors(rest));
        assert(claimed_cursors(claims).subset_of(own.union(claimed_cursors(rest)))) by {
            assert forall|cursor: u64| claimed_cursors(claims).contains(cursor) implies own.union(
                claimed_cursors(rest),
            ).contains(cursor) by {
                let id = choose|id: u64| #[trigger]
                    claims.contains_key(id) && claims[id].holds(cursor);
                if id == k {
                    let i = choose|i: int|
                        0 <= i < claims[k].slots.len() && #[trigger] claims[k].slots[i] == cursor;
                    assert(own.contains(claims[k].slots[i]));
                } else {
                    assert(rest.contains_key(id));
                }
            }
        }
        lemma_len_subset(claimed_cursors(claims), own.union(claimed_cursors(rest)));
    }
}

/// A search that has found nothing has seen only resources that hold something retained or
/// something claimed.
proof fn lemma_blocked<T>(state: ProducerState<T>, generation: u64, descriptor: FrameDescriptor, count: int)
    requires
        state.inv(),
        state.current == Some(generation),
        0 <= count <= state.resources(),
        state.tried(generation, Offer::Inline(descriptor), count).1 is None,
    ensures
        forall|k: int|
            0 <= k < count ==> {
                let held = state.pages.resources[generation].records[(#[trigger] (state.next_slot
                    + k)) % state.resources()].generation();
                held != 0 && (held >= state.oldest_protected() || state.pages.claimed(held as u64))
            },
    decreases count,
{
    if count > 0 {
        let offer = Offer::Inline(descriptor);
        let n = state.resources();
        lemma_blocked(state, generation, descriptor, count - 1);
        lemma_tried(state, generation, offer, count - 1);
        let start = state.pages.resources[generation];
        let page = state.tried(generation, offer, count - 1).0;
        let index = (state.next_slot + count - 1) % n;
        vstd::arithmetic::div_mod::lemma_mod_bound(state.next_slot + count - 1, n);
        assert(state.pages.resources.contains_key(generation));
        assert(state.resource_proper(generation));
        assert(page.records[index] == start.records[index] || page.records[index]
            == start.records[index].retired());
        assert(page.records[index].generation() == start.records[index].generation());
        assert forall|k: int| 0 <= k < count implies {
            let held = start.records[(#[trigger] (state.next_slot + k)) % n].generation();
            held != 0 && (held >= state.oldest_protected() || state.pages.claimed(held as u64))
        } by {
            if k == count - 1 {
                assert(state.next_slot + k == state.next_slot + count - 1);
            }
        }
    }
}

/// Admitted holdings never starve publication: whatever the consumers hold, a frame that fits
/// is published.
pub proof fn holdings_never_starve_publication<T>(
    state: ProducerState<T>,
    descriptor: FrameDescriptor,
    bytes: Seq<u8>,
)
    requires
        state.inv(),
        state.current matches Some(g) && bytes.len()
            <= state.pages.resources[g].layout.payload_capacity,
        state.cursor < MAX_GENERATION,
    ensures
        state.published(Offer::Inline(descriptor), bytes).1 == Ok::<PublishOutcome, ArenaError>(
            PublishOutcome::Published { cursor: (state.cursor + 1) as u64 },
        ),
{
    let g = state.current->0;
    let n = state.resources();
    let offer = Offer::Inline(descriptor);
    if state.tried(g, offer, n).1 is None {
        assert(state.pages.resources.contains_key(g));
        assert(state.resource_proper(g));
        lemma_blocked(state, g, descriptor, n);
        let records = state.pages.resources[g].records;
        let held = |i: int| records[i].generation() as u64;
        let all = set_int_range(0, n);
        let held_cursors = all.map(held);
        let oldest = state.oldest_protected();
        let as_cursor = |i: int| i as u64;
        let retained = set_int_range(oldest, state.cursor + 1).map(as_cursor);
        let claimed = claimed_cursors(state.pages.claims);
        assert forall|i: int| 0 <= i < n implies (#[trigger] records[i]).generation() != 0 && (
        records[i].generation() >= oldest || state.pages.claimed(
            records[i].generation() as u64,
        )) by {
            let k = if i >= state.next_slot {
                i - state.next_slot
            } else {
                i - state.next_slot + n
            };
            let sum = state.next_slot + k;
            assert(sum % n == i) by (nonlinear_arith)
                requires
                    sum == i || sum == i + n,
                    0 <= i < n,
            ;
        }
        lemma_int_range(0, n);
        assert(vstd::relations::injective_on(held, all)) by {
            assert forall|i: int, j: int|
                all.contains(i) && all.contains(j) && held(i) == held(j) implies i == j by {
                assert(records[i].generation() <= state.cursor);
                assert(records[j].generation() <= state.cursor);
                if i < j {
                    assert(records[i].generation() != records[j].generation());
                } else if j < i {
                    assert(records[j].generation() != records[i].generation());
                }
            }
        }
        lemma_map_size(all, held_cursors, held);
        assert(oldest <= state.cursor + 1);
        lemma_int_range(oldest, state.cursor + 1);
        lemma_map_size_bound(set_int_range(oldest, state.cursor + 1), retained, as_cursor);
        let frames = frames_of(state.accounts.reservations);
        assert(state.pages.claims.dom() =~= frames.dom());
        assert forall|id: u64| #[trigger] state.pages.claims.contains_key(
            id,
        ) implies state.pages.claims[id].slots.len() == frames[id] by {
            assert(state.claim_proper(id));
        }
        lemma_claimed_cursors(state.pages.claims, frames);
        lemma_len_union(retained, claimed);
        assert(held_cursors.subset_of(retained.union(claimed))) by {
            assert forall|c: u64| held_cursors.contains(c) implies retained.union(
                claimed,
            ).contains(c) by {
                let i = choose|i: int| all.contains(i) && held(i) == c;
                assert(records[i].generation() <= state.cursor);
                if records[i].generation() >= oldest {
                    assert(set_int_range(oldest, state.cursor + 1).contains(
                        records[i].generation(),
                    ));
                    assert(retained.contains(as_cursor(records[i].generation())));
                } else {
                    assert(state.pages.claimed(c));
                }
            }
        }
        lemma_len_subset(held_cursors, retained.union(claimed));
        assert(n <= state.history() + state.accounts.reserved_frames());
        assert(false);
    }
    lemma_tried(state, g, offer, n);
}

} // verus!
