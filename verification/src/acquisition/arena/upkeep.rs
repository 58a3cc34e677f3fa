//! What observation and publication keep of the shared pages.

use super::claims::ClaimPage;
use super::cleanup::{observes, Observation, TimelineAnswer};
use super::pages::Pages;
use super::state::{acquirable, record_proper, Offer, ProducerState};
use super::{state_word, FrameDescriptor, MAX_GENERATION};
use vstd::prelude::*;

verus! {

/// Two states of one page: the same owner, and the same number of slots.
pub open spec fn same_page(before: ClaimPage, after: ClaimPage, frames: nat) -> bool {
    &&& after.incarnation == before.incarnation
    &&& after.scope == before.scope
    &&& after.recipient_pid == before.recipient_pid
    &&& after.shaped(frames)
}

/// One look at a slot keeps the page's owner and shape.
pub proof fn lemma_looked_keeps<T>(
    observation: Observation<T>,
    page: ClaimPage,
    slot: int,
    answer: TimelineAnswer,
    frames: nat,
)
    requires
        page.shaped(frames),
        observes(observation, frames),
        0 <= slot < frames,
    ensures
        same_page(page, observation.looked(page, slot, answer).1, frames),
        observes(observation.looked(page, slot, answer).0, frames),
{
}

/// A look at the first slots keeps the page's owner and shape.
pub proof fn lemma_looked_at_keeps<T>(
    observation: Observation<T>,
    page: ClaimPage,
    answers: Seq<TimelineAnswer>,
    frames: nat,
)
    requires
        page.shaped(frames),
        observes(observation, frames),
        answers.len() <= frames,
    ensures
        same_page(page, observation.looked_at(page, answers).1, frames),
        observes(observation.looked_at(page, answers).0, frames),
    decreases answers.len(),
{
    if answers.len() > 0 {
        lemma_looked_at_keeps(observation, page, answers.drop_last(), frames);
        let before = observation.looked_at(page, answers.drop_last());
        if !before.2 {
            lemma_looked_keeps(before.0, before.1, answers.len() - 1, answers.last(), frames);
        }
    }
}

/// A whole look keeps the page's owner and shape.
pub proof fn lemma_polled_keeps<T>(
    observation: Observation<T>,
    page: ClaimPage,
    now: u128,
    answers: Seq<TimelineAnswer>,
    frames: nat,
)
    requires
        page.shaped(frames),
        observes(observation, frames),
        answers.len() <= frames,
    ensures
        same_page(page, observation.polled(page, now, answers).1, frames),
        observes(observation.polled(page, now, answers).0, frames),
{
    let timed = observation.saw_time(page, now);
    lemma_looked_at_keeps(timed.0, timed.1, answers, frames);
}

/// The new frame's ring position is not that of a retained one.
pub proof fn lemma_positions_differ(a: int, b: int, history: int)
    requires
        history > 0,
        0 < b - a < history,
    ensures
        a % history != b % history,
{
    if a % history == b % history {
        vstd::arithmetic::div_mod::lemma_fundamental_div_mod(a, history);
        vstd::arithmetic::div_mod::lemma_fundamental_div_mod(b, history);
        let q = b / history - a / history;
        assert(b - a == history * q) by (nonlinear_arith)
            requires
                a == history * (a / history) + a % history,
                b == history * (b / history) + b % history,
                a % history == b % history,
                q == b / history - a / history,
        ;
        assert(false) by (nonlinear_arith)
            requires
                b - a == history * q,
                0 < b - a < history,
                history > 0,
        ;
    }
}

/// The search only withdraws resources that hold nothing retained, and finds one that holds
/// nothing retained and nothing claimed.
pub proof fn lemma_tried<T>(state: ProducerState<T>, generation: u64, offer: Offer, count: int)
    requires
        state.inv(),
        state.current == Some(generation),
        0 <= count <= state.resources(),
    ensures
        ({
            let start = state.pages.resources[generation];
            let (page, found) = state.tried(generation, offer, count);
            &&& page.layout == start.layout
            &&& page.generation == start.generation
            &&& page.scope == start.scope
            &&& page.records.len() == start.records.len()
            &&& forall|i: int|
                0 <= i < page.records.len() ==> {
                    ||| (#[trigger] page.records[i]) == start.records[i]
                    ||| page.records[i] == start.records[i].retired() && (
                    start.records[i].generation() == 0 || start.records[i].generation()
                        < state.oldest_protected())
                }
            &&& found matches Some(index) ==> {
                &&& 0 <= index < page.records.len()
                &&& page.records[index] == start.records[index].retired()
                &&& start.records[index].generation() == 0 || (start.records[index].generation()
                    < state.oldest_protected() && !state.pages.claimed(
                    start.records[index].generation() as u64,
                ))
                &&& offer.ends_at(index)
            }
        }),
    decreases count,
{
    assert(state.pages.resources.contains_key(generation));
    assert(state.resource_proper(generation));
    if count > 0 {
        lemma_tried(state, generation, offer, count - 1);
        let start = state.pages.resources[generation];
        let (page, found) = state.tried(generation, offer, count - 1);
        if found is None {
            let n = state.resources();
            let index = (state.next_slot + count - 1) % n;
            vstd::arithmetic::div_mod::lemma_mod_bound(state.next_slot + count - 1, n);
            assert(0 <= index < n);
            assert(page.records[index] == start.records[index] || page.records[index]
                == start.records[index].retired());
            assert(page.records[index].generation() == start.records[index].generation());
            assert(page.records[index].retired() == start.records[index].retired());
        }
    }
}

/// The pages after a frame was published keep what every producer state keeps.
pub proof fn lemma_advertised<T>(
    state: ProducerState<T>,
    generation: u64,
    offer: Offer,
    descriptor: FrameDescriptor,
    bytes: Seq<u8>,
    index: int,
)
    requires
        state.inv(),
        state.current == Some(generation),
        state.cursor < MAX_GENERATION,
        bytes.len() <= state.pages.resources[generation].layout.payload_capacity,
        state.tried(generation, offer, state.resources()).1 == Some(index),
    ensures
        state.advertised(
            generation,
            state.tried(generation, offer, state.resources()).0,
            index,
            descriptor,
            bytes,
        ).inv(),
{
    lemma_tried(state, generation, offer, state.resources());
    assert(state.pages.resources.contains_key(generation));
    assert(state.resource_proper(generation));
    let start = state.pages.resources[generation];
    let page = state.tried(generation, offer, state.resources()).0;
    let after = state.advertised(generation, page, index, descriptor, bytes);
    let cursor = (state.cursor + 1) as u64;
    let full = after.pages.resources[generation];
    let h = state.history();
    vstd::arithmetic::div_mod::lemma_mod_bound(state.cursor as int, h);
    vstd::arithmetic::div_mod::lemma_mod_bound(index + 1, state.resources());
    assert(full.records[index].state == state_word(cursor, true));
    assert(full.layout.spec_payload_offset(index) + full.layout.payload_capacity
        <= full.layout.len) by {
        let c = full.layout.payload_capacity as int;
        let n = full.layout.resources as int;
        assert(index * c + c <= n * c) by (nonlinear_arith)
            requires
                index + 1 <= n,
                c >= 0,
        ;
    }
    assert(full.layout.spec_payload_offset(index) >= 0) by {
        let c = full.layout.payload_capacity as int;
        assert(index * c >= 0) by (nonlinear_arith)
            requires
                index >= 0,
                c >= 0,
        ;
    }
    assert forall|g: u64| #[trigger] after.pages.resources.contains_key(g) implies after.resource_proper(
        g,
    ) by {
        assert(state.pages.resources.contains_key(g));
        assert(state.resource_proper(g));
        let old_page = state.pages.resources[g];
        let new_page = after.pages.resources[g];
        assert forall|i: int| 0 <= i < new_page.records.len() implies (
        #[trigger] new_page.records[i]).generation() <= after.cursor && record_proper(
            new_page,
            i,
        ) by {
            assert(old_page.records[i].generation() <= state.cursor && record_proper(old_page, i));
            if g == generation && i != index {
                assert(new_page.records[i] == page.records[i]);
                assert(page.records[i] == start.records[i] || page.records[i]
                    == start.records[i].retired());
            }
        }
    }
    assert(after.pages.claims.dom() =~= state.pages.claims.dom());
    assert forall|id: u64| #[trigger] after.pages.claims.contains_key(id) implies after.claim_proper(
        id,
    ) by {
        assert(state.pages.claims.contains_key(id));
        assert(state.claim_proper(id));
    }
    assert(after.pages.resources.dom() =~= state.pages.resources.dom());
    assert(after.retention(generation)) by {
        assert forall|c: u64| #[trigger] after.retains(c) implies acquirable(
            after.pages.control,
            full,
            c,
        ) by {
            if c != cursor {
                assert(state.retains(c));
                assert(acquirable(state.pages.control, start, c));
                lemma_positions_differ(c - 1, cursor - 1, h);
                let at = state.pages.control.ring[state.pages.control.position(c)] - 1;
                assert(start.records[at].generation() == c);
                assert(at != index);
                assert(page.records[at] == start.records[at]);
            }
        }
        assert forall|i: int, j: int|
            0 <= i < j < full.records.len() && (#[trigger] full.records[i]).generation()
                != 0 implies full.records[i].generation() != (
        #[trigger] full.records[j]).generation() by {
            assert(page.records[i].generation() == start.records[i].generation());
            assert(page.records[j].generation() == start.records[j].generation());
            assert(start.records[i].generation() <= state.cursor);
            assert(start.records[j].generation() <= state.cursor);
        }
    }
}

/// The pages after a search that found nothing keep what every producer state keeps.
pub proof fn lemma_dropped<T>(state: ProducerState<T>, generation: u64, offer: Offer)
    requires
        state.inv(),
        state.current == Some(generation),
    ensures
        (ProducerState {
            pages: Pages {
                resources: state.pages.resources.insert(
                    generation,
                    state.tried(generation, offer, state.resources()).0,
                ),
                ..state.pages
            },
            ..state
        }).inv(),
{
    lemma_tried(state, generation, offer, state.resources());
    assert(state.pages.resources.contains_key(generation));
    assert(state.resource_proper(generation));
    let start = state.pages.resources[generation];
    let page = state.tried(generation, offer, state.resources()).0;
    let after = ProducerState {
        pages: Pages {
            resources: state.pages.resources.insert(generation, page),
            ..state.pages
        },
        ..state
    };
    assert(after.pages.resources.dom() =~= state.pages.resources.dom());
    assert forall|g: u64| #[trigger] after.pages.resources.contains_key(g) implies after.resource_proper(
        g,
    ) by {
        assert(state.pages.resources.contains_key(g));
        assert(state.resource_proper(g));
        let old_page = state.pages.resources[g];
        let new_page = after.pages.resources[g];
        assert forall|i: int| 0 <= i < new_page.records.len() implies (
        #[trigger] new_page.records[i]).generation() <= after.cursor && record_proper(
            new_page,
            i,
        ) by {
            assert(old_page.records[i].generation() <= state.cursor && record_proper(old_page, i));
            if g == generation {
                assert(page.records[i] == start.records[i] || page.records[i]
                    == start.records[i].retired());
            }
        }
    }
    assert forall|id: u64| #[trigger] after.pages.claims.contains_key(id) implies after.claim_proper(
        id,
    ) by {
        assert(state.claim_proper(id));
    }
    assert(after.retention(generation)) by {
        assert forall|c: u64| #[trigger] after.retains(c) implies acquirable(
            after.pages.control,
            page,
            c,
        ) by {
            assert(state.retains(c));
            assert(acquirable(state.pages.control, start, c));
            let at = state.pages.control.ring[state.pages.control.position(c)] - 1;
            assert(start.records[at].generation() == c);
            assert(page.records[at] == start.records[at]);
        }
        assert forall|i: int, j: int|
            0 <= i < j < page.records.len() && (#[trigger] page.records[i]).generation()
                != 0 implies page.records[i].generation() != (
        #[trigger] page.records[j]).generation() by {
            assert(page.records[i].generation() == start.records[i].generation());
            assert(page.records[j].generation() == start.records[j].generation());
        }
    }
}

} // verus!
