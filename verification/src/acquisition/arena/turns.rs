//! What the producer's turns between the steps of an acquisition leave of it.

use super::claims::{first_free, lemma_first_free, ClaimPage};
use super::cleanup::{Observation, ReleaseTimeline, TimelineAnswer};
use super::holding::{Acquisition, ConsumerState};
use super::laws::{publication_leaves_claimed_frames_alone, ready, retained_frames_can_be_acquired};
use super::pages::Pages;
use super::producer::collection::{lemma_observed, lemma_reclaimed};
use super::producer::{lemma_pages_kept, lemma_stopped};
use super::state::{acquirable, record_proper, Offer, ProducerState};
use super::upkeep::{lemma_advertised, lemma_dropped, lemma_tried};
use super::{state_word, ArenaError, FrameDescriptor, PublishOutcome, MAX_GENERATION};
use crate::acquisition::{claims_of, frames_of};
use crate::totals::lemma_total_part;
use vstd::prelude::*;

verus! {

/// Forgetting incarnations keeps what every producer state keeps.
pub proof fn lemma_collected<T>(state: ProducerState<T>)
    requires
        state.inv(),
    ensures
        state.collected().inv(),
{
    let after = state.collected();
    let was = state.accounts.reservations;
    let is = after.accounts.reservations;
    assert(is.dom().subset_of(was.dom()));
    vstd::set_lib::lemma_len_subset(is.dom(), was.dom());
    assert(frames_of(is).dom() =~= is.dom());
    assert(frames_of(was).dom() =~= was.dom());
    assert(claims_of(is).dom() =~= is.dom());
    assert(claims_of(was).dom() =~= was.dom());
    lemma_total_part(frames_of(was), frames_of(is));
    lemma_total_part(claims_of(was), claims_of(is));
    assert(after.pages.claims.dom() =~= is.dom());
    assert(after.cleanup.dom() =~= is.dom());
    assert forall|id: u64| #[trigger] after.pages.claims.contains_key(id) implies after.claim_proper(
        id,
    ) by {
        assert(state.pages.claims.contains_key(id));
        assert(state.claim_proper(id));
    }
    assert forall|g: u64| #[trigger] after.pages.resources.contains_key(g) implies after.resource_proper(
        g,
    ) by {
        assert(state.resource_proper(g));
    }
    if state.current is Some {
        assert forall|c: u64| #[trigger] after.retains(c) implies acquirable(
            after.pages.control,
            after.pages.resources[state.current->0],
            c,
        ) by {
            assert(state.retains(c));
        }
    }
}

/// A round of cleanup keeps what every producer state keeps.
pub proof fn lemma_cleaned<T: ReleaseTimeline>(
    state: ProducerState<T>,
    now: u128,
    answers: Map<u64, Seq<TimelineAnswer>>,
)
    requires
        state.inv(),
        state.complete_look(now, answers),
    ensures
        state.cleaned(now, answers).inv(),
{
    lemma_observed(state, now, answers);
    lemma_collected(state.observed(now, answers));
    let before = state.observed(now, answers).collected();
    let after = before.reclaimed();
    assert(after.accounts.allocations.dom().subset_of(before.accounts.allocations.dom()));
    lemma_total_part(before.accounts.allocations, after.accounts.allocations);
    if before.current is Some && before.disposable(before.current->0) {
        let m = choose|m: int|
            0 <= m < before.retired.len() && (#[trigger] before.retired[m]).id.0
                == before.current->0 && !before.retained(before.retired[m]);
        assert(before.current != Some(before.retired[m].id.0));
    }
    lemma_reclaimed(before);
}

/// Publication keeps what every producer state keeps.
pub proof fn lemma_published<T>(state: ProducerState<T>, offer: Offer, bytes: Seq<u8>)
    requires
        state.inv(),
    ensures
        state.published(offer, bytes).0.inv(),
{
    if state.current is Some {
        let generation = state.current->0;
        lemma_stopped(state);
        lemma_dropped(state, generation, offer);
        let found = state.tried(generation, offer, state.resources()).1;
        if found is Some && state.cursor < MAX_GENERATION && bytes.len()
            <= state.pages.resources[generation].layout.payload_capacity {
            if let Ok(Some(descriptor)) = offer.at(found->0) {
                lemma_advertised(state, generation, offer, descriptor, bytes, found->0);
            }
        }
    }
}

/// One turn of the producer: a round of cleanup with the answers of the timelines, and a frame
/// that is offered.
pub struct Turn {
    pub now: u128,
    pub answers: Map<u64, Seq<TimelineAnswer>>,
    pub offer: Offer,
    pub bytes: Seq<u8>,
}

impl<T: ReleaseTimeline> ProducerState<T> {
    /// The state after a turn; a closed arena takes none.
    pub open spec fn turned(self, turn: Turn) -> ProducerState<T> {
        if self.pages.control.terminal != 0 {
            self
        } else {
            self.cleaned(turn.now, turn.answers).published(turn.offer, turn.bytes).0
        }
    }

    /// Whether a turn can be taken: its answers make a whole look.
    pub open spec fn may_turn(self, turn: Turn) -> bool {
        self.pages.control.terminal != 0 || self.complete_look(turn.now, turn.answers)
    }

    /// The state after some turns.
    pub open spec fn turned_all(self, turns: Seq<Turn>) -> ProducerState<T>
        decreases turns.len(),
    {
        if turns.len() == 0 {
            self
        } else {
            self.turned_all(turns.drop_last()).turned(turns.last())
        }
    }

    /// Whether these turns can be taken one after another.
    pub open spec fn may_turn_all(self, turns: Seq<Turn>) -> bool
        decreases turns.len(),
    {
        turns.len() > 0 ==> {
            &&& self.may_turn_all(turns.drop_last())
            &&& self.turned_all(turns.drop_last()).may_turn(turns.last())
        }
    }
}

impl<T> ProducerState<T> {
    /// Whether a slot claims a cursor, and its use has not been handed over.
    pub open spec fn claims_in(self, id: u64, slot: int, cursor: u64) -> bool {
        &&& cursor != 0
        &&& self.pages.claims.contains_key(id)
        &&& 0 <= slot < self.pages.claims[id].slots.len()
        &&& self.pages.claims[id].slots[slot] == cursor
        &&& self.pages.claims[id].pending[slot] == 0
    }

    /// The state in which a consumer has claimed a cursor in a slot.
    pub open spec fn with_claim(self, id: u64, slot: int, cursor: u64) -> ProducerState<T> {
        ProducerState {
            pages: self.pages.with_claims(id, self.pages.claims[id].taken(slot, cursor)),
            ..self
        }
    }

    /// Whether the arena went on from the state `before`, with the same storage: each resource
    /// is as it was, or was withdrawn, or holds a frame that was published later.
    pub open spec fn went_on(self, before: ProducerState<T>) -> bool {
        &&& self.inv()
        &&& self.current == before.current
        &&& self.cursor >= before.cursor
        &&& self.pages.control.first_cursor == before.pages.control.first_cursor
        &&& self.accounts.limits == before.accounts.limits
        &&& before.current matches Some(g) ==> {
            &&& self.pages.resources[g].layout == before.pages.resources[g].layout
            &&& forall|i: int|
                0 <= i < before.resources() ==> (#[trigger] self.pages.resources[g].records[i]
                    == before.pages.resources[g].records[i] || self.pages.resources[g].records[i]
                    == before.pages.resources[g].records[i].retired()
                    || self.pages.resources[g].records[i].generation() > before.cursor)
        }
    }
}

/// Publishing a frame with its bytes is a turn.
pub proof fn publishing_is_a_turn<T: ReleaseTimeline>(
    state: ProducerState<T>,
    after: ProducerState<T>,
    now: u128,
    descriptor: FrameDescriptor,
    bytes: Seq<u8>,
    result: Result<PublishOutcome, ArenaError>,
)
    requires
        state.publishes_inline(after, now, descriptor, bytes, result),
    ensures
        exists|turn: Turn| state.may_turn(turn) && #[trigger] state.turned(turn) == after,
{
    let offer = Offer::Inline(descriptor);
    let answers = choose|answers: Map<u64, Seq<TimelineAnswer>>|
        {
            &&& state.complete_look(now, answers)
            &&& (after, result) == (#[trigger] state.cleaned(now, answers)).published(offer, bytes)
        };
    let turn = Turn { now, answers, offer, bytes };
    assert(state.may_turn(turn) && state.turned(turn) == after);
}

/// Publishing in a resource that is prepared is a turn.
pub proof fn publishing_a_resource_is_a_turn<
    T: ReleaseTimeline,
    F: Fn(u32, u64) -> Result<Option<FrameDescriptor>, ArenaError>,
>(
    state: ProducerState<T>,
    after: ProducerState<T>,
    now: u128,
    prepare: F,
    bytes: Seq<u8>,
    result: Result<PublishOutcome, ArenaError>,
)
    requires
        state.publishes_prepared(after, now, prepare, bytes, result),
    ensures
        exists|turn: Turn| state.may_turn(turn) && #[trigger] state.turned(turn) == after,
{
    let (answers, frames) = choose|
        answers: Map<u64, Seq<TimelineAnswer>>,
        frames: Seq<Result<Option<FrameDescriptor>, ArenaError>>,
    |
        {
            &&& state.complete_look(now, answers)
            &&& state.cleaned(now, answers).prepared_by(prepare, bytes, frames)
            &&& (after, result) == #[trigger] state.cleaned(now, answers).published(
                Offer::Each(frames),
                bytes,
            )
        };
    let turn = Turn { now, answers, offer: Offer::Each(frames), bytes };
    assert(state.may_turn(turn) && state.turned(turn) == after);
}

/// A look leaves a slot alone whose use was not handed over.
proof fn lemma_look_leaves_claims<T>(
    observation: Observation<T>,
    page: ClaimPage,
    answers: Seq<TimelineAnswer>,
    slot: int,
)
    requires
        0 <= slot < page.slots.len(),
        page.pending.len() == page.slots.len(),
        page.pending[slot] == 0,
        answers.len() <= page.slots.len(),
    ensures
        ({
            let left = observation.looked_at(page, answers).1;
            &&& left.slots.len() == page.slots.len()
            &&& left.pending.len() == page.slots.len()
            &&& left.slots[slot] == page.slots[slot]
            &&& left.pending[slot] == 0
        }),
    decreases answers.len(),
{
    if answers.len() > 0 {
        lemma_look_leaves_claims(observation, page, answers.drop_last(), slot);
    }
}

/// A round of cleanup keeps the current storage, and the claims whose use was not handed over.
pub proof fn lemma_cleanup_leaves_claims<T: ReleaseTimeline>(
    state: ProducerState<T>,
    now: u128,
    answers: Map<u64, Seq<TimelineAnswer>>,
)
    requires
        state.inv(),
        state.complete_look(now, answers),
    ensures
        state.cleaned(now, answers).went_on(state),
        state.cleaned(now, answers).cursor == state.cursor,
        state.cleaned(now, answers).pages.control == state.pages.control,
        state.current matches Some(g) ==> state.cleaned(now, answers).pages.resources[g]
            == state.pages.resources[g],
        forall|id: u64, slot: int, cursor: u64| #[trigger]
            state.claims_in(id, slot, cursor) ==> state.cleaned(now, answers).claims_in(
                id,
                slot,
                cursor,
            ),
{
    lemma_cleaned(state, now, answers);
    let after = state.cleaned(now, answers);
    if state.current is Some {
        let g = state.current->0;
        assert(after.pages.resources.contains_key(g));
    }
    assert forall|id: u64, slot: int, cursor: u64| #[trigger]
        state.claims_in(id, slot, cursor) implies after.claims_in(id, slot, cursor) by {
        assert(state.claim_proper(id));
        let page = state.pages.claims[id];
        let timed = state.cleanup[id].saw_time(page, now);
        lemma_look_leaves_claims(timed.0, timed.1, answers[id], slot);
        let left = state.observed(now, answers).pages.claims[id];
        assert(left.slots[slot] == cursor);
        assert(left.claiming());
    }
}

/// A turn withdraws and reuses only what is neither retained nor claimed.
pub proof fn lemma_turned<T: ReleaseTimeline>(state: ProducerState<T>, turn: Turn)
    requires
        state.inv(),
        state.may_turn(turn),
    ensures
        state.turned(turn).went_on(state),
        forall|id: u64, slot: int, cursor: u64| #[trigger]
            state.claims_in(id, slot, cursor) ==> state.turned(turn).claims_in(id, slot, cursor),
{
    if state.pages.control.terminal == 0 {
        let cleaned = state.cleaned(turn.now, turn.answers);
        lemma_cleanup_leaves_claims(state, turn.now, turn.answers);
        lemma_published(cleaned, turn.offer, turn.bytes);
        let after = state.turned(turn);
        assert forall|id: u64, slot: int, cursor: u64| #[trigger]
            state.claims_in(id, slot, cursor) implies after.claims_in(id, slot, cursor) by {
            assert(cleaned.claims_in(id, slot, cursor));
        }
        if state.current is Some {
            let g = state.current->0;
            assert(cleaned.pages.resources.contains_key(g));
            assert(cleaned.resource_proper(g));
            lemma_tried(cleaned, g, turn.offer, cleaned.resources());
            let (page, found) = cleaned.tried(g, turn.offer, cleaned.resources());
            assert forall|i: int| 0 <= i < state.resources() implies (
            #[trigger] after.pages.resources[g].records[i] == state.pages.resources[g].records[i]
                || after.pages.resources[g].records[i]
                == state.pages.resources[g].records[i].retired()
                || after.pages.resources[g].records[i].generation() > state.cursor) by {
                assert(page.records[i] == cleaned.pages.resources[g].records[i] || page.records[i]
                    == cleaned.pages.resources[g].records[i].retired());
                if found == Some(i) {
                    assert(state_word((cleaned.cursor + 1) as u64, true) as int / 2
                        == cleaned.cursor + 1 || cleaned.cursor == MAX_GENERATION);
                }
            }
        }
    }
}

/// Turns withdraw and reuse only what is neither retained nor claimed.
pub proof fn lemma_turned_all<T: ReleaseTimeline>(state: ProducerState<T>, turns: Seq<Turn>)
    requires
        state.inv(),
        state.may_turn_all(turns),
    ensures
        state.turned_all(turns).went_on(state),
        forall|id: u64, slot: int, cursor: u64| #[trigger]
            state.claims_in(id, slot, cursor) ==> state.turned_all(turns).claims_in(
                id,
                slot,
                cursor,
            ),
    decreases turns.len(),
{
    if turns.len() > 0 {
        let before = state.turned_all(turns.drop_last());
        let after = state.turned_all(turns);
        lemma_turned_all(state, turns.drop_last());
        lemma_turned(before, turns.last());
        assert forall|id: u64, slot: int, cursor: u64| #[trigger]
            state.claims_in(id, slot, cursor) implies after.claims_in(id, slot, cursor) by {
            assert(before.claims_in(id, slot, cursor));
        }
        if state.current is Some {
            let g = state.current->0;
            assert forall|i: int| 0 <= i < state.resources() implies (
            #[trigger] after.pages.resources[g].records[i] == state.pages.resources[g].records[i]
                || after.pages.resources[g].records[i]
                == state.pages.resources[g].records[i].retired()
                || after.pages.resources[g].records[i].generation() > state.cursor) by {
                assert(before.pages.resources[g].records[i]
                    == state.pages.resources[g].records[i]
                    || before.pages.resources[g].records[i]
                    == state.pages.resources[g].records[i].retired()
                    || before.pages.resources[g].records[i].generation() > state.cursor);
                assert(after.pages.resources[g].records[i]
                    == before.pages.resources[g].records[i]
                    || after.pages.resources[g].records[i]
                    == before.pages.resources[g].records[i].retired()
                    || after.pages.resources[g].records[i].generation() > before.cursor);
            }
        }
    }
}

impl<T> ProducerState<T> {
    /// How many resources the search tries before it comes to this one.
    pub open spec fn ahead_of(self, index: int) -> int {
        if index >= self.next_slot {
            index - self.next_slot
        } else {
            index + self.resources() - self.next_slot
        }
    }

    /// Whether a resource of the current generation can be acquired under a cursor.
    pub open spec fn offers_at(self, index: int, cursor: u64) -> bool {
        self.pages.resources[self.current->0].records[index].state == state_word(cursor, true)
    }

    /// The number of published frames from which on nothing protects a cursor, seen from a state.
    pub open spec fn unprotected_from(self, cursor: u64) -> int {
        if self.cursor > cursor + self.history() {
            self.cursor as int
        } else {
            cursor + self.history()
        }
    }

    /// Whether a resource is not acquired under a cursor any more, or the search is so close to
    /// it that it comes to it before a whole round of frames after `from` is published.
    spec fn closes_in(self, index: int, cursor: u64, from: int) -> bool {
        ||| !self.offers_at(index, cursor)
        ||| self.cursor - from + self.ahead_of(index) < self.resources()
    }
}

/// Where a search stands after that many resources.
proof fn lemma_candidate<T>(state: ProducerState<T>, offset: int)
    requires
        state.next_slot < state.resources(),
        0 <= offset < state.resources(),
    ensures
        state.candidate(offset) == (if state.next_slot + offset < state.resources() {
            state.next_slot + offset
        } else {
            state.next_slot + offset - state.resources()
        }),
{
    let n = state.resources();
    let at = state.next_slot + offset;
    if at < n {
        vstd::arithmetic::div_mod::lemma_small_mod(at as nat, n as nat);
    } else {
        vstd::arithmetic::div_mod::lemma_mod_sub_multiples_vanish(at, n);
        vstd::arithmetic::div_mod::lemma_small_mod((at - n) as nat, n as nat);
    }
}

/// A resource that the search comes to while nothing protects what it holds is withdrawn,
/// whether it is claimed or not.
proof fn lemma_tried_withdraws<T>(
    state: ProducerState<T>,
    generation: u64,
    offer: Offer,
    offset: int,
    count: int,
)
    requires
        state.inv(),
        state.current == Some(generation),
        0 <= offset < count <= state.resources(),
        state.tried(generation, offer, offset).1 is None,
        state.pages.resources[generation].records[state.candidate(offset)].generation()
            < state.oldest_protected(),
    ensures
        !state.tried(generation, offer, count).0.records[state.candidate(offset)].valid(),
    decreases count,
{
    lemma_tried(state, generation, offer, count - 1);
    assert(state.pages.resources.contains_key(generation));
    assert(state.resource_proper(generation));
    lemma_candidate(state, offset);
    lemma_candidate(state, count - 1);
    if count - 1 > offset {
        lemma_tried_withdraws(state, generation, offer, offset, count - 1);
    }
}

/// What a search finds it comes to at some offset, before which it found nothing.
proof fn lemma_found_at<T>(state: ProducerState<T>, generation: u64, offer: Offer, count: int) -> (
    offset: int)
    requires
        state.tried(generation, offer, count).1 is Some,
    ensures
        0 <= offset < count,
        state.tried(generation, offer, count).1 == Some(state.candidate(offset)),
        forall|j: int| 0 <= j <= offset ==> (#[trigger] state.tried(generation, offer, j)).1 is None,
    decreases count,
{
    if state.tried(generation, offer, count - 1).1 is Some {
        lemma_found_at(state, generation, offer, count - 1)
    } else {
        lemma_found_nothing(state, generation, offer, count - 1);
        count - 1
    }
}

/// A search that has found nothing had found nothing before.
proof fn lemma_found_nothing<T>(state: ProducerState<T>, generation: u64, offer: Offer, count: int)
    requires
        state.tried(generation, offer, count).1 is None,
    ensures
        forall|j: int| 0 <= j <= count ==> (#[trigger] state.tried(generation, offer, j)).1 is None,
    decreases count,
{
    if count > 0 {
        lemma_found_nothing(state, generation, offer, count - 1);
    }
}

/// Publication brings the search closer to a resource that nothing protects, or withdraws it.
proof fn lemma_published_closes_in<T>(
    state: ProducerState<T>,
    offer: Offer,
    bytes: Seq<u8>,
    index: int,
    cursor: u64,
    from: int,
)
    requires
        state.inv(),
        state.current is Some,
        0 <= index < state.resources(),
        1 <= cursor <= state.cursor,
        from >= cursor + state.history(),
        state.closes_in(index, cursor, from),
    ensures
        state.published(offer, bytes).0.closes_in(index, cursor, from),
{
    let g = state.current->0;
    let n = state.resources();
    let after = state.published(offer, bytes).0;
    assert(state.pages.resources.contains_key(g));
    assert(state.resource_proper(g));
    let (page, found) = state.tried(g, offer, n);
    lemma_tried(state, g, offer, n);
    let was = state.pages.resources[g].records[index];
    assert(page.records[index] == was || page.records[index] == was.retired());
    if after.offers_at(index, cursor) {
        assert(state.cursor == MAX_GENERATION || state_word((state.cursor + 1) as u64, true) as int
            / 2 == state.cursor + 1);
        assert(was.state == state_word(cursor, true));
        if after.cursor != state.cursor {
            let offset = lemma_found_at(state, g, offer, n);
            lemma_candidate(state, offset);
            let ahead = state.ahead_of(index);
            lemma_candidate(state, ahead);
            assert(state.candidate(ahead) == index);
            let next = found->0 + 1;
            if next < n {
                vstd::arithmetic::div_mod::lemma_small_mod(next as nat, n as nat);
            } else {
                vstd::arithmetic::div_mod::lemma_mod_self_0(n);
            }
            if state.cursor >= from && ahead <= offset {
                assert(was.generation() == cursor);
                assert(state.tried(g, offer, ahead).1 is None);
                lemma_tried_withdraws(state, g, offer, ahead, n);
                assert(!page.records[index].valid());
                assert(false);
            }
        }
    }
}

/// Turns bring the search closer to a resource that nothing protects, or withdraw it.
proof fn lemma_turns_close_in<T: ReleaseTimeline>(
    state: ProducerState<T>,
    turns: Seq<Turn>,
    index: int,
    cursor: u64,
    from: int,
)
    requires
        state.inv(),
        state.may_turn_all(turns),
        state.current is Some,
        0 <= index < state.resources(),
        1 <= cursor <= state.cursor,
        from >= cursor + state.history(),
        state.closes_in(index, cursor, from),
    ensures
        state.turned_all(turns).closes_in(index, cursor, from),
    decreases turns.len(),
{
    if turns.len() > 0 {
        let before = state.turned_all(turns.drop_last());
        let turn = turns.last();
        lemma_turns_close_in(state, turns.drop_last(), index, cursor, from);
        lemma_turned_all(state, turns.drop_last());
        if before.pages.control.terminal == 0 {
            lemma_cleanup_leaves_claims(before, turn.now, turn.answers);
            let cleaned = before.cleaned(turn.now, turn.answers);
            assert(cleaned.closes_in(index, cursor, from));
            lemma_published_closes_in(cleaned, turn.offer, turn.bytes, index, cursor, from);
        }
    }
}

/// A claim keeps what every producer state keeps.
proof fn lemma_with_claim<T>(state: ProducerState<T>, id: u64, slot: int, cursor: u64)
    requires
        state.inv(),
        state.pages.claims.contains_key(id),
        0 <= slot < state.pages.claims[id].slots.len(),
    ensures
        state.with_claim(id, slot, cursor).inv(),
        state.with_claim(id, slot, cursor).went_on(state),
{
    let after = state.with_claim(id, slot, cursor);
    assert(after.pages.claims.dom() =~= state.pages.claims.dom());
    assert(state.claim_proper(id));
    assert forall|n: u64| #[trigger] after.pages.claims.contains_key(n) implies super::upkeep::same_page(
        state.pages.claims[n],
        after.pages.claims[n],
        state.accounts.reservations[n].frames as nat,
    ) by {
        assert(state.claim_proper(n));
    }
    lemma_pages_kept(state, after.pages);
}

/// An attempt to acquire a cursor is made of its steps: the resource is selected, a free slot
/// claims the cursor, and the resource is then found to hold the frame still, or not.
pub proof fn acquiring_is_its_steps<T>(consumer: ConsumerState<T>, pages: Pages, cursor: u64)
    requires
        consumer.installed is Some,
        ({
            let position = pages.control.ring[pages.control.position(cursor)];
            1 <= position <= (consumer.installed->0).layout.resources
        }),
        first_free(pages.claims[consumer.incarnation.0].slots) is Some,
        pages.claims[consumer.incarnation.0].slots.len() == consumer.frames(),
        consumer.frames() <= usize::MAX,
    ensures
        ({
            let id = consumer.incarnation.0;
            let index = (pages.control.ring[pages.control.position(cursor)] - 1) as usize;
            let slot = first_free(pages.claims[id].slots)->0;
            let record = pages.resources[(consumer.installed->0).generation].records[index as int];
            consumer.acquired(pages, cursor) == consumer.claimed_in(slot).concluded(
                pages.with_claims(id, pages.claims[id].taken(slot, cursor)),
                cursor,
                index,
                slot as usize,
                record.state == state_word(cursor, true),
            )
        }),
{
    let id = consumer.incarnation.0;
    let index = (pages.control.ring[pages.control.position(cursor)] - 1) as usize;
    lemma_first_free(pages.claims[id].slots);
    let slot = first_free(pages.claims[id].slots)->0;
    let claimed = pages.with_claims(id, pages.claims[id].taken(slot, cursor));
    let credited = claimed.claims[id].credited(slot);
    assert(claimed.with_claims(id, credited).claims =~= pages.with_claims(id, credited).claims);
    assert(consumer.claimed_in(slot).finding(claimed, cursor, index) == consumer.finding(
        pages,
        cursor,
        index,
    ));
}

/// Whether a consumer can try to acquire a cursor in a selected resource while the producer
/// takes these turns before it claims and these after.
pub open spec fn may_overtake<T: ReleaseTimeline, U>(
    state: ProducerState<T>,
    consumer: ConsumerState<U>,
    cursor: u64,
    index: usize,
    before_claim: Seq<Turn>,
    after_claim: Seq<Turn>,
) -> bool {
    let id = consumer.incarnation.0;
    let selected = state.turned_all(before_claim);
    let free = first_free(selected.pages.claims[id].slots);
    &&& state.inv()
    &&& 1 <= cursor <= state.cursor
    &&& state.current matches Some(g) && consumer.installed matches Some(mapping)
        && mapping.generation == g && mapping.layout == state.pages.resources[g].layout
    &&& index < state.resources()
    &&& state.may_turn_all(before_claim)
    &&& selected.pages.claims.contains_key(id)
    &&& free matches Some(slot) && {
        &&& selected.pages.claims[id].pending[slot] == 0
        &&& selected.with_claim(id, slot, cursor).may_turn_all(after_claim)
    }
}

/// The slot that the consumer claims after the first turns, and the state after the last.
pub open spec fn overtaken<T: ReleaseTimeline, U>(
    state: ProducerState<T>,
    consumer: ConsumerState<U>,
    cursor: u64,
    before_claim: Seq<Turn>,
    after_claim: Seq<Turn>,
) -> (int, ProducerState<T>) {
    let id = consumer.incarnation.0;
    let selected = state.turned_all(before_claim);
    let slot = first_free(selected.pages.claims[id].slots)->0;
    (slot, selected.with_claim(id, slot, cursor).turned_all(after_claim))
}

/// However many turns the producer takes between the selection of a resource, the claim and its
/// validation: either the resource is still what it was when it was selected, or it is found
/// not to hold the claimed frame any more. What is acquired is then the selected frame with its
/// bytes, and never what a later frame left in its resource; else the acquisition misses and
/// its credit is returned. It surely misses once the retained history is past the frame and then
/// as many frames were published as there are resources.
pub proof fn overtaken_acquisitions_miss<T: ReleaseTimeline, U>(
    state: ProducerState<T>,
    consumer: ConsumerState<U>,
    cursor: u64,
    index: usize,
    before_claim: Seq<Turn>,
    after_claim: Seq<Turn>,
)
    requires
        may_overtake(state, consumer, cursor, index, before_claim, after_claim),
    ensures
        ({
            let id = consumer.incarnation.0;
            let g = state.current->0;
            let (slot, now) = overtaken(state, consumer, cursor, before_claim, after_claim);
            let record = now.pages.resources[g].records[index as int];
            let valid = record.state == state_word(cursor, true);
            let holder = consumer.claimed_in(slot);
            let (left, pages, outcome) = holder.concluded(
                now.pages,
                cursor,
                index,
                slot as usize,
                valid,
            );
            &&& now.inv()
            &&& now.claims_in(id, slot, cursor)
            &&& valid ==> record == state.pages.resources[g].records[index as int]
            &&& now.cursor >= state.unprotected_from(cursor) + state.resources() ==> !valid
            &&& valid && !holder.shut(now.pages) ==> {
                &&& outcome matches Acquisition::Frame(lease) && {
                    &&& lease.descriptor == record.descriptor
                    &&& lease.descriptor.cursor == cursor
                    &&& lease.index == index
                    &&& lease.slot == slot
                }
                &&& pages == now.pages
            }
            &&& !valid ==> {
                &&& outcome == (Acquisition::Miss { cursor })
                &&& left == holder.gave_back(slot as usize)
                &&& pages == now.pages.with_claims(id, now.pages.claims[id].credited(slot))
            }
        }),
{
    let id = consumer.incarnation.0;
    let g = state.current->0;
    let selected = state.turned_all(before_claim);
    lemma_turned_all(state, before_claim);
    lemma_first_free(selected.pages.claims[id].slots);
    let slot = first_free(selected.pages.claims[id].slots)->0;
    lemma_with_claim(selected, id, slot, cursor);
    let from = state.unprotected_from(cursor);
    assert(state.closes_in(index as int, cursor, from));
    lemma_turns_close_in(state, before_claim, index as int, cursor, from);
    assert(selected.with_claim(id, slot, cursor).closes_in(index as int, cursor, from));
    lemma_turns_close_in(
        selected.with_claim(id, slot, cursor),
        after_claim,
        index as int,
        cursor,
        from,
    );
    let claimed = selected.with_claim(id, slot, cursor);
    assert(claimed.claims_in(id, slot, cursor));
    lemma_turned_all(claimed, after_claim);
    let now = claimed.turned_all(after_claim);
    let at = index as int;
    let first = state.pages.resources[g].records[at];
    let second = selected.pages.resources[g].records[at];
    let third = now.pages.resources[g].records[at];
    assert(second == first || second == first.retired() || second.generation() > state.cursor);
    assert(third == second || third == second.retired() || third.generation() > selected.cursor);
    assert(now.pages.resources.contains_key(g));
    assert(now.resource_proper(g));
    assert(record_proper(now.pages.resources[g], at));
    assert(now.claim_proper(id));
    assert(slot <= usize::MAX);
}

/// After a miss, the newest frame is there to be acquired, with the credit that came back.
pub proof fn missed_acquisitions_find_the_newest<T, U>(
    state: ProducerState<T>,
    consumer: ConsumerState<U>,
    cursor: u64,
    slot: int,
    after: u64,
)
    requires
        state.inv(),
        state.claims_in(consumer.incarnation.0, slot, cursor),
        state.pages.control.terminal == 0,
        state.pages.claims[consumer.incarnation.0].credited(slot).active != 0,
        state.current matches Some(g) && consumer.installed matches Some(mapping)
            && mapping.generation == g && mapping.layout == state.pages.resources[g].layout,
        state.retains(state.cursor),
        after < state.cursor,
    ensures
        ({
            let id = consumer.incarnation.0;
            let pages = state.pages.with_claims(id, state.pages.claims[id].credited(slot));
            let outcome = consumer.gave_back(slot as usize).acquired_latest(pages, after).2;
            outcome matches Acquisition::Frame(lease) && {
                let record = state.pages.resources[lease.mapping.generation].records[lease.index as int];
                &&& lease.descriptor == record.descriptor
                &&& lease.descriptor.cursor == state.cursor
                &&& record.generation() == state.cursor
            }
        }),
{
    let id = consumer.incarnation.0;
    let page = state.pages.claims[id].credited(slot);
    let pages = state.pages.with_claims(id, page);
    let freed = ProducerState { pages, ..state };
    assert(freed.pages.claims.dom() =~= state.pages.claims.dom());
    assert(state.claim_proper(id));
    assert forall|n: u64| #[trigger] pages.claims.contains_key(n) implies super::upkeep::same_page(
        state.pages.claims[n],
        pages.claims[n],
        state.accounts.reservations[n].frames as nat,
    ) by {
        assert(state.claim_proper(n));
    }
    lemma_pages_kept(state, pages);
    assert(page.slots[slot] == 0);
    lemma_first_free(page.slots);
    let holder = consumer.gave_back(slot as usize);
    assert(ready(freed, holder));
    assert(freed.retains(state.cursor));
    retained_frames_can_be_acquired(freed, holder, state.cursor);
}

/// A consumer that the producer has overtaken by a whole round of frames misses the selected
/// frame, and finds the newest one when it asks again, unless acquisition is over.
pub proof fn overtaken_consumers_find_the_newest<T: ReleaseTimeline, U>(
    state: ProducerState<T>,
    consumer: ConsumerState<U>,
    cursor: u64,
    index: usize,
    before_claim: Seq<Turn>,
    after_claim: Seq<Turn>,
    after: u64,
)
    requires
        may_overtake(state, consumer, cursor, index, before_claim, after_claim),
        ({
            let (slot, now) = overtaken(state, consumer, cursor, before_claim, after_claim);
            &&& now.cursor >= state.unprotected_from(cursor) + state.resources()
            &&& now.pages.control.terminal == 0
            &&& now.pages.claims[consumer.incarnation.0].credited(slot).active != 0
            &&& after < now.cursor
        }),
    ensures
        ({
            let (slot, now) = overtaken(state, consumer, cursor, before_claim, after_claim);
            let record = now.pages.resources[state.current->0].records[index as int];
            let (left, pages, outcome) = consumer.claimed_in(slot).concluded(
                now.pages,
                cursor,
                index,
                slot as usize,
                record.state == state_word(cursor, true),
            );
            &&& outcome == (Acquisition::Miss { cursor })
            &&& left.acquired_latest(pages, after).2 matches Acquisition::Frame(lease) && {
                let newest = now.pages.resources[lease.mapping.generation].records[lease.index as int];
                &&& lease.descriptor == newest.descriptor
                &&& lease.descriptor.cursor == now.cursor
                &&& newest.generation() == now.cursor
            }
        }),
{
    let (slot, now) = overtaken(state, consumer, cursor, before_claim, after_claim);
    let selected = state.turned_all(before_claim);
    overtaken_acquisitions_miss(state, consumer, cursor, index, before_claim, after_claim);
    lemma_turned_all(state, before_claim);
    lemma_first_free(selected.pages.claims[consumer.incarnation.0].slots);
    lemma_with_claim(selected, consumer.incarnation.0, slot, cursor);
    lemma_turned_all(selected.with_claim(consumer.incarnation.0, slot, cursor), after_claim);
    assert(now.retains(now.cursor));
    missed_acquisitions_find_the_newest(now, consumer.claimed_in(slot), cursor, slot, after);
}

/// Once it is validated, a frame keeps its descriptor and its bytes through any number of the
/// producer's turns, until its slot is given back.
pub proof fn acquired_frames_outlast_publication<T: ReleaseTimeline>(
    state: ProducerState<T>,
    id: u64,
    slot: int,
    index: int,
    turns: Seq<Turn>,
)
    requires
        state.inv(),
        state.current is Some,
        0 <= index < state.resources(),
        state.claims_in(
            id,
            slot,
            state.pages.resources[state.current->0].records[index].generation() as u64,
        ),
        state.may_turn_all(turns),
    ensures
        ({
            let g = state.current->0;
            let was = state.pages.resources[g].records[index];
            let is = state.turned_all(turns).pages.resources[g].records[index];
            &&& is.descriptor == was.descriptor
            &&& is.payload == was.payload
            &&& is.generation() == was.generation()
        }),
    decreases turns.len(),
{
    if turns.len() > 0 {
        let g = state.current->0;
        let before = state.turned_all(turns.drop_last());
        let turn = turns.last();
        acquired_frames_outlast_publication(state, id, slot, index, turns.drop_last());
        lemma_turned_all(state, turns.drop_last());
        let cursor = state.pages.resources[g].records[index].generation() as u64;
        assert(before.claims_in(id, slot, cursor));
        if before.pages.control.terminal == 0 {
            let cleaned = before.cleaned(turn.now, turn.answers);
            lemma_cleanup_leaves_claims(before, turn.now, turn.answers);
            assert(cleaned.claims_in(id, slot, cursor));
            assert(cleaned.pages.claims[id].holds(cursor));
            assert(cleaned.pages.claimed(cursor));
            assert(cleaned.pages.resources.contains_key(g));
            assert(cleaned.resource_proper(g));
            publication_leaves_claimed_frames_alone(cleaned, turn.offer, turn.bytes, g, index);
        }
    }
}

} // verus!
