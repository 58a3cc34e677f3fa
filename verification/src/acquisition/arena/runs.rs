//! The operations of producers and consumers are runs of the protocol's steps.

use super::claims::{first_free, lemma_first_free, ClaimPage};
use super::holding::{ConsumerState, LeaseTerms};
use super::pages::Pages;
use super::protocol::{
    lemma_reaches_itself, lemma_reaches_next, lemma_reaches_through, reaches, Lease, Publisher,
    Step, World,
};
use super::state::{stamped, Offer, ProducerState};
use super::upkeep::lemma_tried;
use super::{state_word, MAX_GENERATION};
use vstd::prelude::*;

verus! {

/// The words of every incarnation's claim slots.
pub open spec fn claim_words(claims: Map<u64, ClaimPage>) -> Map<u64, Seq<u64>> {
    claims.map_values(|page: ClaimPage| page.slots)
}

/// The pages of a resource generation between two publications, with these leases.
pub open spec fn world_of(pages: Pages, generation: u64, leases: Map<(u64, int), Lease>) -> World {
    World {
        resources: pages.resources[generation],
        claims: claim_words(pages.claims),
        publisher: Publisher::Idle,
        leases,
    }
}

/// A consumer's claim is one step.
pub proof fn claiming_is_a_step<T>(
    consumer: ConsumerState<T>,
    pages: Pages,
    leases: Map<(u64, int), Lease>,
    generation: u64,
    cursor: u64,
    index: int,
)
    requires
        pages.claims.contains_key(consumer.incarnation.0),
        first_free(pages.claims[consumer.incarnation.0].slots) is Some,
        cursor != 0,
        0 <= index < pages.resources[generation].records.len(),
    ensures
        ({
            let incarnation = consumer.incarnation.0;
            let slot = first_free(pages.claims[incarnation].slots)->0;
            let after = pages.with_claims(
                incarnation,
                pages.claims[incarnation].taken(slot, cursor),
            );
            world_of(pages, generation, leases).next(
                Step::Claim { incarnation, slot, cursor, index },
            ) == Some(
                world_of(
                    after,
                    generation,
                    leases.insert((incarnation, slot), Lease { cursor, index, held: false }),
                ),
            )
        }),
{
    let incarnation = consumer.incarnation.0;
    let page = pages.claims[incarnation];
    lemma_first_free(page.slots);
    let slot = first_free(page.slots)->0;
    let after = pages.with_claims(incarnation, page.taken(slot, cursor));
    assert(claim_words(after.claims) =~= claim_words(pages.claims).insert(
        incarnation,
        page.slots.update(slot, cursor),
    ));
}

/// A validation that finds the claimed frame is one step, and one that does not find it leaves
/// the step that no run can take.
pub proof fn validating_is_a_step(
    pages: Pages,
    leases: Map<(u64, int), Lease>,
    generation: u64,
    incarnation: u64,
    slot: int,
)
    requires
        leases.contains_key((incarnation, slot)),
    ensures
        ({
            let lease = leases[(incarnation, slot)];
            let valid = pages.resources[generation].records[lease.index].state == state_word(
                lease.cursor,
                true,
            );
            let next = world_of(pages, generation, leases).next(
                Step::Validate { incarnation, slot },
            );
            if valid {
                next == Some(
                    world_of(
                        pages,
                        generation,
                        leases.insert((incarnation, slot), Lease { held: true, ..lease }),
                    ),
                )
            } else {
                next is None
            }
        }),
{
}

/// Giving a slot back, after a claim that came to nothing or at the end of a lease, is one step.
pub proof fn giving_back_is_a_step<T>(
    consumer: ConsumerState<T>,
    pages: Pages,
    leases: Map<(u64, int), Lease>,
    generation: u64,
    lease: LeaseTerms,
)
    requires
        pages.claims.contains_key(consumer.incarnation.0),
        leases.contains_key((consumer.incarnation.0, lease.slot as int)),
    ensures
        ({
            let incarnation = consumer.incarnation.0;
            let slot = lease.slot as int;
            let page = pages.claims[incarnation];
            let returned = pages.with_claims(incarnation, page.credited(slot));
            let released = pages.with_claims(incarnation, consumer.released(page, lease).1);
            let left = leases.remove((incarnation, slot));
            let next = world_of(pages, generation, leases).next(
                Step::Release { incarnation, slot },
            );
            &&& next == Some(world_of(returned, generation, left))
            &&& next == Some(world_of(released, generation, left))
        }),
{
    let incarnation = consumer.incarnation.0;
    let slot = lease.slot as int;
    let page = pages.claims[incarnation];
    let returned = pages.with_claims(incarnation, page.credited(slot));
    let released = pages.with_claims(incarnation, consumer.released(page, lease).1);
    let words = claim_words(pages.claims).insert(incarnation, page.slots.update(slot, 0));
    assert(claim_words(returned.claims) =~= words);
    assert(claim_words(released.claims) =~= words);
}

/// The world in which the producer has withdrawn a resource and passed these slots.
spec fn scanning(world: World, index: int, seen: Set<(u64, int)>) -> World {
    World { publisher: Publisher::Scanning { index, seen }, ..world }
}

/// The slots of one incarnation are passed one after another.
proof fn lemma_pass_slots(
    world: World,
    index: int,
    seen: Set<(u64, int)>,
    incarnation: u64,
    count: int,
) -> (all: Set<(u64, int)>)
    requires
        world.claims.contains_key(incarnation),
        0 <= count <= world.claims[incarnation].len(),
        forall|s: int|
            0 <= s < world.claims[incarnation].len() ==> #[trigger] world.claims[incarnation][s]
                != world.resources.records[index].generation(),
    ensures
        reaches(scanning(world, index, seen), scanning(world, index, all)),
        seen.subset_of(all),
        forall|s: int| 0 <= s < count ==> #[trigger] all.contains((incarnation, s)),
    decreases count,
{
    if count == 0 {
        lemma_reaches_itself(scanning(world, index, seen));
        seen
    } else {
        let before = lemma_pass_slots(world, index, seen, incarnation, count - 1);
        let slot = count - 1;
        let at = scanning(world, index, before);
        let all = before.insert((incarnation, slot));
        let step = Step::Pass { incarnation, slot };
        assert(world.claims[incarnation][slot] != world.resources.records[index].generation());
        assert(at.next(step) == Some(scanning(world, index, all)));
        lemma_reaches_next(at, step);
        lemma_reaches_through(
            scanning(world, index, seen),
            at,
            scanning(world, index, all),
        );
        all
    }
}

/// The slots of all these incarnations are passed.
proof fn lemma_pass_all(
    world: World,
    index: int,
    seen: Set<(u64, int)>,
    incarnations: Set<u64>,
) -> (all: Set<(u64, int)>)
    requires
        incarnations.finite(),
        incarnations.subset_of(world.claims.dom()),
        forall|n: u64, s: int|
            world.has_slot(n, s) ==> #[trigger] world.claims[n][s]
                != world.resources.records[index].generation(),
    ensures
        reaches(scanning(world, index, seen), scanning(world, index, all)),
        seen.subset_of(all),
        forall|n: u64, s: int|
            incarnations.contains(n) && world.has_slot(n, s) ==> #[trigger] all.contains((n, s)),
    decreases incarnations.len(),
{
    if incarnations.len() == 0 {
        assert(incarnations =~= Set::empty());
        lemma_reaches_itself(scanning(world, index, seen));
        seen
    } else {
        let n = incarnations.choose();
        assert(incarnations.contains(n));
        let before = lemma_pass_all(world, index, seen, incarnations.remove(n));
        assert forall|s: int| 0 <= s < world.claims[n].len() implies #[trigger] world.claims[n][s]
            != world.resources.records[index].generation() by {
            assert(world.has_slot(n, s));
        }
        let all = lemma_pass_slots(world, index, before, n, world.claims[n].len() as int);
        lemma_reaches_through(
            scanning(world, index, seen),
            scanning(world, index, before),
            scanning(world, index, all),
        );
        assert forall|m: u64, s: int|
            incarnations.contains(m) && world.has_slot(m, s) implies #[trigger] all.contains(
            (m, s),
        ) by {
            if m != n {
                assert(incarnations.remove(n).contains(m));
                assert(before.contains((m, s)));
            }
        }
        all
    }
}

/// The world after that many resources have been tried.
spec fn tried_world<T>(
    state: ProducerState<T>,
    generation: u64,
    offer: Offer,
    leases: Map<(u64, int), Lease>,
    count: int,
) -> World {
    World {
        resources: state.tried(generation, offer, count).0,
        ..world_of(state.pages, generation, leases)
    }
}

/// The search is a run of steps: each resource is withdrawn before the slots are looked at,
/// and a resource that is found was withdrawn and found unclaimed.
proof fn lemma_search_runs<T>(
    state: ProducerState<T>,
    generation: u64,
    offer: Offer,
    leases: Map<(u64, int), Lease>,
    count: int,
) -> (seen: Set<(u64, int)>)
    requires
        state.inv(),
        state.current == Some(generation),
        0 <= count <= state.resources(),
    ensures
        ({
            let start = world_of(state.pages, generation, leases);
            let world = tried_world(state, generation, offer, leases, count);
            match state.tried(generation, offer, count).1 {
                None => reaches(start, world),
                Some(index) => {
                    &&& reaches(start, scanning(world, index, seen))
                    &&& scanning(world, index, seen).cleared()
                },
            }
        }),
    decreases count,
{
    let start = world_of(state.pages, generation, leases);
    if count == 0 {
        lemma_reaches_itself(start);
        Set::empty()
    } else {
        let before = lemma_search_runs(state, generation, offer, leases, count - 1);
        let (page, found) = state.tried(generation, offer, count - 1);
        let at = tried_world(state, generation, offer, leases, count - 1);
        let to = tried_world(state, generation, offer, leases, count);
        lemma_tried(state, generation, offer, count - 1);
        if found is Some {
            before
        } else {
            let index = state.candidate(count - 1);
            assert(state.pages.resources.contains_key(generation));
            assert(state.resource_proper(generation));
            vstd::arithmetic::div_mod::lemma_mod_bound(
                state.next_slot + count - 1,
                state.resources(),
            );
            let held = page.records[index].generation();
            if held != 0 && held >= state.oldest_protected() {
                before
            } else {
                let withdrawn = World { resources: page.retired(index), ..at };
                let open = scanning(withdrawn, index, Set::empty());
                assert(at.next(Step::Withdraw { index }) == Some(open));
                lemma_reaches_next(at, Step::Withdraw { index });
                lemma_reaches_through(start, at, open);
                assert(to == withdrawn);
                if held != 0 && state.pages.claimed(held as u64) {
                    assert(open.next(Step::Skip) == Some(to));
                    lemma_reaches_next(open, Step::Skip);
                    lemma_reaches_through(start, open, to);
                    before
                } else {
                    let all = if held == 0 {
                        lemma_reaches_itself(open);
                        Set::empty()
                    } else {
                        assert(withdrawn.resources.records[index].generation() == held);
                        assert forall|n: u64, s: int|
                            withdrawn.has_slot(n, s) implies #[trigger] withdrawn.claims[n][s]
                            != withdrawn.resources.records[index].generation() by {
                            if withdrawn.claims[n][s] == held {
                                assert(state.pages.claims[n].slots[s] == held as u64);
                                assert(state.pages.claims[n].holds(held as u64));
                                assert(state.pages.claims.contains_key(n));
                            }
                        }
                        assert(withdrawn.claims.dom() =~= state.pages.claims.dom());
                        lemma_pass_all(withdrawn, index, Set::empty(), withdrawn.claims.dom())
                    };
                    let clear = scanning(withdrawn, index, all);
                    lemma_reaches_through(start, open, clear);
                    assert forall|n: u64, s: int|
                        held != 0 && clear.has_slot(n, s) implies #[trigger] all.contains(
                        (n, s),
                    ) by {
                        assert(withdrawn.claims.dom().contains(n));
                        assert(withdrawn.has_slot(n, s));
                    }
                    assert(clear.resources.records[index].generation() == held);
                    assert(clear.cleared());
                    if !offer.ends_at(index) {
                        assert(clear.next(Step::Skip) == Some(to));
                        lemma_reaches_next(clear, Step::Skip);
                        lemma_reaches_through(start, clear, to);
                    }
                    all
                }
            }
        }
    }
}

/// Publication is a run of the producer's steps, whatever it comes to: resources are withdrawn
/// before the slots are looked at, and only what was withdrawn and then found unclaimed is
/// written.
pub proof fn publication_is_a_run<T>(
    state: ProducerState<T>,
    offer: Offer,
    bytes: Seq<u8>,
    leases: Map<(u64, int), Lease>,
)
    requires
        state.inv(),
        state.current is Some,
    ensures
        reaches(
            world_of(state.pages, state.current->0, leases),
            world_of(state.published(offer, bytes).0.pages, state.current->0, leases),
        ),
{
    let generation = state.current->0;
    let start = world_of(state.pages, generation, leases);
    let after = state.published(offer, bytes).0;
    let end = world_of(after.pages, generation, leases);
    assert(claim_words(after.pages.claims) =~= claim_words(state.pages.claims));
    assert(state.pages.resources.contains_key(generation));
    if bytes.len() > state.pages.resources[generation].layout.payload_capacity || state.cursor
        == MAX_GENERATION {
        assert(end == start);
        lemma_reaches_itself(start);
    } else {
        let seen = lemma_search_runs(state, generation, offer, leases, state.resources());
        let (page, found) = state.tried(generation, offer, state.resources());
        let world = tried_world(state, generation, offer, leases, state.resources());
        if found is None {
            assert(end == world);
        } else {
            let index = found->0;
            let clear = scanning(world, index, seen);
            match offer.at(index) {
                Ok(Some(given)) => {
                    let cursor = (state.cursor + 1) as u64;
                    let descriptor = stamped(given, page, index, cursor, bytes.len());
                    let write = Step::Write { descriptor, payload: bytes };
                    let publish = Step::Publish { cursor, descriptor, payload: bytes };
                    let written = clear.next(write)->0;
                    lemma_reaches_next(clear, write);
                    lemma_reaches_through(start, clear, written);
                    assert(written.resources.records[index].generation()
                        == clear.resources.records[index].generation());
                    assert(written.cleared());
                    assert(written.next(publish) is Some);
                    assert((written.next(publish)->0).resources.records
                        =~= end.resources.records);
                    assert(written.next(publish) == Some(end));
                    lemma_reaches_next(written, publish);
                    lemma_reaches_through(start, written, end);
                },
                _ => {
                    assert(clear.next(Step::Skip) == Some(end));
                    lemma_reaches_next(clear, Step::Skip);
                    lemma_reaches_through(start, clear, end);
                },
            }
        }
    }
}

} // verus!
