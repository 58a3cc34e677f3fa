//! Why a held frame is never overwritten, whatever order the two sides' steps come in.
//!
//! The producer withdraws a resource, then looks at every claim slot, and only then writes.
//! A consumer publishes its claim, and only then looks whether the resource still holds the
//! frame. The sides share no lock: each step below is one access to one shared word, and
//! steps of both sides come in any order.

use super::mapping::{Record, ResourcePage};
use super::{state_word, FrameDescriptor};
use vstd::prelude::*;

verus! {

/// What the producer is about to do with a resource.
pub enum Publisher {
    Idle,
    /// It has withdrawn the resource and has found that the slots in `seen` do not claim
    /// what the resource holds.
    Scanning { index: int, seen: Set<(u64, int)> },
}

/// What a consumer does with one of its slots.
pub struct Lease {
    pub cursor: u64,
    pub index: int,
    /// Whether the resource was found to hold the cursor after the claim was published.
    pub held: bool,
}

/// The pages of one resource generation and its consumers, and where everybody stands.
pub struct World {
    pub resources: ResourcePage,
    /// The words of every incarnation's claim slots.
    pub claims: Map<u64, Seq<u64>>,
    pub publisher: Publisher,
    /// By incarnation and slot.
    pub leases: Map<(u64, int), Lease>,
}

/// One access to a shared word, or a private decision.
pub enum Step {
    /// The producer withdraws a resource.
    Withdraw { index: int },
    /// The producer looks at a slot and does not find the resource's frame there.
    Pass { incarnation: u64, slot: int },
    /// The producer gives the resource up.
    Skip,
    /// The producer writes some bytes into a resource that it found unclaimed.
    Write { descriptor: FrameDescriptor, payload: Seq<u8> },
    /// The producer lets the new frame be acquired.
    Publish { cursor: u64, descriptor: FrameDescriptor, payload: Seq<u8> },
    /// A consumer publishes a claim.
    Claim { incarnation: u64, slot: int, cursor: u64, index: int },
    /// A consumer finds that the resource holds what it claims.
    Validate { incarnation: u64, slot: int },
    /// A slot is given back.
    Release { incarnation: u64, slot: int },
    /// The producer admits an incarnation.
    Attach { incarnation: u64, slots: Seq<u64> },
    /// The producer forgets an incarnation that claims nothing.
    Forget { incarnation: u64 },
}

/// Whether any of these slots is claimed.
pub open spec fn claiming(slots: Seq<u64>) -> bool {
    exists|i: int| 0 <= i < slots.len() && #[trigger] slots[i] != 0
}

impl World {
    /// Whether a slot exists.
    pub open spec fn has_slot(self, incarnation: u64, slot: int) -> bool {
        self.claims.contains_key(incarnation) && 0 <= slot < self.claims[incarnation].len()
    }

    /// Whether the producer may write: the resource never held a frame, or no slot was found
    /// to claim the frame that it holds.
    pub open spec fn cleared(self) -> bool {
        match self.publisher {
            Publisher::Idle => false,
            Publisher::Scanning { index, seen } => {
                &&& 0 <= index < self.resources.records.len()
                &&& self.resources.records[index].generation() == 0 || forall|n: u64, s: int|
                    self.has_slot(n, s) ==> #[trigger] seen.contains((n, s))
            },
        }
    }

    /// The world after a step, if the step can be taken.
    pub open spec fn next(self, step: Step) -> Option<World> {
        match step {
            Step::Withdraw { index } => {
                if self.publisher is Idle && 0 <= index < self.resources.records.len() {
                    Some(
                        World {
                            resources: self.resources.retired(index),
                            publisher: Publisher::Scanning { index, seen: Set::empty() },
                            ..self
                        },
                    )
                } else {
                    None
                }
            },
            Step::Pass { incarnation, slot } => match self.publisher {
                Publisher::Scanning { index, seen } => {
                    if self.has_slot(incarnation, slot) && self.claims[incarnation][slot]
                        != self.resources.records[index].generation() {
                        Some(
                            World {
                                publisher: Publisher::Scanning {
                                    index,
                                    seen: seen.insert((incarnation, slot)),
                                },
                                ..self
                            },
                        )
                    } else {
                        None
                    }
                },
                Publisher::Idle => None,
            },
            Step::Skip => Some(World { publisher: Publisher::Idle, ..self }),
            Step::Write { descriptor, payload } => {
                if self.cleared() {
                    let index = self.publisher->index;
                    let record = Record { descriptor, payload, ..self.resources.records[index] };
                    Some(
                        World {
                            resources: ResourcePage {
                                records: self.resources.records.update(index, record),
                                ..self.resources
                            },
                            ..self
                        },
                    )
                } else {
                    None
                }
            },
            Step::Publish { cursor, descriptor, payload } => {
                if self.cleared() {
                    Some(
                        World {
                            resources: self.resources.filled(
                                self.publisher->index,
                                cursor,
                                descriptor,
                                payload,
                            ),
                            publisher: Publisher::Idle,
                            ..self
                        },
                    )
                } else {
                    None
                }
            },
            Step::Claim { incarnation, slot, cursor, index } => {
                if self.has_slot(incarnation, slot) && self.claims[incarnation][slot] == 0
                    && cursor != 0 && 0 <= index < self.resources.records.len() {
                    Some(
                        World {
                            claims: self.claims.insert(
                                incarnation,
                                self.claims[incarnation].update(slot, cursor),
                            ),
                            leases: self.leases.insert(
                                (incarnation, slot),
                                Lease { cursor, index, held: false },
                            ),
                            ..self
                        },
                    )
                } else {
                    None
                }
            },
            Step::Validate { incarnation, slot } => {
                let key = (incarnation, slot);
                let lease = self.leases[key];
                if self.leases.contains_key(key) && self.resources.records[lease.index].state
                    == state_word(lease.cursor, true) {
                    Some(
                        World {
                            leases: self.leases.insert(key, Lease { held: true, ..lease }),
                            ..self
                        },
                    )
                } else {
                    None
                }
            },
            Step::Release { incarnation, slot } => {
                if self.leases.contains_key((incarnation, slot)) {
                    Some(
                        World {
                            claims: self.claims.insert(
                                incarnation,
                                self.claims[incarnation].update(slot, 0),
                            ),
                            leases: self.leases.remove((incarnation, slot)),
                            ..self
                        },
                    )
                } else {
                    None
                }
            },
            Step::Attach { incarnation, slots } => {
                if self.publisher is Idle && !self.claims.contains_key(incarnation)
                    && !claiming(slots) {
                    Some(World { claims: self.claims.insert(incarnation, slots), ..self })
                } else {
                    None
                }
            },
            Step::Forget { incarnation } => {
                if self.publisher is Idle && self.claims.contains_key(incarnation)
                    && !claiming(self.claims[incarnation]) {
                    Some(World { claims: self.claims.remove(incarnation), ..self })
                } else {
                    None
                }
            },
        }
    }

    /// Every lease stands in its slot; a held lease's resource holds its frame; and a slot
    /// that the producer has passed holds no lease on the withdrawn resource.
    pub open spec fn inv(self) -> bool {
        &&& forall|n: u64, s: int| #[trigger]
            self.leases.contains_key((n, s)) ==> {
                let lease = self.leases[(n, s)];
                &&& self.has_slot(n, s)
                &&& self.claims[n][s] == lease.cursor
                &&& lease.cursor != 0
                &&& 0 <= lease.index < self.resources.records.len()
                &&& lease.held ==> self.resources.records[lease.index].generation() == lease.cursor
            }
        &&& forall|n: u64, s: int|
            self.has_slot(n, s) && #[trigger] self.claims[n][s] != 0
                ==> self.leases.contains_key((n, s))
        &&& self.publisher matches Publisher::Scanning { index, seen } ==> {
            &&& 0 <= index < self.resources.records.len()
            &&& !self.resources.records[index].valid()
            &&& forall|n: u64, s: int|
                self.leases.contains_key((n, s)) && #[trigger] seen.contains((n, s))
                    && self.leases[(n, s)].held ==> self.leases[(n, s)].index != index
        }
    }

    /// Whether a slot holds a validated lease.
    pub open spec fn holds(self, incarnation: u64, slot: int) -> bool {
        self.leases.contains_key((incarnation, slot)) && self.leases[(incarnation, slot)].held
    }

    /// What the holder of a slot reads.
    pub open spec fn frame(self, incarnation: u64, slot: int) -> (FrameDescriptor, Seq<u8>) {
        let record = self.resources.records[self.leases[(incarnation, slot)].index];
        (record.descriptor, record.payload)
    }
}

/// Every step keeps the invariant.
pub proof fn steps_keep_the_invariant(world: World, step: Step)
    requires
        world.inv(),
        world.next(step) is Some,
    ensures
        (world.next(step)->0).inv(),
{
    let after = world.next(step)->0;
    match step {
        Step::Withdraw { index } => {},
        Step::Pass { incarnation, slot } => {},
        Step::Skip => {},
        Step::Write { descriptor, payload } => {
            lemma_cleared_is_unheld(world);
        },
        Step::Publish { cursor, descriptor, payload } => {
            lemma_cleared_is_unheld(world);
        },
        Step::Claim { incarnation, slot, cursor, index } => {
            assert(!world.leases.contains_key((incarnation, slot)));
        },
        Step::Validate { incarnation, slot } => {
            assert(world.leases.contains_key((incarnation, slot)));
        },
        Step::Release { incarnation, slot } => {
        },
        Step::Attach { incarnation, slots } => {},
        Step::Forget { incarnation } => {
            assert forall|n: u64, s: int| #[trigger] after.leases.contains_key((n, s)) implies {
                let lease = after.leases[(n, s)];
                &&& after.has_slot(n, s)
                &&& after.claims[n][s] == lease.cursor
                &&& lease.cursor != 0
                &&& 0 <= lease.index < after.resources.records.len()
                &&& lease.held ==> after.resources.records[lease.index].generation()
                    == lease.cursor
            } by {
                assert(world.leases.contains_key((n, s)));
                if n == incarnation {
                    assert(world.claims[incarnation][s] != 0);
                    assert(claiming(world.claims[incarnation]));
                }
            }
        },
    }
}

/// Nobody holds a resource that the producer may write.
proof fn lemma_cleared_is_unheld(world: World)
    requires
        world.inv(),
        world.cleared(),
    ensures
        forall|n: u64, s: int| #[trigger]
            world.leases.contains_key((n, s)) && world.leases[(n, s)].held
                ==> world.leases[(n, s)].index != world.publisher->index,
{
    let index = world.publisher->index;
    let seen = world.publisher->seen;
    assert forall|n: u64, s: int| #[trigger]
        world.leases.contains_key((n, s)) && world.leases[(n, s)].held implies world.leases[(
        n,
        s,
    )].index != index by {
        if world.leases[(n, s)].index == index {
            assert(world.has_slot(n, s));
            assert(world.resources.records[index].generation() == world.leases[(n, s)].cursor);
            assert(seen.contains((n, s)));
        }
    }
}

/// A step other than its own release leaves a held frame held, with the same descriptor and
/// the same bytes.
pub proof fn steps_leave_held_frames_alone(world: World, step: Step, incarnation: u64, slot: int)
    requires
        world.inv(),
        world.next(step) is Some,
        world.holds(incarnation, slot),
        step != (Step::Release { incarnation, slot }),
    ensures
        (world.next(step)->0).holds(incarnation, slot),
        (world.next(step)->0).leases[(incarnation, slot)] == world.leases[(incarnation, slot)],
        (world.next(step)->0).frame(incarnation, slot) == world.frame(incarnation, slot),
{
    let after = world.next(step)->0;
    assert(world.leases.contains_key((incarnation, slot)));
    match step {
        Step::Write { descriptor, payload } => {
            lemma_cleared_is_unheld(world);
        },
        Step::Publish { cursor, descriptor, payload } => {
            lemma_cleared_is_unheld(world);
        },
        Step::Claim { incarnation: n, slot: s, cursor, index } => {
            assert(world.claims[incarnation][slot] != 0);
        },
        _ => {},
    }
}

/// A run of the two sides: every world follows from the one before it by a step.
pub open spec fn run(worlds: Seq<World>, steps: Seq<Step>) -> bool {
    &&& worlds.len() == steps.len() + 1
    &&& forall|i: int|
        0 <= i < steps.len() ==> #[trigger] worlds[i].next(steps[i]) == Some(worlds[i + 1])
}

/// From validation to release, a frame is never overwritten, however the steps of the
/// producer and of all consumers are interleaved.
pub proof fn held_frames_are_never_overwritten(
    worlds: Seq<World>,
    steps: Seq<Step>,
    from: int,
    to: int,
    incarnation: u64,
    slot: int,
)
    requires
        run(worlds, steps),
        worlds[0].inv(),
        0 <= from <= to <= steps.len(),
        worlds[from].holds(incarnation, slot),
        forall|i: int|
            from <= i < to ==> #[trigger] steps[i] != (Step::Release { incarnation, slot }),
    ensures
        worlds[to].holds(incarnation, slot),
        worlds[to].frame(incarnation, slot) == worlds[from].frame(incarnation, slot),
    decreases to - from,
{
    runs_keep_the_invariant(worlds, steps, from);
    if from < to {
        assert(worlds[from].next(steps[from]) == Some(worlds[from + 1]));
        steps_leave_held_frames_alone(worlds[from], steps[from], incarnation, slot);
        held_frames_are_never_overwritten(worlds, steps, from + 1, to, incarnation, slot);
    }
}

/// Every world of a run keeps the invariant of the first.
pub proof fn runs_keep_the_invariant(worlds: Seq<World>, steps: Seq<Step>, at: int)
    requires
        run(worlds, steps),
        worlds[0].inv(),
        0 <= at <= steps.len(),
    ensures
        worlds[at].inv(),
    decreases at,
{
    if at > 0 {
        runs_keep_the_invariant(worlds, steps, at - 1);
        assert(worlds[at - 1].next(steps[at - 1]) == Some(worlds[at]));
        steps_keep_the_invariant(worlds[at - 1], steps[at - 1]);
    }
}

/// Whether a step is one of publication.
pub open spec fn of_publication(step: Step) -> bool {
    step is Withdraw || step is Pass || step is Skip || step is Write || step is Publish
}

/// Whether steps of publication alone lead from one world to another, through these worlds.
pub open spec fn leads(worlds: Seq<World>, steps: Seq<Step>, from: World, to: World) -> bool {
    &&& run(worlds, steps)
    &&& worlds[0] == from
    &&& worlds[steps.len() as int] == to
    &&& forall|i: int| 0 <= i < steps.len() ==> of_publication(#[trigger] steps[i])
}

/// Whether steps of publication alone lead from one world to another.
pub open spec fn reaches(from: World, to: World) -> bool {
    exists|worlds: Seq<World>, steps: Seq<Step>| #[trigger] leads(worlds, steps, from, to)
}

pub proof fn lemma_reaches_itself(world: World)
    ensures
        reaches(world, world),
{
    assert(leads(seq![world], Seq::empty(), world, world));
}

pub proof fn lemma_reaches_next(world: World, step: Step)
    requires
        of_publication(step),
        world.next(step) is Some,
    ensures
        reaches(world, world.next(step)->0),
{
    let after = world.next(step)->0;
    let worlds = seq![world, after];
    let steps = seq![step];
    assert(worlds[0].next(steps[0]) == Some(worlds[1]));
    assert(leads(worlds, steps, world, after));
}

pub proof fn lemma_reaches_through(a: World, b: World, c: World)
    requires
        reaches(a, b),
        reaches(b, c),
    ensures
        reaches(a, c),
{
    let (worlds, steps) = choose|worlds: Seq<World>, steps: Seq<Step>| #[trigger]
        leads(worlds, steps, a, b);
    let (later, more) = choose|worlds: Seq<World>, steps: Seq<Step>| #[trigger]
        leads(worlds, steps, b, c);
    let all_worlds = worlds + later.drop_first();
    let all_steps = steps + more;
    let n = steps.len() as int;
    assert forall|i: int| 0 <= i < all_steps.len() implies #[trigger] all_worlds[i].next(
        all_steps[i],
    ) == Some(all_worlds[i + 1]) by {
        if i < n {
            assert(worlds[i].next(steps[i]) == Some(worlds[i + 1]));
        } else {
            assert(later[i - n].next(more[i - n]) == Some(later[i - n + 1]));
            assert(all_worlds[i] == later[i - n]);
            assert(all_worlds[i + 1] == later[i - n + 1]);
        }
    }
    assert forall|i: int| 0 <= i < all_steps.len() implies of_publication(
        #[trigger] all_steps[i],
    ) by {
        if i < n {
            assert(of_publication(steps[i]));
        } else {
            assert(of_publication(more[i - n]));
        }
    }
    assert(all_worlds[all_steps.len() as int] == c);
    assert(leads(all_worlds, all_steps, a, c));
}

/// What a consumer reads right after it validated is the frame that was published under the
/// cursor that it claimed: the resource holds that generation, and it was acquirable.
pub proof fn validation_acquires_the_claimed_frame(world: World, incarnation: u64, slot: int)
    requires
        world.inv(),
        world.next(Step::Validate { incarnation, slot }) is Some,
    ensures
        ({
            let after = world.next(Step::Validate { incarnation, slot })->0;
            let lease = after.leases[(incarnation, slot)];
            &&& after.holds(incarnation, slot)
            &&& after.resources.records[lease.index].generation() == lease.cursor
            &&& after.resources.records[lease.index].valid()
        }),
{
    assert(world.leases.contains_key((incarnation, slot)));
}

} // verus!
