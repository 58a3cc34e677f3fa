//! Publication into a resource that holds nothing retained and nothing claimed.

use super::ArenaProducer;
use crate::acquisition::arena::claims::DATA;
use crate::acquisition::arena::cleanup::{ReleaseTimeline, TimelineAnswer};
use crate::acquisition::arena::mapping::ResourceMap;
use crate::acquisition::arena::state::{stamped, Offer, ProducerState};
use crate::acquisition::arena::upkeep::{lemma_advertised, lemma_dropped, lemma_tried};
use crate::acquisition::arena::{
    configuration_error, ArenaError, FrameDescriptor, PublishOutcome, MAX_GENERATION,
};
use vstd::prelude::*;

verus! {

impl<T> ArenaProducer<T> {
    /// Searches the current generation, whose storage is held out of the pages, for a
    /// resource to publish in. A resource is withdrawn BEFORE the claims are looked at, and
    /// stays withdrawn, so that no new acquisition can pin it. It is prepared only once it is
    /// withdrawn and found unclaimed.
    fn search<F: Fn(u32, u64) -> Result<Option<FrameDescriptor>, ArenaError>>(
        &self,
        map: &mut ResourceMap,
        prepare: F,
        Ghost(state): Ghost<ProducerState<T>>,
        Ghost(bytes): Ghost<Seq<u8>>,
    ) -> (result: (
        Option<(usize, Result<FrameDescriptor, ArenaError>)>,
        Ghost<Seq<Result<Option<FrameDescriptor>, ArenaError>>>,
    ))
        requires
            state.inv(),
            state.current == Some(old(map)@.generation),
            old(map)@ == state.pages.resources[old(map)@.generation],
            old(map).wf(),
            self.pages.wf(),
            self.pages@.claims == state.pages.claims,
            self.cursor == state.cursor,
            self.next_slot == state.next_slot,
            forall|index: u32, held: u64|
                state.vacates(index, held) ==> #[trigger] prepare.requires((index, held)),
        ensures
            final(map).wf(),
            state.prepared_by(prepare, bytes, result.1@),
            ({
                let offer = Offer::Each(result.1@);
                let tried = state.tried(old(map)@.generation, offer, state.resources());
                match result.0 {
                    Some((index, given)) => {
                        &&& tried == (final(map)@, Some(index as int))
                        &&& offer.at(index as int) == match given {
                            Ok(descriptor) => Ok(Some(descriptor)),
                            Err(error) => Err(error),
                        }
                    },
                    None => tried == (final(map)@, None::<int>),
                }
            }),
    {
        let ghost generation = map@.generation;
        let layout = map.layout();
        let count: usize = layout.resources;
        let history: u64 = layout.history as u64;
        proof {
            map.records_cover_the_layout();
            assert(state.pages.resources.contains_key(generation));
            assert(state.resource_proper(generation));
            assert(count * 256 <= usize::MAX) by {
                assert(layout.consistent(state.page_size as int));
                assert(layout.resources * layout.payload_capacity >= 0) by (nonlinear_arith)
                    requires
                        layout.resources >= 0,
                        layout.payload_capacity >= 0,
                ;
            }
        }
        let mut oldest: u64 = if self.cursor > history - 1 {
            self.cursor - (history - 1)
        } else {
            0
        };
        if oldest < 1 {
            oldest = 1;
        }
        let ghost mut frames = Seq::new(
            count as nat,
            |i: int| Ok::<Option<FrameDescriptor>, ArenaError>(None),
        );
        let mut offset: usize = 0;
        while offset < count
            invariant
                state.inv(),
                generation == old(map)@.generation,
                state.current == Some(generation),
                state.pages.resources.contains_key(generation),
                state.resource_proper(generation),
                self.pages.wf(),
                self.pages@.claims == state.pages.claims,
                self.next_slot == state.next_slot,
                self.next_slot < count,
                count == state.resources(),
                count <= u32::MAX,
                count * 256 <= usize::MAX,
                oldest == state.oldest_protected(),
                map.wf(),
                map@.layout.resources == count,
                map@.records.len() == count,
                offset <= count,
                frames.len() == count,
                forall|index: u32, held: u64|
                    state.vacates(index, held) ==> #[trigger] prepare.requires((index, held)),
                state.tried(generation, Offer::Each(frames), offset as int) == (map@, None::<int>),
                forall|k: int|
                    0 <= k < offset && #[trigger] state.comes_to(
                        generation,
                        Offer::Each(frames),
                        k,
                    ) ==> state.prepared_at(generation, prepare, frames, state.candidate(k)),
            decreases count - offset,
        {
            let ghost before = frames;
            proof {
                lemma_tried(state, generation, Offer::Each(frames), offset as int);
            }
            let index: usize = (self.next_slot + offset) % count;
            let held: u64 = map.state(index) / 2;
            proof {
                assert(index == state.candidate(offset as int));
                assert(map@.records[index as int].generation() == held);
                assert(state.pages.resources[generation].records[index as int].generation()
                    == held);
            }
            if held != 0 && held >= oldest {
                offset = offset + 1;
                continue;
            }
            map.retire(index);
            if held != 0 && self.pages.claimed(held) {
                offset = offset + 1;
                continue;
            }
            assert(state.vacates(index as u32, held));
            let answer = prepare(index as u32, held);
            proof {
                frames = before.update(index as int, answer);
                lemma_later_answers(state, generation, before, frames, offset as int);
                assert(state.comes_to(generation, Offer::Each(frames), offset as int));
                assert(state.prepared_at(generation, prepare, frames, index as int));
                assert forall|k: int|
                    0 <= k < offset + 1 && #[trigger] state.comes_to(
                        generation,
                        Offer::Each(frames),
                        k,
                    ) implies state.prepared_at(
                    generation,
                    prepare,
                    frames,
                    state.candidate(k),
                ) by {
                    if k < offset {
                        lemma_later_answers(state, generation, before, frames, k);
                        lemma_candidates_differ(state, k, offset as int);
                        assert(state.comes_to(generation, Offer::Each(before), k));
                        assert(state.prepared_at(
                            generation,
                            prepare,
                            before,
                            state.candidate(k),
                        ));
                        vstd::arithmetic::div_mod::lemma_mod_bound(
                            state.next_slot + k,
                            state.resources(),
                        );
                        assert(frames[state.candidate(k)] == before[state.candidate(k)]);
                    }
                }
            }
            let given = match answer {
                Ok(None) => {
                    offset = offset + 1;
                    continue;
                },
                Ok(Some(descriptor)) => Ok(descriptor),
                Err(error) => Err(error),
            };
            proof {
                let offer = Offer::Each(frames);
                assert(offer.ends_at(index as int));
                assert(state.tried(generation, offer, offset + 1) == (map@, Some(index as int)));
                lemma_found_stays(state, generation, offer, offset + 1, state.resources());
                assert forall|k: int|
                    0 <= k < state.resources() && #[trigger] state.comes_to(
                        generation,
                        offer,
                        k,
                    ) implies state.prepared_at(
                    generation,
                    prepare,
                    frames,
                    state.candidate(k),
                ) by {
                    if k > offset {
                        lemma_found_stays(state, generation, offer, offset + 1, k);
                    }
                }
            }
            return (Some((index, given)), Ghost(frames));
        }
        (None, Ghost(frames))
    }
}

/// The search tries no resource twice.
proof fn lemma_candidates_differ<T>(state: ProducerState<T>, a: int, b: int)
    requires
        state.next_slot < state.resources(),
        0 <= a < b < state.resources(),
    ensures
        state.candidate(a) != state.candidate(b),
{
    let n = state.resources();
    let s = state.next_slot as int;
    if s + a < n {
        vstd::arithmetic::div_mod::lemma_small_mod((s + a) as nat, n as nat);
    } else {
        vstd::arithmetic::div_mod::lemma_mod_sub_multiples_vanish(s + a, n);
        vstd::arithmetic::div_mod::lemma_small_mod((s + a - n) as nat, n as nat);
    }
    if s + b < n {
        vstd::arithmetic::div_mod::lemma_small_mod((s + b) as nat, n as nat);
    } else {
        vstd::arithmetic::div_mod::lemma_mod_sub_multiples_vanish(s + b, n);
        vstd::arithmetic::div_mod::lemma_small_mod((s + b - n) as nat, n as nat);
    }
}

/// What a resource gives that is tried later does not change the search up to it.
proof fn lemma_later_answers<T>(
    state: ProducerState<T>,
    generation: u64,
    before: Seq<Result<Option<FrameDescriptor>, ArenaError>>,
    after: Seq<Result<Option<FrameDescriptor>, ArenaError>>,
    count: int,
)
    requires
        state.next_slot < state.resources(),
        before.len() == state.resources(),
        exists|offset: int, answer: Result<Option<FrameDescriptor>, ArenaError>|
            count <= offset < state.resources() && after == #[trigger] before.update(
                state.candidate(offset),
                answer,
            ),
    ensures
        state.tried(generation, Offer::Each(after), count) == state.tried(
            generation,
            Offer::Each(before),
            count,
        ),
    decreases count,
{
    if count > 0 {
        let (offset, answer) = choose|
            offset: int,
            answer: Result<Option<FrameDescriptor>, ArenaError>,
        |
            count <= offset < state.resources() && after == #[trigger] before.update(
                state.candidate(offset),
                answer,
            );
        lemma_candidates_differ(state, count - 1, offset);
        vstd::arithmetic::div_mod::lemma_mod_bound(
            state.next_slot + count - 1,
            state.resources(),
        );
        assert(after[state.candidate(count - 1)] == before[state.candidate(count - 1)]);
        assert(count - 1 <= offset < state.resources() && after == before.update(
            state.candidate(offset),
            answer,
        ));
        lemma_later_answers(state, generation, before, after, count - 1);
    }
}

/// Where every resource that is prepared gives the same frame, that frame is published inline.
proof fn lemma_inline<T>(
    state: ProducerState<T>,
    generation: u64,
    frames: Seq<Result<Option<FrameDescriptor>, ArenaError>>,
    descriptor: FrameDescriptor,
    count: int,
)
    requires
        frames.len() == state.resources(),
        0 <= count <= state.resources(),
        forall|k: int|
            0 <= k < state.resources() && #[trigger] state.comes_to(
                generation,
                Offer::Each(frames),
                k,
            ) ==> frames[state.candidate(k)] == Ok::<Option<FrameDescriptor>, ArenaError>(
                Some(descriptor),
            ),
    ensures
        state.tried(generation, Offer::Inline(descriptor), count) == state.tried(
            generation,
            Offer::Each(frames),
            count,
        ),
        state.tried(generation, Offer::Each(frames), count).1 matches Some(index) ==> Offer::Each(
            frames,
        ).at(index) == Offer::Inline(descriptor).at(index),
    decreases count,
{
    if count > 0 {
        lemma_inline(state, generation, frames, descriptor, count - 1);
        vstd::arithmetic::div_mod::lemma_mod_bound(
            state.next_slot + count - 1,
            state.resources(),
        );
        let index = state.candidate(count - 1);
        if state.comes_to(generation, Offer::Each(frames), count - 1) {
            assert(Offer::Each(frames).at(index) == Offer::Inline(descriptor).at(index));
        }
    }
}

/// Once a resource is found, the rest of the search changes nothing.
proof fn lemma_found_stays<T>(
    state: ProducerState<T>,
    generation: u64,
    offer: Offer,
    found: int,
    count: int,
)
    requires
        found <= count,
        state.tried(generation, offer, found).1 is Some,
    ensures
        state.tried(generation, offer, count) == state.tried(generation, offer, found),
    decreases count - found,
{
    if found < count && count > 0 {
        lemma_found_stays(state, generation, offer, found, count - 1);
    }
}

impl<T: ReleaseTimeline> ProducerState<T> {
    /// What publishing inline bytes gives.
    pub open spec fn publishes_inline(
        self,
        after: ProducerState<T>,
        now: u128,
        descriptor: FrameDescriptor,
        bytes: Seq<u8>,
        result: Result<PublishOutcome, ArenaError>,
    ) -> bool {
        if self.pages.control.terminal != 0 {
            result == Err::<PublishOutcome, ArenaError>(ArenaError::Closed) && after
                == self
        } else {
            exists|answers: Map<u64, Seq<TimelineAnswer>>|
                {
                    &&& self.complete_look(now, answers)
                    &&& (after, result) == (#[trigger] self.cleaned(
                        now,
                        answers,
                    )).published(Offer::Inline(descriptor), bytes)
                }
        }
    }

    /// Whether publication may have this resource prepared, after the frame that it last held:
    /// the resource is withdrawn, outside the retained history and unclaimed.
    pub open spec fn may_prepare(self, now: u128, index: u32, held: u64) -> bool {
        exists|answers: Map<u64, Seq<TimelineAnswer>>|
            self.complete_look(now, answers) && (#[trigger] self.cleaned(now, answers)).vacates(
                index,
                held,
            )
    }

    /// What publishing in a resource that `prepare` makes ready gives.
    pub open spec fn publishes_prepared<
        F: Fn(u32, u64) -> Result<Option<FrameDescriptor>, ArenaError>,
    >(
        self,
        after: ProducerState<T>,
        now: u128,
        prepare: F,
        bytes: Seq<u8>,
        result: Result<PublishOutcome, ArenaError>,
    ) -> bool {
        if self.pages.control.terminal != 0 {
            result == Err::<PublishOutcome, ArenaError>(ArenaError::Closed) && after
                == self
        } else {
            exists|
                answers: Map<u64, Seq<TimelineAnswer>>,
                frames: Seq<Result<Option<FrameDescriptor>, ArenaError>>,
            |
                {
                    &&& self.complete_look(now, answers)
                    &&& self.cleaned(now, answers).prepared_by(prepare, bytes, frames)
                    &&& (after, result) == #[trigger] self.cleaned(now, answers).published(
                        Offer::Each(frames),
                        bytes,
                    )
                }
        }
    }
}

impl<T: ReleaseTimeline> ArenaProducer<T> {
    /// Publishes a frame with its bytes. Publication searches for a resource outside the
    /// retained history that nobody claims, and drops the frame if there is none.
    pub fn publish(&mut self, now: u128, descriptor: FrameDescriptor, bytes: &[u8]) -> (result: Result<
        PublishOutcome,
        ArenaError,
    >)
        requires
            old(self).wf(),
        ensures
            final(self).wf(),
            old(self)@.publishes_inline(final(self)@, now, descriptor, bytes@, result),
    {
        let ghost state = self@;
        let prepare = |_index: u32, _held: u64| -> (given: Result<
            Option<FrameDescriptor>,
            ArenaError,
        >)
            ensures
                given == Ok::<Option<FrameDescriptor>, ArenaError>(Some(descriptor)),
            { Ok(Some(descriptor)) };
        let result = self.publish_prepared(now, bytes, prepare);
        proof {
            if state.pages.control.terminal == 0 {
                let (answers, frames) = choose|
                    answers: Map<u64, Seq<TimelineAnswer>>,
                    frames: Seq<Result<Option<FrameDescriptor>, ArenaError>>,
                |
                    {
                        &&& state.complete_look(now, answers)
                        &&& state.cleaned(now, answers).prepared_by(prepare, bytes@, frames)
                        &&& (self@, result) == #[trigger] state.cleaned(now, answers).published(
                            Offer::Each(frames),
                            bytes@,
                        )
                    };
                let cleaned = state.cleaned(now, answers);
                if cleaned.current is Some && cleaned.searches(cleaned.current->0, bytes@) {
                    let generation = cleaned.current->0;
                    assert forall|k: int|
                        0 <= k < cleaned.resources() && #[trigger] cleaned.comes_to(
                            generation,
                            Offer::Each(frames),
                            k,
                        ) implies frames[cleaned.candidate(k)] == Ok::<
                        Option<FrameDescriptor>,
                        ArenaError,
                    >(Some(descriptor)) by {
                        assert(cleaned.prepared_at(
                            generation,
                            prepare,
                            frames,
                            cleaned.candidate(k),
                        ));
                    }
                    lemma_inline(cleaned, generation, frames, descriptor, cleaned.resources());
                }
                assert((self@, result) == cleaned.published(Offer::Inline(descriptor), bytes@));
            }
        }
        result
    }

    /// Publishes in an external resource. `prepare` is handed a resource only after it is
    /// withdrawn and found unclaimed, with the cursor of the frame that it last held; it may
    /// give nothing where the resource's backend work has not completed. Published metadata
    /// must name the synchronization of any writes that are still outstanding.
    pub fn publish_resource<F: Fn(u32, u64) -> Result<Option<FrameDescriptor>, ArenaError>>(
        &mut self,
        now: u128,
        prepare: F,
    ) -> (result: Result<PublishOutcome, ArenaError>)
        requires
            old(self).wf(),
            forall|index: u32, held: u64|
                old(self)@.may_prepare(now, index, held) ==> #[trigger] prepare.requires(
                    (index, held),
                ),
        ensures
            final(self).wf(),
            if old(self)@.current matches Some(g)
                && old(self)@.pages.resources[g].layout.payload_capacity != 0 {
                &&& result matches Err(error) && configuration_error(
                    error,
                    "native resources require no inline CPU storage"@,
                )
                &&& final(self)@ == old(self)@
            } else {
                old(self)@.publishes_prepared(final(self)@, now, prepare, Seq::empty(), result)
            },
    {
        if let Some(generation) = self.current {
            match self.pages.resources.get(&generation) {
                Some(map) => {
                    if map.layout().payload_capacity != 0 {
                        return Err(
                            ArenaError::Configuration(
                                "native resources require no inline CPU storage",
                            ),
                        );
                    }
                },
                None => {
                    assert(self@.pages.resources.contains_key(generation));
                },
            }
        }
        let empty: Vec<u8> = Vec::new();
        assert(empty@ =~= Seq::<u8>::empty());
        self.publish_prepared(now, empty.as_slice(), prepare)
    }

    fn publish_prepared<F: Fn(u32, u64) -> Result<Option<FrameDescriptor>, ArenaError>>(
        &mut self,
        now: u128,
        bytes: &[u8],
        prepare: F,
    ) -> (result: Result<PublishOutcome, ArenaError>)
        requires
            old(self).wf(),
            forall|index: u32, held: u64|
                old(self)@.may_prepare(now, index, held) ==> #[trigger] prepare.requires(
                    (index, held),
                ),
        ensures
            final(self).wf(),
            old(self)@.publishes_prepared(final(self)@, now, prepare, bytes@, result),
    {
        if self.pages.control.terminal() != 0 {
            return Err(ArenaError::Closed);
        }
        let ghost state = self@;
        self.poll_cleanup(now);
        proof {
            assert forall|index: u32, held: u64| self@.vacates(
                index,
                held,
            ) implies #[trigger] prepare.requires((index, held)) by {
                assert(state.may_prepare(now, index, held));
            }
        }
        self.place(bytes, prepare)
    }
}

impl<T> ArenaProducer<T> {
    /// Publishes after a round of cleanup.
    fn place<F: Fn(u32, u64) -> Result<Option<FrameDescriptor>, ArenaError>>(
        &mut self,
        bytes: &[u8],
        prepare: F,
    ) -> (result: Result<PublishOutcome, ArenaError>)
        requires
            old(self).wf(),
            forall|index: u32, held: u64|
                old(self)@.vacates(index, held) ==> #[trigger] prepare.requires((index, held)),
        ensures
            final(self).wf(),
            exists|frames: Seq<Result<Option<FrameDescriptor>, ArenaError>>|
                old(self)@.prepared_by(prepare, bytes@, frames) && (final(self)@, result) == #[trigger] old(
                    self,
                )@.published(Offer::Each(frames), bytes@),
    {
        let ghost state = self@;
        let ghost resources = self.pages.resources@;
        let generation: u64 = match self.current {
            None => {
                assert((self@, Ok::<PublishOutcome, ArenaError>(PublishOutcome::Dropped))
                    == state.published(Offer::Each(Seq::empty()), bytes@));
                return Ok(PublishOutcome::Dropped);
            },
            Some(generation) => generation,
        };
        proof {
            assert(state.pages.resources.contains_key(generation));
            assert(state.resource_proper(generation));
            self.admission.accounts_are_consistent();
        }
        let capacity: usize = match self.pages.resources.get(&generation) {
            Some(map) => map.layout().payload_capacity,
            None => 0,
        };
        if bytes.len() > capacity {
            assert((self@, Err::<PublishOutcome, ArenaError>(ArenaError::PayloadTooLarge))
                == state.published(Offer::Each(Seq::empty()), bytes@));
            return Err(ArenaError::PayloadTooLarge);
        }
        if self.cursor == MAX_GENERATION {
            self.stop();
            assert((self@, Err::<PublishOutcome, ArenaError>(ArenaError::GenerationsExhausted))
                == state.published(Offer::Each(Seq::empty()), bytes@));
            return Err(ArenaError::GenerationsExhausted);
        }
        match self.pages.resources.remove(&generation) {
            None => {
                assert(false);
                Ok(PublishOutcome::Dropped)
            },
            Some(mut map) => {
                let (found, Ghost(frames)) = self.search(
                    &mut map,
                    prepare,
                    Ghost(state),
                    Ghost(bytes@),
                );
                let ghost offer = Offer::Each(frames);
                match found {
                    Some((index, Ok(given))) => {
                        proof {
                            lemma_tried(state, generation, offer, state.resources());
                            lemma_advertised(
                                state,
                                generation,
                                offer,
                                given,
                                bytes@,
                                index as int,
                            );
                        }
                        let ghost page = map@;
                        let layout = map.layout();
                        let cursor: u64 = self.cursor + 1;
                        assert(layout.consistent(state.page_size as int));
                        let offset: usize = layout.payload_offset(index);
                        let mut descriptor = given;
                        descriptor.cursor = cursor;
                        descriptor.config_generation = generation;
                        descriptor.payload_offset = offset as u64;
                        descriptor.payload_len = bytes.len() as u64;
                        map.fill(index, cursor, descriptor, bytes);
                        self.pages.resources.insert(generation, map);
                        self.pages.control.advertise(cursor, index);
                        self.cursor = cursor;
                        self.next_slot = (index + 1) % layout.resources;
                        let ghost before = self.pages@;
                        self.pages.signal_all(DATA);
                        proof {
                            let after = state.advertised(
                                generation,
                                page,
                                index as int,
                                given,
                                bytes@,
                            );
                            assert(descriptor == stamped(
                                given,
                                page,
                                index as int,
                                cursor,
                                bytes@.len(),
                            ));
                            assert(before.resources =~= after.pages.resources);
                            assert(before.claims =~= state.pages.claims);
                            assert(self@.pages.claims =~= after.pages.claims);
                            assert(self@ == after);
                            assert((
                                self@,
                                Ok::<PublishOutcome, ArenaError>(
                                    PublishOutcome::Published { cursor },
                                ),
                            ) == state.published(offer, bytes@));
                        }
                        Ok(PublishOutcome::Published { cursor })
                    },
                    refused => {
                        self.pages.resources.insert(generation, map);
                        proof {
                            lemma_dropped(state, generation, offer);
                            assert(self@.pages.resources =~= state.pages.resources.insert(
                                generation,
                                map@,
                            ));
                        }
                        let result = match refused {
                            Some((_, Err(error))) => Err(error),
                            _ => Ok(PublishOutcome::Dropped),
                        };
                        assert((self@, result) == state.published(offer, bytes@));
                        result
                    },
                }
            },
        }
    }
}

} // verus!
