//! The producer's round of cleanup: observe every incarnation, forget those that have left
//! nothing, and destroy retired storage that nobody uses.


use crate::acquisition::arena::claims::{ClaimMap, ClaimPage};
use crate::acquisition::arena::cleanup::{
    observes, CleanupFailure, Observation, ObservationState, ProcessExit, ReleaseTimeline,
    ReleaseTimelineRegistration, TimelineAnswer,
};
use crate::acquisition::arena::mapping::ResourceMap;
use crate::acquisition::arena::pages::Pages;
use super::ArenaProducer;
use crate::acquisition::arena::state::{acquirable, ProducerState, RetiredAllocation};
use crate::acquisition::arena::upkeep::{lemma_polled_keeps, same_page};
use crate::acquisition::arena::{configuration_error, ArenaError};
use crate::acquisition::{Accounts, AdmissionError, IncarnationId};
use crate::maps::{ascending, keys_of};
use crate::totals::{lemma_total_over, lemma_total_over_other, total, total_over};
use vstd::prelude::*;

verus! {

/// A count that stops at the largest one.
pub open spec fn saturated(count: nat) -> usize {
    if count > usize::MAX {
        usize::MAX
    } else {
        count as usize
    }
}

impl<T: ReleaseTimeline> ArenaProducer<T> {
    /// Looks at one incarnation. The result is the number of slots that it gave back since
    /// the last look, and what its timelines answered.
    fn observe_one(&mut self, id: u64, now: u128) -> (result: (usize, Ghost<Seq<TimelineAnswer>>))
        requires
            old(self).pages.wf(),
            old(self).pages.claims@.contains_key(id),
            old(self).cleanup@.contains_key(id),
            observes(old(self).cleanup@[id]@, old(self).pages.claims@[id].spec_frames()),
        ensures
            final(self).pages.wf(),
            final(self).same_but_observations(*old(self)),
            final(self).pages.claims@ == old(self).pages.claims@.insert(
                id,
                final(self).pages.claims@[id],
            ),
            final(self).cleanup@ == old(self).cleanup@.insert(id, final(self).cleanup@[id]),
            final(self).pages.claims@[id].spec_frames()
                == old(self).pages.claims@[id].spec_frames(),
            looked(
                old(self).cleanup@[id]@,
                old(self).pages.claims@[id]@,
                final(self).cleanup@[id]@,
                final(self).pages.claims@[id]@,
                now,
                result.1@,
            ),
            result.0 == old(self).cleanup@[id]@.polled(
                old(self).pages.claims@[id]@,
                now,
                result.1@,
            ).0.released,
    {
        let ghost claims = self.pages.claims@;
        let ghost states = self.cleanup@;
        let state = self.cleanup.remove(&id);
        let page = self.pages.claims.remove(&id);
        match (state, page) {
            (Some(mut state), Some(mut page)) => {
                state.poll(&mut page, now);
                let ghost polled = (state@, page@);
                let ghost answer = choose|answer: Seq<TimelineAnswer>|
                    {
                        &&& #[trigger] states[id]@.polled(claims[id]@, now, answer) == polled
                        &&& states[id]@.complete_look(claims[id]@, now, answer)
                    };
                let count: usize = state.take_released();
                self.cleanup.insert(id, state);
                self.pages.claims.insert(id, page);
                assert(self.cleanup@ =~= states.insert(id, state));
                assert(self.pages.claims@ =~= claims.insert(id, page));
                (count, Ghost(answer))
            },
            _ => {
                assert(false);
                (0, Ghost(Seq::empty()))
            },
        }
    }

    /// Looks at every incarnation. The result is the number of slots given back since the
    /// last look, and what the timelines answered.
    fn observe_all(&mut self, now: u128) -> (result: (
        usize,
        Ghost<Map<u64, Seq<TimelineAnswer>>>,
    ))
        requires
            old(self).wf(),
        ensures
            final(self).wf(),
            old(self)@.complete_look(now, result.1@),
            final(self)@ == old(self)@.observed(now, result.1@),
            result.0 == saturated(total(old(self)@.released(now, result.1@))),
    {
        let ids = keys_of(&self.cleanup);
        let ghost claims = self.pages.claims@;
        let ghost states = self.cleanup@;
        let ghost start = self@;
        let ghost mut answers: Map<u64, Seq<TimelineAnswer>> = Map::empty();
        let mut released: usize = 0;
        let mut i: usize = 0;
        proof {
            assert(start.cleanup.dom() =~= states.dom());
            assert(start.pages.claims.dom() =~= claims.dom());
            assert(start.released(now, answers).dom() =~= states.dom());
            assert(total_over(start.released(now, answers), ids@.take(0)) == 0);
            assert forall|id: u64| #[trigger] states.contains_key(id) implies claims.contains_key(id)
                && observes(states[id]@, claims[id].spec_frames()) by {
                assert(start.pages.claims.contains_key(id));
                assert(start.claim_proper(id));
                claims[id].page_is_shaped();
            }
        }
        while i < ids.len()
            invariant
                start == old(self)@,
                claims == old(self).pages.claims@,
                states == old(self).cleanup@,
                start.cleanup == states.map_values(|state: ObservationState<T>| state@),
                start.pages.claims == claims.map_values(|map: ClaimMap| map@),
                claims.dom() == states.dom(),
                forall|id: u64| #[trigger]
                    states.contains_key(id) ==> claims.contains_key(id) && observes(
                        states[id]@,
                        claims[id].spec_frames(),
                    ),
                self.pages.wf(),
                self.same_but_observations(*old(self)),
                ids@.no_duplicates(),
                ids@.to_set() == states.dom(),
                i <= ids@.len(),
                self.pages.claims@.dom() == claims.dom(),
                self.cleanup@.dom() == states.dom(),
                forall|j: int|
                    0 <= j < i ==> {
                        let id = #[trigger] ids@[j];
                        &&& looked(
                            states[id]@,
                            claims[id]@,
                            self.cleanup@[id]@,
                            self.pages.claims@[id]@,
                            now,
                            answers[id],
                        )
                    },
                forall|j: int|
                    i <= j < ids@.len() ==> {
                        let id = #[trigger] ids@[j];
                        &&& self.pages.claims@[id] == claims[id]
                        &&& self.cleanup@[id] == states[id]
                    },
                released == saturated(total_over(start.released(now, answers), ids@.take(i as int))),
            decreases ids@.len() - i,
        {
            let id: u64 = ids[i];
            assert(ids@.to_set().contains(id));
            assert(states.contains_key(id));
            let (count, answer) = self.observe_one(id, now);
            proof {
                let before = answers;
                answers = answers.insert(id, answer@);
                let was = start.released(now, before);
                let is = start.released(now, answers);
                let done = ids@.take(i as int);
                assert forall|j: int| 0 <= j < done.len() implies was[#[trigger] done[j]]
                    == is[done[j]] by {
                    assert(done[j] == ids@[j]);
                    assert(ids@.to_set().contains(ids@[j]));
                }
                lemma_total_over_other(was, is, done);
                assert(ids@.take(i + 1).drop_last() =~= done);
                assert(ids@.take(i + 1).last() == id);
                assert(start.cleanup.contains_key(id));
                assert(is[id] == count);
                assert(self.cleanup@.dom() =~= states.dom());
                assert(self.pages.claims@.dom() =~= claims.dom());
            }
            released = released.saturating_add(count);
            i = i + 1;
        }
        proof {
            assert(ids@.take(i as int) =~= ids@);
            assert(start.released(now, answers).dom() =~= states.dom());
            lemma_total_over(start.released(now, answers), ids@);
            assert forall|id: u64| states.dom().contains(id) implies looked(
                states[id]@,
                claims[id]@,
                self.cleanup@[id]@,
                self.pages.claims@[id]@,
                now,
                answers[id],
            ) by {
                assert(ids@.to_set().contains(id));
                let j = choose|j: int| 0 <= j < ids@.len() && ids@[j] == id;
                assert(ids@[j] == id);
            }
            assert(self@.pages.claims =~= start.observed(now, answers).pages.claims);
            assert(self@.cleanup =~= start.observed(now, answers).cleanup);
            assert(self@ == start.observed(now, answers));
            lemma_observed(start, now, answers);
        }
        (released, Ghost(answers))
    }
}

impl<T> ArenaProducer<T> {
    /// Two states that differ at most in claim pages and observations.
    spec fn same_but_observations(self, other: Self) -> bool {
        &&& self.pages.control == other.pages.control
        &&& self.pages.resources == other.pages.resources
        &&& self.current == other.current
        &&& self.retired == other.retired
        &&& self.pending_layout == other.pending_layout
        &&& self.admission == other.admission
        &&& self.cursor == other.cursor
        &&& self.next_slot == other.next_slot
        &&& self.native_resources == other.native_resources
        &&& self.drain_timeout == other.drain_timeout
        &&& self.page_size == other.page_size
    }
}

impl<T> ArenaProducer<T> {
    /// Forgets the incarnations that have left nothing to wait for. Their acknowledgement
    /// proves that the consumer does not touch its page any more; claims that wait for a
    /// completion can outlive it, so the slots are looked at as well.
    fn collect_quiescent(&mut self)
        requires
            old(self).wf(),
        ensures
            final(self).wf(),
            final(self)@ == old(self)@.collected(),
    {
        let ids = keys_of(&self.pages.claims);
        let ghost claims = self.pages.claims@;
        let ghost states = self.cleanup@;
        let ghost start = self@;
        let ghost mut gone: Set<u64> = Set::empty();
        let mut i: usize = 0;
        proof {
            self.admission.accounts_are_consistent();
            assert(claims.remove_keys(gone) =~= claims);
            assert(states.remove_keys(gone) =~= states);
            assert(start.accounts.reservations.remove_keys(gone) =~= start.accounts.reservations);
            assert(start.pages.claims.dom() =~= claims.dom());
            assert(start.cleanup.dom() =~= states.dom());
        }
        while i < ids.len()
            invariant
                start == old(self)@,
                claims == old(self).pages.claims@,
                states == old(self).cleanup@,
                claims.dom() == states.dom(),
                start.accounts.reservations.dom() == claims.dom(),
                self.pages.wf(),
                self.admission.inv(),
                self.pages.control == old(self).pages.control,
                self.pages.resources == old(self).pages.resources,
                self.current == old(self).current,
                self.retired == old(self).retired,
                self.pending_layout == old(self).pending_layout,
                self.cursor == old(self).cursor,
                self.next_slot == old(self).next_slot,
                self.native_resources == old(self).native_resources,
                self.drain_timeout == old(self).drain_timeout,
                self.page_size == old(self).page_size,
                ids@.no_duplicates(),
                ids@.to_set() == claims.dom(),
                i <= ids@.len(),
                forall|j: int|
                    0 <= j < i ==> gone.contains(#[trigger] ids@[j])
                        == claims[ids@[j]]@.drained(),
                forall|j: int| i <= j < ids@.len() ==> !gone.contains(#[trigger] ids@[j]),
                forall|id: u64| #[trigger]
                    gone.contains(id) ==> claims.contains_key(id) && claims[id]@.drained(),
                self.pages.claims@ == claims.remove_keys(gone),
                self.cleanup@ == states.remove_keys(gone),
                self.admission@ == (Accounts {
                    reservations: start.accounts.reservations.remove_keys(gone),
                    ..start.accounts
                }),
            decreases ids@.len() - i,
        {
            let id: u64 = ids[i];
            assert(ids@.to_set().contains(id));
            assert(self.pages.claims@.contains_key(id));
            let drained = match self.pages.claims.get(&id) {
                Some(page) => page.is_drained(),
                None => false,
            };
            if drained {
                self.pages.claims.remove(&id);
                self.cleanup.remove(&id);
                let ghost before = self.admission@;
                let closed = self.admission.close(IncarnationId(id));
                let cleaned = self.admission.complete_cleanup(IncarnationId(id));
                proof {
                    gone = gone.insert(id);
                    assert(self.pages.claims@ =~= claims.remove_keys(gone));
                    assert(self.cleanup@ =~= states.remove_keys(gone));
                    assert(self.admission@.reservations
                        =~= start.accounts.reservations.remove_keys(gone));
                }
            }
            i = i + 1;
        }
        proof {
            let after = start.collected();
            assert forall|id: u64| claims.contains_key(id) implies gone.contains(id)
                == claims[id]@.drained() by {
                assert(ids@.to_set().contains(id));
                let j = choose|j: int| 0 <= j < ids@.len() && ids@[j] == id;
                assert(ids@[j] == id);
            }
            assert(self@.pages.claims =~= after.pages.claims);
            assert(self@.cleanup =~= after.cleanup);
            assert(self@.accounts.reservations =~= after.accounts.reservations);
            assert(self@ == after);
            self.admission.accounts_are_consistent();
            assert forall|id: u64| #[trigger] after.pages.claims.contains_key(
                id,
            ) implies after.claim_proper(id) by {
                assert(start.pages.claims.contains_key(id));
                assert(start.claim_proper(id));
            }
            assert forall|g: u64| #[trigger] after.pages.resources.contains_key(
                g,
            ) implies after.resource_proper(g) by {
                assert(start.resource_proper(g));
            }
            assert(after.pages.claims.dom() =~= after.accounts.reservations.dom());
            assert(after.cleanup.dom() =~= after.accounts.reservations.dom());
            assert(self.pages.claims@.dom() =~= after.pages.claims.dom());
            if start.current is Some {
                let g = start.current->0;
                assert forall|c: u64| #[trigger] after.retains(c) implies acquirable(
                    after.pages.control,
                    after.pages.resources[g],
                    c,
                ) by {
                    assert(start.retains(c));
                }
            }
        }
    }

    /// Destroys retired storage that no consumer has mapped or claims a frame of, and then
    /// returns its bytes to the admission book.
    fn collect_retired_allocations(&mut self)
        requires
            old(self).wf(),
        ensures
            final(self).wf(),
            final(self)@ == old(self)@.reclaimed(),
    {
        let ghost start = self@;
        let ghost resources = self.pages.resources@;
        let ghost keep = |retired: RetiredAllocation| start.retained(retired);
        let ghost mut gone: Set<u64> = Set::empty();
        let ghost mut done: int = 0;
        let mut index: usize = 0;
        proof {
            self.admission.accounts_are_consistent();
            assert(resources.remove_keys(gone) =~= resources);
            assert(start.accounts.allocations.remove_keys(gone) =~= start.accounts.allocations);
            reveal(Seq::filter);
            assert(start.retired.take(0).filter(keep) =~= Seq::empty());
            assert(start.retired.take(0).filter(keep) + start.retired.skip(0) =~= start.retired);
            assert(start.pages.resources.dom() =~= resources.dom());
        }
        while index < self.retired.len()
            invariant
                start == old(self)@,
                start.inv(),
                resources == old(self).pages.resources@,
                start.pages.resources == resources.map_values(|map: ResourceMap| map@),
                keep == (|retired: RetiredAllocation| start.retained(retired)),
                self.pages.wf(),
                self.admission.inv(),
                self.pages.control == old(self).pages.control,
                self.pages.claims == old(self).pages.claims,
                self.current == old(self).current,
                self.pending_layout == old(self).pending_layout,
                self.cursor == old(self).cursor,
                self.next_slot == old(self).next_slot,
                self.cleanup == old(self).cleanup,
                self.native_resources == old(self).native_resources,
                self.drain_timeout == old(self).drain_timeout,
                self.page_size == old(self).page_size,
                0 <= done <= start.retired.len(),
                index == start.retired.take(done).filter(keep).len(),
                self.retired@ == start.retired.take(done).filter(keep) + start.retired.skip(done),
                forall|k: int|
                    0 <= k < done ==> gone.contains((#[trigger] start.retired[k]).id.0)
                        == !start.retained(start.retired[k]),
                forall|k: int|
                    done <= k < start.retired.len() ==> !gone.contains(
                        (#[trigger] start.retired[k]).id.0,
                    ),
                forall|g: u64| #[trigger] gone.contains(g) ==> start.disposable(g),
                self.pages.resources@ == resources.remove_keys(gone),
                self.admission@ == (Accounts {
                    allocations: start.accounts.allocations.remove_keys(gone),
                    ..start.accounts
                }),
            decreases start.retired.len() - done,
        {
            let retired = self.retired[index];
            let generation: u64 = retired.id.0;
            proof {
                assert(retired == start.retired[done]);
                assert(start.pages.resources.contains_key(generation));
                assert(self@.pages.resources =~= start.pages.resources.remove_keys(gone));
                assert(start.retired.take(done + 1).drop_last() =~= start.retired.take(done));
                assert(start.retired.take(done + 1).last() == retired);
                reveal(Seq::filter);
            }
            let retained = retired.native_pending || self.pages.mapped(generation)
                || self.pages.holds_frame_of(generation);
            proof {
                assert(self.pages@.claims == start.pages.claims);
                assert(self.pages@.resources[generation] == start.pages.resources[generation]);
                assert(retained == start.retained(retired));
            }
            if retained {
                index = index + 1;
                proof {
                    assert(start.retired.take(done + 1).filter(keep) =~= start.retired.take(
                        done,
                    ).filter(keep).push(retired));
                    assert(self.retired@ =~= start.retired.take(done + 1).filter(keep)
                        + start.retired.skip(done + 1));
                    done = done + 1;
                }
            } else {
                self.retired.remove(index);
                self.pages.resources.remove(&generation);
                let ghost before = self.admission@;
                let reclaimed = self.admission.complete_allocation_cleanup(retired.id);
                proof {
                    assert(start.retired.take(done + 1).filter(keep) =~= start.retired.take(
                        done,
                    ).filter(keep));
                    assert(self.retired@ =~= start.retired.take(done + 1).filter(keep)
                        + start.retired.skip(done + 1));
                    gone = gone.insert(generation);
                    assert(self.pages.resources@ =~= resources.remove_keys(gone));
                    assert(self.admission@.allocations =~= start.accounts.allocations.remove_keys(
                        gone,
                    ));
                    assert(start.disposable(generation));
                    done = done + 1;
                }
            }
        }
        proof {
            let after = start.reclaimed();
            assert(done == start.retired.len()) by {
                assert(self.retired@.len() == index + (start.retired.len() - done));
            }
            assert(start.retired.take(done) =~= start.retired);
            assert(start.retired.skip(done) =~= Seq::empty());
            assert(self.retired@ =~= start.retired.filter(keep));
            assert forall|g: u64| gone.contains(g) == start.disposable(g) by {
                if start.disposable(g) {
                    let k = choose|k: int|
                        0 <= k < start.retired.len() && (#[trigger] start.retired[k]).id.0 == g
                            && !start.retained(start.retired[k]);
                    assert(gone.contains(start.retired[k].id.0));
                }
            }
            assert(self@.retired == after.retired);
            assert(self@.pages.resources =~= after.pages.resources);
            assert(self@.accounts.allocations =~= after.accounts.allocations);
            assert(self@ == after);
            self.admission.accounts_are_consistent();
            lemma_reclaimed(start);
        }
    }

    /// Ends acquisition for an incarnation whose connection is lost. Outstanding resources
    /// and mapping capacity stay charged: a running process can still own old leases.
    pub fn close(&mut self, incarnation: IncarnationId) -> (result: Result<(), ArenaError>)
        requires
            old(self).wf(),
        ensures
            final(self).wf(),
            match result {
                Ok(()) => {
                    &&& old(self)@.pages.claims.contains_key(incarnation.0)
                    &&& final(self)@ == (ProducerState {
                        pages: old(self)@.pages.with_claims(
                            incarnation.0,
                            old(self)@.pages.claims[incarnation.0].closed(),
                        ),
                        accounts: old(self)@.accounts.closed(incarnation),
                        ..old(self)@
                    })
                },
                Err(error) => {
                    &&& !old(self)@.pages.claims.contains_key(incarnation.0)
                    &&& error == ArenaError::Admission(AdmissionError::UnknownIncarnation)
                    &&& final(self)@ == old(self)@
                },
            },
    {
        let ghost start = self@;
        let ghost claims = self.pages.claims@;
        proof {
            self.admission.accounts_are_consistent();
            assert(start.pages.claims.dom() =~= claims.dom());
        }
        match self.pages.claims.remove(&incarnation.0) {
            None => {
                assert(self.pages.claims@ =~= claims);
                Err(ArenaError::Admission(AdmissionError::UnknownIncarnation))
            },
            Some(mut page) => {
                page.close();
                self.pages.claims.insert(incarnation.0, page);
                match self.admission.close(incarnation) {
                    Err(error) => Err(ArenaError::Admission(error)),
                    Ok(()) => {
                        proof {
                            let after = ProducerState {
                                pages: start.pages.with_claims(
                                    incarnation.0,
                                    start.pages.claims[incarnation.0].closed(),
                                ),
                                accounts: start.accounts.closed(incarnation),
                                ..start
                            };
                            assert(self@.pages.claims =~= after.pages.claims);
                            assert(self@ == after);
                            self.admission.accounts_are_consistent();
                            assert(start.claim_proper(incarnation.0));
                            assert(start.cleanup.contains_key(incarnation.0));
                            assert(after.cleanup =~= start.cleanup.insert(
                                incarnation.0,
                                after.cleanup[incarnation.0],
                            ));
                            lemma_one_page(start, after, incarnation.0);
                        }
                        Ok(())
                    },
                }
            },
        }
    }
}

impl<T: ReleaseTimeline> ArenaProducer<T> {
    /// Refreshes completions and returns credit released since the previous call. Publication
    /// and admission call this too. Consumer shutdown never clears a pending claim.
    pub fn poll_cleanup(&mut self, now: u128) -> (result: usize)
        requires
            old(self).wf(),
        ensures
            final(self).wf(),
            exists|answers: Map<u64, Seq<TimelineAnswer>>|
                {
                    &&& old(self)@.complete_look(now, answers)
                    &&& final(self)@ == #[trigger] old(self)@.cleaned(now, answers)
                    &&& result == saturated(total(old(self)@.released(now, answers)))
                },
    {
        let (released, answers) = self.observe_all(now);
        self.collect_quiescent();
        self.collect_retired_allocations();
        assert(self@ == old(self)@.cleaned(now, answers@));
        released
    }

    /// Polls shutdown without inferring retirement from closure or timeout. True means that
    /// all admitted mappings, leases and retired allocations have drained. The owner can
    /// then destroy this arena's remaining allocation.
    pub fn poll_shutdown_ready(&mut self, now: u128) -> (result: bool)
        requires
            old(self).wf(),
        ensures
            final(self).wf(),
            exists|answers: Map<u64, Seq<TimelineAnswer>>|
                {
                    &&& old(self)@.complete_look(now, answers)
                    &&& final(self)@ == #[trigger] old(self)@.cleaned(now, answers)
                },
            result == (final(self)@.pages.control.terminal != 0
                && final(self)@.pages.claims.is_empty() && final(self)@.retired.len() == 0),
    {
        self.poll_cleanup(now);
        proof {
            assert(self.pages.claims@.is_empty() == self@.pages.claims.is_empty()) by {
                assert(self@.pages.claims.dom() =~= self.pages.claims@.dom());
            }
        }
        self.pages.control.terminal() != 0 && self.pages.claims.is_empty() && self.retired.len()
            == 0
    }
}

impl<T> ArenaProducer<T> {
    /// Persistent recovery failures of the incarnations, each once, by ascending incarnation.
    pub fn cleanup_failures(&self) -> (result: Vec<CleanupFailure>)
        requires
            self.wf(),
        ensures
            forall|i: int|
                0 <= i < result@.len() ==> {
                    let failure = #[trigger] result@[i];
                    &&& self@.cleanup.contains_key(failure.incarnation.0)
                    &&& self@.cleanup[failure.incarnation.0].failure_reason(
                        self@.pages.claims[failure.incarnation.0],
                    ) == Some(failure.reason@)
                },
            forall|id: u64| #[trigger]
                self@.cleanup.contains_key(id) && self@.cleanup[id].failure_reason(
                    self@.pages.claims[id],
                ) is Some ==> exists|i: int|
                    0 <= i < result@.len() && #[trigger] result@[i].incarnation.0 == id,
            forall|i: int, j: int|
                0 <= i < j < result@.len() ==> (#[trigger] result@[i]).incarnation.0 < (
                #[trigger] result@[j]).incarnation.0,
    {
        let ids = keys_of(&self.cleanup);
        let mut failures: Vec<CleanupFailure> = Vec::new();
        let mut i: usize = 0;
        proof {
            assert(self@.cleanup.dom() =~= self.cleanup@.dom());
            assert(self@.pages.claims.dom() =~= self.pages.claims@.dom());
        }
        while i < ids.len()
            invariant
                self.wf(),
                ascending(ids@),
                ids@.to_set() == self.cleanup@.dom(),
                self.cleanup@.dom() == self.pages.claims@.dom(),
                i <= ids@.len(),
                forall|k: int|
                    0 <= k < failures@.len() ==> {
                        let failure = #[trigger] failures@[k];
                        &&& self@.cleanup.contains_key(failure.incarnation.0)
                        &&& self@.cleanup[failure.incarnation.0].failure_reason(
                            self@.pages.claims[failure.incarnation.0],
                        ) == Some(failure.reason@)
                    },
                forall|k: int, j: int|
                    0 <= k < failures@.len() && i <= j < ids@.len() ==> (
                    #[trigger] failures@[k]).incarnation.0 < #[trigger] ids@[j],
                forall|j: int|
                    0 <= j < i && self@.cleanup[#[trigger] ids@[j]].failure_reason(
                        self@.pages.claims[ids@[j]],
                    ) is Some ==> exists|k: int|
                        0 <= k < failures@.len() && #[trigger] failures@[k].incarnation.0 == ids@[j],
                forall|a: int, b: int|
                    0 <= a < b < failures@.len() ==> (#[trigger] failures@[a]).incarnation.0 < (
                    #[trigger] failures@[b]).incarnation.0,
            decreases ids@.len() - i,
        {
            let id: u64 = ids[i];
            assert(ids@.to_set().contains(id));
            let ghost before = failures@;
            match (self.cleanup.get(&id), self.pages.claims.get(&id)) {
                (Some(state), Some(page)) => {
                    match state.failure_reason(page) {
                        Some(reason) => {
                            failures.push(
                                CleanupFailure { incarnation: IncarnationId(id), reason },
                            );
                            proof {
                                assert(failures@[failures@.len() - 1].incarnation.0 == id);
                                assert forall|k: int| 0 <= k < before.len() implies failures@[k]
                                    == before[k] by {}
                                assert forall|j: int|
                                    0 <= j < i + 1 && self@.cleanup[
                                        #[trigger] ids@[j]
                                    ].failure_reason(
                                        self@.pages.claims[ids@[j]],
                                    ) is Some implies exists|k: int|
                                    0 <= k < failures@.len() && #[trigger] failures@[k].incarnation.0
                                        == ids@[j] by {
                                    if j < i {
                                        let k = choose|k: int|
                                            0 <= k < before.len()
                                                && #[trigger] before[k].incarnation.0 == ids@[j];
                                        assert(failures@[k].incarnation.0 == ids@[j]);
                                    }
                                }
                            }
                        },
                        None => {},
                    }
                },
                _ => {},
            }
            i = i + 1;
        }
        proof {
            assert forall|id: u64| #[trigger]
                self@.cleanup.contains_key(id) && self@.cleanup[id].failure_reason(
                    self@.pages.claims[id],
                ) is Some implies exists|k: int|
                0 <= k < failures@.len() && #[trigger] failures@[k].incarnation.0 == id by {
                assert(ids@.to_set().contains(id));
                let j = choose|j: int| 0 <= j < ids@.len() && ids@[j] == id;
                assert(ids@[j] == id);
            }
        }
        failures
    }

    /// Takes note of what the system says of an incarnation's watched process.
    pub fn observe_process(&mut self, incarnation: IncarnationId, exit: ProcessExit)
        requires
            old(self).wf(),
            old(self)@.cleanup.contains_key(incarnation.0),
        ensures
            final(self).wf(),
            ({
                let id = incarnation.0;
                let seen = old(self)@.cleanup[id].saw_process(old(self)@.pages.claims[id], exit);
                final(self)@ == (ProducerState {
                    pages: old(self)@.pages.with_claims(id, seen.1),
                    cleanup: old(self)@.cleanup.insert(id, seen.0),
                    ..old(self)@
                })
            }),
    {
        let id: u64 = incarnation.0;
        let ghost start = self@;
        let ghost claims = self.pages.claims@;
        let ghost states = self.cleanup@;
        proof {
            self.admission.accounts_are_consistent();
            assert(start.cleanup.dom() =~= states.dom());
            assert(start.pages.claims.dom() =~= claims.dom());
            assert(start.pages.claims.contains_key(id));
            assert(start.claim_proper(id));
            claims[id].page_is_shaped();
        }
        match (self.cleanup.remove(&id), self.pages.claims.remove(&id)) {
            (Some(mut state), Some(mut page)) => {
                state.observe_process(&mut page, exit);
                proof {
                    page.page_is_shaped();
                    lemma_saw_process_keeps(
                        start.cleanup[id],
                        start.pages.claims[id],
                        exit,
                        start.accounts.reservations[id].frames as nat,
                    );
                }
                self.cleanup.insert(id, state);
                self.pages.claims.insert(id, page);
                proof {
                    let seen = start.cleanup[id].saw_process(start.pages.claims[id], exit);
                    let after = ProducerState {
                        pages: start.pages.with_claims(id, seen.1),
                        cleanup: start.cleanup.insert(id, seen.0),
                        ..start
                    };
                    assert(self@.pages.claims =~= after.pages.claims);
                    assert(self@.cleanup =~= after.cleanup);
                    assert(self@ == after);
                    assert(after.accounts.reservations =~= start.accounts.reservations.insert(
                        id,
                        after.accounts.reservations[id],
                    ));
                    lemma_one_page(start, after, id);
                }
            },
            _ => {
                assert(false);
            },
        }
    }

    /// Retries observing a retained completion source after the host repaired its backend.
    /// This neither reopens acquisition nor force-releases any claim.
    pub fn retry_cleanup(&mut self, incarnation: IncarnationId) -> (result: Result<(), ArenaError>)
        requires
            old(self).wf(),
        ensures
            final(self).wf(),
            ({
                let id = incarnation.0;
                let known = old(self)@.cleanup.contains_key(id);
                let observation = old(self)@.cleanup[id];
                let page = old(self)@.pages.claims[id];
                let again = Observation { failure: None, ..observation };
                &&& !known ==> result == Err::<(), ArenaError>(
                    ArenaError::Admission(AdmissionError::UnknownIncarnation),
                ) && final(self)@ == old(self)@
                &&& known && observation.notification_failed ==> {
                    &&& result matches Err(ArenaError::Notification(why)) && why@
                        == "release observation channel failed; claims remain quarantined"@
                    &&& final(self)@ == old(self)@
                }
                &&& known && !observation.notification_failed ==> {
                    &&& final(self)@ == (ProducerState {
                        pages: old(self)@.pages.with_claims(
                            id,
                            (ClaimPage { release_wake: true, ..page }),
                        ),
                        cleanup: old(self)@.cleanup.insert(id, again),
                        ..old(self)@
                    })
                    &&& match again.failure_reason(page) {
                        None => result is Ok,
                        Some(why) => result matches Err(ArenaError::RecoveryRequired { reason })
                            && reason@ == why,
                    }
                }
            }),
    {
        let id: u64 = incarnation.0;
        let ghost start = self@;
        let ghost claims = self.pages.claims@;
        let ghost states = self.cleanup@;
        proof {
            self.admission.accounts_are_consistent();
            assert(start.cleanup.dom() =~= states.dom());
            assert(start.pages.claims.dom() =~= claims.dom());
        }
        let broken = match self.cleanup.get(&id) {
            None => {
                return Err(ArenaError::Admission(AdmissionError::UnknownIncarnation));
            },
            Some(state) => state.notification_failed(),
        };
        if broken {
            // A backend retry cannot repair a dead notification channel or restart its
            // reader: this recovery failure stays visible.
            return Err(
                ArenaError::Notification(
                    String::from_str(
                        "release observation channel failed; claims remain quarantined",
                    ),
                ),
            );
        }
        proof {
            assert(start.pages.claims.contains_key(id));
            assert(start.claim_proper(id));
            claims[id].page_is_shaped();
        }
        match (self.cleanup.remove(&id), self.pages.claims.remove(&id)) {
            (Some(mut state), Some(mut page)) => {
                state.forget_failure();
                page.signal_release();
                let reason = state.failure_reason(&page);
                self.cleanup.insert(id, state);
                self.pages.claims.insert(id, page);
                proof {
                    page.page_is_shaped();
                    let again = Observation { failure: None, ..start.cleanup[id] };
                    let woken = ClaimPage { release_wake: true, ..start.pages.claims[id] };
                    let after = ProducerState {
                        pages: start.pages.with_claims(id, woken),
                        cleanup: start.cleanup.insert(id, again),
                        ..start
                    };
                    assert(self@.pages.claims =~= after.pages.claims);
                    assert(self@.cleanup =~= after.cleanup);
                    assert(self@ == after);
                    assert(after.accounts.reservations =~= start.accounts.reservations.insert(
                        id,
                        after.accounts.reservations[id],
                    ));
                    lemma_one_page(start, after, id);
                    assert(woken.drained() == start.pages.claims[id].drained());
                }
                match reason {
                    Some(reason) => Err(ArenaError::RecoveryRequired { reason }),
                    None => Ok(()),
                }
            },
            _ => {
                assert(false);
                Ok(())
            },
        }
    }

    /// Imports a consumer's release timeline through setup, before asynchronous use starts.
    /// Registration opts CPU resources into conservative crash handling as well: exit cannot
    /// prove completion. Registrations are bounded by the incarnation's holding.
    pub fn register_release_timeline(&mut self, incarnation: IncarnationId, timeline: T) -> (result:
        Result<ReleaseTimelineRegistration, ArenaError>)
        requires
            old(self).wf(),
        ensures
            final(self).wf(),
            ({
                let id = incarnation.0;
                let page = old(self)@.pages.claims[id];
                let count = old(self)@.cleanup[id].timelines.len();
                if !old(self)@.pages.claims.contains_key(id) {
                    &&& result == Err::<ReleaseTimelineRegistration, ArenaError>(
                        ArenaError::Admission(AdmissionError::UnknownIncarnation),
                    )
                    &&& final(self)@ == old(self)@
                } else if page.active == 0 {
                    &&& result == Err::<ReleaseTimelineRegistration, ArenaError>(ArenaError::Closed)
                    &&& final(self)@ == old(self)@
                } else if count >= page.slots.len() {
                    &&& result matches Err(error) && configuration_error(
                        error,
                        "release timeline capacity equals the holding reservation"@,
                    )
                    &&& final(self)@ == old(self)@
                } else {
                    &&& result == Ok::<ReleaseTimelineRegistration, ArenaError>(
                        ReleaseTimelineRegistration {
                            incarnation: id,
                            scope: page.scope,
                            id: (count + 1) as u64,
                        },
                    )
                    &&& final(self)@ == (ProducerState {
                        pages: old(self)@.pages.with_claims(
                            id,
                            (ClaimPage {
                                registered: page.registered.update(
                                    count as int,
                                    (count + 1) as u64,
                                ),
                                ..page
                            }),
                        ),
                        cleanup: old(self)@.cleanup.insert(
                            id,
                            (Observation {
                                timelines: old(self)@.cleanup[id].timelines.push(timeline),
                                ..old(self)@.cleanup[id]
                            }),
                        ),
                        ..old(self)@
                    })
                }
            }),
    {
        let id: u64 = incarnation.0;
        let ghost start = self@;
        let ghost claims = self.pages.claims@;
        let ghost states = self.cleanup@;
        proof {
            self.admission.accounts_are_consistent();
            assert(start.cleanup.dom() =~= states.dom());
            assert(start.pages.claims.dom() =~= claims.dom());
        }
        let (active, frames): (u64, usize) = match self.pages.claims.get(&id) {
            None => {
                return Err(ArenaError::Admission(AdmissionError::UnknownIncarnation));
            },
            Some(page) => (page.active(), page.frames()),
        };
        proof {
            assert(start.pages.claims.contains_key(id));
            assert(start.claim_proper(id));
            claims[id].page_is_shaped();
        }
        if active == 0 {
            return Err(ArenaError::Closed);
        }
        let count: usize = match self.cleanup.get(&id) {
            Some(state) => state.registered(),
            None => 0,
        };
        if count >= frames {
            return Err(
                ArenaError::Configuration(
                    "release timeline capacity equals the holding reservation",
                ),
            );
        }
        match (self.cleanup.remove(&id), self.pages.claims.remove(&id)) {
            (Some(mut state), Some(mut page)) => {
                let scope = page.scope();
                state.register(timeline);
                page.register_timeline(count, count as u64 + 1);
                self.cleanup.insert(id, state);
                self.pages.claims.insert(id, page);
                proof {
                    page.page_is_shaped();
                    let before = start.pages.claims[id];
                    let after = ProducerState {
                        pages: start.pages.with_claims(
                            id,
                            ClaimPage {
                                registered: before.registered.update(
                                    count as int,
                                    (count + 1) as u64,
                                ),
                                ..before
                            },
                        ),
                        cleanup: start.cleanup.insert(
                            id,
                            Observation {
                                timelines: start.cleanup[id].timelines.push(timeline),
                                ..start.cleanup[id]
                            },
                        ),
                        ..start
                    };
                    assert(self@.pages.claims =~= after.pages.claims);
                    assert(self@.cleanup =~= after.cleanup);
                    assert(self@ == after);
                    assert(after.accounts.reservations =~= start.accounts.reservations.insert(
                        id,
                        after.accounts.reservations[id],
                    ));
                    lemma_one_page(start, after, id);
                }
                Ok(ReleaseTimelineRegistration { incarnation: id, scope, id: count as u64 + 1 })
            },
            _ => {
                assert(false);
                Err(ArenaError::Closed)
            },
        }
    }
}

/// What is taken note of a process keeps the page's owner and shape.
pub proof fn lemma_saw_process_keeps<T>(
    observation: Observation<T>,
    page: ClaimPage,
    exit: ProcessExit,
    frames: nat,
)
    requires
        page.shaped(frames),
    ensures
        same_page(page, observation.saw_process(page, exit).1, frames),
{
    if observation.watched && exit is Exited {
        let left = page.closed().acknowledged();
        lemma_swept_to_keeps(
            Observation { watched: false, ..observation },
            ClaimPage { mappings: Seq::new(page.mappings.len(), |i: int| 0u64), ..left },
            page.slots.len() as int,
            frames,
        );
    }
}

proof fn lemma_swept_to_keeps<T>(
    observation: Observation<T>,
    page: ClaimPage,
    count: int,
    frames: nat,
)
    requires
        page.shaped(frames),
        count <= frames,
    ensures
        same_page(page, observation.swept_to(page, count).1, frames),
    decreases count,
{
    if count > 0 {
        lemma_swept_to_keeps(observation, page, count - 1, frames);
    }
}

/// A change of one claim page that keeps its owner and shape, and of nothing else but what the
/// accounts say of its closure, keeps what every producer state keeps.
pub proof fn lemma_one_page<T>(state: ProducerState<T>, after: ProducerState<T>, id: u64)
    requires
        state.inv(),
        state.pages.claims.contains_key(id),
        after.accounts.inv(),
        after == (ProducerState {
            pages: after.pages,
            accounts: after.accounts,
            cleanup: after.cleanup,
            ..state
        }),
        after.pages == (Pages { claims: after.pages.claims, ..state.pages }),
        after.pages.claims == state.pages.claims.insert(id, after.pages.claims[id]),
        after.cleanup == state.cleanup.insert(id, after.cleanup[id]),
        after.accounts == (Accounts {
            reservations: after.accounts.reservations,
            ..state.accounts
        }),
        after.accounts.reservations == state.accounts.reservations.insert(
            id,
            after.accounts.reservations[id],
        ),
        after.accounts.reservations[id].frames == state.accounts.reservations[id].frames,
        same_page(
            state.pages.claims[id],
            after.pages.claims[id],
            state.accounts.reservations[id].frames as nat,
        ),
        observes(after.cleanup[id], state.accounts.reservations[id].frames as nat),
    ensures
        after.inv(),
{
    assert(after.pages.claims.dom() =~= state.pages.claims.dom());
    assert(after.cleanup.dom() =~= state.cleanup.dom());
    assert(after.accounts.reservations.dom() =~= state.accounts.reservations.dom());
    assert forall|k: u64| #[trigger] after.pages.claims.contains_key(k) implies after.claim_proper(
        k,
    ) by {
        assert(state.pages.claims.contains_key(k));
        assert(state.claim_proper(k));
    }
    assert forall|g: u64| #[trigger] after.pages.resources.contains_key(g) implies after.resource_proper(
        g,
    ) by {
        assert(state.resource_proper(g));
    }
    if state.current is Some {
        let g = state.current->0;
        assert forall|c: u64| #[trigger] after.retains(c) implies acquirable(
            after.pages.control,
            after.pages.resources[g],
            c,
        ) by {
            assert(state.retains(c));
        }
    }
}

/// Destroying unused storage keeps what every producer state keeps.
pub proof fn lemma_reclaimed<T>(state: ProducerState<T>)
    requires
        state.inv(),
        state.reclaimed().accounts.inv(),
    ensures
        state.reclaimed().inv(),
{
    let after = state.reclaimed();
    let keep = |retired: RetiredAllocation| state.retained(retired);
    assert(after.pages.resources.dom().subset_of(state.pages.resources.dom()));
    assert forall|id: u64| #[trigger] after.pages.claims.contains_key(id) implies after.claim_proper(
        id,
    ) by {
        assert(state.claim_proper(id));
    }
    assert forall|g: u64| #[trigger] after.pages.resources.contains_key(g) implies after.resource_proper(
        g,
    ) by {
        assert(state.pages.resources.contains_key(g));
        assert(state.resource_proper(g));
    }
    lemma_filter_keeps(state.retired, keep);
    assert forall|i: int| 0 <= i < after.retired.len() implies {
        let g = (#[trigger] after.retired[i]).id.0;
        &&& after.pages.resources.contains_key(g)
        &&& after.accounts.allocations.contains_key(g)
        &&& after.current != Some(g)
    } by {
        let k = choose|k: int|
            0 <= k < state.retired.len() && state.retired[k] == after.retired[i] && keep(
                state.retired[k],
            );
        let g = after.retired[i].id.0;
        assert(state.pages.resources.contains_key(state.retired[k].id.0));
        if state.disposable(g) {
            let m = choose|m: int|
                0 <= m < state.retired.len() && (#[trigger] state.retired[m]).id.0 == g
                    && !state.retained(state.retired[m]);
            assert(state.retired[m].id == state.retired[k].id);
        }
    }
    if state.current is Some {
        let g = state.current->0;
        if state.disposable(g) {
            let m = choose|m: int|
                0 <= m < state.retired.len() && (#[trigger] state.retired[m]).id.0 == g
                    && !state.retained(state.retired[m]);
            assert(state.current != Some(state.retired[m].id.0));
        }
        assert(after.pages.resources.contains_key(g));
        assert forall|c: u64| #[trigger] after.retains(c) implies acquirable(
            after.pages.control,
            after.pages.resources[g],
            c,
        ) by {
            assert(state.retains(c));
        }
    }
}

/// What a filter keeps comes from the sequence, and stays distinct if it was.
proof fn lemma_filter_keeps(all: Seq<RetiredAllocation>, keep: spec_fn(RetiredAllocation) -> bool)
    ensures
        forall|i: int|
            0 <= i < all.filter(keep).len() ==> exists|k: int|
                0 <= k < all.len() && all[k] == (#[trigger] all.filter(keep)[i]) && keep(all[k]),
        (forall|i: int, j: int|
            0 <= i < j < all.len() ==> (#[trigger] all[i]).id != (#[trigger] all[j]).id) ==> forall|
            i: int,
            j: int,
        |
            0 <= i < j < all.filter(keep).len() ==> (#[trigger] all.filter(keep)[i]).id != (
            #[trigger] all.filter(keep)[j]).id,
    decreases all.len(),
{
    reveal(Seq::filter);
    if all.len() > 0 {
        let rest = all.drop_last();
        lemma_filter_keeps(rest, keep);
        let kept = rest.filter(keep);
        assert forall|i: int| 0 <= i < all.filter(keep).len() implies exists|k: int|
            0 <= k < all.len() && all[k] == (#[trigger] all.filter(keep)[i]) && keep(all[k]) by {
            if i < kept.len() {
                assert(all.filter(keep)[i] == kept[i]);
                let k = choose|k: int| 0 <= k < rest.len() && rest[k] == kept[i] && keep(rest[k]);
                assert(all[k] == all.filter(keep)[i]);
            } else {
                assert(all[all.len() - 1] == all.filter(keep)[i]);
            }
        }
        if forall|i: int, j: int|
            0 <= i < j < all.len() ==> (#[trigger] all[i]).id != (#[trigger] all[j]).id {
            assert forall|i: int, j: int| 0 <= i < j < rest.len() implies (
            #[trigger] rest[i]).id != (#[trigger] rest[j]).id by {
                assert(all[i].id != all[j].id);
            }
            assert forall|i: int, j: int| 0 <= i < j < all.filter(keep).len() implies (
            #[trigger] all.filter(keep)[i]).id != (#[trigger] all.filter(keep)[j]).id by {
                assert(all.filter(keep)[i] == kept[i]);
                if j < kept.len() {
                    assert(all.filter(keep)[j] == kept[j]);
                } else {
                    let k = choose|k: int|
                        0 <= k < rest.len() && rest[k] == kept[i] && keep(rest[k]);
                    assert(all[k].id != all[all.len() - 1].id);
                }
            }
        }
    }
}

/// An incarnation has been looked at, with these answers, and its count taken.
pub open spec fn looked<T: ReleaseTimeline>(
    observation: Observation<T>,
    page: ClaimPage,
    after: Observation<T>,
    page_after: ClaimPage,
    now: u128,
    answers: Seq<TimelineAnswer>,
) -> bool {
    let polled = observation.polled(page, now, answers);
    &&& page_after == polled.1
    &&& after == (Observation { released: 0, ..polled.0 })
    &&& observation.complete_look(page, now, answers)
}

/// A look at every incarnation keeps what every producer state keeps.
pub proof fn lemma_observed<T: ReleaseTimeline>(state: ProducerState<T>, now: u128, answers: Map<u64, Seq<TimelineAnswer>>)
    requires
        state.inv(),
        state.complete_look(now, answers),
    ensures
        state.observed(now, answers).inv(),
{
    let after = state.observed(now, answers);
    assert(after.pages.claims.dom() =~= state.pages.claims.dom());
    assert(after.cleanup.dom() =~= state.cleanup.dom());
    assert forall|id: u64| #[trigger] after.pages.claims.contains_key(id) implies after.claim_proper(
        id,
    ) by {
        assert(state.pages.claims.contains_key(id));
        assert(state.claim_proper(id));
        assert(state.cleanup.contains_key(id));
        lemma_polled_keeps(
            state.cleanup[id],
            state.pages.claims[id],
            now,
            answers[id],
            state.accounts.reservations[id].frames as nat,
        );
    }
    assert forall|g: u64| #[trigger] after.pages.resources.contains_key(g) implies after.resource_proper(
        g,
    ) by {
        assert(state.resource_proper(g));
    }
    if state.current is Some {
        let g = state.current->0;
        assert forall|c: u64| #[trigger] after.retains(c) implies acquirable(
            after.pages.control,
            after.pages.resources[g],
            c,
        ) by {
            assert(state.retains(c));
        }
    }
}

} // verus!
