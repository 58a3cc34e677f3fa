//! Admission of consumers: the reservation comes first, then the claim page, and a failed
//! setup returns everything.

use super::ArenaProducer;
use crate::acquisition::arena::claims::{ClaimMap, ClaimPage};
use crate::acquisition::arena::cleanup::{
    Armed, Observation, ObservationState, ReleaseTimeline, TimelineAnswer,
};
use crate::acquisition::arena::grants::{ConsumerGrant, GrantTerms, RemoteConsumerGrant};
use crate::acquisition::arena::layout::{
    claim_bytes, claim_len, length_fits, length_refused, rounded_up, whole_pages_hold_whole_words,
};
use crate::acquisition::arena::pages::ArenaPages;
use crate::acquisition::arena::state::{acquirable, ProducerState};
use crate::acquisition::arena::{ArenaError, ScopeId};
use crate::acquisition::{admission_refusal, Accounts, HoldingRequest, IncarnationId};
use vstd::prelude::*;

verus! {

/// The observation of an incarnation of which nothing has been seen.
pub open spec fn fresh_observation<T>(
    frames: nat,
    native_resources: bool,
    watched: bool,
    drain_timeout: u128,
) -> Observation<T> {
    Observation {
        native_resources,
        watched,
        unresolved: 0,
        drain_timeout,
        deadline: None,
        expired: false,
        timelines: Seq::empty(),
        armed: Seq::new(frames, |i: int| None::<Armed>),
        failure: None,
        notification_failed: false,
        released: 0,
        serial: 0,
    }
}

impl<T> ProducerState<T> {
    /// What a holding asks of the admission book.
    pub open spec fn holding_request(self, holding: u32) -> HoldingRequest {
        HoldingRequest {
            frames: holding,
            claim_bytes: rounded_up(claim_bytes(holding as int), self.page_size as int) as u64,
        }
    }

    /// A setup that failed: the identity is used up, and nothing stays charged.
    pub open spec fn rolled_back(self) -> ProducerState<T> {
        ProducerState {
            accounts: Accounts {
                next_incarnation: (self.accounts.next_incarnation + 1) as u64,
                ..self.accounts
            },
            ..self
        }
    }

    /// A consumer that has been admitted, with the installed storage offered to it.
    pub open spec fn attached(
        self,
        holding: u32,
        recipient_pid: u32,
        watched: bool,
        scope: ScopeId,
    ) -> ProducerState<T> {
        let id = self.accounts.next_incarnation;
        let generation = self.current->0;
        let page = ClaimPage {
            offered: generation,
            ..ClaimPage::fresh(IncarnationId(id), holding as nat, scope, recipient_pid).remapped(
                0,
                generation,
            )
        };
        ProducerState {
            pages: self.pages.with_claims(id, page),
            cleanup: self.cleanup.insert(
                id,
                fresh_observation(
                    holding as nat,
                    self.native_resources,
                    watched,
                    self.drain_timeout,
                ),
            ),
            accounts: self.accounts.admitted(self.holding_request(holding)),
            ..self
        }
    }

    /// What the admitted consumer is granted.
    pub open spec fn granted(self, holding: u32, recipient_pid: u32, scope: ScopeId) -> GrantTerms {
        let generation = self.current->0;
        GrantTerms {
            arena_scope: self.pages.control.scope,
            layout: self.pages.resources[generation].layout,
            generation,
            drain_timeout: self.drain_timeout,
            mapping_slot: 0,
            incarnation: IncarnationId(self.accounts.next_incarnation),
            frames: holding,
            claim_scope: scope,
            claim_len: rounded_up(claim_bytes(holding as int), self.page_size as int) as usize,
            recipient_pid,
        }
    }

    /// What admission after a round of cleanup gives.
    pub open spec fn attaches(
        self,
        after: ProducerState<T>,
        holding: u32,
        recipient_pid: u32,
        watched: bool,
        setup: Result<ScopeId, ArenaError>,
        result: Result<GrantTerms, ArenaError>,
    ) -> bool {
        if !length_fits(claim_bytes(holding as int), self.page_size as int) {
            &&& result matches Err(error) && length_refused(
                error,
                claim_bytes(holding as int),
                self.page_size as int,
            )
            &&& after == self
        } else if let Some(why) = admission_refusal(
            self.accounts,
            self.holding_request(holding),
        ) {
            &&& result == Err::<GrantTerms, ArenaError>(ArenaError::Admission(why))
            &&& after == self
        } else {
            match setup {
                Err(error) => {
                    &&& result == Err::<GrantTerms, ArenaError>(error)
                    &&& after == self.rolled_back()
                },
                Ok(scope) => {
                    &&& result == Ok::<GrantTerms, ArenaError>(
                        self.granted(holding, recipient_pid, scope),
                    )
                    &&& after == self.attached(holding, recipient_pid, watched, scope)
                },
            }
        }
    }
}

impl<T: ReleaseTimeline> ProducerState<T> {
    /// What admission of a consumer in another process gives.
    pub open spec fn attaches_process(
        self,
        after: ProducerState<T>,
        holding: u32,
        pid: u32,
        watch: Result<(), ArenaError>,
        setup: Result<ScopeId, ArenaError>,
        now: u128,
        result: Result<GrantTerms, ArenaError>,
    ) -> bool {
        if let Err(error) = watch {
            result == Err::<GrantTerms, ArenaError>(error) && after == self
        } else if self.pages.control.terminal != 0 {
            result == Err::<GrantTerms, ArenaError>(ArenaError::Closed) && after == self
        } else {
            exists|answers: Map<u64, Seq<TimelineAnswer>>|
                {
                    &&& self.complete_look(now, answers)
                    &&& (#[trigger] self.cleaned(now, answers)).attaches(
                        after,
                        holding,
                        pid,
                        true,
                        setup,
                        result,
                    )
                }
        }
    }
}

impl<T: ReleaseTimeline> ProducerState<T> {
    /// What admission of a consumer in this process gives.
    pub open spec fn attaches_local(
        self,
        after: ProducerState<T>,
        holding: u32,
        setup: Result<ScopeId, ArenaError>,
        now: u128,
        result: Result<GrantTerms, ArenaError>,
    ) -> bool {
        if self.pages.control.terminal != 0 {
            result == Err::<GrantTerms, ArenaError>(ArenaError::Closed) && after == self
        } else {
            exists|answers: Map<u64, Seq<TimelineAnswer>>|
                {
                    &&& self.complete_look(now, answers)
                    &&& (#[trigger] self.cleaned(now, answers)).attaches(
                        after,
                        holding,
                        0,
                        false,
                        setup,
                        result,
                    )
                }
        }
    }
}

/// Whether the claim mapping of a grant is as long as the grant says.
pub open spec fn mapped_len(pages: ArenaPages, terms: GrantTerms) -> bool {
    &&& pages.claims@.contains_key(terms.incarnation.0)
    &&& pages.claims@[terms.incarnation.0].spec_len() == terms.claim_len
}

/// What a grant or its refusal is for.
pub open spec fn grant_view(result: Result<ConsumerGrant, ArenaError>) -> Result<
    GrantTerms,
    ArenaError,
> {
    match result {
        Ok(grant) => Ok(grant@),
        Err(error) => Err(error),
    }
}

/// What a grant to another process or its refusal is for.
pub open spec fn remote_view(result: Result<RemoteConsumerGrant, ArenaError>) -> Result<
    GrantTerms,
    ArenaError,
> {
    match result {
        Ok(grant) => Ok(grant@),
        Err(error) => Err(error),
    }
}

/// Admission keeps what every producer state keeps.
proof fn lemma_attached<T>(
    state: ProducerState<T>,
    holding: u32,
    recipient_pid: u32,
    watched: bool,
    scope: ScopeId,
)
    requires
        state.inv(),
        state.current is Some,
        admission_refusal(state.accounts, state.holding_request(holding)) is None,
        state.attached(holding, recipient_pid, watched, scope).accounts.inv(),
    ensures
        state.attached(holding, recipient_pid, watched, scope).inv(),
{
    let id = state.accounts.next_incarnation;
    let after = state.attached(holding, recipient_pid, watched, scope);
    assert(after.pages.claims.dom() =~= after.accounts.reservations.dom());
    assert(after.cleanup.dom() =~= after.accounts.reservations.dom());
    assert forall|k: u64| #[trigger] after.pages.claims.contains_key(k) implies after.claim_proper(
        k,
    ) by {
        if k != id {
            assert(state.pages.claims.contains_key(k));
            assert(state.claim_proper(k));
        }
    }
    assert forall|g: u64| #[trigger] after.pages.resources.contains_key(g) implies after.resource_proper(
        g,
    ) by {
        assert(state.resource_proper(g));
    }
    let g = state.current->0;
    assert forall|c: u64| #[trigger] after.retains(c) implies acquirable(
        after.pages.control,
        after.pages.resources[g],
        c,
    ) by {
        assert(state.retains(c));
    }
}

/// Using up an identity keeps what every producer state keeps.
proof fn lemma_rolled_back<T>(state: ProducerState<T>)
    requires
        state.inv(),
        state.rolled_back().accounts.inv(),
    ensures
        state.rolled_back().inv(),
{
    let after = state.rolled_back();
    assert forall|k: u64| #[trigger] after.pages.claims.contains_key(k) implies after.claim_proper(
        k,
    ) by {
        assert(state.claim_proper(k));
    }
    assert forall|g: u64| #[trigger] after.pages.resources.contains_key(g) implies after.resource_proper(
        g,
    ) by {
        assert(state.resource_proper(g));
    }
    if state.current is Some {
        let g = state.current->0;
        assert forall|c: u64| #[trigger] after.retains(c) implies acquirable(
            after.pages.control,
            after.pages.resources[g],
            c,
        ) by {
            assert(state.retains(c));
        }
    }
}

impl<T: ReleaseTimeline> ArenaProducer<T> {
    /// Admits a consumer in this process. The host creates the claim mapping and its wake
    /// channel; `setup` is the mapping's random scope, or why that failed.
    pub fn attach(&mut self, holding: u32, setup: Result<ScopeId, ArenaError>, now: u128) -> (result:
        Result<ConsumerGrant, ArenaError>)
        requires
            old(self).wf(),
        ensures
            final(self).wf(),
            old(self)@.attaches_local(final(self)@, holding, setup, now, grant_view(result)),
            result matches Ok(grant) ==> mapped_len(final(self).spec_pages(), grant@),
    {
        self.attach_with_recipient(holding, 0, false, setup, now)
    }

    /// Admits a consumer in another process, whose lifetime the host watches from before any
    /// mapping escapes: `watch` is the watch's outcome. The host selects the recipient and
    /// must send this grant only to that process.
    pub fn attach_process(
        &mut self,
        holding: u32,
        pid: u32,
        watch: Result<(), ArenaError>,
        setup: Result<ScopeId, ArenaError>,
        now: u128,
    ) -> (result: Result<RemoteConsumerGrant, ArenaError>)
        requires
            old(self).wf(),
        ensures
            final(self).wf(),
            old(self)@.attaches_process(
                final(self)@,
                holding,
                pid,
                watch,
                setup,
                now,
                remote_view(result),
            ),
    {
        if let Err(error) = watch {
            return Err(error);
        }
        match self.attach_with_recipient(holding, pid, true, setup, now) {
            Ok(grant) => Ok(RemoteConsumerGrant::bind(grant)),
            Err(error) => Err(error),
        }
    }

    fn attach_with_recipient(
        &mut self,
        holding: u32,
        recipient_pid: u32,
        watched: bool,
        setup: Result<ScopeId, ArenaError>,
        now: u128,
    ) -> (result: Result<ConsumerGrant, ArenaError>)
        requires
            old(self).wf(),
        ensures
            final(self).wf(),
            if old(self)@.pages.control.terminal != 0 {
                grant_view(result) == Err::<GrantTerms, ArenaError>(ArenaError::Closed)
                    && final(self)@ == old(self)@
            } else {
                exists|answers: Map<u64, Seq<TimelineAnswer>>|
                    {
                        &&& old(self)@.complete_look(now, answers)
                        &&& (#[trigger] old(self)@.cleaned(now, answers)).attaches(
                            final(self)@,
                            holding,
                            recipient_pid,
                            watched,
                            setup,
                            grant_view(result),
                        )
                    }
            },
            result matches Ok(grant) ==> mapped_len(final(self).spec_pages(), grant@),
    {
        if self.pages.control.terminal() != 0 {
            return Err(ArenaError::Closed);
        }
        self.poll_cleanup(now);
        self.admit_recipient(holding, recipient_pid, watched, setup)
    }
}

impl<T> ArenaProducer<T> {
    /// Admits a consumer after a round of cleanup.
    fn admit_recipient(
        &mut self,
        holding: u32,
        recipient_pid: u32,
        watched: bool,
        setup: Result<ScopeId, ArenaError>,
    ) -> (result: Result<ConsumerGrant, ArenaError>)
        requires
            old(self).wf(),
        ensures
            final(self).wf(),
            old(self)@.attaches(
                final(self)@,
                holding,
                recipient_pid,
                watched,
                setup,
                grant_view(result),
            ),
            result matches Ok(grant) ==> mapped_len(final(self).spec_pages(), grant@),
    {
        let ghost state = self@;
        proof {
            self.admission.accounts_are_consistent();
        }
        let len: usize = match claim_len(holding, self.page_size) {
            Ok(len) => len,
            Err(error) => {
                return Err(error);
            },
        };
        let request = HoldingRequest { frames: holding, claim_bytes: len as u64 };
        let reservation = match self.admission.admit_consumer(request) {
            Ok(reservation) => reservation,
            Err(error) => {
                return Err(ArenaError::Admission(error));
            },
        };
        let incarnation = reservation.incarnation();
        let id: u64 = incarnation.0;
        assert(!state.accounts.reservations.contains_key(id));
        match setup {
            Err(error) => {
                // No mapping has escaped: the reservation is rolled back.
                let closed = self.admission.close(incarnation);
                let cleaned = self.admission.complete_cleanup(incarnation);
                proof {
                    let after = state.rolled_back();
                    assert(self@.accounts.reservations =~= after.accounts.reservations);
                    assert(self@.accounts == after.accounts);
                    assert(self@ == after);
                    self.admission.accounts_are_consistent();
                    lemma_rolled_back(state);
                }
                Err(error)
            },
            Ok(scope) => {
                let generation: u64 = match self.current {
                    Some(generation) => generation,
                    None => 0,
                };
                assert(state.current == Some(generation));
                assert(state.pages.resources.contains_key(generation));
                assert(state.resource_proper(generation));
                let layout = match self.pages.resources.get(&generation) {
                    Some(map) => map.layout(),
                    None => {
                        assert(false);
                        return Err(ArenaError::Closed);
                    },
                };
                proof {
                    whole_pages_hold_whole_words(
                        claim_bytes(holding as int),
                        self.page_size as int,
                    );
                }
                let mut page = ClaimMap::new(incarnation, holding, len, scope, recipient_pid);
                proof {
                    page.page_is_shaped();
                }
                page.set_mapping_slot(0, generation);
                page.set_offered(generation);
                let terms = GrantTerms {
                    arena_scope: self.pages.control.scope(),
                    layout,
                    generation,
                    drain_timeout: self.drain_timeout,
                    mapping_slot: 0,
                    incarnation,
                    frames: holding,
                    claim_scope: scope,
                    claim_len: len,
                    recipient_pid,
                };
                self.cleanup.insert(
                    id,
                    ObservationState::new(
                        holding as usize,
                        self.native_resources,
                        watched,
                        self.drain_timeout,
                    ),
                );
                self.pages.claims.insert(id, page);
                proof {
                    let after = state.attached(holding, recipient_pid, watched, scope);
                    assert(self@.pages.claims =~= after.pages.claims);
                    assert(self@.cleanup =~= after.cleanup);
                    assert(self@ == after);
                    self.admission.accounts_are_consistent();
                    lemma_attached(state, holding, recipient_pid, watched, scope);
                }
                Ok(ConsumerGrant::issue(terms))
            },
        }
    }
}

} // verus!
