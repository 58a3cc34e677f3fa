//! Replacement of the resource generation: the old one is withdrawn and retired, its bytes
//! stay charged until nobody uses it, and the new one is reserved before it is allocated.

use super::{blank_resources, lemma_stopped, ArenaProducer};
use crate::acquisition::allocation::start_refusal;
use crate::acquisition::arena::claims::{first_free, ClaimPage, RECONFIGURATION};
use crate::acquisition::arena::cleanup::{ReleaseTimeline, TimelineAnswer};
use crate::acquisition::arena::grants::{ConfigurationGrant, ConfigurationTerms};
use crate::acquisition::arena::layout::{
    length_fits, length_refused, resource_bytes, rounded_up, ResourceLayout, HEADER_LEN, RECORD_LEN,
};
use crate::acquisition::arena::mapping::{ControlPage, ResourceMap};
use crate::acquisition::arena::pages::Pages;
use crate::acquisition::arena::producer::collection::lemma_one_page;
use crate::acquisition::arena::state::{acquirable, record_proper, ProducerState, RetiredAllocation};
use crate::acquisition::arena::{configuration_error, ArenaError};
use crate::acquisition::{Accounts, AdmissionError, AllocationId, IncarnationId, PendingAllocation};
use vstd::prelude::*;

verus! {

#[derive(Debug, Clone, Copy, PartialEq, Eq, Structural)]
pub enum ReconfigurationStatus {
    Ready { generation: u64 },
    PausedCapacity { requested: u64, available: u64 },
}

#[derive(Debug, Clone, Copy, PartialEq, Eq, Structural)]
pub enum ConfigurationInstall {
    Installed,
    Stale,
}

impl<T> ProducerState<T> {
    /// The layout of a replacement with this much inline storage per resource.
    pub open spec fn replaced_layout(self, payload_capacity: usize) -> ResourceLayout {
        ResourceLayout {
            resources: self.resources() as usize,
            history: self.history() as usize,
            payload_capacity,
            records: HEADER_LEN,
            payload: (HEADER_LEN + self.resources() * RECORD_LEN) as usize,
            len: rounded_up(
                resource_bytes(self.resources(), payload_capacity as int),
                self.page_size as int,
            ) as usize,
        }
    }

    /// The current generation is withdrawn and retired, and a replacement is pending.
    pub open spec fn begun(
        self,
        layout: ResourceLayout,
        upper_bound: u64,
        native_pending: bool,
    ) -> ProducerState<T> {
        let g = self.current->0;
        ProducerState {
            pages: Pages {
                control: ControlPage {
                    configuration: 0,
                    first_cursor: (self.cursor + 1) as u64,
                    ..self.pages.control
                },
                resources: self.pages.resources.insert(g, self.pages.resources[g].all_retired()),
                ..self.pages
            },
            retired: self.retired.push(RetiredAllocation { id: AllocationId(g), native_pending }),
            pending_layout: Some(layout),
            current: None,
            accounts: self.accounts.started(upper_bound),
            ..self
        }
    }

    /// Every consumer is told of a change of configuration. The epoch that waiters compare
    /// never repeats: when it runs out the arena closes.
    pub open spec fn told(self) -> (ProducerState<T>, Result<(), ArenaError>) {
        if self.pages.control.epoch == u64::MAX {
            (self.stopped(), Err(ArenaError::GenerationsExhausted))
        } else {
            (
                ProducerState {
                    pages: Pages {
                        control: ControlPage {
                            epoch: (self.pages.control.epoch + 1) as u64,
                            ..self.pages.control
                        },
                        ..self.pages
                    }.each_claims(|page: ClaimPage| page.signalled(RECONFIGURATION)),
                    ..self
                },
                Ok(()),
            )
        }
    }

    /// What starting a replacement gives.
    pub open spec fn begins(
        self,
        after: ProducerState<T>,
        payload_capacity: usize,
        external_bytes: u64,
        native_pending: bool,
        result: Result<(), ArenaError>,
    ) -> bool {
        let bytes = resource_bytes(self.resources(), payload_capacity as int);
        let layout = self.replaced_layout(payload_capacity);
        let bound = layout.len + external_bytes;
        if self.pages.control.terminal != 0 {
            result == Err::<(), ArenaError>(ArenaError::Closed) && after == self
        } else if self.pending_layout is Some {
            result == Err::<(), ArenaError>(
                ArenaError::Admission(AdmissionError::ReconfigurationPending),
            ) && after == self
        } else if !length_fits(bytes, self.page_size as int) {
            &&& result matches Err(error) && length_refused(error, bytes, self.page_size as int)
            &&& after == self
        } else if bound > u64::MAX {
            &&& result matches Err(error) && configuration_error(
                error,
                "replacement allocation byte total overflow"@,
            )
            &&& after == self
        } else if let Some(why) = start_refusal(self.accounts, bound as u64) {
            result == Err::<(), ArenaError>(ArenaError::Admission(why)) && after == self
        } else {
            (after, result) == self.begun(layout, bound as u64, native_pending).told()
        }
    }

    /// A reservation that was returned: its identity is used up.
    pub open spec fn forgone(self) -> ProducerState<T> {
        ProducerState {
            accounts: Accounts {
                next_allocation: (self.accounts.next_allocation + 1) as u64,
                ..self.accounts
            },
            ..self
        }
    }

    /// The replacement is installed at its actual size.
    pub open spec fn replaced(self, bytes: u64) -> ProducerState<T> {
        let generation = self.accounts.next_allocation;
        let layout = self.pending_layout->0;
        ProducerState {
            pages: Pages {
                control: ControlPage { configuration: generation, ..self.pages.control },
                resources: self.pages.resources.insert(
                    generation,
                    blank_resources(layout, self.pages.control.scope, generation),
                ),
                ..self.pages
            },
            current: Some(generation),
            pending_layout: None,
            next_slot: 0,
            accounts: self.accounts.reserved().installed(AllocationId(generation), bytes),
            ..self
        }
    }

    /// What a pending replacement waits for: nothing, capacity, or an identity.
    pub open spec fn held_up(self) -> Option<Result<ReconfigurationStatus, ArenaError>> {
        let bound = (self.accounts.pending->0).upper_bound;
        if self.pending_layout is None {
            Some(Ok(ReconfigurationStatus::Ready { generation: self.pages.control.configuration }))
        } else if bound > self.accounts.free_bytes() {
            Some(
                Ok(
                    ReconfigurationStatus::PausedCapacity {
                        requested: bound,
                        available: self.accounts.free_bytes() as u64,
                    },
                ),
            )
        } else if self.accounts.next_allocation == u64::MAX {
            Some(Err(ArenaError::Admission(AdmissionError::IdsExhausted)))
        } else {
            None
        }
    }

    /// Whether storage of that many external bytes can be installed.
    pub open spec fn installable(self, external_bytes: u64) -> bool {
        let total = (self.pending_layout->0).len + external_bytes;
        0 < total <= u64::MAX && total <= (self.accounts.pending->0).upper_bound
    }

    /// What carrying a replacement on gives, when the storage came out like this.
    pub open spec fn advances<A>(
        self,
        after: ProducerState<T>,
        storage: Result<(A, u64), ArenaError>,
        result: Result<(ReconfigurationStatus, Option<A>), ArenaError>,
    ) -> bool {
        match self.held_up() {
            Some(Ok(status)) => {
                &&& result == Ok::<(ReconfigurationStatus, Option<A>), ArenaError>((status, None))
                &&& after == self
            },
            Some(Err(error)) => {
                &&& result == Err::<(ReconfigurationStatus, Option<A>), ArenaError>(error)
                &&& after == self
            },
            None => match storage {
                Err(error) => {
                    &&& result == Err::<(ReconfigurationStatus, Option<A>), ArenaError>(error)
                    &&& after == self.forgone()
                },
                Ok((external, bytes)) => if self.installable(bytes) {
                    &&& result == Ok::<(ReconfigurationStatus, Option<A>), ArenaError>(
                        (
                            ReconfigurationStatus::Ready {
                                generation: self.accounts.next_allocation,
                            },
                            Some(external),
                        ),
                    )
                    &&& after == self.replaced(((self.pending_layout->0).len + bytes) as u64)
                } else {
                    &&& result == Err::<(ReconfigurationStatus, Option<A>), ArenaError>(
                        ArenaError::Admission(AdmissionError::InvalidAllocationSize),
                    )
                    &&& after == self.forgone()
                },
            },
        }
    }

    /// What carrying a replacement of inline storage on gives: an installation is told to
    /// every consumer.
    pub open spec fn advanced(self) -> (ProducerState<T>, Result<ReconfigurationStatus, ArenaError>) {
        match self.held_up() {
            Some(result) => (self, result),
            None => if self.installable(0) {
                let generation = self.accounts.next_allocation;
                match self.replaced((self.pending_layout->0).len as u64).told() {
                    (after, Ok(())) => (after, Ok(ReconfigurationStatus::Ready { generation })),
                    (after, Err(error)) => (after, Err(error)),
                }
            } else {
                (
                    self.forgone(),
                    Err(ArenaError::Admission(AdmissionError::InvalidAllocationSize)),
                )
            },
        }
    }

    /// The producer's own use of a retired external pool is over.
    pub open spec fn native_done(self, generation: u64) -> ProducerState<T> {
        ProducerState {
            retired: self.retired.map_values(
                |retired: RetiredAllocation|
                    if retired.id.0 == generation {
                        RetiredAllocation { native_pending: false, ..retired }
                    } else {
                        retired
                    },
            ),
            ..self
        }
    }

    /// The storage that is offered to an admitted consumer.
    pub open spec fn offer_terms(self, id: u64, slot: int) -> ConfigurationTerms {
        let page = self.pages.claims[id];
        ConfigurationTerms {
            arena_scope: self.pages.control.scope,
            claim_scope: page.scope,
            incarnation: page.incarnation,
            recipient_pid: page.recipient_pid,
            layout: self.pages.resources[self.current->0].layout,
            generation: self.current->0,
            mapping_slot: slot as usize,
        }
    }

    /// The installed storage is offered to an admitted consumer.
    pub open spec fn offered(self, id: u64, slot: int) -> ProducerState<T> {
        let page = self.pages.claims[id];
        let g = self.current->0;
        ProducerState {
            pages: self.pages.with_claims(
                id,
                ClaimPage { offered: g, ..page.remapped(slot, g) },
            ),
            ..self
        }
    }

    /// What asking for an offer gives.
    pub open spec fn offers(
        self,
        after: ProducerState<T>,
        id: u64,
        result: Result<Option<ConfigurationTerms>, ArenaError>,
    ) -> bool {
        let page = self.pages.claims[id];
        if !self.pages.claims.contains_key(id) {
            &&& result == Err::<Option<ConfigurationTerms>, ArenaError>(
                ArenaError::Admission(AdmissionError::UnknownIncarnation),
            )
            &&& after == self
        } else if page.active == 0 {
            result == Err::<Option<ConfigurationTerms>, ArenaError>(ArenaError::Closed) && after
                == self
        } else if self.current is None || page.offered != 0 {
            result == Ok::<Option<ConfigurationTerms>, ArenaError>(None) && after == self
        } else {
            match first_free(page.mappings) {
                None => {
                    &&& result matches Err(error) && configuration_error(
                        error,
                        "configuration mapping capacity exhausted"@,
                    )
                    &&& after == self
                },
                Some(slot) => {
                    &&& result == Ok::<Option<ConfigurationTerms>, ArenaError>(
                        Some(self.offer_terms(id, slot)),
                    )
                    &&& after == self.offered(id, slot)
                },
            }
        }
    }
}

/// What an offer or its refusal is for.
pub open spec fn offer_view(result: Result<Option<ConfigurationGrant>, ArenaError>) -> Result<
    Option<ConfigurationTerms>,
    ArenaError,
> {
    match result {
        Ok(Some(grant)) => Ok(Some(grant@)),
        Ok(None) => Ok(None),
        Err(error) => Err(error),
    }
}

/// Withdrawing the current generation keeps what every producer state keeps.
pub proof fn lemma_begun<T>(
    state: ProducerState<T>,
    layout: ResourceLayout,
    upper_bound: u64,
    native_pending: bool,
)
    requires
        state.inv(),
        state.current is Some,
        layout.consistent(state.page_size as int),
        layout.resources == state.resources(),
        layout.history == state.history(),
        state.begun(layout, upper_bound, native_pending).accounts.inv(),
    ensures
        state.begun(layout, upper_bound, native_pending).inv(),
{
    let g = state.current->0;
    let after = state.begun(layout, upper_bound, native_pending);
    assert(after.pages.resources.dom() =~= state.pages.resources.dom());
    assert forall|id: u64| #[trigger] after.pages.claims.contains_key(id) implies after.claim_proper(
        id,
    ) by {
        assert(state.claim_proper(id));
    }
    assert forall|k: u64| #[trigger] after.pages.resources.contains_key(k) implies after.resource_proper(
        k,
    ) by {
        assert(state.pages.resources.contains_key(k));
        assert(state.resource_proper(k));
        let old_page = state.pages.resources[k];
        let new_page = after.pages.resources[k];
        assert forall|i: int| 0 <= i < new_page.records.len() implies (
        #[trigger] new_page.records[i]).generation() <= after.cursor && record_proper(
            new_page,
            i,
        ) by {
            assert(old_page.records[i].generation() <= state.cursor && record_proper(old_page, i));
            if k == g {
                assert(new_page.records[i] == old_page.records[i].retired());
            }
        }
    }
    assert(state.accounts.allocations.contains_key(g));
    assert forall|i: int| 0 <= i < after.retired.len() implies {
        let k = (#[trigger] after.retired[i]).id.0;
        &&& after.pages.resources.contains_key(k)
        &&& after.accounts.allocations.contains_key(k)
        &&& after.current != Some(k)
    } by {
        if i < state.retired.len() {
            assert(after.retired[i] == state.retired[i]);
        }
    }
    assert forall|i: int, j: int| 0 <= i < j < after.retired.len() implies (
    #[trigger] after.retired[i]).id != (#[trigger] after.retired[j]).id by {
        assert(after.retired[i] == state.retired[i]);
        if j < state.retired.len() {
            assert(after.retired[j] == state.retired[j]);
        }
    }
}

/// Telling of a change keeps what every producer state keeps.
pub proof fn lemma_told<T>(state: ProducerState<T>)
    requires
        state.inv(),
    ensures
        state.told().0.inv(),
{
    if state.pages.control.epoch == u64::MAX {
        lemma_stopped(state);
    } else {
        let after = state.told().0;
        assert(after.pages.claims.dom() =~= state.pages.claims.dom());
        assert forall|id: u64| #[trigger] after.pages.claims.contains_key(id) implies after.claim_proper(
            id,
        ) by {
            assert(state.pages.claims.contains_key(id));
            assert(state.claim_proper(id));
        }
        assert forall|g: u64| #[trigger] after.pages.resources.contains_key(g) implies after.resource_proper(
            g,
        ) by {
            assert(state.resource_proper(g));
        }
        if state.current is Some {
            let g = state.current->0;
            assert forall|c: u64| #[trigger] after.retains(c) implies acquirable(
                after.pages.control,
                after.pages.resources[g],
                c,
            ) by {
                assert(state.retains(c));
                assert(after.pages.control.position(c) == state.pages.control.position(c));
            }
        }
    }
}

/// Using up an allocation identity keeps what every producer state keeps.
proof fn lemma_forgone<T>(state: ProducerState<T>)
    requires
        state.inv(),
        state.pending_layout is Some,
        state.accounts.next_allocation < u64::MAX,
        state.forgone().accounts.inv(),
    ensures
        state.forgone().inv(),
{
    let after = state.forgone();
    assert forall|id: u64| #[trigger] after.pages.claims.contains_key(id) implies after.claim_proper(
        id,
    ) by {
        assert(state.claim_proper(id));
    }
    assert forall|g: u64| #[trigger] after.pages.resources.contains_key(g) implies after.resource_proper(
        g,
    ) by {
        assert(state.resource_proper(g));
    }
}

/// Installing a replacement keeps what every producer state keeps.
proof fn lemma_replaced<T>(state: ProducerState<T>, bytes: u64)
    requires
        state.inv(),
        state.pending_layout is Some,
        state.accounts.next_allocation < u64::MAX,
        state.replaced(bytes).accounts.inv(),
    ensures
        state.replaced(bytes).inv(),
{
    let after = state.replaced(bytes);
    let generation = state.accounts.next_allocation;
    assert forall|id: u64| #[trigger] after.pages.claims.contains_key(id) implies after.claim_proper(
        id,
    ) by {
        assert(state.claim_proper(id));
    }
    assert forall|g: u64| #[trigger] after.pages.resources.contains_key(g) implies after.resource_proper(
        g,
    ) by {
        if g != generation {
            assert(state.pages.resources.contains_key(g));
            assert(state.resource_proper(g));
        }
    }
    assert forall|i: int| 0 <= i < after.retired.len() implies {
        let k = (#[trigger] after.retired[i]).id.0;
        &&& after.pages.resources.contains_key(k)
        &&& after.accounts.allocations.contains_key(k)
        &&& after.current != Some(k)
    } by {
        assert(state.pages.resources.contains_key(state.retired[i].id.0));
    }
    assert(after.retention(generation));
}

impl<T> ArenaProducer<T> {
    /// Tells every consumer of a change of configuration. Reusing an old epoch could hide a
    /// transition: when epochs run out, acquisition closes without revoking any storage
    /// that is already acquired.
    pub fn signal_reconfiguration(&mut self) -> (result: Result<(), ArenaError>)
        requires
            old(self).wf(),
        ensures
            final(self).wf(),
            (final(self)@, result) == old(self)@.told(),
    {
        proof {
            lemma_told(self@);
        }
        let ghost state = self@;
        let epoch: u64 = self.pages.control.epoch();
        if epoch == u64::MAX {
            self.stop();
            return Err(ArenaError::GenerationsExhausted);
        }
        self.pages.control.set_epoch(epoch + 1);
        self.pages.signal_all(RECONFIGURATION);
        proof {
            let after = state.told().0;
            assert(self@.pages.claims =~= after.pages.claims);
            assert(self@.pages.resources =~= after.pages.resources);
            assert(self@ == after);
        }
        Ok(())
    }

    /// Starts the replacement of an external pool. The retired pool stays until the producer's
    /// own use of it is over as well.
    pub fn begin_native_reconfiguration(&mut self, external_bytes: u64) -> (result: Result<
        (),
        ArenaError,
    >)
        requires
            old(self).wf(),
        ensures
            final(self).wf(),
            if !old(self)@.native_resources {
                &&& result matches Err(error) && configuration_error(
                    error,
                    "native replacement requires an external pool"@,
                )
                &&& final(self)@ == old(self)@
            } else {
                old(self)@.begins(final(self)@, 0, external_bytes, true, result)
            },
    {
        if !self.native_resources {
            return Err(
                ArenaError::Configuration("native replacement requires an external pool"),
            );
        }
        self.begin_reconfiguration(0, external_bytes, true)
    }

    /// Takes note that the producer's own use of a retired external pool is over.
    pub fn complete_native(&mut self, generation: u64)
        requires
            old(self).wf(),
        ensures
            final(self).wf(),
            final(self)@ == old(self)@.native_done(generation),
    {
        let ghost state = self@;
        let ghost change = |retired: RetiredAllocation|
            if retired.id.0 == generation {
                RetiredAllocation { native_pending: false, ..retired }
            } else {
                retired
            };
        let mut i: usize = 0;
        while i < self.retired.len()
            invariant
                *self == (ArenaProducer { retired: self.retired, ..*old(self) }),
                i <= self.retired@.len(),
                self.retired@.len() == old(self).retired@.len(),
                change == (|retired: RetiredAllocation|
                    if retired.id.0 == generation {
                        RetiredAllocation { native_pending: false, ..retired }
                    } else {
                        retired
                    }),
                forall|k: int|
                    0 <= k < i ==> #[trigger] self.retired@[k] == change(old(self).retired@[k]),
                forall|k: int|
                    i <= k < self.retired@.len() ==> #[trigger] self.retired@[k]
                        == old(self).retired@[k],
            decreases self.retired@.len() - i,
        {
            let retired = self.retired[i];
            if retired.id.0 == generation {
                self.retired.set(i, RetiredAllocation { id: retired.id, native_pending: false });
            }
            i = i + 1;
        }
        proof {
            let after = state.native_done(generation);
            assert(self@.retired =~= after.retired);
            assert(self@ == after);
            assert forall|id: u64| #[trigger] after.pages.claims.contains_key(
                id,
            ) implies after.claim_proper(id) by {
                assert(state.claim_proper(id));
            }
            assert forall|g: u64| #[trigger] after.pages.resources.contains_key(
                g,
            ) implies after.resource_proper(g) by {
                assert(state.resource_proper(g));
            }
            assert forall|k: int| 0 <= k < after.retired.len() implies {
                let g = (#[trigger] after.retired[k]).id.0;
                &&& after.pages.resources.contains_key(g)
                &&& after.accounts.allocations.contains_key(g)
                &&& after.current != Some(g)
            } by {
                assert(after.retired[k].id == state.retired[k].id);
            }
            assert forall|a: int, b: int| 0 <= a < b < after.retired.len() implies (
            #[trigger] after.retired[a]).id != (#[trigger] after.retired[b]).id by {
                assert(after.retired[a].id == state.retired[a].id);
                assert(after.retired[b].id == state.retired[b].id);
            }
            if state.current is Some {
                let g = state.current->0;
                assert forall|c: u64| #[trigger] after.retains(c) implies acquirable(
                    after.pages.control,
                    after.pages.resources[g],
                    c,
                ) by {
                    assert(state.retains(c));
                }
            }
        }
    }

    fn begin_reconfiguration(
        &mut self,
        payload_capacity: usize,
        external_bytes: u64,
        native_pending: bool,
    ) -> (result: Result<(), ArenaError>)
        requires
            old(self).wf(),
        ensures
            final(self).wf(),
            old(self)@.begins(
                final(self)@,
                payload_capacity,
                external_bytes,
                native_pending,
                result,
            ),
    {
        let ghost state = self@;
        proof {
            self.admission.accounts_are_consistent();
        }
        if self.pages.control.terminal() != 0 {
            return Err(ArenaError::Closed);
        }
        if self.pending_layout.is_some() {
            return Err(ArenaError::Admission(AdmissionError::ReconfigurationPending));
        }
        let generation: u64 = match self.current {
            Some(generation) => generation,
            None => 0,
        };
        assert(state.current == Some(generation));
        assert(state.pages.resources.contains_key(generation));
        assert(state.resource_proper(generation));
        let old_layout = match self.pages.resources.get(&generation) {
            Some(map) => map.layout(),
            None => {
                assert(false);
                return Err(ArenaError::Closed);
            },
        };
        let layout = match ResourceLayout::new(
            old_layout.resources,
            old_layout.history,
            payload_capacity,
            self.page_size,
        ) {
            Ok(layout) => layout,
            Err(error) => {
                return Err(error);
            },
        };
        assert(layout == state.replaced_layout(payload_capacity));
        let bytes: u64 = match (layout.len as u64).checked_add(external_bytes) {
            Some(bytes) => bytes,
            None => {
                return Err(
                    ArenaError::Configuration("replacement allocation byte total overflow"),
                );
            },
        };
        match self.admission.begin_reconfiguration(bytes) {
            Ok(()) => {},
            Err(error) => {
                return Err(ArenaError::Admission(error));
            },
        }
        self.pages.control.set_configuration(0);
        match self.pages.resources.remove(&generation) {
            Some(mut map) => {
                map.retire_all();
                self.pages.resources.insert(generation, map);
            },
            None => {
                assert(false);
            },
        }
        self.retired.push(
            RetiredAllocation { id: AllocationId(generation), native_pending },
        );
        self.current = None;
        self.pending_layout = Some(layout);
        self.pages.control.set_first_cursor(self.cursor + 1);
        proof {
            let after = state.begun(layout, bytes, native_pending);
            assert(self@.pages.resources =~= after.pages.resources);
            assert(self@.pages.claims =~= after.pages.claims);
            assert(self@.pages.control == after.pages.control);
            assert(self@.retired =~= after.retired);
            assert(self@ == after);
            self.admission.accounts_are_consistent();
            lemma_begun(state, layout, bytes, native_pending);
        }
        self.signal_reconfiguration()
    }

    /// Carries a replacement on after a round of cleanup.
    fn advance<A, F: FnOnce() -> Result<(A, u64), ArenaError>>(&mut self, allocate: F) -> (result:
        Result<(ReconfigurationStatus, Option<A>), ArenaError>)
        requires
            old(self).wf(),
            allocate.requires(()),
        ensures
            final(self).wf(),
            old(self)@.held_up() is Some ==> forall|storage: Result<(A, u64), ArenaError>| #[trigger]
                old(self)@.advances(final(self)@, storage, result),
            old(self)@.held_up() is None ==> exists|storage: Result<(A, u64), ArenaError>|
                allocate.ensures((), storage) && #[trigger] old(self)@.advances(
                    final(self)@,
                    storage,
                    result,
                ),
    {
        let ghost state = self@;
        proof {
            self.admission.accounts_are_consistent();
        }
        let layout = match self.pending_layout {
            Some(layout) => layout,
            None => {
                return Ok(
                    (
                        ReconfigurationStatus::Ready {
                            generation: self.pages.control.configuration(),
                        },
                        None,
                    ),
                );
            },
        };
        assert(state.current is None);
        let allocation = match self.admission.reserve_reconfiguration() {
            Ok(allocation) => allocation,
            Err(AdmissionError::InsufficientMemory { requested, available }) => {
                return Ok(
                    (ReconfigurationStatus::PausedCapacity { requested, available }, None),
                );
            },
            Err(error) => {
                return Err(ArenaError::Admission(error));
            },
        };
        let ghost reserved = self.admission@;
        let storage = allocate();
        let ghost given = storage;
        match storage {
            Err(error) => {
                let abandoned = self.admission.abandon_reconfiguration_allocation();
                proof {
                    self.lemma_abandoned(state);
                    assert(state.advances(
                        self@,
                        given,
                        Err::<(ReconfigurationStatus, Option<A>), ArenaError>(error),
                    ));
                }
                Err(error)
            },
            Ok((external, external_bytes)) => {
                let installed = match (layout.len as u64).checked_add(external_bytes) {
                    Some(bytes) => self.admission.install_reconfiguration(bytes),
                    None => Err(AdmissionError::InvalidAllocationSize),
                };
                match installed {
                    Err(error) => {
                        let abandoned = self.admission.abandon_reconfiguration_allocation();
                        proof {
                            self.lemma_abandoned(state);
                            assert(state.advances(
                                self@,
                                given,
                                Err::<(ReconfigurationStatus, Option<A>), ArenaError>(
                                    ArenaError::Admission(error),
                                ),
                            ));
                        }
                        Err(ArenaError::Admission(error))
                    },
                    Ok(_) => {
                        let map = ResourceMap::new(
                            layout,
                            self.pages.control.scope(),
                            allocation.0,
                        );
                        self.pages.resources.insert(allocation.0, map);
                        self.current = Some(allocation.0);
                        self.pending_layout = None;
                        self.next_slot = 0;
                        self.pages.control.set_configuration(allocation.0);
                        let result: Result<(ReconfigurationStatus, Option<A>), ArenaError> = Ok(
                            (
                                ReconfigurationStatus::Ready { generation: allocation.0 },
                                Some(external),
                            ),
                        );
                        proof {
                            let bytes = (layout.len + external_bytes) as u64;
                            let after = state.replaced(bytes);
                            assert(self@.pages.resources =~= after.pages.resources);
                            assert(self@.pages.claims =~= after.pages.claims);
                            assert(self@.accounts.allocations =~= after.accounts.allocations);
                            assert(self@ == after);
                            self.admission.accounts_are_consistent();
                            lemma_replaced(state, bytes);
                            assert(state.advances(self@, given, result));
                        }
                        result
                    },
                }
            },
        }
    }

    /// A reservation that was returned leaves the book as it was, but for the identity.
    proof fn lemma_abandoned(self, state: ProducerState<T>)
        requires
            state.inv(),
            state.pending_layout is Some,
            state.accounts.next_allocation < u64::MAX,
            self.pages.wf(),
            self.admission.inv(),
            self@ == (ProducerState { accounts: self@.accounts, ..state }),
            self.admission@ == (Accounts {
                allocations: state.accounts.reserved().allocations.remove(
                    state.accounts.next_allocation,
                ),
                pending: Some(
                    PendingAllocation { reserved: None, ..state.accounts.pending->0 },
                ),
                ..state.accounts.reserved()
            }),
        ensures
            self@ == state.forgone(),
            self.wf(),
    {
        self.admission.accounts_are_consistent();
        assert(!state.accounts.allocations.contains_key(state.accounts.next_allocation));
        assert(self@.accounts.allocations =~= state.accounts.allocations);
        assert(self@.accounts == state.forgone().accounts);
        assert(self@ == state.forgone());
        lemma_forgone(state);
    }

    /// Offers the installed storage to an already admitted consumer.
    pub fn configuration_offer(&mut self, incarnation: IncarnationId) -> (result: Result<
        Option<ConfigurationGrant>,
        ArenaError,
    >)
        requires
            old(self).wf(),
        ensures
            final(self).wf(),
            old(self)@.offers(final(self)@, incarnation.0, offer_view(result)),
    {
        let id: u64 = incarnation.0;
        let ghost state = self@;
        let ghost claims = self.pages.claims@;
        proof {
            self.admission.accounts_are_consistent();
            assert(state.pages.claims.dom() =~= claims.dom());
        }
        let (active, offered): (u64, u64) = match self.pages.claims.get(&id) {
            None => {
                return Err(ArenaError::Admission(AdmissionError::UnknownIncarnation));
            },
            Some(page) => (page.active(), page.offered()),
        };
        if active == 0 {
            return Err(ArenaError::Closed);
        }
        let generation: u64 = match self.current {
            None => {
                return Ok(None);
            },
            Some(generation) => generation,
        };
        if offered != 0 {
            return Ok(None);
        }
        assert(state.pages.resources.contains_key(generation));
        let layout = match self.pages.resources.get(&generation) {
            Some(map) => map.layout(),
            None => {
                assert(false);
                return Ok(None);
            },
        };
        let arena_scope = self.pages.control.scope();
        match self.pages.claims.remove(&id) {
            None => {
                assert(false);
                Ok(None)
            },
            Some(mut page) => {
                let slot = page.take_mapping(generation);
                match slot {
                    None => {
                        self.pages.claims.insert(id, page);
                        assert(self.pages@.claims =~= state.pages.claims);
                        assert(self@ == state);
                        Err(ArenaError::Configuration("configuration mapping capacity exhausted"))
                    },
                    Some(mapping_slot) => {
                        page.set_offered(generation);
                        let terms = ConfigurationTerms {
                            arena_scope,
                            claim_scope: page.scope(),
                            incarnation: page.incarnation(),
                            recipient_pid: page.recipient_pid(),
                            layout,
                            generation,
                            mapping_slot,
                        };
                        self.pages.claims.insert(id, page);
                        proof {
                            page.page_is_shaped();
                            let after = state.offered(id, mapping_slot as int);
                            assert(self@.pages.claims =~= after.pages.claims);
                            assert(self@ == after);
                            assert(state.pages.claims.contains_key(id));
                            assert(state.claim_proper(id));
                            assert(state.cleanup.contains_key(id));
                            assert(after.cleanup =~= state.cleanup.insert(id, after.cleanup[id]));
                            assert(after.accounts.reservations
                                =~= state.accounts.reservations.insert(
                                id,
                                after.accounts.reservations[id],
                            ));
                            lemma_one_page(state, after, id);
                        }
                        Ok(Some(ConfigurationGrant::issue(terms)))
                    },
                }
            },
        }
    }
}

impl<T: ReleaseTimeline> ProducerState<T> {
    /// What asking for replaced inline storage gives.
    pub open spec fn reconfigures_cpu(
        self,
        after: ProducerState<T>,
        payload_capacity: usize,
        now: u128,
        result: Result<ReconfigurationStatus, ArenaError>,
    ) -> bool {
        if self.native_resources {
            &&& result matches Err(error) && configuration_error(
                error,
                "CPU reconfiguration cannot replace an external native pool"@,
            )
            &&& after == self
        } else {
            exists|begun: ProducerState<T>, started: Result<(), ArenaError>|
                {
                    &&& #[trigger] self.begins(
                        begun,
                        payload_capacity,
                        0,
                        false,
                        started,
                    )
                    &&& match started {
                        Err(error) => {
                            &&& result == Err::<ReconfigurationStatus, ArenaError>(error)
                            &&& after == begun
                        },
                        Ok(()) => exists|answers: Map<u64, Seq<TimelineAnswer>>|
                            {
                                &&& begun.complete_look(now, answers)
                                &&& (after, result) == (#[trigger] begun.cleaned(
                                    now,
                                    answers,
                                )).advanced()
                            },
                    }
                }
        }
    }
}

impl<T: ReleaseTimeline> ProducerState<T> {
    /// What retrying a replacement of inline storage gives.
    pub open spec fn advances_cpu(
        self,
        after: ProducerState<T>,
        now: u128,
        result: Result<ReconfigurationStatus, ArenaError>,
    ) -> bool {
        if self.native_resources {
            &&& result matches Err(error) && configuration_error(
                error,
                "native replacement requires its pool allocator"@,
            )
            &&& after == self
        } else if self.pages.control.terminal != 0 {
            result == Err::<ReconfigurationStatus, ArenaError>(ArenaError::Closed)
                && after == self
        } else {
            exists|answers: Map<u64, Seq<TimelineAnswer>>|
                {
                    &&& self.complete_look(now, answers)
                    &&& (after, result) == (#[trigger] self.cleaned(
                        now,
                        answers,
                    )).advanced()
                }
        }
    }
}

impl<T: ReleaseTimeline> ArenaProducer<T> {
    /// Replaces inline CPU storage while preserving the holding reservation, history length
    /// and producer reserve. The next publication supplies its complete descriptor.
    /// Allocation is budgeted before creation.
    pub fn reconfigure_cpu(&mut self, payload_capacity: usize, now: u128) -> (result: Result<
        ReconfigurationStatus,
        ArenaError,
    >)
        requires
            old(self).wf(),
        ensures
            final(self).wf(),
            old(self)@.reconfigures_cpu(final(self)@, payload_capacity, now, result),
    {
        if self.native_resources {
            return Err(
                ArenaError::Configuration(
                    "CPU reconfiguration cannot replace an external native pool",
                ),
            );
        }
        let started = self.begin_reconfiguration(payload_capacity, 0, false);
        let ghost begun = self@;
        let ghost seen = started;
        match started {
            Err(error) => {
                assert(old(self)@.begins(begun, payload_capacity, 0, false, seen));
                return Err(error);
            },
            Ok(()) => {},
        }
        assert(begun.pages.control.terminal == 0 && !begun.native_resources);
        let result = self.advance_reconfiguration(now);
        assert(old(self)@.begins(begun, payload_capacity, 0, false, seen));
        result
    }

    /// Retries a capacity-paused transition after old-resource cleanup or a failed
    /// allocation. Publication remains paused until installation.
    pub fn advance_reconfiguration(&mut self, now: u128) -> (result: Result<
        ReconfigurationStatus,
        ArenaError,
    >)
        requires
            old(self).wf(),
        ensures
            final(self).wf(),
            old(self)@.advances_cpu(final(self)@, now, result),
    {
        if self.native_resources {
            return Err(
                ArenaError::Configuration("native replacement requires its pool allocator"),
            );
        }
        if self.pages.control.terminal() != 0 {
            return Err(ArenaError::Closed);
        }
        self.poll_cleanup(now);
        let ghost state = self@;
        let allocate = || -> (storage: Result<((), u64), ArenaError>)
            ensures
                storage == Ok::<((), u64), ArenaError>(((), 0u64)),
            { Ok(((), 0u64)) };
        let advanced = self.advance(allocate);
        proof {
            let storage = Ok::<((), u64), ArenaError>(((), 0u64));
            assert(state.advances(self@, storage, advanced));
        }
        match advanced {
            Err(error) => Err(error),
            Ok((status, None)) => Ok(status),
            Ok((status, Some(_))) => match self.signal_reconfiguration() {
                Ok(()) => Ok(status),
                Err(error) => Err(error),
            },
        }
    }

    /// Carries a replacement on. Maps and backing storage are reserved together before
    /// `allocate` creates them. The external owner is returned to the caller before it
    /// notifies consumers about the installed generation.
    pub fn advance_with_allocation<A, F: FnOnce() -> Result<(A, u64), ArenaError>>(
        &mut self,
        now: u128,
        allocate: F,
    ) -> (result: Result<(ReconfigurationStatus, Option<A>), ArenaError>)
        requires
            old(self).wf(),
            allocate.requires(()),
        ensures
            final(self).wf(),
            if old(self)@.pages.control.terminal != 0 {
                &&& result == Err::<(ReconfigurationStatus, Option<A>), ArenaError>(
                    ArenaError::Closed,
                )
                &&& final(self)@ == old(self)@
            } else {
                exists|answers: Map<u64, Seq<TimelineAnswer>>|
                    {
                        let state = #[trigger] old(self)@.cleaned(now, answers);
                        &&& old(self)@.complete_look(now, answers)
                        &&& state.held_up() is Some ==> forall|
                            storage: Result<(A, u64), ArenaError>,
                        | #[trigger] state.advances(final(self)@, storage, result)
                        &&& state.held_up() is None ==> exists|
                            storage: Result<(A, u64), ArenaError>,
                        |
                            allocate.ensures((), storage) && #[trigger] state.advances(
                                final(self)@,
                                storage,
                                result,
                            )
                    }
            },
    {
        if self.pages.control.terminal() != 0 {
            return Err(ArenaError::Closed);
        }
        self.poll_cleanup(now);
        self.advance(allocate)
    }
}

} // verus!
