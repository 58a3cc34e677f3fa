//! The sole publisher and cleanup owner of an arena.

use std::collections::BTreeMap;

use super::cleanup::ObservationState;
use super::layout::{
    control_len, length_fits, length_refused, resource_bytes, rounded_up,
    whole_pages_hold_whole_words, ResourceLayout, HEADER_LEN, RECORD_LEN,
};
use super::mapping::{ControlMap, ControlPage, Record, ResourceMap, ResourcePage};
use super::pages::{ArenaPages, Pages};
use super::state::{ProducerState, RetiredAllocation};
use super::upkeep::same_page;
use super::{blank_descriptor, configuration_error, ArenaConfig, ArenaError, ScopeId};
use crate::acquisition::{
    limits_fault, Accounts, AdmissionBook, AdmissionError, AdmissionLimits, AllocationId,
};
use crate::totals::total;
use vstd::prelude::*;

pub mod attachment;
pub mod collection;
pub mod configuring;
pub mod observer;
pub mod publication;
pub mod reconfiguration;

verus! {

/// Sole publisher and cleanup owner. `&mut self` serializes admission, resource retirement
/// and publication; consumers work on the shared pages alone.
pub struct ArenaProducer<T> {
    /// What the producer shares with its consumers.
    pages: ArenaPages,
    current: Option<u64>,
    retired: Vec<RetiredAllocation>,
    pending_layout: Option<ResourceLayout>,
    admission: AdmissionBook,
    cursor: u64,
    next_slot: usize,
    cleanup: BTreeMap<u64, ObservationState<T>>,
    native_resources: bool,
    drain_timeout: u128,
    page_size: i64,
}

impl<T> View for ArenaProducer<T> {
    type V = ProducerState<T>;

    closed spec fn view(&self) -> ProducerState<T> {
        ProducerState {
            pages: self.pages@,
            current: self.current,
            retired: self.retired@,
            pending_layout: self.pending_layout,
            accounts: self.admission@,
            cursor: self.cursor,
            next_slot: self.next_slot,
            cleanup: self.cleanup@.map_values(|state: ObservationState<T>| state@),
            native_resources: self.native_resources,
            drain_timeout: self.drain_timeout,
            page_size: self.page_size,
        }
    }
}

/// The layout of a configuration's first resource generation.
pub open spec fn layout_of(config: ArenaConfig, page_size: i64) -> ResourceLayout {
    ResourceLayout {
        resources: config.resource_capacity as usize,
        history: config.retained_history as usize,
        payload_capacity: config.payload_capacity,
        records: HEADER_LEN,
        payload: (HEADER_LEN + config.resource_capacity * RECORD_LEN) as usize,
        len: rounded_up(
            resource_bytes(config.resource_capacity as int, config.payload_capacity as int),
            page_size as int,
        ) as usize,
    }
}

/// What a configuration asks of the admission book.
pub open spec fn limits_of(config: ArenaConfig, page_size: i64, external_bytes: u64) -> AdmissionLimits {
    AdmissionLimits {
        resource_capacity: config.resource_capacity,
        retained_history: config.retained_history,
        producer_reserve: config.producer_reserve,
        allocated_bytes: (layout_of(config, page_size).len + external_bytes) as u64,
        fixed_bytes: rounded_up(HEADER_LEN + config.retained_history * 8, page_size as int) as u64,
        memory_budget: config.memory_budget,
        max_incarnations: config.max_incarnations,
    }
}

/// Whether a configuration gives an arena.
pub open spec fn creatable(config: ArenaConfig, external_bytes: u64, page_size: i64, now: u128) -> bool {
    &&& config.drain_timeout != 0
    &&& now + config.drain_timeout <= u128::MAX
    &&& 0 < config.retained_history < config.resource_capacity
    &&& length_fits(
        resource_bytes(config.resource_capacity as int, config.payload_capacity as int),
        page_size as int,
    )
    &&& length_fits(HEADER_LEN + config.retained_history * 8, page_size as int)
    &&& layout_of(config, page_size).len + external_bytes <= u64::MAX
    &&& limits_fault(limits_of(config, page_size, external_bytes)) is None
}

/// Why a configuration gives no arena, in the order in which the reasons are looked at.
pub open spec fn creation_refused(
    error: ArenaError,
    config: ArenaConfig,
    external_bytes: u64,
    page_size: i64,
    now: u128,
) -> bool {
    let resources = resource_bytes(
        config.resource_capacity as int,
        config.payload_capacity as int,
    );
    let control = HEADER_LEN + config.retained_history * 8;
    if config.drain_timeout == 0 || now + config.drain_timeout > u128::MAX {
        configuration_error(error, "drain interval must be positive and representable"@)
    } else if config.retained_history == 0 || config.resource_capacity <= config.retained_history {
        configuration_error(error, "resources must exceed a nonzero history"@)
    } else if !length_fits(resources, page_size as int) {
        length_refused(error, resources, page_size as int)
    } else if !length_fits(control, page_size as int) {
        length_refused(error, control, page_size as int)
    } else if layout_of(config, page_size).len + external_bytes > u64::MAX {
        configuration_error(error, "allocation byte total overflow"@)
    } else {
        error matches ArenaError::Admission(AdmissionError::InvalidLimits(why)) && limits_fault(
            limits_of(config, page_size, external_bytes),
        ) == Some(why@)
    }
}

/// The accounts of an arena in which nobody is admitted.
pub open spec fn initial_accounts(limits: AdmissionLimits) -> Accounts {
    Accounts {
        limits,
        next_incarnation: 1,
        reservations: Map::empty(),
        allocations: Map::empty().insert(1, limits.allocated_bytes),
        current: Some(AllocationId(1)),
        next_allocation: 2,
        pending: None,
    }
}

/// A resource generation in which nothing is published.
pub open spec fn blank_resources(layout: ResourceLayout, scope: ScopeId, generation: u64) -> ResourcePage {
    ResourcePage {
        layout,
        scope,
        generation,
        records: Seq::new(
            layout.resources as nat,
            |i: int|
                Record { state: 0, descriptor: blank_descriptor(), payload: Seq::<u8>::empty() },
        ),
    }
}

/// The state of an arena in which nothing has happened.
pub open spec fn initial_state<T>(
    config: ArenaConfig,
    external_bytes: u64,
    native_resources: bool,
    page_size: i64,
    scope: ScopeId,
) -> ProducerState<T> {
    ProducerState {
        pages: Pages {
            control: ControlPage {
                scope,
                latest: 0,
                terminal: 0,
                epoch: 0,
                configuration: 1,
                first_cursor: 1,
                ring: Seq::new(config.retained_history as nat, |i: int| 0u64),
            },
            resources: Map::empty().insert(
                1,
                blank_resources(layout_of(config, page_size), scope, 1),
            ),
            claims: Map::empty(),
        },
        current: Some(1),
        retired: Seq::empty(),
        pending_layout: None,
        accounts: initial_accounts(limits_of(config, page_size, external_bytes)),
        cursor: 0,
        next_slot: 0,
        cleanup: Map::empty(),
        native_resources,
        drain_timeout: config.drain_timeout,
        page_size,
    }
}

impl<T> ArenaProducer<T> {
    /// The pages are well formed, the book's counters agree, and the state is consistent.
    pub closed spec fn wf(self) -> bool {
        &&& self.pages.wf()
        &&& self.admission.inv()
        &&& self@.inv()
    }

    /// What the producer shares with its consumers.
    pub closed spec fn spec_pages(self) -> ArenaPages {
        self.pages
    }

    /// A well-formed producer's pages are well formed, and are those of its state.
    pub proof fn pages_are_shared(self)
        requires
            self.wf(),
        ensures
            self.spec_pages().wf(),
            self@.pages == self.spec_pages()@,
    {
    }

    /// What the producer shares with its consumers.
    pub fn shared(&self) -> (result: &ArenaPages)
        ensures
            *result == self.spec_pages(),
    {
        &self.pages
    }

    /// What the producer shares with its consumers, for their steps. A step that leaves every
    /// page its owner and shape leaves the producer well formed.
    pub fn pages(&mut self) -> (result: &mut ArenaPages)
        requires
            old(self).wf(),
        ensures
            *result == old(self).spec_pages(),
            final(self).spec_pages() == *final(result),
            final(self)@ == (ProducerState { pages: final(result)@, ..old(self)@ }),
            final(result).wf() && old(self)@.pages_kept(final(result)@) ==> final(self).wf(),
    {
        proof {
            self.admission.accounts_are_consistent();
            assert forall|pages: Pages| #[trigger] self@.pages_kept(pages) implies (ProducerState {
                pages,
                ..self@
            }).inv() by {
                lemma_pages_kept(self@, pages);
            }
        }
        &mut self.pages
    }

    /// The page size that mappings are rounded to.
    pub fn page_size(&self) -> (result: i64)
        ensures
            result == self@.page_size,
    {
        self.page_size
    }

    /// A well-formed producer's state is consistent.
    pub proof fn state_is_consistent(self)
        requires
            self.wf(),
        ensures
            self@.inv(),
    {
    }

    /// What a configuration is checked for before anything is allocated: its layout and the
    /// book that it gives.
    fn prepare(config: &ArenaConfig, external_bytes: u64, page_size: i64, now: u128) -> (result:
        Result<(ResourceLayout, usize, AdmissionBook), ArenaError>)
        requires
            page_size % 8 == 0,
        ensures
            match result {
                Ok((layout, control, book)) => {
                    &&& creatable(*config, external_bytes, page_size, now)
                    &&& layout == layout_of(*config, page_size)
                    &&& layout.consistent(page_size as int)
                    &&& control == rounded_up(
                        HEADER_LEN + config.retained_history * 8,
                        page_size as int,
                    )
                    &&& control >= HEADER_LEN + config.retained_history * 8
                    &&& control % 8 == 0
                    &&& book.inv()
                    &&& book@ == initial_accounts(
                        limits_of(*config, page_size, external_bytes),
                    )
                },
                Err(error) => creation_refused(error, *config, external_bytes, page_size, now),
            },
    {
        if config.drain_timeout == 0 || now.checked_add(config.drain_timeout).is_none() {
            return Err(
                ArenaError::Configuration("drain interval must be positive and representable"),
            );
        }
        let layout = match ResourceLayout::new(
            config.resource_capacity as usize,
            config.retained_history as usize,
            config.payload_capacity,
            page_size,
        ) {
            Ok(layout) => layout,
            Err(error) => {
                return Err(error);
            },
        };
        let control: usize = match control_len(layout.history, page_size) {
            Ok(len) => len,
            Err(error) => {
                return Err(error);
            },
        };
        proof {
            whole_pages_hold_whole_words(
                HEADER_LEN + config.retained_history * 8,
                page_size as int,
            );
        }
        let allocated: u64 = match (layout.len as u64).checked_add(external_bytes) {
            Some(bytes) => bytes,
            None => {
                return Err(ArenaError::Configuration("allocation byte total overflow"));
            },
        };
        match AdmissionBook::new(
            AdmissionLimits {
                resource_capacity: config.resource_capacity,
                retained_history: config.retained_history,
                producer_reserve: config.producer_reserve,
                allocated_bytes: allocated,
                fixed_bytes: control as u64,
                memory_budget: config.memory_budget,
                max_incarnations: config.max_incarnations,
            },
        ) {
            Ok(book) => Ok((layout, control, book)),
            Err(error) => Err(ArenaError::Admission(error)),
        }
    }

    /// Whether an arena with external storage of that many bytes could be created.
    pub fn validate_external_allocation(
        config: &ArenaConfig,
        external_bytes: u64,
        page_size: i64,
        now: u128,
    ) -> (result: Result<(), ArenaError>)
        requires
            page_size % 8 == 0,
        ensures
            match result {
                Ok(()) => creatable(*config, external_bytes, page_size, now),
                Err(error) => creation_refused(error, *config, external_bytes, page_size, now),
            },
    {
        match Self::prepare(config, external_bytes, page_size, now) {
            Ok(_) => Ok(()),
            Err(error) => Err(error),
        }
    }

    fn create(
        config: ArenaConfig,
        external_bytes: u64,
        native_resources: bool,
        page_size: i64,
        scope: ScopeId,
        now: u128,
    ) -> (result: Result<Self, ArenaError>)
        requires
            page_size % 8 == 0,
        ensures
            match result {
                Ok(producer) => {
                    &&& creatable(config, external_bytes, page_size, now)
                    &&& producer.wf()
                    &&& producer@ == initial_state::<T>(
                        config,
                        external_bytes,
                        native_resources,
                        page_size,
                        scope,
                    )
                },
                Err(error) => creation_refused(error, config, external_bytes, page_size, now),
            },
    {
        let (layout, control, admission): (ResourceLayout, usize, AdmissionBook) =
            match Self::prepare(&config, external_bytes, page_size, now) {
            Ok(prepared) => prepared,
            Err(error) => {
                return Err(error);
            },
        };
        let control_map = ControlMap::new(layout.history, control, scope);
        let mut resources: BTreeMap<u64, ResourceMap> = BTreeMap::new();
        resources.insert(1, ResourceMap::new(layout, scope, 1));
        let producer = ArenaProducer {
            pages: ArenaPages { control: control_map, resources, claims: BTreeMap::new() },
            current: Some(1),
            retired: Vec::new(),
            pending_layout: None,
            admission,
            cursor: 0,
            next_slot: 0,
            cleanup: BTreeMap::new(),
            native_resources,
            drain_timeout: config.drain_timeout,
            page_size,
        };
        proof {
            admission.accounts_are_consistent();
            let expected = initial_state(
                config,
                external_bytes,
                native_resources,
                page_size,
                scope,
            );
            assert(producer@.pages.resources =~= expected.pages.resources);
            assert(producer@.pages.claims =~= expected.pages.claims);
            assert(producer@.cleanup =~= expected.cleanup);
            assert(producer@.retired =~= expected.retired);
            assert(producer@ == expected);
            assert(producer@.resource_proper(1));
            assert(producer@.inv());
        }
        Ok(producer)
    }

    /// A CPU arena. The page size, the scope and the time come from the host.
    pub fn new(config: ArenaConfig, page_size: i64, scope: ScopeId, now: u128) -> (result: Result<
        Self,
        ArenaError,
    >)
        requires
            page_size % 8 == 0,
        ensures
            match result {
                Ok(producer) => {
                    &&& creatable(config, 0, page_size, now)
                    &&& producer.wf()
                    &&& producer@ == initial_state::<T>(config, 0, false, page_size, scope)
                },
                Err(error) => creation_refused(error, config, 0, page_size, now),
            },
    {
        Self::create(config, 0, false, page_size, scope, now)
    }

    /// An arena whose resources live in an external pool of that many bytes.
    pub fn with_external_allocation(
        config: ArenaConfig,
        external_bytes: u64,
        page_size: i64,
        scope: ScopeId,
        now: u128,
    ) -> (result: Result<Self, ArenaError>)
        requires
            page_size % 8 == 0,
        ensures
            match result {
                Ok(producer) => {
                    &&& creatable(config, external_bytes, page_size, now)
                    &&& producer.wf()
                    &&& producer@ == initial_state::<T>(config, external_bytes, true, page_size, scope)
                },
                Err(error) => creation_refused(error, config, external_bytes, page_size, now),
            },
    {
        Self::create(config, external_bytes, true, page_size, scope, now)
    }

    /// Stops publication and admission and closes acquisition. Existing leases and mappings
    /// must still drain; this is not permission to reclaim their bytes.
    pub fn stop(&mut self)
        requires
            old(self).wf(),
        ensures
            final(self).wf(),
            final(self)@ == old(self)@.stopped(),
    {
        self.pages.control.set_terminal();
        self.pages.close_all();
        proof {
            assert(self@ =~= old(self)@.stopped());
            lemma_stopped(old(self)@);
        }
    }
}

impl<T> ProducerState<T> {
    /// Whether the pages differ at most in what consumers write, with every claim page still of
    /// the same owner and shape.
    pub open spec fn pages_kept(self, pages: Pages) -> bool {
        &&& pages.control == self.pages.control
        &&& pages.resources == self.pages.resources
        &&& pages.claims.dom() == self.pages.claims.dom()
        &&& forall|id: u64| #[trigger]
            pages.claims.contains_key(id) ==> same_page(
                self.pages.claims[id],
                pages.claims[id],
                self.accounts.reservations[id].frames as nat,
            )
    }
}

/// Steps of consumers keep what every producer state keeps.
pub proof fn lemma_pages_kept<T>(state: ProducerState<T>, pages: Pages)
    requires
        state.inv(),
        state.pages_kept(pages),
    ensures
        (ProducerState { pages, ..state }).inv(),
{
    let after = ProducerState { pages, ..state };
    assert forall|id: u64| #[trigger] after.pages.claims.contains_key(id) implies after.claim_proper(
        id,
    ) by {
        assert(state.pages.claims.contains_key(id));
        assert(state.claim_proper(id));
    }
    assert forall|g: u64| #[trigger] after.pages.resources.contains_key(g) implies after.resource_proper(
        g,
    ) by {
        assert(state.resource_proper(g));
    }
    if state.current is Some {
        let g = state.current->0;
        assert forall|c: u64| #[trigger] after.retains(c) implies super::state::acquirable(
            after.pages.control,
            after.pages.resources[g],
            c,
        ) by {
            assert(state.retains(c));
        }
    }
}

/// Closing keeps what every producer state keeps.
pub proof fn lemma_stopped<T>(state: ProducerState<T>)
    requires
        state.inv(),
    ensures
        state.stopped().inv(),
{
    let after = state.stopped();
    assert(after.pages.claims.dom() =~= state.pages.claims.dom());
    assert forall|id: u64| #[trigger] after.pages.claims.contains_key(id) implies after.claim_proper(
        id,
    ) by {
        assert(state.pages.claims.contains_key(id));
        assert(state.claim_proper(id));
    }
    assert forall|g: u64| #[trigger] after.pages.resources.contains_key(g) implies after.resource_proper(
        g,
    ) by {
        assert(state.resource_proper(g));
    }
    if state.current is Some {
        let g = state.current->0;
        assert forall|c: u64| #[trigger] after.retains(c) implies super::state::acquirable(
            after.pages.control,
            after.pages.resources[g],
            c,
        ) by {
            assert(state.retains(c));
        }
    }
}

} // verus!
