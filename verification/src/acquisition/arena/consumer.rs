//! A consumer: it acquires frames through the shared pages alone, and owns what it acquired
//! until it gives it back.

use super::claims::{first_free, ClaimPage};
use super::cleanup::Armed;
use super::grants::{ConsumerGrant, GrantTerms};
use super::holding::{Acquisition, ConsumerState, LeaseTerms, Mapping, Pending};
use super::mapping::{check_resource_header, resource_header};
use super::pages::ArenaPages;
use super::wait::{snapshot, WaitEvents};
use super::{configuration_error, mapping_error, state_word, ArenaError, FrameDescriptor, ScopeId};
use crate::acquisition::IncarnationId;
use vstd::prelude::*;

pub mod configuration;
pub mod retirement;
pub mod waiting;

verus! {

/// A completion source that is bound to a registration, and what tells it from others.
pub struct Source<T> {
    pub identity: u64,
    pub timeline: T,
}

/// One consumer incarnation on its own side: the installed mapping, the leases and what waits
/// for a completion. It outlives the consumer itself until the last lease and the last
/// completion are gone.
pub struct ArenaConsumer<T> {
    incarnation: IncarnationId,
    arena_scope: ScopeId,
    claim_scope: ScopeId,
    recipient_pid: u32,
    page_size: i64,
    alive: bool,
    installed: Option<Mapping>,
    held: Vec<Option<Mapping>>,
    pending: Vec<Option<Pending>>,
    armed: Vec<Option<Armed>>,
    sources: Vec<Option<Source<T>>>,
    closed: bool,
    failure: Option<String>,
    drain_timeout: u128,
    deadline: Option<u128>,
    serial: u64,
    wake: bool,
}

impl<T> View for ArenaConsumer<T> {
    type V = ConsumerState<T>;

    closed spec fn view(&self) -> ConsumerState<T> {
        ConsumerState {
            incarnation: self.incarnation,
            arena_scope: self.arena_scope,
            claim_scope: self.claim_scope,
            recipient_pid: self.recipient_pid,
            alive: self.alive,
            installed: self.installed,
            held: self.held@,
            pending: self.pending@,
            armed: self.armed@,
            bound: self.sources@,
            closed: self.closed,
            failure: match self.failure {
                Some(reason) => Some(reason@),
                None => None,
            },
            drain_timeout: self.drain_timeout,
            deadline: self.deadline,
            serial: self.serial,
            wake: self.wake,
            page_size: self.page_size,
        }
    }
}

/// A lease of one frame. Whoever owns it may read the frame's bytes; it ends when it is
/// released, or when the completion that it is handed to comes.
pub struct FrameLease {
    terms: LeaseTerms,
}

impl View for FrameLease {
    type V = LeaseTerms;

    closed spec fn view(&self) -> LeaseTerms {
        self.terms
    }
}

pub enum AcquireOutcome {
    Frame(FrameLease),
    Empty,
    Miss { cursor: u64 },
    Gap { first: u64, last: u64 },
    HoldingLimit,
    Reconfiguration,
    Closed,
}

/// What an attempt to acquire came to.
pub open spec fn outcome_is(
    result: Result<AcquireOutcome, ArenaError>,
    expected: Acquisition,
) -> bool {
    match expected {
        Acquisition::Frame(terms) => result matches Ok(AcquireOutcome::Frame(lease)) && lease@
            == terms,
        Acquisition::Empty => result matches Ok(AcquireOutcome::Empty),
        Acquisition::Miss { cursor } => result matches Ok(AcquireOutcome::Miss { cursor: missed })
            && missed == cursor,
        Acquisition::Gap { first, last } => result matches Ok(
            AcquireOutcome::Gap { first: from, last: to },
        ) && from == first && to == last,
        Acquisition::HoldingLimit => result matches Ok(AcquireOutcome::HoldingLimit),
        Acquisition::Reconfiguration => result matches Ok(AcquireOutcome::Reconfiguration),
        Acquisition::Closed => result matches Ok(AcquireOutcome::Closed),
        Acquisition::Refused(why) => result matches Err(error) && mapping_error(error, why),
    }
}

/// A consumer that holds nothing yet.
pub open spec fn fresh_consumer<T>(terms: GrantTerms, page_size: i64) -> ConsumerState<T> {
    ConsumerState {
        incarnation: terms.incarnation,
        arena_scope: terms.arena_scope,
        claim_scope: terms.claim_scope,
        recipient_pid: terms.recipient_pid,
        alive: true,
        installed: Some(
            Mapping {
                generation: terms.generation,
                slot: terms.mapping_slot,
                layout: terms.layout,
            },
        ),
        held: Seq::new(terms.frames as nat, |i: int| None::<Mapping>),
        pending: Seq::new(terms.frames as nat, |i: int| None::<Pending>),
        armed: Seq::new(terms.frames as nat, |i: int| None::<Armed>),
        bound: Seq::new(terms.frames as nat, |i: int| None::<Source<T>>),
        closed: false,
        failure: None,
        drain_timeout: terms.drain_timeout,
        deadline: None,
        serial: 0,
        wake: false,
        page_size,
    }
}

/// Whether the shared pages are those that a grant names.
pub open spec fn grant_agrees(pages: ArenaPages, terms: GrantTerms) -> bool {
    let id = terms.incarnation.0;
    &&& pages@.control.scope == terms.arena_scope
    &&& pages@.control.ring.len() == terms.layout.history
    &&& pages@.resources.contains_key(terms.generation)
    &&& resource_header(
        pages@.resources[terms.generation].layout,
        pages@.resources[terms.generation].scope,
        pages@.resources[terms.generation].generation,
    ) == resource_header(terms.layout, terms.arena_scope, terms.generation)
    &&& pages@.claims.contains_key(id)
    &&& pages@.claims[id].incarnation == terms.incarnation
    &&& pages.claims@[id].spec_frames() == terms.frames
    &&& pages.claims@[id].spec_len() == terms.claim_len
    &&& pages@.claims[id].recipient_pid == terms.recipient_pid
    &&& terms.mapping_slot < terms.frames + 2
}

/// Why a grant is refused, in the order in which the reasons are looked at.
pub open spec fn grant_disagrees(error: ArenaError, pages: ArenaPages, terms: GrantTerms) -> bool {
    if pages@.control.scope != terms.arena_scope || pages@.control.ring.len()
        != terms.layout.history {
        mapping_error(error, "control header disagrees with grant"@)
    } else if !pages@.resources.contains_key(terms.generation) || resource_header(
        pages@.resources[terms.generation].layout,
        pages@.resources[terms.generation].scope,
        pages@.resources[terms.generation].generation,
    ) != resource_header(terms.layout, terms.arena_scope, terms.generation) {
        mapping_error(error, "arena header disagrees with grant"@)
    } else {
        !grant_agrees(pages, terms) && mapping_error(error, "claim header disagrees with grant"@)
    }
}

impl<T> ArenaConsumer<T> {
    /// The tables cover the holding.
    pub closed spec fn wf(self) -> bool {
        &&& self@.inv(self.page_size as int)
        &&& self.held@.len() + 2 <= usize::MAX
    }

    /// The page size that layouts are rounded to.
    pub open spec fn spec_page_size(self) -> int {
        self@.page_size as int
    }

    /// The page size that layouts are rounded to.
    pub fn page_size(&self) -> (result: i64)
        ensures
            result == self.spec_page_size(),
    {
        self.page_size
    }

    /// A well-formed consumer's state is consistent.
    pub proof fn state_is_consistent(self)
        requires
            self.wf(),
        ensures
            self@.inv(self.spec_page_size()),
    {
    }

    /// The consumer's own mappings are still there.
    pub open spec fn attached(self, pages: ArenaPages) -> bool {
        let id = self@.incarnation.0;
        &&& pages.wf()
        &&& pages.claims@.contains_key(id)
        &&& pages.claims@[id].spec_frames() == self@.frames()
        &&& self@.installed matches Some(mapping) ==> {
            &&& pages.resources@.contains_key(mapping.generation)
            &&& pages.resources@[mapping.generation]@.layout == mapping.layout
        }
    }

    /// Takes a grant. A grant that the pages contradict is abandoned.
    pub fn from_grant(grant: ConsumerGrant, pages: &mut ArenaPages, page_size: i64) -> (result: Result<
        Self,
        ArenaError,
    >)
        requires
            old(pages).wf(),
            grant@.layout.consistent(page_size as int),
        ensures
            match result {
                Ok(consumer) => {
                    &&& grant_agrees(*old(pages), grant@)
                    &&& consumer.wf()
                    &&& consumer.attached(*final(pages))
                    &&& consumer@ == fresh_consumer::<T>(grant@, page_size)
                    &&& final(pages)@ == old(pages)@.with_claims(
                        grant@.incarnation.0,
                        (ClaimPage {
                            offered: 0,
                            ..old(pages)@.claims[grant@.incarnation.0]
                        }),
                    )
                },
                Err(error) => {
                    &&& grant_disagrees(error, *old(pages), grant@)
                    &&& final(pages).wf()
                    &&& final(pages)@ == old(pages)@.abandoned(grant@)
                },
            },
    {
        let terms = grant.terms();
        let id: u64 = terms.incarnation.0;
        let ghost before = pages.claims@;
        if pages.control.scope() != terms.arena_scope || pages.control.history()
            != terms.layout.history {
            proof {
                pages.control.ring_is_history();
            }
            grant.abandon(pages);
            return Err(ArenaError::Mapping("control header disagrees with grant"));
        }
        proof {
            pages.control.ring_is_history();
            assert(pages@.resources.dom() =~= pages.resources@.dom());
            assert(pages@.claims.dom() =~= pages.claims@.dom());
        }
        let layout = match pages.resources.get(&terms.generation) {
            None => {
                grant.abandon(pages);
                return Err(ArenaError::Mapping("arena header disagrees with grant"));
            },
            Some(map) => {
                match check_resource_header(
                    &map.header(),
                    &terms.layout,
                    terms.arena_scope,
                    terms.generation,
                ) {
                    Ok(()) => map.layout(),
                    Err(error) => {
                        grant.abandon(pages);
                        return Err(error);
                    },
                }
            },
        };
        let agrees = match pages.claims.get(&id) {
            None => false,
            Some(page) => page.incarnation() == terms.incarnation && page.frames() as u64
                == terms.frames as u64 && page.len() == terms.claim_len && page.recipient_pid()
                == terms.recipient_pid && terms.mapping_slot as u64 <= terms.frames as u64 + 1,
        };
        if !agrees {
            grant.abandon(pages);
            return Err(ArenaError::Mapping("claim header disagrees with grant"));
        }
        match pages.claims.remove(&id) {
            None => {
                assert(false);
                return Err(ArenaError::Mapping("claim header disagrees with grant"));
            },
            Some(mut page) => {
                proof {
                    page.page_is_shaped();
                }
                page.set_offered(0);
                pages.claims.insert(id, page);
            },
        }
        let mut held: Vec<Option<Mapping>> = Vec::new();
        let mut pending: Vec<Option<Pending>> = Vec::new();
        let mut armed: Vec<Option<Armed>> = Vec::new();
        let mut sources: Vec<Option<Source<T>>> = Vec::new();
        let frames: usize = terms.frames as usize;
        while held.len() < frames
            invariant
                held@.len() <= frames,
                pending@.len() == held@.len(),
                armed@.len() == held@.len(),
                sources@.len() == held@.len(),
                forall|i: int| 0 <= i < held@.len() ==> (#[trigger] held@[i]) is None,
                forall|i: int| 0 <= i < held@.len() ==> (#[trigger] pending@[i]) is None,
                forall|i: int| 0 <= i < held@.len() ==> (#[trigger] armed@[i]) is None,
                forall|i: int| 0 <= i < held@.len() ==> (#[trigger] sources@[i]) is None,
            decreases frames - held@.len(),
        {
            held.push(None);
            pending.push(None);
            armed.push(None);
            sources.push(None);
        }
        let consumer = ArenaConsumer {
            incarnation: terms.incarnation,
            arena_scope: terms.arena_scope,
            claim_scope: terms.claim_scope,
            recipient_pid: terms.recipient_pid,
            page_size,
            alive: true,
            installed: Some(
                Mapping {
                    generation: terms.generation,
                    slot: terms.mapping_slot,
                    layout: terms.layout,
                },
            ),
            held,
            pending,
            armed,
            sources,
            closed: false,
            failure: None,
            drain_timeout: terms.drain_timeout,
            deadline: None,
            serial: 0,
            wake: false,
        };
        proof {
            let fresh = fresh_consumer::<T>(grant@, page_size);
            assert(consumer@.held =~= fresh.held);
            assert(consumer@.pending =~= fresh.pending);
            assert(consumer@.armed =~= fresh.armed);
            assert(consumer@.bound =~= fresh.bound);
            assert(pages@.claims =~= old(pages)@.with_claims(
                id,
                (ClaimPage { offered: 0, ..old(pages)@.claims[id] }),
            ).claims);
            assert(layout == terms.layout);
        }
        Ok(consumer)
    }

    /// Takes a grant of an external pool of that many resources.
    pub fn from_native_grant(
        grant: ConsumerGrant,
        slots: usize,
        pages: &mut ArenaPages,
        page_size: i64,
    ) -> (result: Result<Self, ArenaError>)
        requires
            old(pages).wf(),
            grant@.layout.consistent(page_size as int),
        ensures
            match result {
                Ok(consumer) => {
                    &&& grant@.layout.payload_capacity == 0 && grant@.layout.resources == slots
                    &&& grant_agrees(*old(pages), grant@)
                    &&& consumer.wf()
                    &&& consumer.attached(*final(pages))
                    &&& consumer@ == fresh_consumer::<T>(grant@, page_size)
                    &&& final(pages)@ == old(pages)@.with_claims(
                        grant@.incarnation.0,
                        (ClaimPage {
                            offered: 0,
                            ..old(pages)@.claims[grant@.incarnation.0]
                        }),
                    )
                },
                Err(error) => {
                    &&& if grant@.layout.payload_capacity != 0 || grant@.layout.resources != slots {
                        mapping_error(
                            error,
                            "native resource setup disagrees with current mapping"@,
                        )
                    } else {
                        grant_disagrees(error, *old(pages), grant@)
                    }
                    &&& final(pages).wf()
                    &&& final(pages)@ == old(pages)@.abandoned(grant@)
                },
            },
    {
        let layout = grant.terms().layout;
        if layout.payload_capacity != 0 || layout.resources != slots {
            grant.abandon(pages);
            return Err(ArenaError::Mapping("native resource setup disagrees with current mapping"));
        }
        Self::from_grant(grant, pages, page_size)
    }

    #[must_use]
    pub fn incarnation(&self) -> (result: IncarnationId)
        ensures
            result == self@.incarnation,
    {
        self.incarnation
    }

    /// What tells the consumer's claim page from every other.
    #[must_use]
    pub fn claim_scope(&self) -> (result: ScopeId)
        ensures
            result == self@.claim_scope,
    {
        self.claim_scope
    }

    /// What tells the consumer's arena from every other.
    #[must_use]
    pub fn arena_scope(&self) -> (result: ScopeId)
        ensures
            result == self@.arena_scope,
    {
        self.arena_scope
    }

    /// Whether acquisition is over.
    #[must_use]
    pub fn is_closed(&self, pages: &ArenaPages) -> (result: bool)
        requires
            self.attached(*pages),
        ensures
            result == self@.shut(pages@),
    {
        let active: u64 = match pages.claims.get(&self.incarnation.0) {
            Some(page) => page.active(),
            None => 0,
        };
        active == 0 || pages.control.terminal() != 0
    }

    /// Whether the mapping is the installed resource generation.
    #[must_use]
    pub fn is_configured(&self, pages: &ArenaPages) -> (result: bool)
        requires
            self.attached(*pages),
        ensures
            result == self@.configured(pages@),
    {
        match self.installed {
            Some(mapping) => mapping.generation == pages.control.configuration(),
            None => false,
        }
    }

    /// A snapshot of everything that a wait compares.
    #[must_use]
    pub fn events(&self, pages: &ArenaPages) -> (result: WaitEvents)
        requires
            self.attached(*pages),
        ensures
            result == snapshot(pages@.control, pages@.claims[self@.incarnation.0]),
    {
        let (capacity_epoch, active): (u64, u64) = match pages.claims.get(&self.incarnation.0) {
            Some(page) => (page.capacity_epoch(), page.active()),
            None => (0, 0),
        };
        WaitEvents {
            data_cursor: pages.control.latest(),
            capacity_epoch,
            reconfiguration_epoch: pages.control.epoch(),
            closed: active == 0 || pages.control.terminal() != 0,
        }
    }

    /// First step of an acquisition: what the ring advertises for a cursor.
    pub fn select(&self, pages: &ArenaPages, cursor: u64) -> (result: Result<usize, ArenaError>)
        requires
            self.attached(*pages),
            self@.installed is Some,
            cursor != 0,
        ensures
            ({
                let position = pages@.control.ring[pages@.control.position(cursor)];
                let resources = (self@.installed->0).layout.resources;
                if position == 0 || position > resources {
                    result matches Err(error) && mapping_error(
                        error,
                        "advertised resource index is invalid"@,
                    )
                } else {
                    result == Ok::<usize, ArenaError>((position - 1) as usize)
                }
            }),
    {
        let resources: usize = match self.installed {
            Some(mapping) => mapping.layout.resources,
            None => 0,
        };
        let advertised: u64 = pages.control.ring(cursor);
        if advertised == 0 || advertised > resources as u64 {
            return Err(ArenaError::Mapping("advertised resource index is invalid"));
        }
        Ok(advertised as usize - 1)
    }

    /// Second step: the claim is published in a free slot, if there is one.
    pub fn claim(&mut self, pages: &mut ArenaPages, cursor: u64) -> (result: Option<usize>)
        requires
            old(self).wf(),
            old(self).attached(*old(pages)),
            old(self)@.installed is Some,
        ensures
            final(self).wf(),
            final(self).attached(*final(pages)),
            ({
                let id = old(self)@.incarnation.0;
                let free = first_free(old(pages)@.claims[id].slots);
                match result {
                    Some(slot) => {
                        &&& free == Some(slot as int)
                        &&& slot < old(self)@.frames()
                        &&& final(pages)@ == old(pages)@.with_claims(
                            id,
                            old(pages)@.claims[id].taken(slot as int, cursor),
                        )
                        &&& final(self)@ == old(self)@.claimed_in(slot as int)
                    },
                    None => {
                        &&& free is None
                        &&& final(pages)@ == old(pages)@
                        &&& final(self)@ == old(self)@
                    },
                }
            }),
    {
        let id: u64 = self.incarnation.0;
        let ghost before = pages.claims@;
        let slot = match pages.claims.remove(&id) {
            Some(mut page) => {
                let slot = page.take(cursor);
                pages.claims.insert(id, page);
                slot
            },
            None => None,
        };
        match slot {
            Some(slot) => {
                self.held.set(slot, self.installed);
                proof {
                    assert(self@ =~= old(self)@.claimed_in(slot as int));
                    assert(pages@.claims =~= old(pages)@.with_claims(
                        id,
                        old(pages)@.claims[id].taken(slot as int, cursor),
                    ).claims);
                }
            },
            None => {
                assert(pages@.claims =~= old(pages)@.claims);
            },
        }
        slot
    }

    /// Third step: whether the advertised resource still holds the claimed frame. Successful
    /// validation makes the acquisition, on condition of the checks that follow. Descriptor
    /// bytes are never read before this point.
    pub fn validate(&self, pages: &ArenaPages, cursor: u64, index: usize) -> (result: bool)
        requires
            self.attached(*pages),
            self@.installed matches Some(mapping) && index < mapping.layout.resources,
        ensures
            result == (pages@.resources[(self@.installed->0).generation].records[index as int].state
                == state_word(cursor, true)),
    {
        match self.installed {
            Some(mapping) => match pages.resources.get(&mapping.generation) {
                Some(map) => {
                    let state: u64 = map.state(index);
                    state % 2 == 1 && state / 2 == cursor
                },
                None => false,
            },
            None => false,
        }
    }

    /// Gives a claimed slot back while the consumer still has the mapping.
    fn give_back(&mut self, pages: &mut ArenaPages, slot: usize)
        requires
            old(self).wf(),
            old(self).attached(*old(pages)),
            slot < old(self)@.frames(),
        ensures
            final(self).wf(),
            final(self).attached(*final(pages)),
            final(self)@ == old(self)@.gave_back(slot),
            final(pages)@ == old(pages)@.with_claims(
                old(self)@.incarnation.0,
                old(pages)@.claims[old(self)@.incarnation.0].credited(slot as int),
            ),
    {
        let id: u64 = self.incarnation.0;
        match pages.claims.remove(&id) {
            Some(mut page) => {
                page.return_credit(slot);
                pages.claims.insert(id, page);
            },
            None => {},
        }
        self.held.set(slot, None);
        proof {
            assert(self@ =~= old(self)@.gave_back(slot));
            assert(pages@.claims =~= old(pages)@.with_claims(
                id,
                old(pages)@.claims[id].credited(slot as int),
            ).claims);
        }
    }

    /// Last step: what the claimed and validated resource gives. A claim that comes to nothing
    /// returns its credit.
    pub fn finish(
        &mut self,
        pages: &mut ArenaPages,
        cursor: u64,
        index: usize,
        slot: usize,
        valid: bool,
    ) -> (result: Result<AcquireOutcome, ArenaError>)
        requires
            old(self).wf(),
            old(self).attached(*old(pages)),
            old(self)@.installed matches Some(mapping) && index < mapping.layout.resources,
            slot < old(self)@.frames(),
            old(self)@.held[slot as int] == old(self)@.installed,
        ensures
            final(self).wf(),
            final(self).attached(*final(pages)),
            ({
                let (state, left, outcome) = old(self)@.concluded(
                    old(pages)@,
                    cursor,
                    index,
                    slot,
                    valid,
                );
                final(self)@ == state && final(pages)@ == left && outcome_is(result, outcome)
            }),
    {
        if !valid {
            self.give_back(pages, slot);
            return Ok(AcquireOutcome::Miss { cursor });
        }
        if self.is_closed(pages) {
            self.give_back(pages, slot);
            return Ok(AcquireOutcome::Closed);
        }
        if !self.is_configured(pages) {
            self.give_back(pages, slot);
            return Ok(AcquireOutcome::Reconfiguration);
        }
        let mapping = match self.installed {
            Some(mapping) => mapping,
            None => {
                assert(false);
                return Ok(AcquireOutcome::Reconfiguration);
            },
        };
        let descriptor = match pages.resources.get(&mapping.generation) {
            Some(map) => map.descriptor(index),
            None => FrameDescriptor::default(),
        };
        assert(mapping.layout.consistent(self.page_size as int));
        if descriptor.cursor != cursor || descriptor.payload_offset
            != mapping.layout.payload_offset(index) as u64 || descriptor.payload_len
            > mapping.layout.payload_capacity as u64 {
            self.give_back(pages, slot);
            return Err(
                ArenaError::Mapping("leased descriptor contradicts resource identity or bounds"),
            );
        }
        Ok(
            AcquireOutcome::Frame(
                FrameLease { terms: LeaseTerms { descriptor, slot, index, mapping } },
            ),
        )
    }

    /// A further last step for a consumer of native resources: what their owner finds of the
    /// descriptor of a lease that was just acquired. A descriptor that it refuses fails the
    /// acquisition, and the credit is returned.
    pub fn finish_native(
        &mut self,
        pages: &mut ArenaPages,
        lease: FrameLease,
        verdict: Result<(), ArenaError>,
    ) -> (result: Result<AcquireOutcome, ArenaError>)
        requires
            old(self).wf(),
            old(self).attached(*old(pages)),
            old(self)@.holds(lease@),
            old(self)@.installed == Some(lease@.mapping),
        ensures
            final(self).wf(),
            final(self).attached(*final(pages)),
            match verdict {
                Ok(()) => {
                    &&& outcome_is(result, Acquisition::Frame(lease@))
                    &&& final(self)@ == old(self)@
                    &&& final(pages)@ == old(pages)@
                },
                Err(error) => {
                    let id = old(self)@.incarnation.0;
                    &&& result == Err::<AcquireOutcome, ArenaError>(error)
                    &&& final(self)@ == old(self)@.gave_back(lease@.slot)
                    &&& final(pages)@ == old(pages)@.with_claims(
                        id,
                        old(pages)@.claims[id].credited(lease@.slot as int),
                    )
                },
            },
    {
        match verdict {
            Ok(()) => Ok(AcquireOutcome::Frame(lease)),
            Err(error) => {
                let slot: usize = lease.terms().slot;
                self.give_back(pages, slot);
                Err(error)
            },
        }
    }

    /// Acquires one cursor, once the resources are configured.
    fn acquire(&mut self, pages: &mut ArenaPages, cursor: u64) -> (result: Result<
        AcquireOutcome,
        ArenaError,
    >)
        requires
            old(self).wf(),
            old(self).attached(*old(pages)),
            old(self)@.installed is Some,
            cursor != 0,
        ensures
            final(self).wf(),
            final(self).attached(*final(pages)),
            ({
                let (state, after, outcome) = old(self)@.acquired(old(pages)@, cursor);
                final(self)@ == state && final(pages)@ == after && outcome_is(result, outcome)
            }),
    {
        let index: usize = match self.select(pages, cursor) {
            Ok(index) => index,
            Err(error) => {
                return Err(error);
            },
        };
        let slot: usize = match self.claim(pages, cursor) {
            Some(slot) => slot,
            None => {
                return Ok(AcquireOutcome::HoldingLimit);
            },
        };
        let ghost id = old(self)@.incarnation.0;
        let ghost claimed = old(pages)@.claims[id].taken(slot as int, cursor);
        let valid = self.validate(pages, cursor, index);
        let result = self.finish(pages, cursor, index, slot, valid);
        proof {
            let (state, after, outcome) = old(self)@.acquired(old(pages)@, cursor);
            assert(pages@.claims =~= after.claims);
            assert(pages@ == after);
        }
        result
    }

    /// The newest frame after a cursor, if there is one.
    pub fn acquire_latest(&mut self, pages: &mut ArenaPages, after: u64) -> (result: Result<
        AcquireOutcome,
        ArenaError,
    >)
        requires
            old(self).wf(),
            old(self).attached(*old(pages)),
        ensures
            final(self).wf(),
            final(self).attached(*final(pages)),
            ({
                let (state, left, outcome) = old(self)@.acquired_latest(old(pages)@, after);
                final(self)@ == state && final(pages)@ == left && outcome_is(result, outcome)
            }),
    {
        let cursor: u64 = pages.control.latest();
        if self.is_closed(pages) {
            return Ok(AcquireOutcome::Closed);
        }
        if !self.is_configured(pages) {
            return Ok(AcquireOutcome::Reconfiguration);
        }
        if cursor == 0 || cursor <= after || cursor < pages.control.first_cursor() {
            return Ok(AcquireOutcome::Empty);
        }
        self.acquire(pages, cursor)
    }

    /// The oldest cursor that is still advertised.
    fn oldest(&self, pages: &ArenaPages) -> (result: u64)
        requires
            pages.wf(),
        ensures
            result == self@.oldest(pages@.control),
    {
        proof {
            pages.control.ring_is_not_empty();
            pages.control.ring_is_history();
        }
        let latest: u64 = pages.control.latest();
        let protected: u64 = pages.control.history() as u64 - 1;
        let oldest: u64 = if latest > protected {
            latest - protected
        } else {
            0
        };
        let first: u64 = pages.control.first_cursor();
        if oldest < first {
            first
        } else {
            oldest
        }
    }

    /// Ordered retained delivery. `after == 0` starts at the oldest advertised frame. A gap
    /// names published cursors, not pre-publication drops. The caller may acknowledge a
    /// gap by continuing after its `last` cursor.
    pub fn acquire_next(&mut self, pages: &mut ArenaPages, after: u64) -> (result: Result<
        AcquireOutcome,
        ArenaError,
    >)
        requires
            old(self).wf(),
            old(self).attached(*old(pages)),
            old(self)@.cursors_start_at_one(old(pages)@.control, after),
        ensures
            final(self).wf(),
            final(self).attached(*final(pages)),
            ({
                let (state, left, outcome) = old(self)@.acquired_next(old(pages)@, after);
                final(self)@ == state && final(pages)@ == left && outcome_is(result, outcome)
            }),
    {
        let latest: u64 = pages.control.latest();
        if self.is_closed(pages) {
            return Ok(AcquireOutcome::Closed);
        }
        if !self.is_configured(pages) {
            return Ok(AcquireOutcome::Reconfiguration);
        }
        if latest == 0 || after >= latest {
            return Ok(AcquireOutcome::Empty);
        }
        let oldest: u64 = self.oldest(pages);
        let cursor: u64 = if after == 0 {
            oldest
        } else {
            after + 1
        };
        if cursor < oldest {
            return Ok(AcquireOutcome::Gap { first: cursor, last: oldest - 1 });
        }
        if cursor > latest {
            return Ok(AcquireOutcome::Empty);
        }
        self.acquire(pages, cursor)
    }

    /// Tries precisely this cursor. Retirement or a concurrent ring wrap is a miss and never
    /// silently substitutes a more recent frame.
    pub fn acquire_exact(&mut self, pages: &mut ArenaPages, cursor: u64) -> (result: Result<
        AcquireOutcome,
        ArenaError,
    >)
        requires
            old(self).wf(),
            old(self).attached(*old(pages)),
        ensures
            final(self).wf(),
            final(self).attached(*final(pages)),
            if cursor == 0 {
                &&& result matches Err(error) && configuration_error(
                    error,
                    "frame cursors start at one"@,
                )
                &&& final(self)@ == old(self)@
                &&& final(pages)@ == old(pages)@
            } else {
                let (state, left, outcome) = old(self)@.acquired_exact(old(pages)@, cursor);
                final(self)@ == state && final(pages)@ == left && outcome_is(result, outcome)
            },
    {
        if cursor == 0 {
            return Err(ArenaError::Configuration("frame cursors start at one"));
        }
        let latest: u64 = pages.control.latest();
        if self.is_closed(pages) {
            return Ok(AcquireOutcome::Closed);
        }
        if !self.is_configured(pages) {
            return Ok(AcquireOutcome::Reconfiguration);
        }
        if cursor > latest {
            return Ok(AcquireOutcome::Empty);
        }
        if cursor < self.oldest(pages) {
            return Ok(AcquireOutcome::Miss { cursor });
        }
        self.acquire(pages, cursor)
    }
}

impl FrameLease {
    #[must_use]
    pub fn cursor(&self) -> (result: u64)
        ensures
            result == self@.descriptor.cursor,
    {
        self.terms.descriptor.cursor
    }

    #[must_use]
    pub fn descriptor(&self) -> (result: &FrameDescriptor)
        ensures
            *result == self@.descriptor,
    {
        &self.terms.descriptor
    }

    /// The frame's bytes. The lease's claim keeps the producer from writing them.
    #[must_use]
    pub fn bytes<'a>(&self, pages: &'a ArenaPages) -> (result: &'a [u8])
        requires
            pages.wf(),
            pages@.resources.contains_key(self@.mapping.generation),
            self@.index < pages@.resources[self@.mapping.generation].layout.resources,
        ensures
            result@ == pages@.resources[self@.mapping.generation].records[self@.index as int].payload,
    {
        let generation: u64 = self.terms.mapping.generation;
        assert(pages.resources@.contains_key(generation));
        match pages.resources.get(&generation) {
            Some(map) => map.payload(self.terms.index),
            None => {
                assert(false);
                &[]
            },
        }
    }

    /// What the lease names.
    pub(crate) fn terms(&self) -> (result: LeaseTerms)
        ensures
            result == self@,
    {
        self.terms
    }
}

} // verus!
