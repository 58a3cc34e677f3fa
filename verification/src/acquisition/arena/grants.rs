//! Single-use grants: what a producer hands to one recipient, and what the recipient checks
//! before it maps anything.

use super::claims::{claim_page, ClaimMap, ClaimPage};
use super::layout::{
    claim_bytes, claim_len, control_len, length_fits, length_refused, resource_bytes, rounded_up,
    ResourceLayout, HEADER_LEN,
};
use super::pages::{ArenaPages, Pages};
use super::{configuration_error, mapping_error, ArenaError, ScopeId, VERSION};
use crate::acquisition::IncarnationId;
use vstd::prelude::*;

verus! {

/// What a grant is for.
#[derive(Debug, Clone, Copy, PartialEq, Eq, Structural)]
pub struct GrantTerms {
    pub arena_scope: ScopeId,
    pub layout: ResourceLayout,
    pub generation: u64,
    /// In nanoseconds.
    pub drain_timeout: u128,
    pub mapping_slot: usize,
    pub incarnation: IncarnationId,
    pub frames: u32,
    pub claim_scope: ScopeId,
    pub claim_len: usize,
    /// Zero for an unbound grant; otherwise the admitted recipient process.
    pub recipient_pid: u32,
}

/// An opaque, single-use grant for one incarnation. An unconsumed grant is abandoned, which
/// ends that admission; mapped clients own their own lifetime.
pub struct ConsumerGrant {
    terms: GrantTerms,
}

impl View for ConsumerGrant {
    type V = GrantTerms;

    closed spec fn view(&self) -> GrantTerms {
        self.terms
    }
}

/// Export-only grant for a monitored process. Keeping this separate prevents a local reader
/// from outliving a different process's reclamation proof. Import uses
/// [`ConsumerGrant::from_parts`].
pub struct RemoteConsumerGrant(ConsumerGrant);

impl View for RemoteConsumerGrant {
    type V = GrantTerms;

    closed spec fn view(&self) -> GrantTerms {
        self.0@
    }
}

/// Setup descriptor, sent beside the mappings and the notification channel. Never resend a
/// consumed grant.
#[derive(Debug, Clone, Copy, PartialEq, Eq, Structural)]
pub struct GrantDescriptor {
    pub version: u64,
    pub generation: u64,
    /// In nanoseconds.
    pub drain_timeout: u128,
    pub mapping_slot: u32,
    pub incarnation: u64,
    pub resources: u32,
    pub history: u32,
    pub payload_capacity: u64,
    pub resource_map_len: u64,
    pub control_map_len: u64,
    pub arena_scope: ScopeId,
    pub claim_scope: ScopeId,
    pub holding: u32,
    pub claim_map_len: u64,
    /// Zero for an unbound grant; otherwise the admitted recipient process.
    pub recipient_pid: u32,
}

/// Bytes of the control mapping before rounding.
pub open spec fn control_bytes(history: int) -> int {
    HEADER_LEN + history * 8
}

/// Whether the terms fit the setup descriptor's fields, and the layout its page size.
pub open spec fn exportable(terms: GrantTerms, page_size: i64) -> bool {
    &&& terms.layout.consistent(page_size as int)
    &&& terms.layout.resources <= u32::MAX
    &&& terms.mapping_slot <= u32::MAX
}

/// The setup descriptor of a grant.
pub open spec fn grant_descriptor(terms: GrantTerms, page_size: i64) -> GrantDescriptor {
    GrantDescriptor {
        version: VERSION,
        generation: terms.generation,
        drain_timeout: terms.drain_timeout,
        mapping_slot: terms.mapping_slot as u32,
        incarnation: terms.incarnation.0,
        resources: terms.layout.resources as u32,
        history: terms.layout.history as u32,
        payload_capacity: terms.layout.payload_capacity as u64,
        resource_map_len: terms.layout.len as u64,
        control_map_len: rounded_up(
            control_bytes(terms.layout.history as int),
            page_size as int,
        ) as u64,
        arena_scope: terms.arena_scope,
        claim_scope: terms.claim_scope,
        holding: terms.frames,
        claim_map_len: terms.claim_len as u64,
        recipient_pid: terms.recipient_pid,
    }
}

/// The layout that a setup descriptor names.
pub open spec fn named_layout(
    resources: u32,
    history: u32,
    payload_capacity: u64,
    page_size: i64,
) -> ResourceLayout {
    ResourceLayout {
        resources: resources as usize,
        history: history as usize,
        payload_capacity: payload_capacity as usize,
        records: HEADER_LEN,
        payload: (HEADER_LEN + resources * 256) as usize,
        len: rounded_up(
            resource_bytes(resources as int, payload_capacity as int),
            page_size as int,
        ) as usize,
    }
}

/// Whether a setup descriptor can be taken by this process before anything is mapped.
pub open spec fn grant_fits(
    descriptor: GrantDescriptor,
    now: u128,
    own_pid: u32,
    page_size: i64,
) -> bool {
    let bytes = resource_bytes(descriptor.resources as int, descriptor.payload_capacity as int);
    &&& descriptor.drain_timeout != 0
    &&& now + descriptor.drain_timeout <= u128::MAX
    &&& descriptor.recipient_pid == own_pid
    &&& descriptor.version == VERSION
    &&& descriptor.generation != 0
    &&& descriptor.incarnation != 0
    &&& descriptor.holding != 0
    &&& descriptor.payload_capacity <= usize::MAX
    &&& 0 < descriptor.history < descriptor.resources
    &&& length_fits(bytes, page_size as int)
    &&& length_fits(claim_bytes(descriptor.holding as int), page_size as int)
    &&& length_fits(control_bytes(descriptor.history as int), page_size as int)
    &&& descriptor.resource_map_len == rounded_up(bytes, page_size as int)
    &&& descriptor.claim_map_len == rounded_up(
        claim_bytes(descriptor.holding as int),
        page_size as int,
    )
    &&& descriptor.control_map_len == rounded_up(
        control_bytes(descriptor.history as int),
        page_size as int,
    )
}

/// Why a setup descriptor is refused, in the order in which the reasons are looked at.
pub open spec fn grant_refused(
    error: ArenaError,
    descriptor: GrantDescriptor,
    now: u128,
    own_pid: u32,
    page_size: i64,
) -> bool {
    let bytes = resource_bytes(descriptor.resources as int, descriptor.payload_capacity as int);
    if descriptor.drain_timeout == 0 || now + descriptor.drain_timeout > u128::MAX {
        mapping_error(error, "invalid consumer drain interval"@)
    } else if descriptor.recipient_pid != own_pid {
        mapping_error(error, "grant belongs to a different recipient process"@)
    } else if descriptor.version != VERSION || descriptor.generation == 0 || descriptor.incarnation
        == 0 || descriptor.holding == 0 {
        mapping_error(error, "invalid grant version or incarnation reservation"@)
    } else if descriptor.payload_capacity > usize::MAX {
        mapping_error(error, "payload capacity overflow"@)
    } else if descriptor.history == 0 || descriptor.resources <= descriptor.history {
        configuration_error(error, "resources must exceed a nonzero history"@)
    } else if !length_fits(bytes, page_size as int) {
        length_refused(error, bytes, page_size as int)
    } else if !length_fits(claim_bytes(descriptor.holding as int), page_size as int) {
        length_refused(error, claim_bytes(descriptor.holding as int), page_size as int)
    } else if descriptor.resource_map_len == rounded_up(bytes, page_size as int)
        && descriptor.claim_map_len == rounded_up(
        claim_bytes(descriptor.holding as int),
        page_size as int,
    ) && !length_fits(control_bytes(descriptor.history as int), page_size as int) {
        length_refused(error, control_bytes(descriptor.history as int), page_size as int)
    } else {
        !grant_fits(descriptor, now, own_pid, page_size) && mapping_error(
            error,
            "grant mapping sizes disagree with layout"@,
        )
    }
}

impl GrantDescriptor {
    /// Checks a setup descriptor before anything is mapped.
    pub fn check(&self, now: u128, own_pid: u32, page_size: i64) -> (result: Result<
        ResourceLayout,
        ArenaError,
    >)
        ensures
            match result {
                Ok(layout) => {
                    &&& grant_fits(*self, now, own_pid, page_size)
                    &&& layout == named_layout(
                        self.resources,
                        self.history,
                        self.payload_capacity,
                        page_size,
                    )
                    &&& layout.consistent(page_size as int)
                    &&& claim_bytes(self.holding as int) <= self.claim_map_len <= usize::MAX
                },
                Err(error) => grant_refused(error, *self, now, own_pid, page_size),
            },
    {
        if self.drain_timeout == 0 || now.checked_add(self.drain_timeout).is_none() {
            return Err(ArenaError::Mapping("invalid consumer drain interval"));
        }
        if self.recipient_pid != own_pid {
            return Err(ArenaError::Mapping("grant belongs to a different recipient process"));
        }
        if self.version != VERSION || self.generation == 0 || self.incarnation == 0 || self.holding
            == 0 {
            return Err(ArenaError::Mapping("invalid grant version or incarnation reservation"));
        }
        if self.payload_capacity > usize::MAX as u64 {
            return Err(ArenaError::Mapping("payload capacity overflow"));
        }
        let layout = match ResourceLayout::new(
            self.resources as usize,
            self.history as usize,
            self.payload_capacity as usize,
            page_size,
        ) {
            Ok(layout) => layout,
            Err(error) => {
                return Err(error);
            },
        };
        let claims: usize = match claim_len(self.holding, page_size) {
            Ok(len) => len,
            Err(error) => {
                return Err(error);
            },
        };
        if self.resource_map_len != layout.len as u64 || self.claim_map_len != claims as u64 {
            return Err(ArenaError::Mapping("grant mapping sizes disagree with layout"));
        }
        let control: usize = match control_len(layout.history, page_size) {
            Ok(len) => len,
            Err(error) => {
                return Err(error);
            },
        };
        if self.control_map_len != control as u64 {
            return Err(ArenaError::Mapping("grant mapping sizes disagree with layout"));
        }
        Ok(layout)
    }
}

/// The terms that a recipient takes from a setup descriptor.
pub open spec fn imported_terms(descriptor: GrantDescriptor, page_size: i64) -> GrantTerms {
    GrantTerms {
        arena_scope: descriptor.arena_scope,
        layout: named_layout(
            descriptor.resources,
            descriptor.history,
            descriptor.payload_capacity,
            page_size,
        ),
        generation: descriptor.generation,
        drain_timeout: descriptor.drain_timeout,
        mapping_slot: descriptor.mapping_slot as usize,
        incarnation: IncarnationId(descriptor.incarnation),
        frames: descriptor.holding,
        claim_scope: descriptor.claim_scope,
        claim_len: descriptor.claim_map_len as usize,
        recipient_pid: descriptor.recipient_pid,
    }
}

/// What the words of the received claim page say to the recipient of a grant.
pub open spec fn received_page(descriptor: GrantDescriptor, words: Seq<u64>) -> ClaimPage {
    claim_page(
        words,
        IncarnationId(descriptor.incarnation),
        descriptor.holding as nat,
        ScopeId { low: words[5], high: words[6] },
        descriptor.recipient_pid,
        false,
        false,
    )
}

/// Whether the received claim page is the one of the grant, with its first offer.
pub open spec fn claims_agree(descriptor: GrantDescriptor, words: Seq<u64>) -> bool {
    let page = received_page(descriptor, words);
    &&& words.len() * 8 == descriptor.claim_map_len
    &&& ClaimMap::header_agrees(
        words,
        IncarnationId(descriptor.incarnation),
        descriptor.holding as nat,
        descriptor.recipient_pid,
    )
    &&& descriptor.mapping_slot < descriptor.holding + 2
    &&& page.mappings[descriptor.mapping_slot as int] == descriptor.generation
    &&& page.offered == descriptor.generation
    &&& page.scope == descriptor.claim_scope
}

/// Why a received claim page is refused, in the order in which the reasons are looked at.
pub open spec fn claims_refused(
    error: ArenaError,
    descriptor: GrantDescriptor,
    words: Seq<u64>,
) -> bool {
    let page = received_page(descriptor, words);
    if words.len() * 8 != descriptor.claim_map_len || !ClaimMap::header_agrees(
        words,
        IncarnationId(descriptor.incarnation),
        descriptor.holding as nat,
        descriptor.recipient_pid,
    ) {
        mapping_error(error, "claim header disagrees with grant"@)
    } else if descriptor.mapping_slot >= descriptor.holding + 2
        || page.mappings[descriptor.mapping_slot as int] != descriptor.generation || page.offered
        != descriptor.generation {
        mapping_error(error, "initial configuration offer disagrees with claim page"@)
    } else {
        page.scope != descriptor.claim_scope && mapping_error(
            error,
            "claim scope disagrees with grant"@,
        )
    }
}

impl ConsumerGrant {
    /// A grant with these terms. Only the arena makes one.
    pub(crate) fn issue(terms: GrantTerms) -> (result: Self)
        ensures
            result@ == terms,
    {
        ConsumerGrant { terms }
    }

    #[must_use]
    pub fn incarnation(&self) -> (result: IncarnationId)
        ensures
            result == self@.incarnation,
    {
        self.terms.incarnation
    }

    /// What the grant is for.
    #[must_use]
    pub fn terms(&self) -> (result: GrantTerms)
        ensures
            result == self@,
    {
        self.terms
    }

    /// Turns the grant into its setup descriptor. A refused grant is given back.
    pub fn into_parts(self, page_size: i64) -> (result: Result<GrantDescriptor, (ArenaError, Self)>)
        requires
            exportable(self@, page_size),
        ensures
            match result {
                Ok(descriptor) => {
                    &&& length_fits(control_bytes(self@.layout.history as int), page_size as int)
                    &&& descriptor == grant_descriptor(self@, page_size)
                },
                Err((error, grant)) => {
                    &&& !length_fits(control_bytes(self@.layout.history as int), page_size as int)
                    &&& length_refused(
                        error,
                        control_bytes(self@.layout.history as int),
                        page_size as int,
                    )
                    &&& grant == self
                },
            },
    {
        let terms = self.terms;
        let control: usize = match control_len(terms.layout.history, page_size) {
            Ok(len) => len,
            Err(error) => {
                return Err((error, self));
            },
        };
        Ok(
            GrantDescriptor {
                version: VERSION,
                generation: terms.generation,
                drain_timeout: terms.drain_timeout,
                mapping_slot: terms.mapping_slot as u32,
                incarnation: terms.incarnation.0,
                resources: terms.layout.resources as u32,
                history: terms.layout.history as u32,
                payload_capacity: terms.layout.payload_capacity as u64,
                resource_map_len: terms.layout.len as u64,
                control_map_len: control as u64,
                arena_scope: terms.arena_scope,
                claim_scope: terms.claim_scope,
                holding: terms.frames,
                claim_map_len: terms.claim_len as u64,
                recipient_pid: terms.recipient_pid,
            },
        )
    }

    /// Reconstructs a single-use grant received over an authorized setup channel, with the
    /// words of the received claim mapping. The sender must be a conforming, sole producer
    /// of this arena, and this process the sole recipient of the claim mapping: length and
    /// header checks cannot prove that another process follows a shared-memory lifetime
    /// protocol.
    pub fn from_parts(
        descriptor: GrantDescriptor,
        words: Vec<u64>,
        now: u128,
        own_pid: u32,
        page_size: i64,
    ) -> (result: Result<(Self, ClaimMap), ArenaError>)
        ensures
            match result {
                Ok((grant, page)) => {
                    &&& grant_fits(descriptor, now, own_pid, page_size)
                    &&& claims_agree(descriptor, words@)
                    &&& grant@ == imported_terms(descriptor, page_size)
                    &&& exportable(grant@, page_size)
                    &&& page.wf()
                    &&& page.spec_frames() == descriptor.holding
                    &&& page.spec_len() == words@.len() * 8
                    &&& page@ == received_page(descriptor, words@)
                },
                Err(error) => if grant_fits(descriptor, now, own_pid, page_size) {
                    claims_refused(error, descriptor, words@)
                } else {
                    grant_refused(error, descriptor, now, own_pid, page_size)
                },
            },
    {
        let layout = match descriptor.check(now, own_pid, page_size) {
            Ok(layout) => layout,
            Err(error) => {
                proof {
                    lemma_refusal_is_misfit(error, descriptor, now, own_pid, page_size);
                }
                return Err(error);
            },
        };
        let claim_len: usize = descriptor.claim_map_len as usize;
        if claim_len % 8 != 0 || words.len() != claim_len / 8 {
            return Err(ArenaError::Mapping("claim header disagrees with grant"));
        }
        let page = match ClaimMap::map(
            words,
            IncarnationId(descriptor.incarnation),
            descriptor.holding as usize,
            descriptor.recipient_pid,
        ) {
            Ok(page) => page,
            Err(error) => {
                return Err(error);
            },
        };
        let slot: usize = descriptor.mapping_slot as usize;
        if slot as u64 >= descriptor.holding as u64 + 2 || page.mapping_slot(slot)
            != descriptor.generation || page.offered() != descriptor.generation {
            return Err(
                ArenaError::Mapping("initial configuration offer disagrees with claim page"),
            );
        }
        if page.scope() != descriptor.claim_scope {
            return Err(ArenaError::Mapping("claim scope disagrees with grant"));
        }
        let terms = GrantTerms {
            arena_scope: descriptor.arena_scope,
            layout,
            generation: descriptor.generation,
            drain_timeout: descriptor.drain_timeout,
            mapping_slot: slot,
            incarnation: IncarnationId(descriptor.incarnation),
            frames: descriptor.holding,
            claim_scope: descriptor.claim_scope,
            claim_len,
            recipient_pid: descriptor.recipient_pid,
        };
        Ok((ConsumerGrant { terms }, page))
    }

    /// Gives up a grant that was not consumed: the admission ends, and nothing of it can touch
    /// the claim page any more.
    pub fn abandon(self, pages: &mut ArenaPages)
        requires
            old(pages).wf(),
        ensures
            final(pages).wf(),
            final(pages)@ == old(pages)@.abandoned(self@),
    {
        let id: u64 = self.terms.incarnation.0;
        let ghost before = pages.claims@;
        match pages.claims.remove(&id) {
            None => {
                assert(pages.claims@ =~= before);
            },
            Some(mut page) => {
                proof {
                    page.page_is_shaped();
                }
                if self.terms.mapping_slot < page.frames() + 2 {
                    page.abandon(self.terms.mapping_slot);
                }
                pages.claims.insert(id, page);
                assert(pages@.claims =~= old(pages)@.abandoned(self@).claims);
            },
        }
    }
}

impl Pages {
    /// A grant is given up before anybody used it.
    pub open spec fn abandoned(self, terms: GrantTerms) -> Pages {
        let id = terms.incarnation.0;
        if self.claims.contains_key(id) && terms.mapping_slot < self.claims[id].mappings.len() {
            self.with_claims(id, self.claims[id].abandoned(terms.mapping_slot as int))
        } else {
            self
        }
    }
}

/// A descriptor that is refused does not fit.
proof fn lemma_refusal_is_misfit(
    error: ArenaError,
    descriptor: GrantDescriptor,
    now: u128,
    own_pid: u32,
    page_size: i64,
)
    requires
        grant_refused(error, descriptor, now, own_pid, page_size),
    ensures
        !grant_fits(descriptor, now, own_pid, page_size),
{
}

/// What an offer of replaced storage is for.
#[derive(Debug, Clone, Copy, PartialEq, Eq, Structural)]
pub struct ConfigurationTerms {
    pub arena_scope: ScopeId,
    pub claim_scope: ScopeId,
    pub incarnation: IncarnationId,
    pub recipient_pid: u32,
    pub layout: ResourceLayout,
    pub generation: u64,
    pub mapping_slot: usize,
}

/// A setup offer for an already admitted consumer. It grants no new holding credit and
/// cannot be used to create a consumer incarnation.
pub struct ConfigurationGrant {
    terms: ConfigurationTerms,
}

impl View for ConfigurationGrant {
    type V = ConfigurationTerms;

    closed spec fn view(&self) -> ConfigurationTerms {
        self.terms
    }
}

/// Setup metadata accompanying one replacement resource mapping. Control, claim and
/// notification mappings remain those of the existing incarnation.
#[derive(Debug, Clone, Copy, PartialEq, Eq, Structural)]
pub struct ConfigurationDescriptor {
    pub version: u64,
    pub generation: u64,
    pub incarnation: u64,
    pub arena_scope: ScopeId,
    pub claim_scope: ScopeId,
    pub recipient_pid: u32,
    pub mapping_slot: u32,
    pub resources: u32,
    pub history: u32,
    pub payload_capacity: u64,
    pub resource_map_len: u64,
}

/// Whether the terms fit the setup descriptor's fields.
pub open spec fn replacement_exportable(terms: ConfigurationTerms, page_size: i64) -> bool {
    &&& terms.layout.consistent(page_size as int)
    &&& terms.layout.resources <= u32::MAX
    &&& terms.mapping_slot <= u32::MAX
}

/// The setup descriptor of an offer.
pub open spec fn configuration_descriptor(terms: ConfigurationTerms) -> ConfigurationDescriptor {
    ConfigurationDescriptor {
        version: VERSION,
        generation: terms.generation,
        incarnation: terms.incarnation.0,
        arena_scope: terms.arena_scope,
        claim_scope: terms.claim_scope,
        recipient_pid: terms.recipient_pid,
        mapping_slot: terms.mapping_slot as u32,
        resources: terms.layout.resources as u32,
        history: terms.layout.history as u32,
        payload_capacity: terms.layout.payload_capacity as u64,
        resource_map_len: terms.layout.len as u64,
    }
}

/// Whether an offer is for this arena, incarnation and process.
pub open spec fn replacement_belongs(
    descriptor: ConfigurationDescriptor,
    arena_scope: ScopeId,
    page: ClaimPage,
    own_pid: u32,
) -> bool {
    &&& descriptor.version == VERSION
    &&& descriptor.generation != 0
    &&& descriptor.arena_scope == arena_scope
    &&& descriptor.claim_scope == page.scope
    &&& descriptor.incarnation == page.incarnation.0
    &&& descriptor.recipient_pid == own_pid
    &&& descriptor.recipient_pid == page.recipient_pid
}

/// Whether an offer is the outstanding one.
pub open spec fn replacement_outstanding(descriptor: ConfigurationDescriptor, page: ClaimPage) -> bool {
    &&& descriptor.mapping_slot < page.mappings.len()
    &&& page.mappings[descriptor.mapping_slot as int] == descriptor.generation
    &&& page.offered == descriptor.generation
}

/// Why an offer is refused, in the order in which the reasons are looked at; or `None` of it.
pub open spec fn replacement_result(
    result: Result<ConfigurationGrant, ArenaError>,
    descriptor: ConfigurationDescriptor,
    arena_scope: ScopeId,
    history: nat,
    page: ClaimPage,
    own_pid: u32,
    page_size: i64,
) -> bool {
    let bytes = resource_bytes(descriptor.resources as int, descriptor.payload_capacity as int);
    let layout = named_layout(
        descriptor.resources,
        descriptor.history,
        descriptor.payload_capacity,
        page_size,
    );
    if !replacement_belongs(descriptor, arena_scope, page, own_pid) {
        result matches Err(error) && mapping_error(
            error,
            "replacement grant belongs to another arena, incarnation, or process"@,
        )
    } else if !replacement_outstanding(descriptor, page) {
        result matches Err(error) && mapping_error(
            error,
            "replacement grant disagrees with outstanding offer"@,
        )
    } else if descriptor.payload_capacity > usize::MAX {
        result matches Err(error) && mapping_error(
            error,
            "replacement payload capacity overflows"@,
        )
    } else if descriptor.history == 0 || descriptor.resources <= descriptor.history {
        result matches Err(error) && configuration_error(
            error,
            "resources must exceed a nonzero history"@,
        )
    } else if !length_fits(bytes, page_size as int) {
        result matches Err(error) && length_refused(error, bytes, page_size as int)
    } else if descriptor.history != history || layout.len != descriptor.resource_map_len {
        result matches Err(error) && mapping_error(
            error,
            "replacement mapping layout disagrees with setup"@,
        )
    } else {
        result matches Ok(grant) && layout.consistent(page_size as int) && grant@ == (
        ConfigurationTerms {
            arena_scope: descriptor.arena_scope,
            claim_scope: page.scope,
            incarnation: page.incarnation,
            recipient_pid: page.recipient_pid,
            layout,
            generation: descriptor.generation,
            mapping_slot: descriptor.mapping_slot as usize,
        })
    }
}

impl ConfigurationGrant {
    /// An offer with these terms. Only the arena makes one.
    pub(crate) fn issue(terms: ConfigurationTerms) -> (result: Self)
        ensures
            result@ == terms,
    {
        ConfigurationGrant { terms }
    }

    /// What the offer is for.
    #[must_use]
    pub fn terms(&self) -> (result: ConfigurationTerms)
        ensures
            result == self@,
    {
        self.terms
    }

    /// Exports only to the incarnation's already monitored process. The host must transfer
    /// this single-use offer to that process. A refused offer is given back.
    pub fn into_parts(self, page_size: i64) -> (result: Result<
        ConfigurationDescriptor,
        (ArenaError, Self),
    >)
        requires
            replacement_exportable(self@, page_size),
        ensures
            match result {
                Ok(descriptor) => {
                    &&& self@.recipient_pid != 0
                    &&& descriptor == configuration_descriptor(self@)
                },
                Err((error, grant)) => {
                    &&& self@.recipient_pid == 0
                    &&& configuration_error(
                        error,
                        "replacement export requires a process-bound incarnation"@,
                    )
                    &&& grant == self
                },
            },
    {
        let terms = self.terms;
        if terms.recipient_pid == 0 {
            return Err(
                (
                    ArenaError::Configuration(
                        "replacement export requires a process-bound incarnation",
                    ),
                    self,
                ),
            );
        }
        Ok(
            ConfigurationDescriptor {
                version: VERSION,
                generation: terms.generation,
                incarnation: terms.incarnation.0,
                arena_scope: terms.arena_scope,
                claim_scope: terms.claim_scope,
                recipient_pid: terms.recipient_pid,
                mapping_slot: terms.mapping_slot as u32,
                resources: terms.layout.resources as u32,
                history: terms.layout.history as u32,
                payload_capacity: terms.layout.payload_capacity as u64,
                resource_map_len: terms.layout.len as u64,
            },
        )
    }

    /// Imports a replacement for an already mapped consumer incarnation. The sender must be
    /// that arena's conforming sole producer and this process the sole recipient: header
    /// checks cannot prove that another process obeys the lifetime protocol.
    pub fn from_parts(
        descriptor: ConfigurationDescriptor,
        arena_scope: ScopeId,
        history: usize,
        page: &ClaimMap,
        own_pid: u32,
        page_size: i64,
    ) -> (result: Result<Self, ArenaError>)
        requires
            page.wf(),
        ensures
            replacement_result(
                result,
                descriptor,
                arena_scope,
                history as nat,
                page@,
                own_pid,
                page_size,
            ),
    {
        proof {
            page.page_is_shaped();
        }
        if descriptor.version != VERSION || descriptor.generation == 0 || descriptor.arena_scope
            != arena_scope || descriptor.claim_scope != page.scope() || descriptor.incarnation
            != page.incarnation().0 || descriptor.recipient_pid != own_pid
            || descriptor.recipient_pid != page.recipient_pid() {
            return Err(
                ArenaError::Mapping(
                    "replacement grant belongs to another arena, incarnation, or process",
                ),
            );
        }
        let mapping_slot: usize = descriptor.mapping_slot as usize;
        if mapping_slot >= page.frames() + 2 || page.mapping_slot(mapping_slot)
            != descriptor.generation || page.offered() != descriptor.generation {
            return Err(ArenaError::Mapping("replacement grant disagrees with outstanding offer"));
        }
        if descriptor.payload_capacity > usize::MAX as u64 {
            return Err(ArenaError::Mapping("replacement payload capacity overflows"));
        }
        let layout = match ResourceLayout::new(
            descriptor.resources as usize,
            descriptor.history as usize,
            descriptor.payload_capacity as usize,
            page_size,
        ) {
            Ok(layout) => layout,
            Err(error) => {
                return Err(error);
            },
        };
        if layout.history != history || layout.len as u64 != descriptor.resource_map_len {
            return Err(ArenaError::Mapping("replacement mapping layout disagrees with setup"));
        }
        Ok(
            ConfigurationGrant {
                terms: ConfigurationTerms {
                    arena_scope: descriptor.arena_scope,
                    claim_scope: page.scope(),
                    incarnation: page.incarnation(),
                    recipient_pid: page.recipient_pid(),
                    layout,
                    generation: descriptor.generation,
                    mapping_slot,
                },
            },
        )
    }

    /// Gives up an offer that was not consumed.
    pub fn decline(self, pages: &mut ArenaPages)
        requires
            old(pages).wf(),
        ensures
            final(pages).wf(),
            final(pages).same_frames(*old(pages)),
            final(pages).control == old(pages).control,
            final(pages).resources == old(pages).resources,
            final(pages)@ == old(pages)@.declined(self@),
    {
        let id: u64 = self.terms.incarnation.0;
        let ghost before = pages.claims@;
        match pages.claims.remove(&id) {
            None => {
                assert(pages.claims@ =~= before);
            },
            Some(mut page) => {
                proof {
                    page.page_is_shaped();
                }
                if self.terms.mapping_slot < page.frames() + 2 {
                    page.decline(self.terms.mapping_slot);
                }
                pages.claims.insert(id, page);
                assert(pages.claims@.dom() =~= before.dom());
                assert(pages@.claims =~= old(pages)@.declined(self@).claims);
            },
        }
    }
}

impl Pages {
    /// An offer of replaced storage is given up.
    pub open spec fn declined(self, terms: ConfigurationTerms) -> Pages {
        let id = terms.incarnation.0;
        if self.claims.contains_key(id) && terms.mapping_slot < self.claims[id].mappings.len() {
            self.with_claims(id, self.claims[id].declined(terms.mapping_slot as int))
        } else {
            self
        }
    }
}

impl RemoteConsumerGrant {
    pub(crate) fn bind(grant: ConsumerGrant) -> (result: Self)
        ensures
            result@ == grant@,
    {
        RemoteConsumerGrant(grant)
    }

    #[must_use]
    pub fn incarnation(&self) -> (result: IncarnationId)
        ensures
            result == self@.incarnation,
    {
        self.0.incarnation()
    }

    /// Turns the grant into its setup descriptor. A refused grant is given back.
    pub fn into_parts(self, page_size: i64) -> (result: Result<GrantDescriptor, (ArenaError, Self)>)
        requires
            exportable(self@, page_size),
        ensures
            match result {
                Ok(descriptor) => {
                    &&& length_fits(control_bytes(self@.layout.history as int), page_size as int)
                    &&& descriptor == grant_descriptor(self@, page_size)
                },
                Err((error, grant)) => {
                    &&& !length_fits(control_bytes(self@.layout.history as int), page_size as int)
                    &&& length_refused(
                        error,
                        control_bytes(self@.layout.history as int),
                        page_size as int,
                    )
                    &&& grant@ == self@
                },
            },
    {
        match self.0.into_parts(page_size) {
            Ok(descriptor) => Ok(descriptor),
            Err((error, grant)) => Err((error, RemoteConsumerGrant(grant))),
        }
    }

    /// Gives up a grant that was never sent.
    pub fn abandon(self, pages: &mut ArenaPages)
        requires
            old(pages).wf(),
        ensures
            final(pages).wf(),
            final(pages)@ == old(pages)@.abandoned(self@),
    {
        self.0.abandon(pages)
    }
}

} // verus!
