//! Installation of replaced storage on an admitted consumer.

use super::ArenaConsumer;
use crate::acquisition::arena::claims::ClaimPage;
use crate::acquisition::arena::grants::{ConfigurationGrant, ConfigurationTerms};
use crate::acquisition::arena::holding::{mapping_fits, ConsumerState, Mapping};
use crate::acquisition::arena::mapping::{check_resource_header, resource_header};
use crate::acquisition::arena::pages::{ArenaPages, Pages};
use crate::acquisition::arena::producer::reconfiguration::ConfigurationInstall;
use crate::acquisition::arena::{mapping_error, ArenaError};
use vstd::prelude::*;

verus! {

/// An offer that was not installed. Its owner declines it on the pages that it is for.
pub struct RejectedConfiguration {
    pub error: ArenaError,
    pub grant: ConfigurationGrant,
}

/// The mapping that an offer gives.
pub open spec fn offered_mapping(terms: ConfigurationTerms) -> Mapping {
    Mapping { generation: terms.generation, slot: terms.mapping_slot, layout: terms.layout }
}

impl<T> ConsumerState<T> {
    /// Whether an offer is for this consumer.
    pub open spec fn offered_to(self, terms: ConfigurationTerms) -> bool {
        terms.arena_scope == self.arena_scope && terms.claim_scope == self.claim_scope
    }

    /// Whether the offered storage is there as offered.
    pub open spec fn storage_agrees(pages: Pages, terms: ConfigurationTerms) -> bool {
        let page = pages.resources[terms.generation];
        &&& pages.resources.contains_key(terms.generation)
        &&& resource_header(page.layout, page.scope, page.generation) == resource_header(
            terms.layout,
            terms.arena_scope,
            terms.generation,
        )
    }

    /// The offered storage takes the place of what was installed.
    pub open spec fn reinstalled(self, page: ClaimPage, terms: ConfigurationTerms) -> (
        ConsumerState<T>,
        ClaimPage,
    ) {
        let after = ConsumerState { installed: Some(offered_mapping(terms)), ..self };
        let left = match self.installed {
            Some(mapping) => after.unmapped(page, mapping.slot),
            None => page,
        };
        (after, ClaimPage { offered: 0, ..left })
    }

    /// What is installed is let go.
    pub open spec fn relinquished(self, page: ClaimPage) -> (ConsumerState<T>, ClaimPage) {
        let after = ConsumerState { installed: None, ..self };
        match self.installed {
            Some(mapping) => (after, after.unmapped(page, mapping.slot)),
            None => (after, page),
        }
    }
}

impl<T> ArenaConsumer<T> {
    /// Installs offered storage. An offer that another one has overtaken is declined. An offer
    /// with this consumer's scopes was made to its incarnation, for one of its mapping words.
    pub fn install_configuration(&mut self, pages: &mut ArenaPages, grant: ConfigurationGrant) -> (result:
        Result<ConfigurationInstall, RejectedConfiguration>)
        requires
            old(self).wf(),
            old(self).attached(*old(pages)),
            old(self)@.offered_to(grant@) ==> grant@.incarnation == old(self)@.incarnation
                && mapping_fits(
                offered_mapping(grant@),
                old(self)@.frames(),
                old(self).spec_page_size(),
            ),
        ensures
            final(self).wf(),
            final(self).spec_page_size() == old(self).spec_page_size(),
            final(self).attached(*final(pages)),
            final(pages).control == old(pages).control,
            final(pages).resources == old(pages).resources,
            final(pages).same_frames(*old(pages)),
            ({
                let id = old(self)@.incarnation.0;
                let page = old(pages)@.claims[id];
                let unchanged = final(self)@ == old(self)@ && final(pages)@ == old(pages)@;
                if !old(self)@.offered_to(grant@) {
                    &&& result matches Err(rejected) && rejected.grant == grant && mapping_error(
                        rejected.error,
                        "configuration grant belongs to another arena or incarnation"@,
                    )
                    &&& unchanged
                } else if old(self)@.shut(old(pages)@) {
                    &&& result matches Err(rejected) && rejected.grant == grant && rejected.error
                        == ArenaError::Closed
                    &&& unchanged
                } else if !ConsumerState::<T>::storage_agrees(old(pages)@, grant@) {
                    &&& result matches Err(rejected) && rejected.grant == grant && mapping_error(
                        rejected.error,
                        "arena header disagrees with grant"@,
                    )
                    &&& unchanged
                } else if grant@.generation != old(pages)@.control.configuration {
                    &&& result matches Ok(ConfigurationInstall::Stale)
                    &&& final(self)@ == old(self)@
                    &&& final(pages)@ == old(pages)@.declined(grant@)
                } else {
                    &&& result matches Ok(ConfigurationInstall::Installed)
                    &&& final(self)@ == old(self)@.reinstalled(page, grant@).0
                    &&& final(pages)@ == old(pages)@.with_claims(
                        id,
                        old(self)@.reinstalled(page, grant@).1,
                    )
                }
            }),
    {
        let terms = grant.terms();
        let id: u64 = self.incarnation.0;
        proof {
            assert(pages@.resources.dom() =~= pages.resources@.dom());
            assert(pages@.claims.dom() =~= pages.claims@.dom());
            assert(pages.same_frames(*pages));
        }
        if terms.arena_scope != self.arena_scope || terms.claim_scope != self.claim_scope {
            return Err(
                RejectedConfiguration {
                    error: ArenaError::Mapping(
                        "configuration grant belongs to another arena or incarnation",
                    ),
                    grant,
                },
            );
        }
        if self.is_closed(pages) {
            return Err(RejectedConfiguration { error: ArenaError::Closed, grant });
        }
        let checked = match pages.resources.get(&terms.generation) {
            None => Err(ArenaError::Mapping("arena header disagrees with grant")),
            Some(map) => check_resource_header(
                &map.header(),
                &terms.layout,
                terms.arena_scope,
                terms.generation,
            ),
        };
        match checked {
            Ok(()) => {},
            Err(error) => {
                return Err(RejectedConfiguration { error, grant });
            },
        }
        // Staleness is a normal retry only for a valid resource mapping: contradictory
        // metadata is not hidden behind it.
        if terms.generation != pages.control.configuration() {
            proof {
                pages.claims@[id].page_is_shaped();
            }
            grant.decline(pages);
            return Ok(ConfigurationInstall::Stale);
        }
        let replaced = self.installed;
        self.installed = Some(
            Mapping { generation: terms.generation, slot: terms.mapping_slot, layout: terms.layout },
        );
        assert(self@ =~= (ConsumerState {
            installed: Some(offered_mapping(grant@)),
            ..old(self)@
        }));
        match pages.claims.remove(&id) {
            None => {
                assert(false);
            },
            Some(mut page) => {
                assert(page@ == old(pages)@.claims[id]);
                if let Some(mapping) = replaced {
                    self.unmap(&mut page, mapping.slot);
                }
                page.set_offered(0);
                pages.claims.insert(id, page);
                proof {
                    assert(pages.claims@.dom() =~= old(pages).claims@.dom());
                    assert(pages@.claims =~= old(pages)@.with_claims(id, page@).claims);
                    assert(pages@ == old(pages)@.with_claims(id, page@));
                }
            },
        }
        Ok(ConfigurationInstall::Installed)
    }

    /// Installs a replaced external pool of that many resources.
    pub fn install_native_configuration(
        &mut self,
        pages: &mut ArenaPages,
        grant: ConfigurationGrant,
        slots: usize,
    ) -> (result: Result<ConfigurationInstall, RejectedConfiguration>)
        requires
            old(self).wf(),
            old(self).attached(*old(pages)),
            old(self)@.offered_to(grant@) ==> grant@.incarnation == old(self)@.incarnation
                && mapping_fits(
                offered_mapping(grant@),
                old(self)@.frames(),
                old(self).spec_page_size(),
            ),
        ensures
            final(self).wf(),
            final(self).attached(*final(pages)),
            ({
                let id = old(self)@.incarnation.0;
                let page = old(pages)@.claims[id];
                let unchanged = final(self)@ == old(self)@ && final(pages)@ == old(pages)@;
                if grant@.layout.payload_capacity != 0 || grant@.layout.resources != slots {
                    &&& result matches Err(rejected) && rejected.grant == grant && mapping_error(
                        rejected.error,
                        "native replacement handles disagree with resource layout"@,
                    )
                    &&& unchanged
                } else if !old(self)@.offered_to(grant@) {
                    &&& result matches Err(rejected) && rejected.grant == grant && mapping_error(
                        rejected.error,
                        "configuration grant belongs to another arena or incarnation"@,
                    )
                    &&& unchanged
                } else if old(self)@.shut(old(pages)@) {
                    &&& result matches Err(rejected) && rejected.grant == grant && rejected.error
                        == ArenaError::Closed
                    &&& unchanged
                } else if !ConsumerState::<T>::storage_agrees(old(pages)@, grant@) {
                    &&& result matches Err(rejected) && rejected.grant == grant && mapping_error(
                        rejected.error,
                        "arena header disagrees with grant"@,
                    )
                    &&& unchanged
                } else if grant@.generation != old(pages)@.control.configuration {
                    &&& result matches Ok(ConfigurationInstall::Stale)
                    &&& final(self)@ == old(self)@
                    &&& final(pages)@ == old(pages)@.declined(grant@)
                } else {
                    &&& result matches Ok(ConfigurationInstall::Installed)
                    &&& final(self)@ == old(self)@.reinstalled(page, grant@).0
                    &&& final(pages)@ == old(pages)@.with_claims(
                        id,
                        old(self)@.reinstalled(page, grant@).1,
                    )
                }
            }),
    {
        let terms = grant.terms();
        if terms.layout.payload_capacity != 0 || terms.layout.resources != slots {
            return Err(
                RejectedConfiguration {
                    error: ArenaError::Mapping(
                        "native replacement handles disagree with resource layout",
                    ),
                    grant,
                },
            );
        }
        self.install_configuration(pages, grant)
    }

    /// Relinquishes unleased configuration storage while retaining the control mapping, the
    /// wait channel and any previously returned frame leases.
    pub fn relinquish_configuration(&mut self, pages: &mut ArenaPages)
        requires
            old(self).wf(),
            old(self).attached(*old(pages)),
        ensures
            final(self).wf(),
            final(self).attached(*final(pages)),
            ({
                let id = old(self)@.incarnation.0;
                let page = old(pages)@.claims[id];
                &&& final(self)@ == old(self)@.relinquished(page).0
                &&& final(pages)@ == old(pages)@.with_claims(
                    id,
                    old(self)@.relinquished(page).1,
                )
            }),
    {
        let id: u64 = self.incarnation.0;
        let replaced = self.installed;
        self.installed = None;
        assert(self@ =~= (ConsumerState { installed: None, ..old(self)@ }));
        match pages.claims.remove(&id) {
            None => {
                assert(false);
            },
            Some(mut page) => {
                assert(page@ == old(pages)@.claims[id]);
                if let Some(mapping) = replaced {
                    self.unmap(&mut page, mapping.slot);
                }
                pages.claims.insert(id, page);
                proof {
                    assert(pages@.claims =~= old(pages)@.with_claims(id, page@).claims);
                    assert(pages@ == old(pages)@.with_claims(id, page@));
                }
            },
        }
    }
}

} // verus!
