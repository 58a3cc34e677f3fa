//! Installation of the current storage on a consumer in the producer's own process.

use super::ArenaProducer;
use crate::acquisition::arena::claims::lemma_first_free;
use crate::acquisition::arena::consumer::ArenaConsumer;
use crate::acquisition::arena::grants::ConfigurationTerms;
use crate::acquisition::arena::holding::ConsumerState;
use crate::acquisition::arena::producer::collection::lemma_one_page;
use crate::acquisition::arena::producer::reconfiguration::{offer_view, ConfigurationInstall};
use crate::acquisition::arena::state::ProducerState;
use crate::acquisition::arena::{configuration_error, ArenaError};
use vstd::prelude::*;

verus! {

impl<T> ProducerState<T> {
    /// Whether a consumer is one of this producer's.
    pub open spec fn knows<U>(self, consumer: ConsumerState<U>) -> bool {
        let id = consumer.incarnation.0;
        &&& self.pages.control.scope == consumer.arena_scope
        &&& self.pages.claims.contains_key(id)
        &&& self.pages.claims[id].scope == consumer.claim_scope
    }

    /// The offered storage is installed on a consumer.
    pub open spec fn configured<U>(self, consumer: ConsumerState<U>, terms: ConfigurationTerms) -> (
        ProducerState<T>,
        ConsumerState<U>,
    ) {
        let id = consumer.incarnation.0;
        let (after, page) = consumer.reinstalled(self.pages.claims[id], terms);
        (ProducerState { pages: self.pages.with_claims(id, page), ..self }, after)
    }
}

impl<T> ProducerState<T> {
    /// What installing replaced storage on a consumer in this process gives.
    pub open spec fn configures<U>(
        self,
        consumer: ConsumerState<U>,
        after: ProducerState<T>,
        left: ConsumerState<U>,
        result: Result<Option<ConfigurationInstall>, ArenaError>,
    ) -> bool {
        ({
            let id = consumer.incarnation.0;
            let unchanged = after == self && left == consumer;
            if !self.knows(consumer) {
                &&& result matches Err(error) && configuration_error(
                    error,
                    "consumer belongs to another producer"@,
                )
                &&& unchanged
            } else if consumer.shut(self.pages) {
                result == Err::<Option<ConfigurationInstall>, ArenaError>(ArenaError::Closed)
                    && unchanged
            } else if consumer.configured(self.pages) {
                result == Ok::<Option<ConfigurationInstall>, ArenaError>(None) && unchanged
            } else {
                exists|middle: ProducerState<T>, offer: Result<Option<ConfigurationTerms>, ArenaError>|
                    {
                        &&& #[trigger] self.offers(middle, id, offer)
                        &&& match offer {
                            Err(error) => {
                                &&& result == Err::<Option<ConfigurationInstall>, ArenaError>(
                                    error,
                                )
                                &&& unchanged
                            },
                            Ok(None) => {
                                &&& result == Ok::<Option<ConfigurationInstall>, ArenaError>(
                                    None,
                                )
                                &&& unchanged
                            },
                            Ok(Some(terms)) => {
                                &&& result == Ok::<Option<ConfigurationInstall>, ArenaError>(
                                    Some(ConfigurationInstall::Installed),
                                )
                                &&& (after, left) == middle.configured(
                                    consumer,
                                    terms,
                                )
                            },
                        }
                    }
            }
        })
    }
}

impl<T> ArenaProducer<T> {
    /// Installs this producer's current CPU allocation on an already admitted local consumer.
    /// No admission or frame ownership changes are implied. A consumer of another producer, or
    /// one that is not admitted any more, is rejected.
    pub fn configure_consumer<U>(&mut self, consumer: &mut ArenaConsumer<U>) -> (result: Result<
        Option<ConfigurationInstall>,
        ArenaError,
    >)
        requires
            old(self).wf(),
            old(consumer).wf(),
            old(self)@.knows(old(consumer)@) ==> {
                &&& old(consumer).attached(old(self).spec_pages())
                &&& old(consumer).spec_page_size() == old(self)@.page_size
            },
        ensures
            final(self).wf(),
            final(consumer).wf(),
            old(consumer).attached(old(self).spec_pages()) ==> final(consumer).attached(
                final(self).spec_pages(),
            ),
            old(self)@.configures(old(consumer)@, final(self)@, final(consumer)@, result),
    {
        let incarnation = consumer.incarnation();
        let id: u64 = incarnation.0;
        let ghost state = self@;
        let ghost start = consumer@;
        proof {
            assert(state.pages.claims.dom() =~= self.pages.claims@.dom());
            consumer.state_is_consistent();
        }
        let known = self.pages.control.scope() == consumer.arena_scope()
            && match self.pages.claims.get(&id) {
            Some(page) => page.scope() == consumer.claim_scope(),
            None => false,
        };
        if !known {
            return Err(ArenaError::Configuration("consumer belongs to another producer"));
        }
        if consumer.is_closed(&self.pages) {
            return Err(ArenaError::Closed);
        }
        if consumer.is_configured(&self.pages) {
            return Ok(None);
        }
        let ghost claims = self.pages.claims@;
        let offer = self.configuration_offer(incarnation);
        let ghost middle = self@;
        let ghost seen = offer_view(offer);
        assert(state.offers(middle, id, seen));
        proof {
            assert(middle.pages.claims.dom() =~= self.pages.claims@.dom());
            assert(middle.pages.resources.dom() =~= self.pages.resources@.dom());
            assert(state.pages.claims.contains_key(id));
            assert(middle.pages.claims.contains_key(id));
            claims[id].page_is_shaped();
            self.pages.claims@[id].page_is_shaped();
            assert(consumer.attached(self.pages)) by {
                if start.installed is Some {
                    let m = start.installed->0;
                    assert(state.pages.resources.contains_key(m.generation));
                    assert(middle.pages.resources == state.pages.resources);
                    assert(self.pages@.resources[m.generation].layout == m.layout);
                }
            }
        }
        match offer {
            Err(error) => Err(error),
            Ok(None) => Ok(None),
            Ok(Some(grant)) => {
                proof {
                    let g = state.current->0;
                    lemma_first_free(state.pages.claims[id].mappings);
                    assert(state.pages.resources.contains_key(g));
                    assert(state.resource_proper(g));
                    assert(state.claim_proper(id));
                    assert(middle.claim_proper(id));
                    assert(middle.accounts.reservations == state.accounts.reservations);
                    assert(ConsumerState::<U>::storage_agrees(self.pages@, grant@));
                }
                match consumer.install_configuration(&mut self.pages, grant) {
                    Ok(installed) => {
                        proof {
                            let (after, ended) = middle.configured(start, grant@);
                            assert(self@.pages.claims =~= after.pages.claims);
                            assert(self@ == after);
                            assert(middle.cleanup.contains_key(id));
                            assert(after.cleanup =~= middle.cleanup.insert(id, after.cleanup[id]));
                            assert(after.accounts.reservations
                                =~= middle.accounts.reservations.insert(
                                id,
                                after.accounts.reservations[id],
                            ));
                            self.admission.accounts_are_consistent();
                            lemma_one_page(middle, after, id);
                        }
                        Ok(Some(installed))
                    },
                    Err(rejected) => {
                        assert(false);
                        Err(rejected.error)
                    },
                }
            },
        }
    }
}

} // verus!
