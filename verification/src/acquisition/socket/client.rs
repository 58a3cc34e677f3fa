//! The asking side: one connection holds one admitted consumer.
//!
//! The host writes each request and reads its reply, with the objects that follow it. A reply
//! that cannot be trusted fails the connection for good; a refusal does not.

use super::{protocol_error, Request, Response, SocketError};
use crate::acquisition::arena::claims::ClaimPage;
use crate::acquisition::arena::consumer::{fresh_consumer, ArenaConsumer};
use crate::acquisition::arena::grants::{
    claims_agree, claims_refused, grant_fits, grant_refused, imported_terms, received_page,
    replacement_result, ConfigurationGrant, ConfigurationTerms, ConsumerGrant, GrantDescriptor,
    GrantTerms,
};
use crate::acquisition::arena::holding::ConsumerState;
use crate::acquisition::arena::mapping::resource_header;
use crate::acquisition::arena::pages::{ArenaPages, Pages};
use crate::acquisition::arena::producer::reconfiguration::ConfigurationInstall;
use crate::acquisition::arena::{mapping_error, ArenaError, ScopeId};
use crate::acquisition::IncarnationId;
use vstd::prelude::*;

verus! {

/// One asking connection.
#[derive(Debug, Clone, Copy, PartialEq, Eq)]
pub struct CpuSetupClient {
    /// The consumer that this connection attached.
    pub identity: Option<(IncarnationId, ScopeId)>,
    /// A failed connection is shut down and never used again.
    pub failed: bool,
}

impl CpuSetupClient {
    /// Uses a connection whose host routing and authorization handshake has finished. The peer
    /// must be the conforming sole producer of the selected arena, and this process the
    /// connection's original peer and the sole recipient of its grants.
    pub fn from_stream() -> (result: Self)
        ensures
            result == (CpuSetupClient { identity: None, failed: false }),
    {
        CpuSetupClient { identity: None, failed: false }
    }

    /// Whether the producer still holds its end of the setup connection; `open` is what a peek
    /// at the connection saw, which never consumes setup bytes.
    #[must_use]
    pub fn is_alive(&self, open: bool) -> (result: bool)
        ensures
            result == (!self.failed && open),
    {
        !self.failed && open
    }

    /// Fails the connection: the host shuts it down.
    pub fn fail(&mut self)
        ensures
            *final(self) == (CpuSetupClient { failed: true, ..*old(self) }),
    {
        self.failed = true;
    }

    /// Whether an attachment may be asked for, and how.
    pub fn ask_attach(&self, holding: u32) -> (result: Result<Request, SocketError>)
        ensures
            if self.identity is Some {
                result matches Err(error) && protocol_error(error, "connection already attached"@)
            } else if self.failed {
                result matches Err(error) && protocol_error(error, "connection failed"@)
            } else {
                result == Ok::<Request, SocketError>(Request::Attach { holding })
            },
    {
        if self.identity.is_some() {
            return Err(SocketError::Protocol("connection already attached"));
        }
        if self.failed {
            return Err(SocketError::Protocol("connection failed"));
        }
        Ok(Request::Attach { holding })
    }

    /// Takes what the exchange of a request gave: a reply with its objects, no reply at all, or
    /// why it failed. A refusal leaves the connection usable; a failed exchange does not.
    pub fn request(&mut self, outcome: Result<Option<Response>, SocketError>) -> (result: Result<
        Response,
        SocketError,
    >)
        ensures
            match outcome {
                Err(error) => {
                    &&& result == Err::<Response, SocketError>(error)
                    &&& *final(self) == (CpuSetupClient { failed: true, ..*old(self) })
                },
                Ok(None) => {
                    &&& result matches Err(error) && protocol_error(error, "missing reply"@)
                    &&& *final(self) == (CpuSetupClient { failed: true, ..*old(self) })
                },
                Ok(Some(Response::Rejected { message })) => {
                    &&& result == Err::<Response, SocketError>(SocketError::Rejected(message))
                    &&& *final(self) == *old(self)
                },
                Ok(Some(reply)) => {
                    &&& result == Ok::<Response, SocketError>(reply)
                    &&& *final(self) == *old(self)
                },
            },
    {
        match outcome {
            Err(error) => {
                self.fail();
                Err(error)
            },
            Ok(None) => {
                self.fail();
                Err(SocketError::Protocol("missing reply"))
            },
            Ok(Some(Response::Rejected { message })) => Err(SocketError::Rejected(message)),
            Ok(Some(reply)) => Ok(reply),
        }
    }

    /// Whether an attachment's reply can be imported here: the setup descriptor.
    fn attach_reply(reply: &Response, objects: usize) -> (result: Result<
        GrantDescriptor,
        SocketError,
    >)
        ensures
            attachable(*reply, objects, result),
    {
        match reply {
            Response::Attached { descriptor } => {
                if descriptor.payload_capacity == 0 {
                    return Err(SocketError::Protocol("CPU setup cannot import native resources"));
                }
                if objects != 5 {
                    return Err(SocketError::Protocol("initial setup requires five FDs"));
                }
                Ok(*descriptor)
            },
            _ => Err(SocketError::Protocol("unexpected attach reply")),
        }
    }

    /// Imports an attachment's reply: `objects` followed it, and `words` are those of the
    /// received claim mapping. The mapping joins the pages of this process.
    pub fn attach<T>(
        &mut self,
        pages: &mut ArenaPages,
        reply: &Response,
        objects: usize,
        words: Vec<u64>,
        now: u128,
        own_pid: u32,
        page_size: i64,
    ) -> (result: Result<ArenaConsumer<T>, SocketError>)
        requires
            old(pages).wf(),
        ensures
            final(pages).wf(),
            match result {
                Ok(consumer) => {
                    &&& *reply matches Response::Attached { descriptor }
                    &&& attachable(*reply, objects, Ok(descriptor))
                    &&& grant_fits(descriptor, now, own_pid, page_size)
                    &&& claims_agree(descriptor, words@)
                    &&& storage_mapped(old(pages)@, imported_terms(descriptor, page_size))
                    &&& consumer.wf()
                    &&& consumer.attached(*final(pages))
                    &&& consumer@ == fresh_consumer::<T>(
                        imported_terms(descriptor, page_size),
                        page_size,
                    )
                    &&& final(pages)@ == old(pages)@.with_claims(
                        descriptor.incarnation,
                        (ClaimPage {
                            offered: 0,
                            ..received_page(descriptor, words@)
                        }),
                    )
                    &&& *final(self) == (CpuSetupClient {
                        identity: Some((consumer@.incarnation, consumer@.claim_scope)),
                        ..*old(self)
                    })
                },
                Err(error) => {
                    &&& *final(self) == (CpuSetupClient { failed: true, ..*old(self) })
                    &&& attach_refused(
                        old(pages)@,
                        *reply,
                        objects,
                        words@,
                        now,
                        own_pid,
                        page_size,
                        final(pages)@,
                        error,
                    )
                },
            },
    {
        let descriptor = match CpuSetupClient::attach_reply(reply, objects) {
            Ok(descriptor) => descriptor,
            Err(error) => {
                self.fail();
                return Err(error);
            },
        };
        let ghost received = words@;
        let (grant, page) = match ConsumerGrant::from_parts(
            descriptor,
            words,
            now,
            own_pid,
            page_size,
        ) {
            Ok(parts) => parts,
            Err(error) => {
                self.fail();
                return Err(SocketError::Arena(error));
            },
        };
        pages.claims.insert(descriptor.incarnation, page);
        let ghost joined = *pages;
        proof {
            assert(joined@.claims =~= old(pages)@.with_claims(
                descriptor.incarnation,
                received_page(descriptor, received),
            ).claims);
            assert(joined@ == old(pages)@.with_claims(
                descriptor.incarnation,
                received_page(descriptor, received),
            ));
        }
        proof {
            joined.claims@[descriptor.incarnation].page_is_shaped();
        }
        match ArenaConsumer::from_grant(grant, pages, page_size) {
            Ok(consumer) => {
                self.identity = Some((consumer.incarnation(), consumer.claim_scope()));
                assert(pages@.claims =~= old(pages)@.with_claims(
                    descriptor.incarnation,
                    (ClaimPage {
                        offered: 0,
                        ..received_page(descriptor, received)
                    }),
                ).claims);
                Ok(consumer)
            },
            Err(error) => {
                self.fail();
                Err(SocketError::Arena(error))
            },
        }
    }
}

/// Whether an attachment's reply can be imported here, in the order in which it is looked at.
pub open spec fn attachable(
    reply: Response,
    objects: usize,
    result: Result<GrantDescriptor, SocketError>,
) -> bool {
    match reply {
        Response::Attached { descriptor } => if descriptor.payload_capacity == 0 {
            result matches Err(error) && protocol_error(
                error,
                "CPU setup cannot import native resources"@,
            )
        } else if objects != 5 {
            result matches Err(error) && protocol_error(error, "initial setup requires five FDs"@)
        } else {
            result == Ok::<GrantDescriptor, SocketError>(descriptor)
        },
        _ => result matches Err(error) && protocol_error(error, "unexpected attach reply"@),
    }
}

/// Whether the control page and the resources are those that a grant names.
pub open spec fn storage_mapped(pages: Pages, terms: GrantTerms) -> bool {
    &&& control_mapped(pages, terms)
    &&& pages.resources.contains_key(terms.generation)
    &&& resource_header(
        pages.resources[terms.generation].layout,
        pages.resources[terms.generation].scope,
        pages.resources[terms.generation].generation,
    ) == resource_header(terms.layout, terms.arena_scope, terms.generation)
}

/// Whether the control page is the one that a grant names.
pub open spec fn control_mapped(pages: Pages, terms: GrantTerms) -> bool {
    pages.control.scope == terms.arena_scope && pages.control.ring.len() == terms.layout.history
}

/// Why an attachment's reply was not imported, in the order in which the reasons are looked at.
/// A grant whose storage is not mapped as it says is abandoned.
pub open spec fn attach_refused(
    pages: Pages,
    reply: Response,
    objects: usize,
    words: Seq<u64>,
    now: u128,
    own_pid: u32,
    page_size: i64,
    after: Pages,
    error: SocketError,
) -> bool {
    match reply {
        Response::Attached { descriptor } => {
            let terms = imported_terms(descriptor, page_size);
            if descriptor.payload_capacity == 0 || objects != 5 {
                attachable(reply, objects, Err(error)) && after == pages
            } else if !grant_fits(descriptor, now, own_pid, page_size) {
                &&& error matches SocketError::Arena(why) && grant_refused(
                    why,
                    descriptor,
                    now,
                    own_pid,
                    page_size,
                )
                &&& after == pages
            } else if !claims_agree(descriptor, words) {
                &&& error matches SocketError::Arena(why) && claims_refused(why, descriptor, words)
                &&& after == pages
            } else {
                &&& error matches SocketError::Arena(why) && mapping_error(
                    why,
                    if control_mapped(pages, terms) {
                        "arena header disagrees with grant"@
                    } else {
                        "control header disagrees with grant"@
                    },
                )
                &&& !storage_mapped(pages, terms)
                &&& after == pages.with_claims(
                    descriptor.incarnation,
                    received_page(descriptor, words),
                ).abandoned(terms)
            }
        },
        _ => attachable(reply, objects, Err(error)) && after == pages,
    }
}

impl CpuSetupClient {
    /// Whether replaced storage must be asked for: `None` where the consumer has the current
    /// storage.
    pub fn ask_configuration<T>(&self, consumer: &ArenaConsumer<T>, pages: &ArenaPages) -> (result:
        Result<Option<Request>, SocketError>)
        requires
            consumer.attached(*pages),
        ensures
            if self.identity != Some((consumer@.incarnation, consumer@.claim_scope)) {
                result matches Err(error) && protocol_error(
                    error,
                    "consumer belongs to another connection"@,
                )
            } else if consumer@.configured(pages@) {
                result == Ok::<Option<Request>, SocketError>(None)
            } else if self.failed {
                result matches Err(error) && protocol_error(error, "connection failed"@)
            } else {
                result == Ok::<Option<Request>, SocketError>(Some(Request::Configuration))
            },
    {
        let same = match self.identity {
            Some((incarnation, scope)) => incarnation == consumer.incarnation() && scope
                == consumer.claim_scope(),
            None => false,
        };
        if !same {
            return Err(SocketError::Protocol("consumer belongs to another connection"));
        }
        if consumer.is_configured(pages) {
            return Ok(None);
        }
        if self.failed {
            return Err(SocketError::Protocol("connection failed"));
        }
        Ok(Some(Request::Configuration))
    }

    /// Installs the storage that a reply offers: `objects` followed it. An offer that cannot be
    /// installed is declined, and fails the connection.
    pub fn install_configuration<T>(
        &mut self,
        consumer: &mut ArenaConsumer<T>,
        pages: &mut ArenaPages,
        reply: &Response,
        objects: usize,
        own_pid: u32,
    ) -> (result: Result<Option<ConfigurationInstall>, SocketError>)
        requires
            old(consumer).wf(),
            old(consumer).attached(*old(pages)),
            old(pages)@.claims[old(consumer)@.incarnation.0].incarnation
                == old(consumer)@.incarnation,
        ensures
            final(consumer).wf(),
            final(consumer).attached(*final(pages)),
            final(self).identity == old(self).identity,
            final(self).failed == (old(self).failed || result is Err),
            installs(
                old(consumer)@,
                old(pages)@,
                *reply,
                objects,
                own_pid,
                old(consumer).spec_page_size() as i64,
                final(consumer)@,
                final(pages)@,
                result,
            ),
    {
        match reply {
            Response::Empty => Ok(None),
            Response::Configuration { descriptor } => {
                if descriptor.payload_capacity == 0 || objects != 1 {
                    self.fail();
                    return Err(SocketError::Protocol("invalid CPU configuration resources"));
                }
                let id: u64 = consumer.incarnation().0;
                let page_size: i64 = consumer.page_size();
                let ghost page = pages.claims@[id];
                proof {
                    page.page_is_shaped();
                    pages.control.ring_is_history();
                    assert(pages@.claims[id] == page@);
                }
                let parts = match pages.claims.get(&id) {
                    Some(page) => ConfigurationGrant::from_parts(
                        *descriptor,
                        consumer.arena_scope(),
                        pages.control.history(),
                        page,
                        own_pid,
                        page_size,
                    ),
                    None => {
                        assert(false);
                        Err(ArenaError::Closed)
                    },
                };
                let ghost imported = parts;
                let grant = match parts {
                    Ok(grant) => grant,
                    Err(error) => {
                        self.fail();
                        assert(replacement_result(
                            imported,
                            *descriptor,
                            consumer@.arena_scope,
                            pages@.control.ring.len(),
                            pages@.claims[id],
                            own_pid,
                            page_size,
                        ));
                        return Err(SocketError::Arena(error));
                    },
                };
                match consumer.install_configuration(pages, grant) {
                    Ok(install) => Ok(Some(install)),
                    Err(rejected) => {
                        rejected.grant.decline(pages);
                        self.fail();
                        Err(SocketError::Arena(rejected.error))
                    },
                }
            },
            _ => {
                self.fail();
                Err(SocketError::Protocol("unexpected configuration reply"))
            },
        }
    }
}

/// What installing an imported offer gives.
pub open spec fn installs_offer<T>(
    consumer: ConsumerState<T>,
    pages: Pages,
    terms: ConfigurationTerms,
    left: ConsumerState<T>,
    after: Pages,
    result: Result<Option<ConfigurationInstall>, SocketError>,
) -> bool {
    let id = consumer.incarnation.0;
    let declined = left == consumer && after == pages.declined(terms);
    if !consumer.offered_to(terms) {
        &&& result matches Err(SocketError::Arena(error)) && mapping_error(
            error,
            "configuration grant belongs to another arena or incarnation"@,
        )
        &&& declined
    } else if consumer.shut(pages) {
        &&& result == Err::<Option<ConfigurationInstall>, SocketError>(
            SocketError::Arena(ArenaError::Closed),
        )
        &&& declined
    } else if !ConsumerState::<T>::storage_agrees(pages, terms) {
        &&& result matches Err(SocketError::Arena(error)) && mapping_error(
            error,
            "arena header disagrees with grant"@,
        )
        &&& declined
    } else if terms.generation != pages.control.configuration {
        &&& result == Ok::<Option<ConfigurationInstall>, SocketError>(
            Some(ConfigurationInstall::Stale),
        )
        &&& declined
    } else {
        &&& result == Ok::<Option<ConfigurationInstall>, SocketError>(
            Some(ConfigurationInstall::Installed),
        )
        &&& left == consumer.reinstalled(pages.claims[id], terms).0
        &&& after == pages.with_claims(id, consumer.reinstalled(pages.claims[id], terms).1)
    }
}

/// What a reply to a request for replaced storage gives.
pub open spec fn installs<T>(
    consumer: ConsumerState<T>,
    pages: Pages,
    reply: Response,
    objects: usize,
    own_pid: u32,
    page_size: i64,
    left: ConsumerState<T>,
    after: Pages,
    result: Result<Option<ConfigurationInstall>, SocketError>,
) -> bool {
    let unchanged = left == consumer && after == pages;
    match reply {
        Response::Empty => result == Ok::<Option<ConfigurationInstall>, SocketError>(None)
            && unchanged,
        Response::Configuration { descriptor } => {
            if descriptor.payload_capacity == 0 || objects != 1 {
                &&& result matches Err(error) && protocol_error(
                    error,
                    "invalid CPU configuration resources"@,
                )
                &&& unchanged
            } else {
                exists|imported: Result<ConfigurationGrant, ArenaError>|
                    {
                        &&& #[trigger] replacement_result(
                            imported,
                            descriptor,
                            consumer.arena_scope,
                            pages.control.ring.len(),
                            pages.claims[consumer.incarnation.0],
                            own_pid,
                            page_size,
                        )
                        &&& match imported {
                            Err(error) => {
                                &&& result == Err::<Option<ConfigurationInstall>, SocketError>(
                                    SocketError::Arena(error),
                                )
                                &&& unchanged
                            },
                            Ok(grant) => installs_offer(
                                consumer,
                                pages,
                                grant@,
                                left,
                                after,
                                result,
                            ),
                        }
                    }
            }
        },
        _ => {
            &&& result matches Err(error) && protocol_error(
                error,
                "unexpected configuration reply"@,
            )
            &&& unchanged
        },
    }
}

} // verus!
