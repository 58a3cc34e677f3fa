//! The serving side: one connection admits one incarnation.

use super::{protocol_error, Request, Response, SocketError};
use crate::acquisition::arena::claims::lemma_first_free;
use crate::acquisition::arena::cleanup::ReleaseTimeline;
use crate::acquisition::arena::grants::{
    configuration_descriptor, control_bytes, exportable, grant_descriptor, replacement_exportable,
    ConfigurationTerms, GrantTerms,
};
use crate::acquisition::arena::layout::length_fits;
use crate::acquisition::arena::producer::attachment::remote_view;
use crate::acquisition::arena::producer::reconfiguration::offer_view;
use crate::acquisition::arena::producer::ArenaProducer;
use crate::acquisition::arena::state::ProducerState;
use crate::acquisition::arena::upkeep::same_page;
use crate::acquisition::arena::{configuration_error, ArenaError, ScopeId};
use crate::acquisition::{frames_of, IncarnationId};
use crate::totals::lemma_total_remove;
use vstd::prelude::*;

verus! {

/// One served connection.
pub struct ServerSession {
    /// The incarnation that this connection admitted.
    pub incarnation: Option<IncarnationId>,
}

/// What the host did for an attachment: it opened a watch on the peer's process, and created
/// the claim mapping and its wake channels.
pub struct Attachment {
    pub watch: Result<(), ArenaError>,
    pub setup: Result<ScopeId, ArenaError>,
}

/// What a request to attach gives.
pub open spec fn attaches<T: ReleaseTimeline>(
    session: ServerSession,
    state: ProducerState<T>,
    holding: u32,
    pid: u32,
    made: Attachment,
    now: u128,
    left: ServerSession,
    after: ProducerState<T>,
    result: Result<Response, SocketError>,
) -> bool {
    if session.incarnation is Some {
        &&& left == session
        &&& after == state
        &&& result matches Err(error) && protocol_error(error, "connection already attached"@)
    } else {
        exists|granted: Result<GrantTerms, ArenaError>|
            {
                &&& #[trigger] state.attaches_process(
                    after,
                    holding,
                    pid,
                    made.watch,
                    made.setup,
                    now,
                    granted,
                )
                &&& match granted {
                    Ok(terms) => {
                        &&& left.incarnation == Some(terms.incarnation)
                        &&& result == Ok::<Response, SocketError>(
                            Response::Attached {
                                descriptor: grant_descriptor(terms, state.page_size),
                            },
                        )
                    },
                    Err(error) => {
                        &&& left == session
                        &&& result == Err::<Response, SocketError>(SocketError::Arena(error))
                    },
                }
            }
    }
}

/// What handing out an offer, or its refusal, gives.
pub open spec fn hands_out<T>(
    offered: ProducerState<T>,
    offer: Result<Option<ConfigurationTerms>, ArenaError>,
    after: ProducerState<T>,
    result: Result<Response, SocketError>,
) -> bool {
    match offer {
        Err(error) => after == offered && result == Err::<Response, SocketError>(
            SocketError::Arena(error),
        ),
        Ok(None) => after == offered && result == Ok::<Response, SocketError>(Response::Empty),
        Ok(Some(terms)) => if terms.recipient_pid == 0 {
            &&& after == (ProducerState { pages: offered.pages.declined(terms), ..offered })
            &&& result matches Err(SocketError::Arena(error)) && configuration_error(
                error,
                "replacement export requires a process-bound incarnation"@,
            )
        } else {
            &&& after == offered
            &&& result == Ok::<Response, SocketError>(
                Response::Configuration { descriptor: configuration_descriptor(terms) },
            )
        },
    }
}

/// What a request for replaced storage gives.
pub open spec fn reconfigures<T>(
    session: ServerSession,
    state: ProducerState<T>,
    left: ServerSession,
    after: ProducerState<T>,
    result: Result<Response, SocketError>,
) -> bool {
    &&& left == session
    &&& match session.incarnation {
        None => {
            &&& after == state
            &&& result matches Err(error) && protocol_error(
                error,
                "configuration requires attachment"@,
            )
        },
        Some(incarnation) => exists|
            offered: ProducerState<T>,
            offer: Result<Option<ConfigurationTerms>, ArenaError>,
        |
            #[trigger] state.offers(offered, incarnation.0, offer) && hands_out(
                offered,
                offer,
                after,
                result,
            ),
    }
}

/// What a request gives.
pub open spec fn replies<T: ReleaseTimeline>(
    session: ServerSession,
    state: ProducerState<T>,
    request: Request,
    pid: u32,
    made: Attachment,
    now: u128,
    left: ServerSession,
    after: ProducerState<T>,
    result: Result<Response, SocketError>,
) -> bool {
    match request {
        Request::Attach { holding } => attaches(
            session,
            state,
            holding,
            pid,
            made,
            now,
            left,
            after,
            result,
        ),
        Request::Configuration => reconfigures(session, state, left, after, result),
    }
}

/// Declining an offer leaves every page its owner and shape.
proof fn lemma_declined_is_kept<T>(state: ProducerState<T>, terms: ConfigurationTerms)
    requires
        state.inv(),
    ensures
        state.pages_kept(state.pages.declined(terms)),
{
    let pages = state.pages.declined(terms);
    assert(pages.claims.dom() =~= state.pages.claims.dom());
    assert forall|id: u64| #[trigger]
        pages.claims.contains_key(id) implies same_page(
        state.pages.claims[id],
        pages.claims[id],
        state.accounts.reservations[id].frames as nat,
    ) by {
        assert(state.pages.claims.contains_key(id));
        assert(state.claim_proper(id));
    }
}

impl ServerSession {
    pub fn new() -> (result: Self)
        ensures
            result.incarnation is None,
    {
        ServerSession { incarnation: None }
    }

    /// Answers one request of the peer that the kernel reported.
    pub fn reply<T: ReleaseTimeline>(
        &mut self,
        producer: &mut ArenaProducer<T>,
        request: Request,
        pid: u32,
        made: Attachment,
        now: u128,
    ) -> (result: Result<Response, SocketError>)
        requires
            old(producer).wf(),
        ensures
            final(producer).wf(),
            replies(
                *old(self),
                old(producer)@,
                request,
                pid,
                made,
                now,
                *final(self),
                final(producer)@,
                result,
            ),
    {
        match request {
            Request::Attach { holding } => self.attach(producer, holding, pid, made, now),
            Request::Configuration => self.configuration(producer),
        }
    }

    fn attach<T: ReleaseTimeline>(
        &mut self,
        producer: &mut ArenaProducer<T>,
        holding: u32,
        pid: u32,
        made: Attachment,
        now: u128,
    ) -> (result: Result<Response, SocketError>)
        requires
            old(producer).wf(),
        ensures
            final(producer).wf(),
            attaches(
                *old(self),
                old(producer)@,
                holding,
                pid,
                made,
                now,
                *final(self),
                final(producer)@,
                result,
            ),
    {
        if self.incarnation.is_some() {
            return Err(SocketError::Protocol("connection already attached"));
        }
        let ghost state = producer@;
        let page_size: i64 = producer.page_size();
        let granted = producer.attach_process(holding, pid, made.watch, made.setup, now);
        let ghost outcome = remote_view(granted);
        assert(state.attaches_process(
            producer@,
            holding,
            pid,
            made.watch,
            made.setup,
            now,
            outcome,
        ));
        proof {
            producer.state_is_consistent();
        }
        match granted {
            Err(error) => Err(SocketError::Arena(error)),
            Ok(grant) => {
                self.incarnation = Some(grant.incarnation());
                proof {
                    lemma_grants_are_exportable(
                        state,
                        producer@,
                        holding,
                        pid,
                        made,
                        now,
                        grant@,
                    );
                }
                match grant.into_parts(page_size) {
                    Ok(descriptor) => Ok(Response::Attached { descriptor }),
                    Err((error, _)) => {
                        assert(false);
                        Err(SocketError::Arena(error))
                    },
                }
            },
        }
    }

    fn configuration<T>(&mut self, producer: &mut ArenaProducer<T>) -> (result: Result<
        Response,
        SocketError,
    >)
        requires
            old(producer).wf(),
        ensures
            final(producer).wf(),
            reconfigures(*old(self), old(producer)@, *final(self), final(producer)@, result),
    {
        let incarnation = match self.incarnation {
            None => {
                return Err(SocketError::Protocol("configuration requires attachment"));
            },
            Some(incarnation) => incarnation,
        };
        let ghost state = producer@;
        let page_size: i64 = producer.page_size();
        proof {
            producer.state_is_consistent();
        }
        let offered = producer.configuration_offer(incarnation);
        let ghost offer = offer_view(offered);
        let ghost mid = producer@;
        assert(state.offers(mid, incarnation.0, offer));
        proof {
            producer.state_is_consistent();
        }
        match offered {
            Err(error) => Err(SocketError::Arena(error)),
            Ok(None) => Ok(Response::Empty),
            Ok(Some(grant)) => {
                proof {
                    lemma_offers_are_exportable(state, mid, incarnation.0, grant@);
                }
                match grant.into_parts(page_size) {
                    Ok(descriptor) => Ok(Response::Configuration { descriptor }),
                    Err((error, grant)) => {
                        proof {
                            lemma_declined_is_kept(mid, grant@);
                            producer.pages_are_shared();
                        }
                        grant.decline(producer.pages());
                        Err(SocketError::Arena(error))
                    },
                }
            },
        }
    }

    /// Ends the connection. The end of the stream is closure, not proof that the process or
    /// its mappings died.
    pub fn end<T>(self, producer: &mut ArenaProducer<T>)
        requires
            old(producer).wf(),
        ensures
            final(producer).wf(),
            match self.incarnation {
                Some(incarnation) if old(producer)@.pages.claims.contains_key(
                    incarnation.0,
                ) => final(producer)@ == (ProducerState {
                    pages: old(producer)@.pages.with_claims(
                        incarnation.0,
                        old(producer)@.pages.claims[incarnation.0].closed(),
                    ),
                    accounts: old(producer)@.accounts.closed(incarnation),
                    ..old(producer)@
                }),
                _ => final(producer)@ == old(producer)@,
            },
    {
        if let Some(incarnation) = self.incarnation {
            let _ = producer.close(incarnation);
        }
    }
}

/// What is granted after admission can be exported.
proof fn lemma_grants_are_exportable<T: ReleaseTimeline>(
    state: ProducerState<T>,
    after: ProducerState<T>,
    holding: u32,
    pid: u32,
    made: Attachment,
    now: u128,
    terms: GrantTerms,
)
    requires
        after.inv(),
        state.attaches_process(
            after,
            holding,
            pid,
            made.watch,
            made.setup,
            now,
            Ok::<GrantTerms, ArenaError>(terms),
        ),
    ensures
        exportable(terms, state.page_size),
        length_fits(
            control_bytes(terms.layout.history as int),
            state.page_size as int,
        ),
{
    assert(after.pages.resources.contains_key(terms.generation));
    assert(after.resource_proper(terms.generation));
}

/// What is offered can be exported.
proof fn lemma_offers_are_exportable<T>(
    state: ProducerState<T>,
    after: ProducerState<T>,
    id: u64,
    terms: ConfigurationTerms,
)
    requires
        state.inv(),
        state.offers(after, id, Ok::<Option<ConfigurationTerms>, ArenaError>(Some(terms))),
    ensures
        replacement_exportable(terms, state.page_size),
{
    let frames = frames_of(state.accounts.reservations);
    assert(state.pages.claims.contains_key(id));
    assert(state.accounts.reservations.contains_key(id));
    assert(state.claim_proper(id));
    assert(frames.dom() =~= state.accounts.reservations.dom());
    lemma_total_remove(frames, id);
    lemma_first_free(state.pages.claims[id].mappings);
    assert(state.pages.resources.contains_key(terms.generation));
    assert(state.resource_proper(terms.generation));
}

/// What is written for the outcome of a request: a refusal is told in words.
pub open spec fn answer_of(result: Result<Response, SocketError>, response: Response) -> bool {
    match result {
        Ok(reply) => response == reply,
        Err(error) => response matches Response::Rejected { message } && message@ == error.text(),
    }
}

/// Serves one request of an authorized connection: the reply that is written, with the objects
/// that follow it. The host reads requests until the end of the stream, and holds no lock on
/// the producer while it sends.
pub fn serve_cpu<T: ReleaseTimeline>(
    session: &mut ServerSession,
    producer: &mut ArenaProducer<T>,
    request: Request,
    pid: u32,
    made: Attachment,
    now: u128,
) -> (result: Response)
    requires
        old(producer).wf(),
    ensures
        final(producer).wf(),
        exists|outcome: Result<Response, SocketError>|
            {
                &&& #[trigger] replies(
                    *old(session),
                    old(producer)@,
                    request,
                    pid,
                    made,
                    now,
                    *final(session),
                    final(producer)@,
                    outcome,
                )
                &&& answer_of(outcome, result)
            },
{
    let outcome = session.reply(producer, request, pid, made, now);
    let ghost told = outcome;
    let response = match outcome {
        Ok(reply) => reply,
        Err(error) => Response::Rejected { message: error.message() },
    };
    assert(answer_of(told, response));
    response
}

} // verus!
