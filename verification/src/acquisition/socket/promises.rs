//! What setup over a connection comes to, from the request to the consumer.

use super::client::{attachable, installs_offer, CpuSetupClient};
use super::message::{frame, messages_are_read_back, MessageReader, Progress};
use super::server::{replies, serve_cpu, Attachment, ServerSession};
use super::{Request, Response, SocketError};
use crate::acquisition::arena::cleanup::{ReleaseTimeline, TimelineAnswer};
use crate::acquisition::arena::consumer::{fresh_consumer, ArenaConsumer};
use crate::acquisition::arena::grants::{
    imported_terms, replacement_result, ConfigurationGrant, ConfigurationTerms, GrantTerms,
};
use crate::acquisition::arena::lifecycle::{
    admitted_consumers_get_what_they_asked_for, installed_storage_replaces_the_old,
    offers_are_for_one_incarnation, offers_name_the_installed_storage,
};
use crate::acquisition::arena::pages::ArenaPages;
use crate::acquisition::arena::producer::reconfiguration::ConfigurationInstall;
use crate::acquisition::arena::producer::ArenaProducer;
use crate::acquisition::arena::state::ProducerState;
use crate::acquisition::arena::turns::lemma_cleaned;
use crate::acquisition::arena::ArenaError;
use crate::acquisition::IncarnationId;
use vstd::prelude::*;

verus! {

/// A connection that asks for a holding and gets one is granted exactly that holding, for the
/// process that the system says is at its other end; and what the other end makes of the grant is
/// a consumer of that incarnation with as many slots, on the storage that is installed.
pub proof fn attachments_reach_the_consumer<T: ReleaseTimeline, U>(
    session: ServerSession,
    state: ProducerState<T>,
    holding: u32,
    pid: u32,
    made: Attachment,
    now: u128,
    left: ServerSession,
    after: ProducerState<T>,
    reply: Response,
)
    requires
        state.inv(),
        replies(
            session,
            state,
            Request::Attach { holding },
            pid,
            made,
            now,
            left,
            after,
            Ok(reply),
        ),
    ensures
        session.incarnation is None,
        reply matches Response::Attached { descriptor } && {
            let id = descriptor.incarnation;
            let g = descriptor.generation;
            let consumer = fresh_consumer::<U>(
                imported_terms(descriptor, state.page_size),
                state.page_size,
            );
            &&& left.incarnation == Some(IncarnationId(id))
            &&& !state.pages.claims.contains_key(id)
            &&& after.pages.claims.contains_key(id)
            &&& after.pages.claims[id].slots.len() == holding
            &&& after.pages.claims[id].recipient_pid == pid
            &&& after.pages.claims[id].active != 0
            &&& after.current == Some(g)
            &&& descriptor.holding == holding
            &&& descriptor.recipient_pid == pid
            &&& descriptor.arena_scope == after.pages.control.scope
            &&& descriptor.claim_scope == after.pages.claims[id].scope
            &&& descriptor.payload_capacity
                == after.pages.resources[g].layout.payload_capacity
            &&& descriptor.resources == after.pages.resources[g].layout.resources
            &&& descriptor.history == after.pages.resources[g].layout.history
            &&& descriptor.resource_map_len == after.pages.resources[g].layout.len
            &&& descriptor.drain_timeout == state.drain_timeout
            &&& after.pages.claims[id].mappings[descriptor.mapping_slot as int] == g
            &&& consumer.incarnation == IncarnationId(id)
            &&& consumer.held.len() == holding
            &&& consumer.alive
            &&& !consumer.closed
            &&& consumer.claim_scope == descriptor.claim_scope
            &&& consumer.arena_scope == descriptor.arena_scope
            &&& consumer.recipient_pid == pid
            &&& consumer.installed matches Some(mapping) && {
                &&& mapping.generation == g
                &&& mapping.slot == descriptor.mapping_slot
                &&& mapping.layout.payload_capacity
                    == after.pages.resources[g].layout.payload_capacity
                &&& mapping.layout.resources == after.pages.resources[g].layout.resources
                &&& mapping.layout.history == after.pages.resources[g].layout.history
                &&& mapping.layout.len == after.pages.resources[g].layout.len
            }
            &&& forall|i: int| 0 <= i < holding ==> (#[trigger] consumer.held[i]) is None
        },
{
    let granted = choose|granted: Result<GrantTerms, ArenaError>|
        {
            &&& #[trigger] state.attaches_process(
                after,
                holding,
                pid,
                made.watch,
                made.setup,
                now,
                granted,
            )
            &&& match granted {
                Ok(terms) => {
                    &&& left.incarnation == Some(terms.incarnation)
                    &&& Ok::<Response, SocketError>(reply) == Ok::<Response, SocketError>(
                        Response::Attached {
                            descriptor: crate::acquisition::arena::grants::grant_descriptor(
                                terms,
                                state.page_size,
                            ),
                        },
                    )
                },
                Err(error) => false,
            }
        };
    let terms = granted->Ok_0;
    let answers = choose|answers: Map<u64, Seq<TimelineAnswer>>|
        {
            &&& state.complete_look(now, answers)
            &&& (#[trigger] state.cleaned(now, answers)).attaches(
                after,
                holding,
                pid,
                true,
                made.setup,
                granted,
            )
        };
    lemma_cleaned(state, now, answers);
    let cleaned = state.cleaned(now, answers);
    admitted_consumers_get_what_they_asked_for(
        cleaned,
        after,
        holding,
        pid,
        true,
        made.setup,
        terms,
    );
    assert(cleaned.pages.resources.contains_key(terms.generation));
    assert(cleaned.resource_proper(terms.generation));
    assert(after.pages.resources[terms.generation].layout.consistent(state.page_size as int));
    if state.pages.claims.contains_key(terms.incarnation.0) {
        assert(state.accounts.reservations.contains_key(terms.incarnation.0));
    }
}

/// A connection admits one consumer: once it has, it is not admitted again, and asking for replaced
/// storage before it has is refused. Neither changes anything.
pub proof fn connections_admit_once<T: ReleaseTimeline>(
    session: ServerSession,
    state: ProducerState<T>,
    request: Request,
    pid: u32,
    made: Attachment,
    now: u128,
    left: ServerSession,
    after: ProducerState<T>,
    result: Result<Response, SocketError>,
)
    requires
        replies(session, state, request, pid, made, now, left, after, result),
        request is Attach && session.incarnation is Some || request is Configuration
            && session.incarnation is None,
    ensures
        result is Err,
        after == state,
        left == session,
{
}

/// Replaced storage is handed out to the connection's own incarnation as it is installed.
pub proof fn replacements_are_handed_out<T: ReleaseTimeline>(
    session: ServerSession,
    state: ProducerState<T>,
    pid: u32,
    made: Attachment,
    now: u128,
    left: ServerSession,
    after: ProducerState<T>,
    reply: Response,
)
    requires
        state.inv(),
        session.incarnation matches Some(id) && state.pages.claims[id.0].mappings.len() <= u32::MAX,
        replies(session, state, Request::Configuration, pid, made, now, left, after, Ok(reply)),
    ensures
        reply is Configuration || reply is Empty,
        reply is Empty ==> after == state,
        reply matches Response::Configuration { descriptor } ==> {
            let id = (session.incarnation->0).0;
            &&& descriptor.incarnation == id
            &&& state.current == Some(descriptor.generation)
            &&& descriptor.arena_scope == state.pages.control.scope
            &&& descriptor.claim_scope == state.pages.claims[id].scope
            &&& descriptor.recipient_pid == state.pages.claims[id].recipient_pid
            &&& descriptor.recipient_pid != 0
            &&& descriptor.payload_capacity
                == state.pages.resources[descriptor.generation].layout.payload_capacity
            &&& descriptor.resources
                == state.pages.resources[descriptor.generation].layout.resources
            &&& descriptor.history == state.pages.resources[descriptor.generation].layout.history
            &&& descriptor.resource_map_len
                == state.pages.resources[descriptor.generation].layout.len
            &&& after.pages.claims[id].offered == descriptor.generation
            &&& after.pages.claims[id].mappings[descriptor.mapping_slot as int]
                == descriptor.generation
        },
        left == session,
{
    let id = (session.incarnation->0).0;
    let (offered, offer) = choose|
        offered: ProducerState<T>,
        offer: Result<Option<ConfigurationTerms>, ArenaError>,
    |
        #[trigger] state.offers(offered, id, offer) && super::server::hands_out(
            offered,
            offer,
            after,
            Ok(reply),
        );
    offers_name_the_installed_storage(state, offered, id, offer);
    if state.current is Some {
        assert(state.pages.resources.contains_key(state.current->0));
        assert(state.resource_proper(state.current->0));
    }
}

/// Only a reply that admits a consumer to inline storage, with all its objects, is imported, and
/// then with the descriptor that it carries.
pub proof fn only_whole_attachments_are_imported(
    reply: Response,
    objects: usize,
    descriptor: crate::acquisition::arena::grants::GrantDescriptor,
)
    requires
        attachable(reply, objects, Ok(descriptor)),
    ensures
        reply == (Response::Attached { descriptor }),
        objects == 5,
        objects == reply.spec_objects(),
        descriptor.payload_capacity > 0,
{
}

/// A message that arrives in two parts is read whole as it was framed, and the reader is ready for
/// the next one; after the first part it waits for the rest.
pub proof fn messages_in_parts_are_read_whole(
    body: &Vec<u8>,
    framed: Result<Vec<u8>, SocketError>,
    fresh: MessageReader,
    first: &mut MessageReader,
    front: &[u8],
    begun: Result<Progress, SocketError>,
    second: &mut MessageReader,
    back: &[u8],
    result: Result<Progress, SocketError>,
)
    requires
        call_ensures(frame, (body,), framed),
        1 <= body@.len() <= 16384,
        call_ensures(MessageReader::new, (), fresh),
        *old(first) == fresh,
        front@.len() == 12,
        call_ensures(MessageReader::took, (first, front), begun),
        *old(second) == *final(first),
        back@.len() > 0,
        call_ensures(MessageReader::took, (second, back), result),
        framed matches Ok(bytes) ==> front@ + back@ == bytes@,
    ensures
        framed matches Ok(bytes) && bytes@.len() == 12 + body@.len(),
        begun == Ok::<Progress, SocketError>(Progress::More),
        final(first).wf() ==> final(first).spec_wants() == body@.len(),
        result matches Ok(Progress::Message(read)) && read@ == body@,
        final(second).spec_bytes() == Seq::<u8>::empty(),
{
    messages_are_read_back(body@);
    let bytes = (framed->Ok_0)@;
    assert(fresh.spec_bytes() + front@ =~= front@);
    assert(front@ =~= bytes.subrange(0, 12));
    assert(front@.subrange(0, 8) =~= bytes.subrange(0, 8));
    assert(front@.subrange(8, 12) =~= bytes.subrange(8, 12));
}

/// What a client makes of a reply: a rejection and a failure of the connection are told as such, and
/// only the latter ends the connection.
pub proof fn replies_are_taken_as_given(
    client: &mut CpuSetupClient,
    outcome: Result<Option<Response>, SocketError>,
    result: Result<Response, SocketError>,
)
    requires
        call_ensures(CpuSetupClient::request, (client, outcome), result),
    ensures
        final(client).identity == old(client).identity,
        outcome is Err || (outcome matches Ok(None)) ==> final(client).failed && result is Err,
        outcome matches Ok(Some(reply)) ==> {
            &&& final(client).failed == old(client).failed
            &&& reply matches Response::Rejected { message } ==> result == Err::<
                Response,
                SocketError,
            >(SocketError::Rejected(message))
            &&& !(reply is Rejected) ==> result == Ok::<Response, SocketError>(reply)
        },
{
}

/// A client that is attached serves one consumer: it asks for no second holding, and asks for
/// storage only for that consumer and only where the consumer is behind.
pub proof fn clients_serve_one_consumer<T>(
    client: &CpuSetupClient,
    holding: u32,
    asked: Result<Request, SocketError>,
    consumer: &ArenaConsumer<T>,
    pages: &ArenaPages,
    wanted: Result<Option<Request>, SocketError>,
)
    requires
        call_ensures(CpuSetupClient::ask_attach, (client, holding), asked),
        call_ensures(CpuSetupClient::ask_configuration::<T>, (client, consumer, pages), wanted),
    ensures
        asked is Ok <==> client.identity is None && !client.failed,
        asked matches Ok(request) ==> request == (Request::Attach { holding }),
        wanted matches Ok(Some(request)) ==> request == Request::Configuration,
        ({
            let mine = client.identity matches Some((incarnation, scope)) && incarnation
                == consumer@.incarnation && scope == consumer@.claim_scope;
            let current = consumer@.installed matches Some(mapping) && mapping.generation
                == pages@.control.configuration;
            &&& !mine ==> wanted is Err
            &&& mine && current ==> (wanted matches Ok(None))
            &&& mine && !current && !client.failed ==> (wanted matches Ok(Some(_)))
            &&& mine && !current && client.failed ==> wanted is Err
        }),
{
}

/// A reply that is attached makes a consumer of the grant in it, with as many slots and the storage
/// that it names; the client then belongs to that consumer, and a client that cannot attach has
/// failed.
pub proof fn attached_replies_make_their_consumer<T>(
    client: &mut CpuSetupClient,
    pages: &mut ArenaPages,
    reply: &Response,
    objects: usize,
    words: Vec<u64>,
    now: u128,
    own_pid: u32,
    page_size: i64,
    result: Result<ArenaConsumer<T>, SocketError>,
)
    requires
        call_ensures(
            CpuSetupClient::attach::<T>,
            (client, pages, reply, objects, words, now, own_pid, page_size),
            result,
        ),
    ensures
        result matches Ok(consumer) ==> (*reply matches Response::Attached { descriptor } && {
            let page = final(pages)@.claims[descriptor.incarnation];
            &&& objects == 5
            &&& descriptor.recipient_pid == own_pid
            &&& consumer@.incarnation.0 == descriptor.incarnation
            &&& consumer@.held.len() == descriptor.holding
            &&& consumer@.claim_scope == descriptor.claim_scope
            &&& consumer@.arena_scope == descriptor.arena_scope
            &&& consumer@.installed matches Some(mapping) && mapping.generation
                == descriptor.generation && mapping.layout.payload_capacity
                == descriptor.payload_capacity && mapping.layout.resources == descriptor.resources
            &&& old(pages)@.control.scope == descriptor.arena_scope
            &&& old(pages)@.resources.contains_key(descriptor.generation)
            &&& final(client).identity == Some((consumer@.incarnation, consumer@.claim_scope))
            &&& final(client).failed == old(client).failed
            &&& page.offered == 0
            &&& page.slots.len() == descriptor.holding
            &&& forall|i: int|
                0 <= i < descriptor.holding ==> (#[trigger] page.slots[i]) == words@[32 + 4 * i]
        }),
        result is Err ==> final(client).failed && final(client).identity == old(client).identity,
        !(*reply is Attached) ==> result is Err,
        objects != 5 ==> result is Err,
        final(pages)@.resources == old(pages)@.resources,
        final(pages)@.control == old(pages)@.control,
{
}

/// A reply with replaced storage is installed on the consumer as the reply names it, and leaves the
/// frames that it holds; an empty one changes nothing.
pub proof fn replaced_storage_is_installed<T>(
    client: &mut CpuSetupClient,
    consumer: &mut ArenaConsumer<T>,
    pages: &mut ArenaPages,
    reply: &Response,
    objects: usize,
    own_pid: u32,
    result: Result<Option<ConfigurationInstall>, SocketError>,
)
    requires
        call_ensures(
            CpuSetupClient::install_configuration::<T>,
            (client, consumer, pages, reply, objects, own_pid),
            result,
        ),
    ensures
        final(client).identity == old(client).identity,
        result is Err ==> final(client).failed,
        result is Ok ==> final(client).failed == old(client).failed,
        *reply == Response::Empty ==> result == Ok::<Option<ConfigurationInstall>, SocketError>(
            None,
        ) && final(consumer)@ == old(consumer)@ && final(pages)@ == old(pages)@,
        final(consumer)@.held == old(consumer)@.held,
        final(consumer)@.pending == old(consumer)@.pending,
        result matches Ok(Some(ConfigurationInstall::Installed)) ==> (
        *reply matches Response::Configuration { descriptor } && {
            &&& objects == 1
            &&& descriptor.recipient_pid == own_pid
            &&& descriptor.generation == old(pages)@.control.configuration
            &&& descriptor.arena_scope == old(consumer)@.arena_scope
            &&& final(consumer)@.installed matches Some(mapping) && mapping.generation
                == descriptor.generation && mapping.layout.payload_capacity
                == descriptor.payload_capacity && mapping.layout.resources == descriptor.resources
                && mapping.slot == descriptor.mapping_slot
        }),
        !(result matches Ok(Some(ConfigurationInstall::Installed)))
            ==> final(consumer)@ == old(consumer)@,
{
    if let Response::Configuration { descriptor } = *reply {
        if descriptor.payload_capacity != 0 && objects == 1 {
            let imported = choose|imported: Result<ConfigurationGrant, ArenaError>|
                {
                    &&& #[trigger] replacement_result(
                        imported,
                        descriptor,
                        old(consumer)@.arena_scope,
                        old(pages)@.control.ring.len(),
                        old(pages)@.claims[old(consumer)@.incarnation.0],
                        own_pid,
                        old(consumer).spec_page_size() as i64,
                    )
                    &&& match imported {
                        Err(error) => {
                            &&& result == Err::<Option<ConfigurationInstall>, SocketError>(
                                SocketError::Arena(error),
                            )
                            &&& final(consumer)@ == old(consumer)@ && final(pages)@ == old(pages)@
                        },
                        Ok(grant) => installs_offer(
                            old(consumer)@,
                            old(pages)@,
                            grant@,
                            final(consumer)@,
                            final(pages)@,
                            result,
                        ),
                    }
                };
            if imported is Ok {
                offers_are_for_one_incarnation(
                    imported->Ok_0,
                    descriptor,
                    old(consumer)@.arena_scope,
                    old(pages)@.control.ring.len(),
                    old(pages)@.claims[old(consumer)@.incarnation.0],
                    own_pid,
                    old(consumer).spec_page_size() as i64,
                );
                installed_storage_replaces_the_old(
                    old(consumer)@,
                    old(pages)@.claims[old(consumer)@.incarnation.0],
                    (imported->Ok_0)@,
                );
            }
        }
    }
}

/// What a connection is answered is the reply to its request, or that it was rejected: then the
/// producer has admitted nobody for it.
pub proof fn rejected_requests_admit_nobody<T: ReleaseTimeline>(
    session: &mut ServerSession,
    producer: &mut ArenaProducer<T>,
    request: Request,
    pid: u32,
    made: Attachment,
    now: u128,
    result: Response,
)
    requires
        call_ensures(serve_cpu::<T>, (session, producer, request, pid, made, now), result),
    ensures
        result is Rejected ==> final(session).incarnation == old(session).incarnation,
        result is Attached ==> request is Attach && old(session).incarnation is None
            && final(session).incarnation is Some,
        result is Configuration || result is Empty ==> request is Configuration
            && old(session).incarnation is Some && final(session).incarnation
            == old(session).incarnation,
        result matches Response::Attached { descriptor } ==> final(session).incarnation == Some(
            IncarnationId(descriptor.incarnation),
        ) && descriptor.recipient_pid == pid,
{
}

/// The end of a connection closes the incarnation that was admitted on it and keeps its claims; it
/// closes nobody else.
pub proof fn ended_connections_close_their_incarnation<T>(
    session: ServerSession,
    producer: &mut ArenaProducer<T>,
    other: u64,
)
    requires
        call_ensures(ServerSession::end::<T>, (session, producer), ()),
        session.incarnation matches Some(incarnation) ==> incarnation.0 != other,
    ensures
        session.incarnation matches Some(incarnation)
            ==> old(producer)@.pages.claims.contains_key(incarnation.0) ==> {
            let was = old(producer)@.pages.claims[incarnation.0];
            let is = final(producer)@.pages.claims[incarnation.0];
            &&& is.active == 0
            &&& is.slots == was.slots
            &&& is.pending == was.pending
        },
        final(producer)@.pages.claims[other] == old(producer)@.pages.claims[other],
        final(producer)@.pages.resources == old(producer)@.pages.resources,
        session.incarnation is None ==> final(producer)@ == old(producer)@,
{
}

} // verus!
