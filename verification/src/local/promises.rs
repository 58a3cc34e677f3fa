//! What Local Endpoints promise: names, places, trust and bounded exchanges.

use super::deadline::{Bounded, ExchangeFault};
use super::pipe::{
    access_list, connect_step, pipe_name, read_length, still_connected, ConnectStep, Identity,
    PeerPolicy, ServerPolicy,
};
use super::socket::{
    accept_step, alive_after_peek, bind_step, check_directory, check_server, directory_path,
    identity, socket_path, AcceptStep, BindStep,
};
use super::transfer::{
    announced, check_count, check_receipt, check_received, decode, encode, SendStep, Sending,
    TransferFault,
};
use super::{Endpoint, Error, InvalidName, PeerIdentity, Scope, Transport};
use crate::text::decimal;
use vstd::prelude::*;

verus! {

/// An endpoint's name has between one and sixty-four characters, each an ASCII letter, a digit, a
/// dot, an underscore or a hyphen, the first of them no dot; every such name is taken, with the
/// scope and the transport that came with it, and no other.
pub proof fn names_are_plain(
    scope: Scope,
    name: &str,
    transport: Transport,
    result: Result<Endpoint, InvalidName>,
)
    requires
        call_ensures(Endpoint::new, (scope, name, transport), result),
    ensures
        result is Ok <==> {
            &&& 1 <= name@.len() <= 64
            &&& name@[0] != '.'
            &&& forall|i: int|
                0 <= i < name@.len() ==> {
                    let c = #[trigger] name@[i];
                    'a' <= c <= 'z' || 'A' <= c <= 'Z' || '0' <= c <= '9' || c == '.' || c == '_'
                        || c == '-'
                }
        },
        result matches Ok(endpoint) ==> endpoint.spec_name() == name@ && endpoint.spec_scope()
            == scope && endpoint.spec_transport() == transport,
{
    if result is Ok {
        assert forall|i: int| 0 <= i < name@.len() implies ({
            let c = #[trigger] name@[i];
            'a' <= c <= 'z' || 'A' <= c <= 'Z' || '0' <= c <= '9' || c == '.' || c == '_' || c == '-'
        }) by {
            assert(super::name_char(name@[i]));
        }
    } else if 1 <= name@.len() <= 64 && name@[0] != '.' {
        let i = choose|i: int| 0 <= i < name@.len() && !super::name_char(#[trigger] name@[i]);
        let c = name@[i];
    }
}

/// Sockets live below the runtime directory where that is an absolute path, and below the temporary
/// directory otherwise, in a directory that names the user, each under its endpoint's own name:
/// different names of one directory have different sockets.
pub proof fn sockets_have_their_own_place(
    runtime: Seq<char>,
    temporary: Seq<char>,
    euid: u32,
    directory: Seq<char>,
    a: Seq<char>,
    b: Seq<char>,
)
    ensures
        ({
            let own = "/jackstay-"@ + decimal(euid as nat);
            &&& runtime.len() > 1 && runtime[0] == '/' && runtime.last() != '/' ==> directory_path(
                Some(runtime),
                temporary,
                euid,
            ) == runtime + own
            &&& temporary.len() > 0 && temporary.last() != '/' ==> {
                &&& directory_path(None, temporary, euid) == temporary + own
                &&& runtime.len() == 0 || runtime[0] != '/' ==> directory_path(
                    Some(runtime),
                    temporary,
                    euid,
                ) == temporary + own
            }
        }),
        directory.len() > 0 && directory.last() != '/' ==> socket_path(directory, a) == directory
            + "/"@ + a + ".sock"@,
        socket_path(directory, a) == socket_path(directory, b) ==> a == b,
{
    reveal_strlit("/");
    reveal_strlit(".sock");
    reveal_strlit("jackstay-");
    reveal_strlit("/jackstay-");
    let own = "/jackstay-"@ + decimal(euid as nat);
    assert("/jackstay-"@ =~= "/"@ + "jackstay-"@);
    assert(runtime + own =~= runtime + "/"@ + ("jackstay-"@ + decimal(euid as nat)));
    assert(temporary + own =~= temporary + "/"@ + ("jackstay-"@ + decimal(euid as nat)));
    assert(directory + "/"@ + a + ".sock"@ =~= directory + "/"@ + (a + ".sock"@));
    let pa = socket_path(directory, a);
    let pb = socket_path(directory, b);
    if pa == pb {
        let n: int = if directory.len() == 0 || directory.last() == '/' {
            directory.len() as int
        } else {
            (directory.len() + 1) as int
        };
        assert(pa.subrange(n, pa.len() - 5) =~= a);
        assert(pb.subrange(n, pb.len() - 5) =~= b);
    }
}

/// A directory is trusted exactly where it is a directory of this user that nobody else may enter,
/// read or change.
pub proof fn only_private_directories_are_trusted(
    is_dir: bool,
    owner: u32,
    euid: u32,
    mode: u32,
    path: &str,
    result: Result<(), Error>,
)
    requires
        call_ensures(check_directory, (is_dir, owner, euid, mode, path), result),
    ensures
        result is Ok <==> is_dir && owner == euid && mode & 0o077 == 0,
{
    assert(mode & 0o077 == mode % 64) by (bit_vector);
}

/// A server on a socket is trusted exactly where it runs as this user; who a peer is comes from the
/// system's report alone.
pub proof fn only_own_servers_are_trusted(
    server: &PeerIdentity,
    euid: u32,
    result: Result<(), Error>,
    pid: u32,
    uid: u32,
    peer: PeerIdentity,
)
    requires
        call_ensures(check_server, (server, euid), result),
        call_ensures(identity, (pid, uid), peer),
    ensures
        result is Ok <==> server.user@ == decimal(euid as nat),
        result is Err ==> result->Err_0 is UntrustedServer,
        peer.pid == pid,
        peer.user@ == decimal(uid as nat),
        peer.session is None,
{
}

/// A live server keeps its endpoint; only what nobody serves is replaced, and only where something
/// is there to replace.
pub proof fn live_servers_keep_their_endpoint(exists_there: bool, accepting: bool, step: BindStep)
    requires
        call_ensures(bind_step, (exists_there, accepting), step),
    ensures
        step == BindStep::Create <==> !exists_there,
        step == BindStep::Refuse <==> exists_there && accepting,
        step == BindStep::Replace <==> exists_there && !accepting,
{
}

/// An accepted peer is handed on as the system identified it, unless the wait was cancelled; one
/// that left before it could be identified does not stop the listener.
pub proof fn accepted_peers_are_identified(
    cancelled: bool,
    peer: Result<PeerIdentity, String>,
    alive: bool,
    step: AcceptStep,
)
    requires
        call_ensures(accept_step, (cancelled, peer, alive), step),
    ensures
        cancelled ==> step == AcceptStep::Failed(Error::Cancelled),
        !cancelled && peer is Ok ==> step == AcceptStep::Connected(peer->Ok_0),
        !cancelled && peer is Err && !alive ==> step is Skip,
        !cancelled && peer is Err && alive ==> step is Failed,
{
}

/// A peer counts as there while there is something to read or nothing yet, and as gone at the end
/// of its stream or at any other failure.
pub proof fn peers_are_alive_until_their_end(peeked: i64, would_wait: bool, alive: bool)
    requires
        call_ensures(alive_after_peek, (peeked, would_wait), alive),
    ensures
        peeked > 0 ==> alive,
        peeked == 0 ==> !alive,
        peeked < 0 ==> alive == would_wait,
{
}

/// A pipe server is trusted exactly where it runs as this user and, for an endpoint of the session,
/// in this session; a pipe client is accepted exactly where, for an endpoint of the session, it is in
/// this session.
pub proof fn pipes_stay_with_their_user_and_session(
    scope: Scope,
    me: &Identity,
    server_policy: &ServerPolicy,
    peer_policy: &PeerPolicy,
    other: &PeerIdentity,
    trusted: Result<(), Error>,
    accepted: Result<(), Error>,
)
    requires
        call_ensures(ServerPolicy::current, (scope, me), *server_policy),
        call_ensures(PeerPolicy::current, (scope, me), *peer_policy),
        call_ensures(ServerPolicy::check, (server_policy, other), trusted),
        call_ensures(PeerPolicy::check, (peer_policy, other), accepted),
    ensures
        trusted is Ok <==> other.user@ == me.user@ && (scope == Scope::Session ==> other.session
            == Some(me.session)),
        accepted is Ok <==> (scope == Scope::Session ==> other.session == Some(me.session)),
        trusted is Err ==> trusted->Err_0 is UntrustedServer,
        accepted is Err ==> accepted->Err_0 is RefusedPeer,
{
}

/// The pipe of an endpoint tells users and names apart, and for an endpoint of the session the
/// session is part of it; only the system and, for an endpoint of the user, the user, or for one
/// of the session, the logon have access.
pub proof fn pipes_are_rendered_for_their_owner(
    name: Seq<char>,
    other: Seq<char>,
    user: Seq<char>,
    session: u32,
    scope: Scope,
    me: &Identity,
    list: Result<String, Error>,
)
    requires
        call_ensures(access_list, (scope, me), list),
    ensures
        pipe_name(scope, name, user, session) == pipe_name(scope, other, user, session) ==> name
            == other,
        pipe_name(Scope::User, name, user, session) == "\\\\.\\pipe\\jackstay."@ + user + "."@ + name,
        pipe_name(Scope::Session, name, user, session) == "\\\\.\\pipe\\jackstay."@ + user + ".s"@
            + decimal(session as nat) + "."@ + name,
        list is Err <==> scope == Scope::Session && me.logon is None,
        list matches Ok(text) ==> text@ == "D:P(A;;GA;;;SY)(A;;GA;;;"@ + (if scope == Scope::User {
            me.user@
        } else {
            (me.logon->0)@
        }) + ")"@,
{
    let a = pipe_name(scope, name, user, session);
    let b = pipe_name(scope, other, user, session);
    if a == b {
        let n = a.len() - name.len();
        assert(b.len() - other.len() == n);
        assert(a.subrange(n, a.len() as int) =~= name);
        assert(b.subrange(n, b.len() as int) =~= other);
    }
}

/// Connecting to a busy pipe waits, at least as long as is left and hardly longer, until the
/// deadline; anything else is no reason to wait.
pub proof fn busy_pipes_are_waited_for(busy: bool, deadline: u128, now: u128, step: ConnectStep)
    requires
        call_ensures(connect_step, (busy, deadline, now), step),
    ensures
        !busy ==> step is Fail,
        busy && now >= deadline ==> step is TimedOut,
        busy && now < deadline ==> (step matches ConnectStep::Wait { milliseconds } && {
            &&& milliseconds > 0
            &&& deadline - now <= 4_000_000_000_000_000 ==> milliseconds * 1_000_000 >= deadline
                - now && milliseconds * 1_000_000 < deadline - now + 1_000_000
        }),
{
}

/// A pipe is still the one that was opened while it is alive and its server is the process that was
/// verified; and no more is read than there is room for.
pub proof fn pipes_are_read_within_bounds(
    alive: bool,
    opened: u32,
    named: u32,
    same: bool,
    room: usize,
    nonblocking: bool,
    available: u32,
    length: Option<u32>,
)
    requires
        call_ensures(still_connected, (alive, opened, named), same),
        call_ensures(read_length, (room, nonblocking, available), length),
    ensures
        same <==> alive && opened == named,
        length matches Some(n) ==> n <= room,
        nonblocking && available == 0 <==> length is None,
        nonblocking && length is Some ==> length->0 <= available,
        nonblocking && room > 0 && available > 0 ==> length->0 > 0,
        !nonblocking && room <= u32::MAX ==> length == Some(room as u32),
{
}

/// An exchange has until one moment for all of its steps together: what is left at a time and what
/// is left later differ by the time between, and nothing is left from that moment on.
pub proof fn exchanges_end_at_one_moment(
    bounded: &Bounded,
    now: u128,
    later: u128,
    left: Result<u128, ExchangeFault>,
    rest: Result<u128, ExchangeFault>,
    wait: Result<i32, ExchangeFault>,
)
    requires
        now <= later,
        call_ensures(Bounded::remaining, (bounded, now), left),
        call_ensures(Bounded::remaining, (bounded, later), rest),
        call_ensures(Bounded::ready_milliseconds, (bounded, now), wait),
    ensures
        left is Ok <==> now < bounded.deadline,
        left is Err ==> left->Err_0 == ExchangeFault::TimedOut && rest is Err && wait is Err,
        left is Ok && rest is Ok ==> left->Ok_0 - rest->Ok_0 == later - now,
        left is Ok ==> left->Ok_0 == bounded.deadline - now && wait is Ok && wait->Ok_0 >= 1,
        wait matches Ok(ms) ==> ms > 1 ==> ms as int * 1_000_000 <= bounded.deadline - now,
{
}

/// A transfer of handles goes through them in order, each with the access that it was to have; only
/// once all are in the peer are their values written; and after a failure exactly those that are in
/// the peer are taken back.
pub proof fn transfers_are_whole_or_taken_back(sending: &Sending, step: SendStep)
    requires
        sending.wf(),
        call_ensures(Sending::step, (sending,), step),
    ensures
        ({
            let done = sending.spec_values().len();
            let all = sending.spec_objects().len();
            &&& sending.spec_failed() <==> step is Revoke
            &&& step matches SendStep::Revoke(values) ==> values@ == sending.spec_values()
            &&& !sending.spec_failed() && done < all ==> step == (SendStep::Duplicate {
                position: done as usize,
                access: sending.spec_objects()[done as int],
            })
            &&& !sending.spec_failed() && done == all ==> step is Write
        }),
{
}

/// Between one and sixteen handles go into one transfer, on both sides.
pub proof fn transfers_carry_some_handles(
    count: usize,
    counted: Result<(), TransferFault>,
    received: usize,
    asked: usize,
    matched: Result<(), TransferFault>,
    receipt: u8,
    taken: Result<(), TransferFault>,
)
    requires
        call_ensures(check_count, (count,), counted),
        call_ensures(check_received, (received, asked), matched),
        call_ensures(check_receipt, (receipt,), taken),
    ensures
        counted is Ok <==> 1 <= count <= 16,
        matched is Ok <==> received == asked,
        taken is Ok <==> receipt == 1,
{
}

/// What is written for a transfer is what the other side reads: as many values, each at its place,
/// as long as none of them is zero and none comes twice; and other values are refused.
pub proof fn transferred_values_arrive(
    values: &Vec<u64>,
    message: Vec<u8>,
    header: &[u8],
    body: &Vec<u8>,
    count: Result<usize, TransferFault>,
    read: Result<Vec<u64>, TransferFault>,
)
    requires
        1 <= values@.len() <= 16,
        call_ensures(encode, (values,), message),
        message@.len() >= 4,
        header@ == message@.subrange(0, 4),
        body@ == message@.subrange(4, message@.len() as int),
        call_ensures(announced, (header,), count),
        call_ensures(decode, (body,), read),
    ensures
        count == Ok::<usize, TransferFault>(values@.len() as usize),
        body@.len() == 8 * values@.len(),
        (forall|i: int| 0 <= i < values@.len() ==> (#[trigger] values@[i]) != 0) && (forall|
            i: int,
            j: int,
        |
            0 <= i < j < values@.len() ==> (#[trigger] values@[i]) != (#[trigger] values@[j])) ==> (
        read matches Ok(got) && got@ == values@),
        read matches Ok(got) ==> got@ == values@,
        read is Err ==> read->Err_0 == TransferFault::Value,
{
    assert forall|i: int| 0 <= i < values@.len() implies #[trigger] super::transfer::value_at(
        body@,
        i,
    ) == values@[i] by {
        super::transfer::transfers_round_trip(values@, i);
    }
    super::transfer::transfers_round_trip(values@, 0);
    if read is Ok {
        let got = read->Ok_0;
        assert forall|i: int| 0 <= i < got@.len() implies got@[i] == values@[i] by {
            assert(got@[i] == super::transfer::value_at(body@, i));
        }
        assert(got@ =~= values@);
    } else if (forall|i: int| 0 <= i < values@.len() ==> (#[trigger] values@[i]) != 0) && (forall|
        i: int,
        j: int,
    |
        0 <= i < j < values@.len() ==> (#[trigger] values@[i]) != (#[trigger] values@[j])) {
        assert(body@.len() as int / 8 == values@.len());
        assert(super::transfer::usable(body@, values@.len() as int));
    }
}

} // verus!
