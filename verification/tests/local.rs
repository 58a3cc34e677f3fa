use jackstay::local::deadline::{Bounded, ExchangeFault, ReadExact, WriteAll};
use jackstay::local::pipe::{
    access_list, check_timeout, connect_step, milliseconds, pair_name, read_length, render_for, still_connected,
    ConnectStep, Identity, PeerPolicy, ServerPolicy, INFINITE,
};
use jackstay::local::socket::{
    accept_step, alive_after_peek, bind_step, check_directory, check_server, directory, identity, render, AcceptStep,
    BindStep,
};
use jackstay::local::transfer::{
    announced, check_count, check_receipt, check_received, decode, encode, Access, SendStep, Sending, TransferFault,
    MAX_HANDLES,
};
use jackstay::local::{Endpoint, Error, PeerIdentity, Scope, Transport, MAX_NAME};

const SECOND: u128 = 1_000_000_000;

fn me() -> Identity {
    Identity {
        user: "S-1-5-21-1-2-3-1001".to_string(),
        logon: Some("S-1-5-5-0-77".to_string()),
        session: 3,
    }
}

fn endpoint(scope: Scope) -> Endpoint {
    Endpoint::new(scope, "cpu", Transport::LocalStream).unwrap()
}

#[test]
fn names_cannot_escape_the_endpoint_namespace() {
    for name in ["", ".hidden", "a/b", "a\\b", "..", "white space", "é", &"x".repeat(MAX_NAME + 1)] {
        assert!(Endpoint::new(Scope::User, name, Transport::LocalStream).is_err(), "{name:?}");
    }
    assert!(Endpoint::new(Scope::User, "source-1.cpu_2", Transport::LocalStream).is_ok());
}

#[test]
fn rendering_is_direct_and_scoped_by_user_and_session() {
    let me = me();
    let user = render_for(&endpoint(Scope::User), &me);
    assert_eq!(user, format!(r"\\.\pipe\jackstay.{}.cpu", me.user));
    let session = render_for(&endpoint(Scope::Session), &me);
    assert_eq!(session, format!(r"\\.\pipe\jackstay.{}.s{}.cpu", me.user, me.session));
}

#[test]
fn a_session_bound_client_refuses_a_server_in_another_session() {
    let me = me();
    let policy = ServerPolicy {
        user: me.user.clone(),
        session: Some(me.session),
    };
    let other_session = PeerIdentity {
        pid: 4242,
        user: me.user.clone(),
        session: Some(me.session + 1),
    };
    assert!(matches!(policy.check(&other_session), Err(Error::UntrustedServer(_))));
}

#[test]
fn a_session_bound_endpoint_refuses_a_peer_from_another_session() {
    let me = me();
    let policy = PeerPolicy { session: Some(me.session) };
    let session0 = PeerIdentity {
        pid: 4242,
        user: me.user.clone(),
        session: Some(0),
    };
    let desktop = PeerIdentity {
        session: Some(me.session),
        ..session0.clone()
    };
    if me.session != 0 {
        assert!(matches!(policy.check(&session0), Err(Error::RefusedPeer(_))));
    }
    assert!(policy.check(&desktop).is_ok());
    assert!(PeerPolicy { session: None }.check(&session0).is_ok());
}

#[test]
fn a_client_refuses_a_real_server_owned_by_another_account() {
    // The endpoint mapper's pipe is served by a service account.
    let policy = ServerPolicy::current(Scope::User, &me());
    let server = PeerIdentity {
        pid: 900,
        user: "S-1-5-20".to_string(),
        session: Some(0),
    };
    match policy.check(&server) {
        Err(Error::UntrustedServer(message)) => assert!(message.contains("runs as"), "{message}"),
        other => panic!("expected refusal, got {other:?}"),
    }
}

#[test]
fn a_client_refuses_a_server_not_owned_by_the_expected_user() {
    let policy = ServerPolicy {
        user: "S-1-5-18".into(),
        session: None,
    };
    let server = PeerIdentity {
        pid: 12,
        user: me().user,
        session: Some(3),
    };
    match policy.check(&server) {
        Err(Error::UntrustedServer(message)) => {
            assert_eq!(message, "server process 12 runs as S-1-5-21-1-2-3-1001, not S-1-5-18");
        }
        other => panic!("expected refusal, got {other:?}"),
    }
}

#[test]
fn policies_follow_the_scope() {
    assert_eq!(ServerPolicy::current(Scope::User, &me()).session, None);
    assert_eq!(ServerPolicy::current(Scope::Session, &me()).session, Some(3));
    assert_eq!(PeerPolicy::current(Scope::Session, &me()).session, Some(3));
    assert_eq!(PeerPolicy::current(Scope::User, &me()).session, None);
}

#[test]
fn refusals_name_both_sessions() {
    let peer = PeerIdentity {
        pid: 4242,
        user: me().user,
        session: None,
    };
    let error = PeerPolicy { session: Some(3) }.check(&peer).unwrap_err();
    assert_eq!(
        error.message(),
        "Local Endpoint peer refused: peer process 4242 is in session None; this endpoint is bound to session 3"
    );
}

#[test]
fn access_lists_name_one_trustee() {
    assert_eq!(
        access_list(Scope::User, &me()).unwrap(),
        "D:P(A;;GA;;;SY)(A;;GA;;;S-1-5-21-1-2-3-1001)"
    );
    assert_eq!(access_list(Scope::Session, &me()).unwrap(), "D:P(A;;GA;;;SY)(A;;GA;;;S-1-5-5-0-77)");
    let nobody = Identity { logon: None, ..me() };
    assert_eq!(
        access_list(Scope::Session, &nobody),
        Err(Error::Io("the process token has no logon SID".to_string()))
    );
}

#[test]
fn pipe_waits_are_rounded_up_and_never_endless_by_accident() {
    assert_eq!(milliseconds(None), INFINITE);
    assert_eq!(milliseconds(Some(0)), 0);
    assert_eq!(milliseconds(Some(1)), 1);
    assert_eq!(milliseconds(Some(1_000_001)), 2);
    assert_eq!(milliseconds(Some(u128::MAX)), INFINITE - 1);
    assert_eq!(connect_step(false, 10, 0), ConnectStep::Fail);
    assert_eq!(connect_step(true, 10, 10), ConnectStep::TimedOut);
    assert_eq!(connect_step(true, 5 * SECOND, SECOND), ConnectStep::Wait { milliseconds: 4000 });
}

#[test]
fn pipe_reads_ask_for_no_more_than_there_is() {
    assert_eq!(read_length(16, false, 0), Some(16));
    assert_eq!(read_length(16, true, 0), None);
    assert_eq!(read_length(16, true, 4), Some(4));
    assert_eq!(read_length(2, true, 4), Some(2));
    assert!(check_timeout(Some(0)).is_err());
    assert!(check_timeout(None).is_ok());
    assert!(still_connected(true, 7, 7));
    assert!(!still_connected(true, 7, 8));
    assert_eq!(pair_name(7, "ab"), r"\\.\pipe\jackstay.pair.7.ab");
}

#[test]
fn sockets_live_in_a_private_directory_of_the_user() {
    assert_eq!(directory(Some("/run/user/1000"), "/tmp", 1000), "/run/user/1000/jackstay-1000");
    assert_eq!(directory(Some("relative"), "/tmp/", 1000), "/tmp/jackstay-1000");
    assert_eq!(directory(None, "/tmp", 0), "/tmp/jackstay-0");
    assert_eq!(render("/tmp/jackstay-0", &endpoint(Scope::Session)), "/tmp/jackstay-0/cpu.sock");
    assert!(check_directory(true, 1000, 1000, 0o40700, "/d").is_ok());
    for (is_dir, owner, mode) in [(false, 1000, 0o700), (true, 1001, 0o700), (true, 1000, 0o710)] {
        assert_eq!(
            check_directory(is_dir, owner, 1000, mode, "/d"),
            Err(Error::Io("/d is not a private directory owned by this user".to_string()))
        );
    }
}

#[test]
fn servers_of_other_users_are_untrusted() {
    assert!(check_server(&identity(5, 1000), 1000).is_ok());
    assert_eq!(
        check_server(&identity(5, 1001), 1000).unwrap_err().message(),
        "Local Endpoint server refused: server process 5 runs as uid 1001, not 1000"
    );
}

#[test]
fn live_servers_keep_their_endpoint_and_stale_ones_are_replaced() {
    assert_eq!(bind_step(false, false), BindStep::Create);
    assert_eq!(bind_step(true, false), BindStep::Replace);
    assert_eq!(bind_step(true, true), BindStep::Refuse);
    assert_eq!(Error::InUse.message(), "Local Endpoint is already in use");
}

#[test]
fn cancelled_accepts_end_and_departed_clients_are_skipped() {
    assert_eq!(
        accept_step(true, Ok(identity(1, 2)), true),
        AcceptStep::Failed(Error::Cancelled)
    );
    assert_eq!(accept_step(false, Ok(identity(1, 2)), true), AcceptStep::Connected(identity(1, 2)));
    assert_eq!(accept_step(false, Err("gone".to_string()), false), AcceptStep::Skip);
    assert_eq!(
        accept_step(false, Err("gone".to_string()), true),
        AcceptStep::Failed(Error::Io("gone".to_string()))
    );
    assert!(alive_after_peek(1, false));
    assert!(alive_after_peek(-1, true));
    assert!(!alive_after_peek(0, true));
    assert!(!alive_after_peek(-1, false));
}

#[test]
fn handles_move_into_the_peer_unchanged() {
    let values = vec![4u64, u64::MAX, 0x0102_0304_0506_0708];
    let message = encode(&values);
    assert_eq!(message.len(), 28);
    assert_eq!(&message[..4], &[3, 0, 0, 0]);
    assert_eq!(announced(&message[..4]).unwrap(), 3);
    assert_eq!(decode(&message[4..].to_vec()).unwrap(), values);
}

#[test]
fn transfers_refuse_bad_counts_and_values() {
    assert_eq!(announced(&[0, 0, 0, 0]), Err(TransferFault::Count));
    assert_eq!(announced(&[17, 0, 0, 0]), Err(TransferFault::Count));
    assert_eq!(check_count(MAX_HANDLES), Ok(()));
    assert_eq!(check_count(MAX_HANDLES + 1), Err(TransferFault::Count));
    assert_eq!(decode(&encode(&vec![1, 0])[4..].to_vec()), Err(TransferFault::Value));
    assert_eq!(decode(&encode(&vec![5, 6, 5])[4..].to_vec()), Err(TransferFault::Value));
    assert_eq!(check_received(1, 2), Err(TransferFault::Unexpected));
    assert_eq!(check_received(2, 2), Ok(()));
    assert_eq!(check_receipt(1), Ok(()));
    assert_eq!(check_receipt(0), Err(TransferFault::Unacknowledged));
    assert_eq!(TransferFault::Value.message(), "invalid transferred handle value");
}

#[test]
fn partial_operations_share_one_deadline() {
    let exchange = Bounded::new(300 * 1_000_000, SECOND);
    assert_eq!(exchange.remaining(SECOND), Ok(300 * 1_000_000));
    assert_eq!(exchange.remaining(SECOND + 299 * 1_000_000), Ok(1_000_000));
    assert_eq!(exchange.remaining(SECOND + 300 * 1_000_000), Err(ExchangeFault::TimedOut));
    assert_eq!(exchange.ready_milliseconds(SECOND + 299 * 1_000_000 + 1), Ok(1));
    assert_eq!(exchange.ready_milliseconds(2 * SECOND), Err(ExchangeFault::TimedOut));
    let mut read = ReadExact::new(3);
    assert!(read.took(b"a").is_ok());
    assert_eq!(read.asks(), 2);
    assert!(read.took(b"bc").is_ok());
    assert_eq!(read.asks(), 0);
    assert_eq!(read.bytes().as_slice(), b"abc");
}

#[test]
fn a_closed_peer_ends_reads_and_writes() {
    let mut read = ReadExact::new(1);
    assert_eq!(read.took(&[]), Err(ExchangeFault::UnexpectedEof));
    let mut write = WriteAll::new(vec![1; 4096]);
    assert!(write.wrote(4000).is_ok());
    assert_eq!(write.unsent().len(), 96);
    assert_eq!(write.wrote(0), Err(ExchangeFault::WriteZero));
}

#[test]
fn handles_move_into_the_peer_with_the_requested_access() {
    let mut sending = Sending::new(vec![Access::Same, Access::Rights(2)]).unwrap();
    assert_eq!(sending.step(), SendStep::Duplicate { position: 0, access: Access::Same });
    sending.duplicated(Some(0x104));
    assert_eq!(sending.step(), SendStep::Duplicate { position: 1, access: Access::Rights(2) });
    sending.duplicated(Some(0x108));
    let SendStep::Write(message) = sending.step() else {
        panic!("every handle is in the peer")
    };
    assert_eq!(announced(&message[..4]), Ok(2));
    assert_eq!(decode(&message[4..].to_vec()), Ok(vec![0x104, 0x108]));
    assert!(check_receipt(1).is_ok());
}

#[test]
fn failed_transfers_leave_no_handle_in_the_peer() {
    let mut sending = Sending::new(vec![Access::Same; 3]).unwrap();
    sending.duplicated(Some(4));
    sending.duplicated(None);
    assert_eq!(sending.step(), SendStep::Revoke(vec![4]));
    let mut unwritten = Sending::new(vec![Access::Same]).unwrap();
    unwritten.duplicated(Some(8));
    unwritten.unwritten();
    assert_eq!(unwritten.step(), SendStep::Revoke(vec![8]));
    assert!(Sending::new(Vec::new()).is_err());
    assert!(Sending::new(vec![Access::Same; 17]).is_err());
}
