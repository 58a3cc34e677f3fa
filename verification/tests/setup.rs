use jackstay::acquisition::arena::cleanup::{ReleaseNotification, ReleaseTimeline};
use jackstay::acquisition::arena::consumer::{AcquireOutcome, ArenaConsumer};
use jackstay::acquisition::arena::process::{check_process_id, exited, exited_event, Polled, QueueEvent};
use jackstay::acquisition::arena::producer::reconfiguration::{ConfigurationInstall, ReconfigurationStatus};
use jackstay::acquisition::arena::producer::ArenaProducer;
use jackstay::acquisition::arena::{ArenaConfig, FrameDescriptor, ScopeId};
use jackstay::acquisition::socket::message::{frame, MessageReader, Progress, MAX_MESSAGE};
use jackstay::acquisition::socket::server::Attachment;
use jackstay::acquisition::socket::{
    check_transfer, object_access, peer_pid, serve_cpu, CpuSetupClient, ObjectAccess, Request, Response, ServerSession,
    SocketError,
};
use jackstay::bootstrap::{self, check_channel, check_receipt, InputRequest};
use jackstay::error::CaptureTransferError;
use jackstay::ffi::{FT_STATUS_CANCELLED, FT_STATUS_ERROR};
use jackstay::ffi_acquisition::connection::FtCpuAcquisitionConnection;
use jackstay::input::client::ConnectError;
use jackstay::input::model::{Error as InputError, Mode};
use jackstay::input::wire::Fault;

const SECOND: u128 = 1_000_000_000;
const PAGE: i64 = 4096;
const PID: u32 = 77;

struct NoTimeline;

impl ReleaseTimeline for NoTimeline {
    fn completed_value(&self) -> Result<u64, CaptureTransferError> {
        Ok(0)
    }

    fn notify_at(&self, _value: u64, _notification: ReleaseNotification) -> Result<(), CaptureTransferError> {
        Ok(())
    }
}

type Producer = ArenaProducer<NoTimeline>;
type Consumer = ArenaConsumer<NoTimeline>;

fn test_producer() -> Producer {
    let config = ArenaConfig {
        resource_capacity: 6,
        retained_history: 2,
        producer_reserve: 1,
        payload_capacity: 4,
        memory_budget: 1024 * 1024,
        max_incarnations: 1,
        drain_timeout: 5 * SECOND,
    };
    Producer::new(config, PAGE, ScopeId { low: 1, high: 2 }, 0).unwrap()
}

fn made() -> Attachment {
    Attachment { watch: Ok(()), setup: Ok(ScopeId { low: 3, high: 4 }) }
}

fn ask(session: &mut ServerSession, producer: &mut Producer, request: Request) -> Response {
    serve_cpu(session, producer, request, PID, made(), 0)
}

fn attach(client: &mut CpuSetupClient, session: &mut ServerSession, producer: &mut Producer) -> Consumer {
    let request = client.ask_attach(1).unwrap();
    let reply = ask(session, producer, request);
    let reply = client.request(Ok(Some(reply))).unwrap();
    let words = producer.shared().claims.get(&1).unwrap().words().clone();
    match client.attach(producer.pages(), &reply, reply.objects(), words, 0, PID, PAGE) {
        Ok(consumer) => consumer,
        Err(error) => panic!("{}", error.message()),
    }
}

#[test]
fn setup_rejects_oversized_messages_before_reading_the_body() {
    let mut reader = MessageReader::new();
    let mut header = b"JSCPU001".to_vec();
    header.extend_from_slice(&((MAX_MESSAGE + 1) as u32).to_le_bytes());
    assert!(matches!(
        reader.took(&header),
        Err(SocketError::Protocol("message size exceeds limit"))
    ));
}

#[test]
fn liveness_follows_the_producer_end_without_consuming_setup_bytes() {
    let mut client = CpuSetupClient::from_stream();
    assert!(client.is_alive(true));
    assert!(!client.is_alive(false));
    client.fail();
    assert!(!client.is_alive(true));
}

#[test]
fn recipient_requires_transfer_completion_before_importing_fds() {
    assert!(check_transfer(5, 5, 1).is_ok());
    assert_eq!(check_transfer(5, 5, 0), Err(SocketError::Protocol("sender did not finish transfer")));
    assert_eq!(check_transfer(4, 5, 1), Err(SocketError::Protocol("incorrect setup FD count")));
    // An interrupted transfer fails the connection for good.
    let mut client = CpuSetupClient::from_stream();
    let error = SocketError::Io("failed to fill whole buffer".to_string());
    assert!(client.request(Err(error)).is_err());
    assert!(!client.is_alive(true));
    assert_eq!(client.ask_attach(1), Err(SocketError::Protocol("connection failed")));
}

#[test]
fn messages_are_read_back_in_any_parts() {
    let bytes = frame(&b"{\"op\":\"empty\"}".to_vec()).unwrap();
    assert_eq!(&bytes[..8], b"JSCPU001");
    let mut reader = MessageReader::new();
    for (i, byte) in bytes.iter().enumerate() {
        match reader.took(&[*byte]).unwrap() {
            Progress::More => assert!(i + 1 < bytes.len()),
            Progress::Message(body) => {
                assert_eq!(i + 1, bytes.len());
                assert_eq!(body, b"{\"op\":\"empty\"}");
            }
            Progress::Ended => panic!("ended early"),
        }
    }
    assert_eq!(reader.took(&[]).unwrap(), Progress::Ended);
    reader.took(b"J").unwrap();
    assert!(matches!(reader.took(&[]), Err(SocketError::Io(_))));
    assert!(matches!(
        MessageReader::new().took(b"JSCPU002\x01\0\0\0"),
        Err(SocketError::Protocol("unsupported version"))
    ));
    assert!(frame(&Vec::new()).is_err());
    assert!(frame(&vec![0; MAX_MESSAGE + 1]).is_err());
}

#[test]
fn an_attached_consumer_gets_frames_and_replacements() {
    let mut producer = test_producer();
    let mut session = ServerSession::new();
    let mut client = CpuSetupClient::from_stream();
    let mut consumer = attach(&mut client, &mut session, &mut producer);
    producer.publish(0, FrameDescriptor::default(), b"abcd").unwrap();
    let AcquireOutcome::Frame(frame) = consumer.acquire_latest(producer.pages(), 0).unwrap() else {
        panic!("no frame")
    };
    assert_eq!(frame.bytes(producer.shared()), b"abcd");
    consumer.release(producer.pages(), frame, 0);

    assert_eq!(client.ask_configuration(&consumer, producer.shared()).unwrap(), None);
    assert!(matches!(
        producer.reconfigure_cpu(8, 0).unwrap(),
        ReconfigurationStatus::Ready { generation: 2 }
    ));
    let request = client.ask_configuration(&consumer, producer.shared()).unwrap().unwrap();
    let reply = ask(&mut session, &mut producer, request);
    let reply = client.request(Ok(Some(reply))).unwrap();
    let objects = reply.objects();
    let installed = client.install_configuration(&mut consumer, producer.pages(), &reply, objects, PID);
    assert_eq!(installed.unwrap(), Some(ConfigurationInstall::Installed));
    producer.publish(0, FrameDescriptor::default(), b"12345678").unwrap();
    let AcquireOutcome::Frame(frame) = consumer.acquire_latest(producer.pages(), 0).unwrap() else {
        panic!("no frame after replacement")
    };
    assert_eq!(frame.bytes(producer.shared()), b"12345678");
}

#[test]
fn servers_reject_in_words_and_stay_usable() {
    let mut producer = test_producer();
    let mut session = ServerSession::new();
    match ask(&mut session, &mut producer, Request::Configuration) {
        Response::Rejected { message } => {
            assert_eq!(message, "invalid CPU setup protocol: configuration requires attachment");
        }
        _ => panic!("not rejected"),
    }
    match ask(&mut session, &mut producer, Request::Attach { holding: 100 }) {
        Response::Rejected { message } => assert!(message.contains("100")),
        _ => panic!("not rejected"),
    }
    assert!(matches!(
        ask(&mut session, &mut producer, Request::Attach { holding: 1 }),
        Response::Attached { .. }
    ));
    match ask(&mut session, &mut producer, Request::Attach { holding: 1 }) {
        Response::Rejected { message } => {
            assert_eq!(message, "invalid CPU setup protocol: connection already attached");
        }
        _ => panic!("not rejected"),
    }
}

#[test]
fn the_end_of_a_connection_closes_its_admission() {
    let mut producer = test_producer();
    let mut session = ServerSession::new();
    let mut client = CpuSetupClient::from_stream();
    let mut consumer = attach(&mut client, &mut session, &mut producer);
    session.end(&mut producer);
    assert!(consumer.is_closed(producer.shared()));
    assert!(matches!(
        consumer.acquire_latest(producer.pages(), 0).unwrap(),
        AcquireOutcome::Closed
    ));
}

#[test]
fn clients_refuse_replies_that_do_not_fit() {
    let mut producer = test_producer();
    let mut client = CpuSetupClient::from_stream();
    let refused = client.attach::<NoTimeline>(producer.pages(), &Response::Empty, 0, Vec::new(), 0, PID, PAGE);
    assert!(matches!(refused, Err(SocketError::Protocol("unexpected attach reply"))));
    assert!(client.failed);

    let mut session = ServerSession::new();
    let mut client = CpuSetupClient::from_stream();
    let reply = ask(&mut session, &mut producer, Request::Attach { holding: 1 });
    let words = producer.shared().claims.get(&1).unwrap().words().clone();
    let refused = client.attach::<NoTimeline>(producer.pages(), &reply, 5, words, 0, PID + 1, PAGE);
    match refused {
        Err(error) => assert_eq!(
            error.message(),
            "invalid acquisition mapping: grant belongs to a different recipient process"
        ),
        Ok(_) => panic!("imported in the wrong process"),
    }
}

#[test]
fn requests_that_are_refused_leave_the_connection_usable() {
    let mut client = CpuSetupClient::from_stream();
    let refused = client.request(Ok(Some(Response::Rejected { message: "full".to_string() })));
    assert_eq!(refused.unwrap_err().message(), "CPU setup request rejected: full");
    assert!(client.ask_attach(1).is_ok());
    assert_eq!(client.request(Ok(None)), Err(SocketError::Protocol("missing reply")));
    assert!(client.ask_attach(1).is_err());
}

#[test]
fn objects_are_handed_out_with_the_least_access() {
    assert_eq!(
        object_access(5).unwrap(),
        vec![
            ObjectAccess::Read,
            ObjectAccess::Read,
            ObjectAccess::ReadWrite,
            ObjectAccess::WaitAndSignal,
            ObjectAccess::Signal,
        ]
    );
    assert_eq!(object_access(1).unwrap(), vec![ObjectAccess::Read]);
    assert_eq!(object_access(2), Err(SocketError::Protocol("unexpected setup handle count")));
}

#[test]
fn peers_have_a_process_identity() {
    assert_eq!(peer_pid(5, 12, 12), Ok(5));
    assert_eq!(peer_pid(0, 12, 12), Err(SocketError::Protocol("peer has no process identity")));
    assert_eq!(peer_pid(-1, 12, 12), Err(SocketError::Protocol("peer has no process identity")));
    assert_eq!(peer_pid(5, 8, 12), Err(SocketError::Protocol("unexpected peer credential size")));
    assert!(check_process_id(5, true).is_ok());
    assert!(check_process_id(0, false).is_err());
    assert!(check_process_id(0x8000_0000, true).is_err());
    assert!(check_process_id(0x8000_0000, false).is_ok());
}

#[test]
fn exits_are_seen_only_from_the_watch() {
    let quiet = Polled { readable: false, hung_up: false, error: false, invalid: false };
    assert_eq!(exited(quiet), Ok(false));
    assert_eq!(exited(Polled { readable: true, ..quiet }), Ok(true));
    assert_eq!(exited(Polled { hung_up: true, ..quiet }), Ok(true));
    assert!(exited(Polled { invalid: true, readable: true, ..quiet }).is_err());
    let event = QueueEvent { process: true, ident: 5, exit: true };
    assert_eq!(exited_event(None, 5), Ok(false));
    assert_eq!(exited_event(Some(event), 5), Ok(true));
    assert!(exited_event(Some(event), 6).is_err());
}

/// An operation that has completed when cancellation comes keeps its result.
fn completion_race(replace: bool) {
    let mut producer = test_producer();
    let mut session = ServerSession::new();
    let mut connection = FtCpuAcquisitionConnection::new(CpuSetupClient::from_stream());
    connection.begin().unwrap();
    let admitted = attach(&mut connection.client, &mut session, &mut producer);
    if !replace {
        connection.cancel();
    }
    let mut consumer = match connection.finish(Ok(admitted)) {
        Ok(consumer) => consumer,
        Err(_) => panic!("completed admission must transfer its consumer"),
    };
    if replace {
        assert_eq!(producer.reconfigure_cpu(8, 0).unwrap(), ReconfigurationStatus::Ready { generation: 2 });
        connection.begin().unwrap();
        let client = &mut connection.client;
        let request = client.ask_configuration(&consumer, producer.shared()).unwrap().unwrap();
        let reply = ask(&mut session, &mut producer, request);
        let reply = client.request(Ok(Some(reply))).unwrap();
        let objects = reply.objects();
        let installed =
            client.install_configuration(&mut consumer, producer.pages(), &reply, objects, PID).unwrap();
        assert_eq!(installed, Some(ConfigurationInstall::Installed));
        connection.cancel();
        assert_eq!(connection.finish(Ok(installed)), Ok(Some(ConfigurationInstall::Installed)));
    }
    assert!(!consumer.is_closed(producer.shared()));
    assert_eq!(connection.finish::<()>(Err(FT_STATUS_ERROR)), Err(FT_STATUS_CANCELLED));
    assert_eq!(connection.begin(), Err(FT_STATUS_CANCELLED));
    consumer.close(producer.pages(), 0);
    session.end(&mut producer);
    producer.stop();
    assert!(producer.poll_shutdown_ready(0));
}

#[test]
fn completed_admission_wins_over_late_cancellation() {
    completion_race(false);
}

#[test]
fn completed_replacement_wins_over_late_cancellation() {
    completion_race(true);
}

#[test]
fn both_sides_of_a_bootstrap_agree() {
    for (request, target, offered) in [
        (InputRequest::Observe, true, false),
        (InputRequest::Observe, false, false),
        (InputRequest::Optional(Mode::Physical), true, true),
        (InputRequest::Required(Mode::SourceText), true, true),
        (InputRequest::Required(Mode::Cooperative), false, false),
    ] {
        let message = bootstrap::request_message(request);
        let accepted = bootstrap::accept(&message, target).unwrap();
        assert_eq!(accepted.input, offered);
        assert_eq!(bootstrap::offered(request, &accepted.reply).unwrap(), offered);
    }
    assert_eq!(bootstrap::request_message(InputRequest::Optional(Mode::Cooperative)), b"JSBOOT01\0\0\0\x04");
}

#[test]
fn bootstraps_refuse_what_they_do_not_know() {
    let refusal = |result: Result<bootstrap::Accepted, bootstrap::Error>| result.unwrap_err().message();
    assert_eq!(
        refusal(bootstrap::accept(b"JSBOOT02\0\0\0\0", true)),
        "invalid source bootstrap: unsupported version"
    );
    assert_eq!(
        refusal(bootstrap::accept(b"JSBOOT01\0\0\0\x03", true)),
        "invalid source bootstrap: invalid input mode"
    );
    assert!(bootstrap::offered(InputRequest::Observe, b"JSBOOT01\0\0\0\x01").is_err());
    assert!(bootstrap::offered(InputRequest::Optional(Mode::Physical), b"JSBOOT01\0\0\0\x02").is_err());
    assert!(check_receipt(1).is_ok());
    assert!(check_receipt(2).is_err());
    assert!(check_channel(false, true).is_err());
    assert!(check_channel(true, false).is_ok());
}

#[test]
fn optional_input_preserves_media_and_required_input_does_not() {
    let optional = InputRequest::Optional(Mode::Physical);
    let required = InputRequest::Required(Mode::Physical);
    let busy = Some(Err(ConnectError::Admission(InputError::Busy)));
    let connected = bootstrap::connect(optional, busy).unwrap();
    assert!(!connected.input);
    assert_eq!(connected.input_error, Some(InputError::Busy));
    assert_eq!(bootstrap::connect(required, busy).unwrap_err().message(), "input admission: Busy");
    assert_eq!(
        bootstrap::connect(required, None).unwrap_err().message(),
        "input admission: Unsupported"
    );
    assert!(bootstrap::connect(required, Some(Ok(()))).unwrap().input);
    assert_eq!(bootstrap::connect(InputRequest::Observe, None).unwrap().input_error, None);
    let broken = Some(Err(ConnectError::Transport(Fault::TimedOut)));
    assert_eq!(
        bootstrap::connect(optional, broken).unwrap_err().message(),
        "source bootstrap I/O: timed out"
    );
}

#[test]
fn claim_words_of_another_length_are_refused() {
    let mut producer = test_producer();
    let mut session = ServerSession::new();
    let mut client = CpuSetupClient::from_stream();
    let request = client.ask_attach(1).unwrap();
    let reply = ask(&mut session, &mut producer, request);
    let reply = client.request(Ok(Some(reply))).unwrap();
    let mut words = producer.shared().claims.get(&1).unwrap().words().clone();
    words.pop();
    match client.attach::<NoTimeline>(producer.pages(), &reply, reply.objects(), words, 0, PID, PAGE) {
        Err(error) => assert!(error.message().contains("claim header disagrees with grant")),
        Ok(_) => panic!("a short claim mapping was accepted"),
    }
}
