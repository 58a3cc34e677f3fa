use jackstay::acquisition::arena::cleanup::{ReleaseNotification, ReleaseTimeline};
use jackstay::acquisition::arena::consumer::retirement::ConsumerReleaseTimeline;
use jackstay::acquisition::arena::producer::reconfiguration::ConfigurationInstall;
use jackstay::acquisition::arena::wait::{WaitEvents, WaitInterest, WaitOutcome};
use jackstay::acquisition::arena::{ArenaError, FrameDescriptor, ScopeId};
use jackstay::acquisition::socket::SocketError;
use jackstay::acquisition::AdmissionError;
use jackstay::bootstrap::{Connected, Error as BootstrapError, InputRequest};
use jackstay::daemon::SyntheticSession;
use jackstay::error::CaptureTransferError;
use jackstay::ffi::{
    ft_abi_version, ft_create_synthetic_session, FT_ABI_VERSION, FT_ABI_VERSION_MAJOR, FT_ABI_VERSION_MINOR,
    FT_STATUS_CANCELLED, FT_STATUS_CAPACITY, FT_STATUS_CLOSED, FT_STATUS_DRAINING, FT_STATUS_EMPTY, FT_STATUS_ERROR,
    FT_STATUS_GAP, FT_STATUS_HOLDING_LIMIT, FT_STATUS_INVALID_ARGUMENT, FT_STATUS_MISS, FT_STATUS_OK,
    FT_STATUS_RECONFIGURATION, FT_STATUS_STALE, FT_STATUS_TIMEOUT, FT_STATUS_UNSUPPORTED,
};
use jackstay::ffi_acquisition::connection::{
    attach_arguments, check_stream, ft_acquisition_cpu_install_configuration,
    FtCpuAcquisitionConnection, FtCpuSetupServer,
};
use jackstay::ffi_acquisition::d3d11::{
    ft_d3d11_fence_alive, AdapterInfo, FtD3d11Adapter, FT_D3D11_ADAPTER_DESCRIPTION_LEN,
};
use jackstay::ffi_acquisition::import::{ft_acquisition_import_cpu, ft_acquisition_install_cpu_configuration};
use jackstay::ffi_acquisition::producer::{
    ft_cpu_producer_advance, ft_cpu_producer_attach, ft_cpu_producer_configure_consumer, ft_cpu_producer_create,
    ft_cpu_producer_destroy, ft_cpu_producer_poll_cleanup, ft_cpu_producer_publish, ft_cpu_producer_reconfigure,
    FtCpuProducer, FtCpuProducerConfig, FtCpuReconfiguration,
};
use jackstay::ffi_acquisition::{
    ft_acquired_frame_defer_release, ft_acquired_frame_describe, ft_acquisition_acquire, ft_acquisition_snapshot,
    import_arguments, inline_storage, replacement_arguments, wait_request, wait_status, FtAcquiredFrame,
    FtAcquisitionConsumer, FtAcquisitionEvents, FtAcquisitionRange, FT_ACQUIRE_EXACT, FT_ACQUIRE_LATEST,
    FT_ACQUIRE_NEXT, FT_WAIT_ALL, FT_WAIT_DATA, MAX_SETUP,
};
use jackstay::ffi_bootstrap::{connected_input, parse_request, status as bootstrap_status};
use jackstay::ffi_input::{
    action, action_code, describe, event, ft_input_client_poll, ft_input_config_default, ft_input_target_create,
    ft_input_target_destroy, ft_input_work_complete, ft_input_work_describe, mode, outcome, outcome_code, FtInputEvent,
    FtInputStatus, KEY_LEN,
};
use jackstay::ffi_local::{
    endpoint, exchange_status, ft_local_connection_peer, ft_local_endpoint_render, status as local_status, IoKind,
    LocalStatus, ReadUntil,
};
use jackstay::input::binary64::Binary64;
use jackstay::input::model::{
    Action, Error as InputError, Event, Geometry, Key, Mode, Outcome, Position, Reason, ScrollUnit, Status,
};
use jackstay::local::{Error as LocalError, PeerIdentity};

const PAGE: i64 = 4096;

/// A timeline that a test moves on by itself.
struct Timeline;

impl ReleaseTimeline for Timeline {
    fn completed_value(&self) -> Result<u64, CaptureTransferError> {
        Ok(10)
    }

    fn notify_at(&self, _value: u64, _notification: ReleaseNotification) -> Result<(), CaptureTransferError> {
        Ok(())
    }
}

fn created(scope: ScopeId) -> FtCpuProducer<Timeline> {
    let config = FtCpuProducerConfig {
        resource_capacity: 6,
        retained_history: 2,
        producer_reserve: 1,
        max_incarnations: 2,
        payload_capacity: 8,
        memory_budget: 1024 * 1024,
        drain_timeout_ns: 5_000_000_000,
    };
    let mut out = None;
    assert_eq!(
        ft_cpu_producer_create(&config, &mut out, PAGE, scope, 0),
        FT_STATUS_OK
    );
    let refused = FtCpuProducerConfig { retained_history: 0, ..config };
    let mut none: Option<FtCpuProducer<Timeline>> = None;
    assert_eq!(
        ft_cpu_producer_create(&refused, &mut none, PAGE, scope, 0),
        FT_STATUS_INVALID_ARGUMENT
    );
    assert_eq!(
        ft_cpu_producer_create(&config, &mut out, PAGE, scope, 0),
        FT_STATUS_INVALID_ARGUMENT
    );
    out.unwrap()
}

fn producer() -> FtCpuProducer<Timeline> {
    created(ScopeId { low: 1, high: 2 })
}

fn other_producer() -> FtCpuProducer<Timeline> {
    created(ScopeId { low: 7, high: 8 })
}

fn attached(producer: &mut FtCpuProducer<Timeline>, holding: u32) -> FtAcquisitionConsumer<Timeline> {
    let mut out = None;
    assert_eq!(
        ft_cpu_producer_attach(producer, holding, &mut out, Ok(ScopeId { low: 3, high: 4 }), 0),
        FT_STATUS_OK
    );
    out.unwrap()
}

fn descriptor() -> FrameDescriptor {
    FrameDescriptor { width: 2, height: 1, stride: 8, pixel_format: 1, fence_id: 9, ..FrameDescriptor::default() }
}

#[test]
fn header_and_library_agree_on_the_abi_version() {
    assert_eq!(FT_ABI_VERSION_MAJOR, 0);
    assert_eq!(FT_ABI_VERSION_MINOR, 5);
    assert_eq!(ft_abi_version(), FT_ABI_VERSION);
    assert_eq!(FT_ABI_VERSION, 0x0000_0005);
    assert_eq!(FT_ABI_VERSION, (FT_ABI_VERSION_MAJOR << 16) | FT_ABI_VERSION_MINOR);
}

#[test]
fn adapter_descriptions_fill_their_field() {
    assert_eq!(FT_D3D11_ADAPTER_DESCRIPTION_LEN, 128);
    for length in [0, 1, 126, 127, 128, 500] {
        let info = AdapterInfo {
            luid: 7,
            description: "a".repeat(length),
            vendor_id: 1,
            device_id: 2,
            software: false,
        };
        let adapter = FtD3d11Adapter::of(&info);
        assert_eq!(adapter.description.len(), FT_D3D11_ADAPTER_DESCRIPTION_LEN);
        let end = adapter.description.iter().position(|byte| *byte == 0).unwrap();
        assert_eq!(end, length.min(127));
        assert!(adapter.description[end..].iter().all(|byte| *byte == 0));
        assert_eq!((adapter.vendor_id, adapter.device_id, adapter.software), (1, 2, 0));
    }
}

#[test]
fn adapter_description_truncates_at_a_character_boundary() {
    let info = AdapterInfo {
        luid: 0x1_0000_0002,
        description: "é".repeat(100),
        vendor_id: 0x1002,
        device_id: 0x1681,
        software: true,
    };
    let adapter = FtD3d11Adapter::of(&info);
    assert_eq!(adapter.luid, 0x1_0000_0002);
    assert_eq!(adapter.software, 1);
    let bytes = adapter.description;
    assert_eq!(bytes.len(), 128);
    let end = bytes.iter().position(|byte| *byte == 0).unwrap();
    assert_eq!(end, 126, "63 two-byte characters fit before the NUL");
    assert!(std::str::from_utf8(&bytes[..end]).is_ok());
}

#[test]
fn fences_of_lost_devices_are_closed() {
    assert_eq!(ft_d3d11_fence_alive(u64::MAX), FT_STATUS_CLOSED);
    assert_eq!(ft_d3d11_fence_alive(u64::MAX - 1), FT_STATUS_OK);
}

#[test]
fn frames_are_published_acquired_and_described() {
    let mut producer = producer();
    let mut consumer = attached(&mut producer, 1);
    let mut cursor = 7;
    assert_eq!(
        ft_cpu_producer_publish(&mut producer, &descriptor(), b"12345678", &mut cursor, 0),
        FT_STATUS_OK
    );
    assert_eq!(cursor, 1);
    let mut out: Option<FtAcquiredFrame> = None;
    let mut range = FtAcquisitionRange { first: 5, last: 5 };
    let pages = producer.producer.pages();
    assert_eq!(
        ft_acquisition_acquire(&mut consumer, pages, FT_ACQUIRE_LATEST, 0, &mut out, &mut range),
        FT_STATUS_OK
    );
    assert_eq!(range, FtAcquisitionRange { first: 0, last: 0 });
    let mut described = FrameDescriptor::default();
    assert_eq!(ft_acquired_frame_describe(out.as_ref().unwrap(), &mut described), FT_STATUS_OK);
    assert_eq!((described.cursor, described.sync_kind, described.fence_id), (1, 1, 0));
    // The handle is taken, and the holding is used up.
    assert_eq!(
        ft_acquisition_acquire(&mut consumer, pages, FT_ACQUIRE_LATEST, 0, &mut out, &mut range),
        FT_STATUS_INVALID_ARGUMENT
    );
    let mut second = None;
    assert_eq!(
        ft_acquisition_acquire(&mut consumer, pages, FT_ACQUIRE_LATEST, 0, &mut second, &mut range),
        FT_STATUS_HOLDING_LIMIT
    );
    assert_eq!(
        ft_acquisition_acquire(&mut consumer, pages, FT_ACQUIRE_LATEST, 1, &mut second, &mut range),
        FT_STATUS_EMPTY
    );
    assert_eq!(
        ft_acquisition_acquire(&mut consumer, pages, 4, 0, &mut second, &mut range),
        FT_STATUS_INVALID_ARGUMENT
    );
    assert_eq!(
        ft_acquisition_acquire(&mut consumer, pages, FT_ACQUIRE_EXACT, 0, &mut second, &mut range),
        FT_STATUS_INVALID_ARGUMENT
    );
}

#[test]
fn lost_frames_are_reported_as_ranges() {
    let mut producer = producer();
    let mut consumer = attached(&mut producer, 1);
    let mut cursor = 0;
    for _ in 0..5 {
        ft_cpu_producer_publish(&mut producer, &descriptor(), b"12345678", &mut cursor, 0);
    }
    assert_eq!(cursor, 5);
    let mut out = None;
    let mut range = FtAcquisitionRange { first: 0, last: 0 };
    let pages = producer.producer.pages();
    assert_eq!(
        ft_acquisition_acquire(&mut consumer, pages, FT_ACQUIRE_NEXT, 1, &mut out, &mut range),
        FT_STATUS_GAP
    );
    assert_eq!(range, FtAcquisitionRange { first: 2, last: 3 });
    assert_eq!(
        ft_acquisition_acquire(&mut consumer, pages, FT_ACQUIRE_EXACT, 2, &mut out, &mut range),
        FT_STATUS_MISS
    );
    assert_eq!(range, FtAcquisitionRange { first: 2, last: 2 });
}

#[test]
fn only_complete_pictures_are_published() {
    let mut producer = producer();
    let mut cursor = 3;
    for (wrong, bytes) in [
        (FrameDescriptor { width: 0, ..descriptor() }, &b"12345678"[..]),
        (FrameDescriptor { width: 3, ..descriptor() }, &b"12345678"[..]),
        (FrameDescriptor { pixel_format: 3, ..descriptor() }, &b"12345678"[..]),
        (FrameDescriptor { payload_kind: 1, ..descriptor() }, &b"12345678"[..]),
        (descriptor(), &b"1234567"[..]),
        (descriptor(), &b""[..]),
    ] {
        assert_eq!(
            ft_cpu_producer_publish(&mut producer, &wrong, bytes, &mut cursor, 0),
            FT_STATUS_INVALID_ARGUMENT
        );
        assert_eq!(cursor, 0);
    }
    let large = FrameDescriptor { height: 2, ..descriptor() };
    assert_eq!(
        ft_cpu_producer_publish(&mut producer, &large, b"1234567812345678", &mut cursor, 0),
        FT_STATUS_INVALID_ARGUMENT
    );
}

#[test]
fn storage_is_replaced_and_installed() {
    let mut producer = producer();
    let mut consumer = attached(&mut producer, 1);
    let mut out = FtCpuReconfiguration { generation: 9, requested_bytes: 9, available_bytes: 9 };
    assert_eq!(ft_cpu_producer_reconfigure(&mut producer, 16, &mut out, 0), FT_STATUS_OK);
    assert_eq!(out, FtCpuReconfiguration { generation: 2, requested_bytes: 0, available_bytes: 0 });
    let mut frame = None;
    let mut range = FtAcquisitionRange { first: 0, last: 0 };
    assert_eq!(
        ft_acquisition_acquire(
            &mut consumer,
            producer.producer.pages(),
            FT_ACQUIRE_LATEST,
            0,
            &mut frame,
            &mut range
        ),
        FT_STATUS_RECONFIGURATION
    );
    assert_eq!(ft_cpu_producer_configure_consumer(&mut producer, &mut consumer), FT_STATUS_OK);
    assert_eq!(ft_cpu_producer_configure_consumer(&mut producer, &mut consumer), FT_STATUS_EMPTY);
    let mut other = other_producer();
    let mut stranger = attached(&mut other, 2);
    assert_eq!(ft_cpu_producer_configure_consumer(&mut producer, &mut stranger), FT_STATUS_INVALID_ARGUMENT);
    assert_eq!(ft_cpu_producer_configure_consumer(&mut other, &mut stranger), FT_STATUS_EMPTY);
    assert_eq!(ft_cpu_producer_advance(&mut producer, &mut out, 0), FT_STATUS_OK);
    assert_eq!(
        ft_cpu_producer_reconfigure(&mut producer, 1 << 40, &mut out, 0),
        FT_STATUS_CAPACITY
    );
    assert!(out.requested_bytes > out.available_bytes);
}

#[test]
fn producers_are_destroyed_only_when_drained() {
    let mut handle = Some(producer());
    let mut consumer = attached(handle.as_mut().unwrap(), 1);
    assert_eq!(ft_cpu_producer_poll_cleanup(handle.as_mut().unwrap(), 0), FT_STATUS_OK);
    assert_eq!(ft_cpu_producer_destroy(&mut handle, 0), FT_STATUS_DRAINING);
    consumer.consumer.close(handle.as_mut().unwrap().producer.pages(), 0);
    assert_eq!(ft_cpu_producer_destroy(&mut handle, 0), FT_STATUS_OK);
    assert!(handle.is_none());
    assert_eq!(ft_cpu_producer_destroy(&mut handle, 0), FT_STATUS_OK);
}

#[test]
fn refused_handoffs_keep_the_frame() {
    let mut producer = producer();
    let mut consumer = attached(&mut producer, 1);
    let mut cursor = 0;
    ft_cpu_producer_publish(&mut producer, &descriptor(), b"12345678", &mut cursor, 0);
    let mut frame = None;
    let mut range = FtAcquisitionRange { first: 0, last: 0 };
    ft_acquisition_acquire(
        &mut consumer,
        producer.producer.pages(),
        FT_ACQUIRE_LATEST,
        0,
        &mut frame,
        &mut range,
    );
    let registration = producer
        .producer
        .register_release_timeline(consumer.consumer.incarnation(), Timeline)
        .unwrap();
    let unbound = ConsumerReleaseTimeline { registration, index: 0 };
    let pages = producer.producer.pages();
    assert_eq!(
        ft_acquired_frame_defer_release(&mut consumer, pages, &mut frame, &unbound, 5, 0),
        FT_STATUS_ERROR
    );
    assert!(frame.is_some());
    let bound = consumer.consumer.bind_release_timeline(pages, &registration, 1, Timeline).unwrap();
    assert_eq!(
        ft_acquired_frame_defer_release(&mut consumer, pages, &mut frame, &bound, 5, 0),
        FT_STATUS_OK
    );
    assert!(frame.is_none());
    assert_eq!(
        ft_acquired_frame_defer_release(&mut consumer, pages, &mut frame, &bound, 5, 0),
        FT_STATUS_INVALID_ARGUMENT
    );
    // The completed value covers the release: the consumer gives its handles up, and the
    // producer, which looks for itself, returns the credit.
    assert_eq!(producer.producer.poll_cleanup(0), 0);
    consumer.consumer.retire(producer.producer.pages(), 0);
    assert_eq!(producer.producer.poll_cleanup(0), 1);
}

#[test]
fn waits_are_read_and_answered() {
    let mut producer = producer();
    let consumer = attached(&mut producer, 1);
    let mut events = FtAcquisitionEvents {
        data_cursor: 9,
        capacity_epoch: 9,
        reconfiguration_epoch: 9,
        closed: 0,
        reserved: 0,
    };
    assert_eq!(
        ft_acquisition_snapshot(&consumer, producer.producer.shared(), &mut events),
        FT_STATUS_OK
    );
    assert_eq!((events.data_cursor, events.closed), (0, 0));
    let request = wait_request(&events, FT_WAIT_DATA, u64::MAX).unwrap();
    assert_eq!((request.interest, request.timeout), (WaitInterest::data(), None));
    let request = wait_request(&events, FT_WAIT_ALL, 7).unwrap();
    assert_eq!((request.interest, request.timeout), (WaitInterest::all(), Some(7)));
    assert!(wait_request(&events, 0, 0).is_none());
    assert!(wait_request(&FtAcquisitionEvents { closed: 2, ..events }, FT_WAIT_ALL, 0).is_none());
    assert!(wait_request(&FtAcquisitionEvents { reserved: 1, ..events }, FT_WAIT_ALL, 0).is_none());
    let closed = WaitEvents { data_cursor: 4, capacity_epoch: 1, reconfiguration_epoch: 0, closed: true };
    assert_eq!(wait_status(&Ok(WaitOutcome::Changed(closed))).0, FT_STATUS_CLOSED);
    assert_eq!(wait_status(&Ok(WaitOutcome::Changed(closed))).1.data_cursor, 4);
    assert_eq!(wait_status(&Ok(WaitOutcome::Cancelled)).0, FT_STATUS_CANCELLED);
    assert_eq!(wait_status(&Ok(WaitOutcome::TimedOut)).0, FT_STATUS_TIMEOUT);
    assert_eq!(wait_status(&Err(ArenaError::Closed)).0, FT_STATUS_CLOSED);
}

#[test]
fn imports_need_distinct_descriptors() {
    assert_eq!(import_arguments(1, &[3, 4, 5, 6, 7]), FT_STATUS_OK);
    assert_eq!(import_arguments(0, &[3, 4, 5, 6, 7]), FT_STATUS_INVALID_ARGUMENT);
    assert_eq!(import_arguments(MAX_SETUP + 1, &[3, 4, 5, 6, 7]), FT_STATUS_INVALID_ARGUMENT);
    assert_eq!(import_arguments(1, &[3, 4, 5, 6, 3]), FT_STATUS_INVALID_ARGUMENT);
    assert_eq!(import_arguments(1, &[3, -1, 5, 6, 7]), FT_STATUS_INVALID_ARGUMENT);
    assert_eq!(replacement_arguments(1, 3), FT_STATUS_OK);
    assert_eq!(replacement_arguments(1, -1), FT_STATUS_INVALID_ARGUMENT);
    assert_eq!(
        inline_storage(0, false),
        Err(ArenaError::Configuration("CPU import requires inline storage"))
    );
    assert!(inline_storage(1, true).is_ok());
}

#[test]
fn grants_are_imported_from_their_metadata() {
    let mut producer = producer();
    let grant = match producer.producer.attach_process(1, 77, Ok(()), Ok(ScopeId { low: 3, high: 4 }), 0) {
        Ok(grant) => grant,
        Err(error) => panic!("{}", error.message()),
    };
    let descriptor = match grant.into_parts(PAGE) {
        Ok(descriptor) => descriptor,
        Err((error, _)) => panic!("{}", error.message()),
    };
    let words = producer.producer.shared().claims.get(&1).unwrap().words().clone();
    let mut out: Option<FtAcquisitionConsumer<Timeline>> = None;
    let pages = producer.producer.pages();
    assert_eq!(
        ft_acquisition_import_cpu(pages, Some(descriptor), words.clone(), &mut out, 0, 78, PAGE),
        FT_STATUS_ERROR
    );
    assert_eq!(
        ft_acquisition_import_cpu(pages, None, words.clone(), &mut out, 0, 77, PAGE),
        FT_STATUS_INVALID_ARGUMENT
    );
    assert!(out.is_none());
    assert_eq!(
        ft_acquisition_import_cpu(pages, Some(descriptor), words, &mut out, 0, 77, PAGE),
        FT_STATUS_OK
    );
    assert_eq!(out.unwrap().consumer.incarnation().0, 1);
}

#[test]
fn replacements_are_imported_once() {
    let mut producer = producer();
    let grant = match producer.producer.attach_process(1, 77, Ok(()), Ok(ScopeId { low: 3, high: 4 }), 0) {
        Ok(grant) => grant,
        Err(error) => panic!("{}", error.message()),
    };
    let descriptor = match grant.into_parts(PAGE) {
        Ok(descriptor) => descriptor,
        Err((error, _)) => panic!("{}", error.message()),
    };
    let words = producer.producer.shared().claims.get(&1).unwrap().words().clone();
    let mut out: Option<FtAcquisitionConsumer<Timeline>> = None;
    let pages = producer.producer.pages();
    assert_eq!(
        ft_acquisition_import_cpu(pages, Some(descriptor), words, &mut out, 0, 77, PAGE),
        FT_STATUS_OK
    );
    let mut consumer = out.unwrap();
    producer.producer.reconfigure_cpu(16, 0).unwrap();
    let offer = producer.producer.configuration_offer(consumer.consumer.incarnation()).unwrap().unwrap();
    let replacement = match offer.into_parts(PAGE) {
        Ok(replacement) => replacement,
        Err((error, _)) => panic!("{}", error.message()),
    };
    let pages = producer.producer.pages();
    assert_eq!(
        ft_acquisition_install_cpu_configuration(&mut consumer, pages, None, 77),
        FT_STATUS_INVALID_ARGUMENT
    );
    assert_eq!(
        ft_acquisition_install_cpu_configuration(&mut consumer, pages, Some(replacement), 78),
        FT_STATUS_ERROR
    );
    assert_eq!(
        ft_acquisition_install_cpu_configuration(&mut consumer, pages, Some(replacement), 77),
        FT_STATUS_OK
    );
    assert_eq!(
        ft_acquisition_install_cpu_configuration(&mut consumer, pages, Some(replacement), 77),
        FT_STATUS_ERROR
    );
}

#[test]
fn configuration_exchanges_have_statuses() {
    let client = jackstay::acquisition::socket::CpuSetupClient::from_stream();
    let connection = FtCpuAcquisitionConnection::new(client);
    let of = |installed| ft_acquisition_cpu_install_configuration(&connection, installed);
    assert_eq!(of(Ok(Some(ConfigurationInstall::Installed))), FT_STATUS_OK);
    assert_eq!(of(Ok(Some(ConfigurationInstall::Stale))), FT_STATUS_STALE);
    assert_eq!(of(Ok(None)), FT_STATUS_EMPTY);
    assert_eq!(of(Err(SocketError::Arena(ArenaError::Closed))), FT_STATUS_CLOSED);
}

#[test]
fn producer_errors_have_their_own_statuses() {
    let of = |error: ArenaError| jackstay::ffi_acquisition::producer::status(&error);
    assert_eq!(of(ArenaError::Admission(AdmissionError::IncarnationCapacity)), FT_STATUS_CAPACITY);
    assert_eq!(of(ArenaError::Admission(AdmissionError::InvalidRequest)), FT_STATUS_INVALID_ARGUMENT);
    assert_eq!(of(ArenaError::Admission(AdmissionError::UnknownIncarnation)), FT_STATUS_ERROR);
    assert_eq!(of(ArenaError::Closed), FT_STATUS_CLOSED);
    assert_eq!(of(ArenaError::GenerationsExhausted), FT_STATUS_ERROR);
}

#[test]
fn setup_servers_report_their_first_result_and_cancellation() {
    let mut server = FtCpuSetupServer::new();
    assert_eq!(server.poll(true, FT_STATUS_OK), FT_STATUS_DRAINING);
    assert_eq!(server.poll(false, FT_STATUS_OK), FT_STATUS_OK);
    assert_eq!(server.poll(false, FT_STATUS_ERROR), FT_STATUS_OK);
    let mut running = FtCpuSetupServer::new();
    assert!(running.destroy(true));
    assert_eq!(running.finish(FT_STATUS_ERROR), FT_STATUS_CANCELLED);
    assert!(check_stream(true, true).is_ok());
    assert_eq!(check_stream(false, true), Err("expected connected Unix stream"));
    assert_eq!(check_stream(true, false), Err("expected Unix socket family"));
    assert_eq!(attach_arguments(0, false), FT_STATUS_INVALID_ARGUMENT);
    assert_eq!(attach_arguments(1, false), FT_STATUS_OK);
}

fn at(value: f64) -> Position {
    let number = Binary64 { bits: value.to_bits() };
    Position { revision: 1, x: number, y: number }
}

#[test]
fn events_survive_the_boundary() {
    let number = Binary64 { bits: 2.5f64.to_bits() };
    for original in [
        Event::Key { press: 3, action: Action::Repeat, key: Key::Physical("KeyA".to_string()), modifiers: 5 },
        Event::Key { press: 4, action: Action::Up, key: Key::Logical("é".to_string()), modifiers: 0 },
        Event::Text("zażółć".to_string()),
        Event::Motion(at(1.5)),
        Event::Button { button: 2, action: Action::Down, position: at(3.0) },
        Event::Scroll { x: number, y: number, unit: ScrollUnit::Page, position: at(7.0) },
    ] {
        let described = describe(&original);
        assert_eq!(described.key.len(), KEY_LEN);
        assert_eq!(event(&described), Ok(original));
    }
}

#[test]
fn malformed_events_are_invalid() {
    let mut key = describe(&Event::Key {
        press: 3,
        action: Action::Down,
        key: Key::Physical("KeyA".to_string()),
        modifiers: 0,
    });
    key.key_kind = 3;
    assert_eq!(event(&key), Err(InputError::Invalid));
    key.key_kind = 1;
    key.key = vec![b'x'; KEY_LEN];
    assert_eq!(event(&key), Err(InputError::Invalid));
    key.key[0] = 0xff;
    key.key[1] = 0;
    assert_eq!(event(&key), Err(InputError::Invalid));
    let mut text = FtInputEvent::none();
    text.kind = 2;
    assert_eq!(event(&text), Err(InputError::Invalid));
    text.text = Some(vec![]);
    assert_eq!(event(&text), Err(InputError::Invalid));
    text.text = Some(vec![b'x'; 16385]);
    assert_eq!(event(&text), Err(InputError::Invalid));
    text.kind = 9;
    assert_eq!(event(&text), Err(InputError::Invalid));
}

#[test]
fn input_codes_are_read_back() {
    for value in 0..6 {
        match outcome(value) {
            Some(known) => assert_eq!(outcome_code(known), value as i32),
            None => assert_eq!(value, 5),
        }
        if let Some(known) = mode(value) {
            assert_eq!(known.bit(), value);
        }
        if let Ok(known) = action(value) {
            assert_eq!(action_code(known), value);
        }
    }
    assert_eq!(mode(3), None);
    assert_eq!(action(0), Err(InputError::Invalid));
}

#[test]
fn targets_live_behind_handles() {
    let config = ft_input_config_default();
    assert_eq!((config.max_events, config.idle_timeout_ms), (256, 5000));
    let mut handle = None;
    assert_eq!(ft_input_target_create(&config, &mut handle), FT_STATUS_OK);
    assert_eq!(ft_input_target_create(&config, &mut handle), FT_STATUS_INVALID_ARGUMENT);
    let mut wrong = config;
    wrong.interaction_cancel = 2;
    let mut none = None;
    assert_eq!(ft_input_target_create(&wrong, &mut none), FT_STATUS_INVALID_ARGUMENT);
    wrong = config;
    wrong.modes = 0;
    assert_eq!(ft_input_target_create(&wrong, &mut none), FT_STATUS_INVALID_ARGUMENT);

    let target = handle.as_mut().unwrap();
    let controller = match target.admit_controller(Mode::Cooperative, 0) {
        Ok(controller) => controller,
        Err(error) => panic!("{error:?}"),
    };
    controller.submit(target, 0, 1, 1, Event::Motion(at(2.0))).unwrap();
    let mut work = target.next(0);
    let described = ft_input_work_describe(work.as_ref().unwrap());
    assert_eq!((described.mode, described.sequence, described.event.kind), (4, 1, 3));
    assert_eq!(ft_input_work_complete(target, &mut work, 5), FT_STATUS_INVALID_ARGUMENT);
    assert!(work.is_some());
    assert_eq!(ft_input_work_complete(target, &mut work, 0), FT_STATUS_OK);
    assert!(work.is_none());
    assert_eq!(ft_input_target_destroy(&mut handle), FT_STATUS_DRAINING);
    let target = handle.as_mut().unwrap();
    controller.close(target);
    let mut work = target.next(0);
    let described = ft_input_work_describe(work.as_ref().unwrap());
    assert_eq!((described.event.kind, described.scope, described.reason), (6, 1, 3));
    assert_eq!(ft_input_work_complete(target, &mut work, 0), FT_STATUS_OK);
    assert_eq!(ft_input_target_destroy(&mut handle), FT_STATUS_OK);
    assert!(handle.is_none());
}

#[test]
fn statuses_are_described() {
    let zero = Binary64 { bits: 0 };
    let mut out = FtInputStatus {
        kind: 9,
        result: 9,
        sequence: 9,
        epoch: 9,
        reason: 9,
        clean: 9,
        geometry: Geometry { revision: 9, width: zero, height: zero },
    };
    assert_eq!(ft_input_client_poll(None, &mut out), FT_STATUS_EMPTY);
    assert_eq!(out.kind, 9);
    let closed = Status::Closed { reason: Reason::Expired, clean: true };
    assert_eq!(ft_input_client_poll(Some(closed), &mut out), FT_STATUS_OK);
    assert_eq!((out.kind, out.reason, out.clean, out.sequence), (4, 4, 1, 0));
    let done = Status::Completed { sequence: 3, outcome: Outcome::Partial };
    ft_input_client_poll(Some(done), &mut out);
    assert_eq!((out.kind, out.result, out.sequence, out.clean), (1, 3, 3, 0));
    let rejected = Status::Rejected { sequence: 4, error: InputError::Stale };
    ft_input_client_poll(Some(rejected), &mut out);
    assert_eq!((out.kind, out.result), (2, 13));
}

#[test]
fn endpoints_are_read_from_numbers() {
    assert_eq!(endpoint(1, 1, Some("cpu")).unwrap().name(), "cpu");
    assert_eq!(endpoint(1, 2, Some("cpu")), Err(FT_STATUS_UNSUPPORTED));
    assert_eq!(endpoint(3, 1, Some("cpu")), Err(FT_STATUS_INVALID_ARGUMENT));
    assert_eq!(endpoint(2, 1, Some("a/b")), Err(FT_STATUS_INVALID_ARGUMENT));
    assert_eq!(endpoint(2, 1, None), Err(FT_STATUS_INVALID_ARGUMENT));
    assert_eq!(ft_local_endpoint_render("/x", 3), (FT_STATUS_OK, Some(b"/x\0".to_vec())));
    assert_eq!(ft_local_endpoint_render("/x", 2), (FT_STATUS_CAPACITY, None));
    assert_eq!(ft_local_endpoint_render("/x", 0), (FT_STATUS_INVALID_ARGUMENT, None));
}

#[test]
fn peers_are_described_in_fixed_buffers() {
    let peer = PeerIdentity { pid: 5, user: "1000".to_string(), session: Some(2) };
    let described = ft_local_connection_peer(&peer).unwrap();
    assert_eq!((described.pid, described.session, described.has_session), (5, 2, 1));
    assert_eq!(described.user.len(), 192);
    assert_eq!(&described.user[..5], b"1000\0");
    let long = PeerIdentity { pid: 5, user: "x".repeat(192), session: None };
    assert_eq!(ft_local_connection_peer(&long), Err(FT_STATUS_ERROR));
}

#[test]
fn local_failures_have_statuses() {
    assert_eq!(local_status(&LocalError::InUse, IoKind::Other), LocalStatus::AddressInUse);
    assert_eq!(
        local_status(&LocalError::RefusedPeer(String::new()), IoKind::Other),
        LocalStatus::UntrustedPeer
    );
    assert_eq!(
        local_status(&LocalError::Io(String::new()), IoKind::TimedOut),
        LocalStatus::Common(FT_STATUS_TIMEOUT)
    );
    assert_eq!(exchange_status(Ok(FT_STATUS_OK), true), FT_STATUS_OK);
    assert_eq!(exchange_status(Ok(FT_STATUS_OK), false), FT_STATUS_ERROR);
    assert_eq!(exchange_status(Err(IoKind::WouldBlock), true), FT_STATUS_TIMEOUT);
    assert_eq!(exchange_status(Err(IoKind::BrokenPipe), true), FT_STATUS_CLOSED);
    assert_eq!(exchange_status(Err(IoKind::Other), true), FT_STATUS_ERROR);
}

#[test]
fn replies_are_read_up_to_their_delimiter() {
    let mut read = ReadUntil::new(b'\n', 4);
    assert_eq!(read.took(Some(b'o')), None);
    assert_eq!(read.took(Some(b'k')), None);
    assert_eq!(read.took(Some(b'\n')), Some(FT_STATUS_OK));
    assert_eq!(read.bytes().as_slice(), b"ok\n");
    let mut full = ReadUntil::new(b'\n', 1);
    assert_eq!(full.took(Some(b'x')), Some(FT_STATUS_CAPACITY));
    assert_eq!(ReadUntil::new(b'\n', 1).took(None), Some(FT_STATUS_CLOSED));
}

#[test]
fn bootstrap_requests_are_read_from_numbers() {
    assert_eq!(parse_request(0, 0), Some(InputRequest::Observe));
    assert_eq!(parse_request(0, 1), None);
    assert_eq!(parse_request(1, 4), Some(InputRequest::Optional(Mode::Cooperative)));
    assert_eq!(parse_request(2, 2), Some(InputRequest::Required(Mode::SourceText)));
    assert_eq!(parse_request(2, 3), None);
    assert_eq!(parse_request(3, 1), None);
    assert_eq!(connected_input(&Connected { input: true, input_error: None }), FT_STATUS_OK);
    assert_eq!(connected_input(&Connected { input: false, input_error: None }), FT_STATUS_EMPTY);
    assert_eq!(
        connected_input(&Connected { input: false, input_error: Some(InputError::Busy) }),
        FT_STATUS_DRAINING
    );
    assert_eq!(bootstrap_status(&BootstrapError::TimedOut), FT_STATUS_TIMEOUT);
    assert_eq!(bootstrap_status(&BootstrapError::Protocol("x")), FT_STATUS_ERROR);
}

#[test]
fn created_sessions_fit_their_buffers() {
    let mut session = SyntheticSession {
        session_id: "session-1".to_string(),
        source_id: 1,
        track_id: 2,
        fd_socket_path: "/tmp/s".to_string(),
    };
    let handed = ft_create_synthetic_session(&session).unwrap();
    assert_eq!(handed.session_id, b"session-1\0");
    assert_eq!((handed.source_id, handed.track_id), (1, 2));
    session.session_id = "x".repeat(64);
    assert_eq!(ft_create_synthetic_session(&session), Err(FT_STATUS_ERROR));
}
