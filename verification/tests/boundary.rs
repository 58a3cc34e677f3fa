use jackstay::acquisition::arena::cleanup::{ReleaseNotification, ReleaseTimeline};
use jackstay::acquisition::arena::consumer::ArenaConsumer;
use jackstay::acquisition::arena::mapping::{check_resource_header, ResourceMap};
use jackstay::acquisition::arena::producer::reconfiguration::ConfigurationInstall;
use jackstay::acquisition::arena::producer::ArenaProducer;
use jackstay::acquisition::arena::record::{
    descriptor_from_words, descriptor_words, header_from_words, header_words, DESCRIPTOR_WORDS, RESOURCE_HEADER_WORDS,
};
use jackstay::acquisition::arena::{ArenaConfig, ArenaError, FrameDescriptor, ScopeId};
use jackstay::acquisition::socket::{CpuSetupClient, SocketError};
use jackstay::daemon::{PixelFormat, SessionInfo};
use jackstay::error::CaptureTransferError;
use jackstay::ffi::{
    FT_STATUS_CANCELLED, FT_STATUS_CLOSED, FT_STATUS_DRAINING, FT_STATUS_EMPTY, FT_STATUS_ERROR, FT_STATUS_INVALID_ARGUMENT,
    FT_STATUS_OK, FT_STATUS_RECONFIGURATION, FT_STATUS_STALE, FT_STATUS_UNSUPPORTED,
};
use jackstay::ffi_acquisition::connection::{
    ft_acquisition_cpu_attach, ft_acquisition_cpu_connect_session, session_arguments, with_token,
    FtCpuAcquisitionConnection,
};
use jackstay::ffi_acquisition::d3d11::{
    device_arguments, ft_acquisition_d3d11_attach, ft_acquisition_d3d11_connection_alive,
    ft_acquisition_d3d11_describe, ft_acquisition_d3d11_install_configuration, ft_acquisition_d3d11_register_release,
    AdapterInfo, FtD3d11AcquisitionConnection, FtD3d11Adapter, LentDevice, SetupError, SetupStatus,
};
use jackstay::ffi_acquisition::macos::{
    ft_acquisition_macos_connect, ft_acquisition_macos_install_configuration, ft_acquisition_macos_register_release,
};
use jackstay::ffi_acquisition::producer::{wind_down, FtCpuProducer};
use jackstay::ffi_acquisition::{
    ft_acquired_frame_bytes, ft_acquired_frame_release, ft_acquisition_acquire,
    ft_acquisition_relinquish_configuration, FtAcquisitionConsumer, FtAcquisitionRange, FT_ACQUIRE_LATEST,
};
use jackstay::ffi_input::{
    describe, ft_input_client_describe, ft_input_client_reset, ft_input_client_send, ft_input_config_default,
    ft_input_target_create, ft_input_target_geometry, ft_input_target_next, ft_input_target_resolve, target_status,
};
use jackstay::input::binary64::Binary64;
use jackstay::input::client::Client;
use jackstay::input::model::{Config, Event, Geometry, Mode, Position};
use jackstay::input::session::Target;
use jackstay::input::wire::Welcome;

const PAGE: i64 = 4096;

struct Timeline;

impl ReleaseTimeline for Timeline {
    fn completed_value(&self) -> Result<u64, CaptureTransferError> {
        Ok(0)
    }

    fn notify_at(&self, _value: u64, _notification: ReleaseNotification) -> Result<(), CaptureTransferError> {
        Ok(())
    }
}

fn arena() -> (FtCpuProducer<Timeline>, FtAcquisitionConsumer<Timeline>) {
    let config = ArenaConfig {
        resource_capacity: 4,
        retained_history: 1,
        producer_reserve: 1,
        payload_capacity: 8,
        memory_budget: 1024 * 1024,
        max_incarnations: 1,
        drain_timeout: 1_000_000_000,
    };
    let mut producer = ArenaProducer::new(config, PAGE, ScopeId { low: 1, high: 2 }, 0).unwrap();
    let grant = match producer.attach(1, Ok(ScopeId { low: 3, high: 4 }), 0) {
        Ok(grant) => grant,
        Err(error) => panic!("{}", error.message()),
    };
    let consumer = match ArenaConsumer::from_grant(grant, producer.pages(), PAGE) {
        Ok(consumer) => consumer,
        Err(error) => panic!("{}", error.message()),
    };
    (FtCpuProducer { producer }, FtAcquisitionConsumer { consumer })
}

#[test]
fn frames_are_borrowed_until_their_release() {
    let (mut producer, mut consumer) = arena();
    producer.producer.publish(0, FrameDescriptor::default(), b"abcd").unwrap();
    let mut frame = None;
    let mut range = FtAcquisitionRange { first: 0, last: 0 };
    let pages = producer.producer.pages();
    assert_eq!(
        ft_acquisition_acquire(&mut consumer, pages, FT_ACQUIRE_LATEST, 0, &mut frame, &mut range),
        FT_STATUS_OK
    );
    assert_eq!(ft_acquired_frame_bytes(frame.as_ref().unwrap(), pages), b"abcd");
    assert_eq!(ft_acquired_frame_release(&mut consumer, pages, &mut frame, 0), FT_STATUS_OK);
    assert!(frame.is_none());
    assert_eq!(
        ft_acquired_frame_release(&mut consumer, pages, &mut frame, 0),
        FT_STATUS_INVALID_ARGUMENT
    );
    assert_eq!(ft_acquisition_relinquish_configuration(&mut consumer, pages), FT_STATUS_OK);
    assert_eq!(
        ft_acquisition_acquire(&mut consumer, pages, FT_ACQUIRE_LATEST, 0, &mut frame, &mut range),
        FT_STATUS_RECONFIGURATION
    );
}

#[test]
fn producers_wind_down_after_their_consumers() {
    let (mut producer, mut consumer) = arena();
    assert_eq!(wind_down(&mut producer, 0), FT_STATUS_DRAINING);
    consumer.consumer.close(producer.producer.pages(), 0);
    assert_eq!(wind_down(&mut producer, 0), FT_STATUS_OK);
}

#[test]
fn attachments_hand_over_their_consumer() {
    let (_, consumer) = arena();
    let mut connection = FtCpuAcquisitionConnection::new(CpuSetupClient::from_stream());
    let mut out: Option<FtAcquisitionConsumer<Timeline>> = None;
    let failed = || Err(SocketError::Arena(ArenaError::Closed));
    assert_eq!(ft_acquisition_cpu_attach(&connection, 0, failed(), &mut out), FT_STATUS_INVALID_ARGUMENT);
    assert_eq!(ft_acquisition_cpu_attach(&connection, 1, failed(), &mut out), FT_STATUS_ERROR);
    connection.cancel();
    assert_eq!(ft_acquisition_cpu_attach(&connection, 1, failed(), &mut out), FT_STATUS_CANCELLED);
    assert!(out.is_none());
    // What completed stays, even after a cancellation.
    assert_eq!(ft_acquisition_cpu_attach(&connection, 1, Ok(consumer.consumer), &mut out), FT_STATUS_OK);
    assert!(out.is_some());
    assert_eq!(ft_acquisition_cpu_attach(&connection, 1, failed(), &mut out), FT_STATUS_INVALID_ARGUMENT);
}

fn session() -> SessionInfo {
    SessionInfo {
        session_id: "one".to_string(),
        source_id: 1,
        track_id: 7,
        width: 2,
        height: 1,
        stride: 8,
        pixel_format: PixelFormat::Bgra8Unorm,
        fd_socket_path: "/tmp/socket".to_string(),
        bearer_token: None,
    }
}

#[test]
fn sessions_give_both_handles_or_neither() {
    assert_eq!(session_arguments(true, 1, false), FT_STATUS_OK);
    assert_eq!(session_arguments(false, 1, false), FT_STATUS_INVALID_ARGUMENT);
    assert_eq!(session_arguments(true, 0, false), FT_STATUS_INVALID_ARGUMENT);
    assert_eq!(session_arguments(true, 1, true), FT_STATUS_INVALID_ARGUMENT);
    let authorized = with_token(session(), Some("secret".to_string()));
    assert_eq!(authorized.bearer_token.as_deref(), Some("secret"));
    let client = CpuSetupClient::from_stream();
    let (mut connection, mut consumer, mut track) = (None, None, 5);
    let refused: Result<ArenaConsumer<Timeline>, SocketError> = Err(SocketError::Protocol("no"));
    assert_eq!(
        ft_acquisition_cpu_connect_session(
            1,
            Some(session()),
            Some(client),
            refused,
            &mut connection,
            &mut consumer,
            &mut track,
        ),
        FT_STATUS_ERROR
    );
    assert!(connection.is_none() && consumer.is_none());
    assert_eq!(track, 0);
    let (_, admitted) = arena();
    assert_eq!(
        ft_acquisition_cpu_connect_session(
            1,
            Some(session()),
            Some(client),
            Ok(admitted.consumer),
            &mut connection,
            &mut consumer,
            &mut track,
        ),
        FT_STATUS_OK
    );
    assert!(connection.is_some() && consumer.is_some());
    assert_eq!(track, 7);
}

#[test]
fn targets_are_driven_through_their_handles() {
    let mut out = None;
    assert_eq!(ft_input_target_create(&ft_input_config_default(), &mut out), FT_STATUS_OK);
    let mut target: Target = out.unwrap();
    let mut work = None;
    assert_eq!(ft_input_target_next(&mut target, 0, &mut work), FT_STATUS_EMPTY);
    let mut geometry = Geometry {
        revision: 1,
        width: Binary64 { bits: 100f64.to_bits() },
        height: Binary64 { bits: 50f64.to_bits() },
    };
    assert_eq!(ft_input_target_geometry(&mut target, &geometry), FT_STATUS_INVALID_ARGUMENT);
    geometry.revision = 2;
    assert_eq!(ft_input_target_geometry(&mut target, &geometry), FT_STATUS_OK);
    assert_eq!(ft_input_target_resolve(&mut target), FT_STATUS_INVALID_ARGUMENT);
    assert_eq!(target_status(&target), FT_STATUS_OK);
}

#[test]
fn controllers_are_driven_through_their_handles() {
    let config = Config::default();
    let geometry = config.geometry;
    let mut client = Client::new(Welcome { version: 1, mode: Mode::Cooperative, controller: 4, epoch: 9, config });
    let (mut offered, mut controller, mut epoch) = (ft_input_config_default(), 0, 0);
    offered.max_events = 1;
    assert_eq!(
        ft_input_client_describe(&client, &mut offered, &mut controller, &mut epoch),
        FT_STATUS_OK
    );
    assert_eq!((offered.max_events, controller, epoch), (256, 4, 9));
    let one = Binary64 { bits: 1f64.to_bits() };
    let motion = describe(&Event::Motion(Position { revision: geometry.revision, x: one, y: one }));
    let mut sequence = 0;
    assert_eq!(ft_input_client_send(&mut client, &motion, &mut sequence), FT_STATUS_OK);
    assert_eq!(sequence, 1);
    let mut strange = describe(&Event::Text("x".to_string()));
    strange.kind = 9;
    assert_eq!(ft_input_client_send(&mut client, &strange, &mut sequence), FT_STATUS_INVALID_ARGUMENT);
    assert_eq!(ft_input_client_reset(&mut client), FT_STATUS_OK);
    assert_eq!(ft_input_client_send(&mut client, &motion, &mut sequence), FT_STATUS_DRAINING);
    assert_eq!(sequence, 1);
    client.close();
    assert_ne!(ft_input_client_reset(&mut client), FT_STATUS_OK);
}

#[test]
fn stored_records_are_loaded() {
    let (mut producer, _) = arena();
    producer
        .producer
        .publish(0, FrameDescriptor { width: 7, flags: 9, height: u32::MAX, ..FrameDescriptor::default() }, b"abc")
        .unwrap();
    let map = producer.producer.shared().resources.get(&1).unwrap();
    let header = header_words(&map.header());
    assert_eq!(header.len(), RESOURCE_HEADER_WORDS);
    let layout = map.layout();
    assert!(check_resource_header(&header_from_words(&header), &layout, ScopeId { low: 1, high: 2 }, 1).is_ok());
    let mut loaded = ResourceMap::new(layout, ScopeId { low: 1, high: 2 }, 1);
    for index in 0..layout.resources {
        let words = descriptor_words(&map.descriptor(index));
        assert_eq!(words.len(), DESCRIPTOR_WORDS);
        let mut bytes = map.payload(index).to_vec();
        bytes.resize(8, 0xee);
        loaded.load(index, map.state(index), descriptor_from_words(&words), &bytes);
        assert_eq!(loaded.state(index), map.state(index));
        assert_eq!(loaded.descriptor(index), map.descriptor(index));
        assert_eq!(loaded.payload(index), map.payload(index));
    }
}

#[test]
fn connections_are_alive_until_closed_or_cancelled() {
    let mut connection = FtD3d11AcquisitionConnection::new();
    assert_eq!(ft_acquisition_d3d11_connection_alive(&connection, Some(true)), FT_STATUS_OK);
    assert_eq!(ft_acquisition_d3d11_connection_alive(&connection, Some(false)), FT_STATUS_CLOSED);
    assert_eq!(ft_acquisition_d3d11_connection_alive(&connection, None), FT_STATUS_OK);
    connection.cancel();
    assert_eq!(ft_acquisition_d3d11_connection_alive(&connection, Some(true)), FT_STATUS_CANCELLED);
    assert_eq!(connection.begin(), Err(SetupStatus::Common(FT_STATUS_CANCELLED)));
}

#[test]
fn adapters_are_matched_before_admission() {
    let connection = FtD3d11AcquisitionConnection::new();
    let mut adapter = FtD3d11Adapter::none();
    let info = AdapterInfo {
        luid: 5,
        description: "WARP".to_string(),
        vendor_id: 1,
        device_id: 2,
        software: true,
    };
    assert_eq!(
        ft_acquisition_d3d11_describe(&connection, Ok(info), &mut adapter),
        SetupStatus::Common(FT_STATUS_OK)
    );
    assert_eq!((adapter.luid, adapter.software, &adapter.description[..5]), (5, 1, &b"WARP\0"[..]));
    let closed = || SetupError::Socket(SocketError::Arena(ArenaError::Closed));
    assert_eq!(
        ft_acquisition_d3d11_describe(&connection, Err(closed()), &mut adapter),
        SetupStatus::Common(FT_STATUS_CLOSED)
    );
    assert_eq!(adapter, FtD3d11Adapter::none());
    let mut out: Option<FtAcquisitionConsumer<Timeline>> = None;
    let refused = || Err(SetupError::Refused("other adapter".to_string()));
    assert_eq!(
        ft_acquisition_d3d11_attach(&connection, 1, LentDevice::Usable, refused(), &mut out),
        SetupStatus::AdapterMismatch
    );
    assert_eq!(
        ft_acquisition_d3d11_attach(&connection, 1, LentDevice::Unsupported, refused(), &mut out),
        SetupStatus::Common(FT_STATUS_UNSUPPORTED)
    );
    assert_eq!(device_arguments(1, false, LentDevice::Missing), FT_STATUS_INVALID_ARGUMENT);
    let (_, admitted) = arena();
    assert_eq!(
        ft_acquisition_d3d11_attach(&connection, 1, LentDevice::Usable, Ok(admitted.consumer), &mut out),
        SetupStatus::Common(FT_STATUS_OK)
    );
    assert!(out.is_some());
    assert_eq!(
        ft_acquisition_d3d11_install_configuration(&connection, Ok(Some(ConfigurationInstall::Stale))),
        SetupStatus::Common(FT_STATUS_STALE)
    );
    let mut binding = None;
    assert_eq!(
        ft_acquisition_d3d11_register_release(&connection, false, Err(closed()), &mut binding),
        SetupStatus::Common(FT_STATUS_INVALID_ARGUMENT)
    );
    assert_eq!(
        ft_acquisition_d3d11_register_release(&connection, true, Err(closed()), &mut binding),
        SetupStatus::Common(FT_STATUS_CLOSED)
    );
    assert!(binding.is_none());
}

#[test]
fn named_services_give_both_handles_or_neither() {
    let (mut connection, mut consumer) = (None, None);
    let closed: Result<ArenaConsumer<Timeline>, ArenaError> = Err(ArenaError::Closed);
    assert_eq!(
        ft_acquisition_macos_connect(Some("service"), 1, closed, &mut connection, &mut consumer),
        FT_STATUS_CLOSED
    );
    assert!(connection.is_none() && consumer.is_none());
    let (_, admitted) = arena();
    assert_eq!(
        ft_acquisition_macos_connect(Some(""), 1, Ok(admitted.consumer), &mut connection, &mut consumer),
        FT_STATUS_INVALID_ARGUMENT
    );
    let (_, admitted) = arena();
    assert_eq!(
        ft_acquisition_macos_connect(Some("service"), 1, Ok(admitted.consumer), &mut connection, &mut consumer),
        FT_STATUS_OK
    );
    assert!(connection.is_some() && consumer.is_some());
    assert_eq!(ft_acquisition_macos_install_configuration(Ok(None)), FT_STATUS_EMPTY);
    let mut binding = None;
    assert_eq!(
        ft_acquisition_macos_register_release(true, Err(ArenaError::Closed), &mut binding),
        FT_STATUS_CLOSED
    );
}
