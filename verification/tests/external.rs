use jackstay::acquisition::arena::cleanup::{ReleaseNotification, ReleaseTimeline};
use jackstay::acquisition::arena::consumer::waiting::Cancellation;
use jackstay::acquisition::arena::consumer::{AcquireOutcome, ArenaConsumer};
use jackstay::acquisition::arena::producer::reconfiguration::{ConfigurationInstall, ReconfigurationStatus};
use jackstay::acquisition::arena::producer::ArenaProducer;
use jackstay::acquisition::arena::wait::{WaitInterest, WaitOutcome};
use jackstay::acquisition::arena::{ArenaConfig, ArenaError, FrameDescriptor, PublishOutcome, ScopeId};
use jackstay::acquisition::AdmissionError;
use jackstay::error::CaptureTransferError;

const SECOND: u128 = 1_000_000_000;
const PAGE: i64 = 4096;

struct Timeline;

impl ReleaseTimeline for Timeline {
    fn completed_value(&self) -> Result<u64, CaptureTransferError> {
        Ok(0)
    }

    fn notify_at(&self, _value: u64, _notification: ReleaseNotification) -> Result<(), CaptureTransferError> {
        Ok(())
    }
}

type Producer = ArenaProducer<Timeline>;
type Consumer = ArenaConsumer<Timeline>;

fn config() -> ArenaConfig {
    ArenaConfig {
        resource_capacity: 4,
        retained_history: 1,
        producer_reserve: 1,
        payload_capacity: 0,
        memory_budget: 1024 * 1024,
        max_incarnations: 2,
        drain_timeout: 5 * SECOND,
    }
}

fn create() -> Producer {
    Producer::with_external_allocation(config(), 4096, PAGE, ScopeId { low: 1, high: 1 }, 0).unwrap()
}

fn attach(producer: &mut Producer) -> Consumer {
    let grant = match producer.attach(1, Ok(ScopeId { low: 2, high: 2 }), 0) {
        Ok(grant) => grant,
        Err(error) => panic!("{}", error.message()),
    };
    match Consumer::from_native_grant(grant, 4, producer.pages(), PAGE) {
        Ok(consumer) => consumer,
        Err(error) => panic!("{}", error.message()),
    }
}

fn publish(producer: &mut Producer) {
    assert!(matches!(
        producer.publish_resource(0, |_, _| Ok(Some(FrameDescriptor::default()))).unwrap(),
        PublishOutcome::Published { .. }
    ));
}

#[test]
fn external_storage_is_part_of_the_budget() {
    assert!(Producer::validate_external_allocation(&config(), 4096, PAGE, 0).is_ok());
    assert!(matches!(
        Producer::validate_external_allocation(&config(), 1024 * 1024, PAGE, 0),
        Err(ArenaError::Admission(AdmissionError::InvalidLimits(_)))
    ));
}

#[test]
fn native_grants_name_the_whole_pool() {
    let mut producer = create();
    let grant = match producer.attach(1, Ok(ScopeId { low: 2, high: 2 }), 0) {
        Ok(grant) => grant,
        Err(error) => panic!("{}", error.message()),
    };
    match Consumer::from_native_grant(grant, 3, producer.pages(), PAGE) {
        Err(error) => assert_eq!(
            error,
            ArenaError::Mapping("native resource setup disagrees with current mapping")
        ),
        Ok(_) => panic!("a short pool was accepted"),
    }
}

#[test]
fn retired_pools_wait_for_their_producer() {
    let mut producer = create();
    let mut consumer = attach(&mut producer);
    publish(&mut producer);
    producer.begin_native_reconfiguration(8192).unwrap();
    assert!(matches!(
        producer.begin_native_reconfiguration(8192),
        Err(ArenaError::Admission(AdmissionError::ReconfigurationPending))
    ));
    let (status, pool) = producer.advance_with_allocation(0, || Ok(("pool", 8192))).unwrap();
    assert!(matches!(status, ReconfigurationStatus::Ready { generation: 2 }));
    assert_eq!(pool, Some("pool"));
    producer.signal_reconfiguration().unwrap();
    assert!(matches!(
        consumer.acquire_latest(producer.pages(), 0).unwrap(),
        AcquireOutcome::Reconfiguration
    ));
    let offer = producer.configuration_offer(consumer.incarnation()).unwrap().unwrap();
    let offer = match consumer.install_native_configuration(producer.pages(), offer, 5) {
        Err(rejected) => rejected.grant,
        Ok(_) => panic!("a pool of another size was installed"),
    };
    match consumer.install_native_configuration(producer.pages(), offer, 4) {
        Ok(install) => assert_eq!(install, ConfigurationInstall::Installed),
        Err(rejected) => panic!("{}", rejected.error.message()),
    }
    producer.poll_cleanup(0);
    assert!(producer.shared().resources.contains_key(&1), "the producer still uses it");
    producer.complete_native(1);
    producer.poll_cleanup(0);
    assert!(!producer.shared().resources.contains_key(&1));
}

#[test]
fn failed_allocations_can_be_tried_again() {
    let mut producer = create();
    producer.begin_native_reconfiguration(8192).unwrap();
    let failed: Result<(ReconfigurationStatus, Option<()>), ArenaError> =
        producer.advance_with_allocation(0, || Err(ArenaError::Notification("device lost".to_string())));
    assert!(matches!(failed, Err(ArenaError::Notification(_))));
    let (status, pool) = producer.advance_with_allocation(0, || Ok(((), 8192))).unwrap();
    assert!(matches!(status, ReconfigurationStatus::Ready { .. }));
    assert_eq!(pool, Some(()));
}

#[test]
fn inline_pools_have_no_native_replacement() {
    let config = ArenaConfig { payload_capacity: 4, ..config() };
    let mut producer = Producer::new(config, PAGE, ScopeId { low: 1, high: 1 }, 0).unwrap();
    assert_eq!(
        producer.begin_native_reconfiguration(1),
        Err(ArenaError::Configuration("native replacement requires an external pool"))
    );
}

#[test]
fn abandoned_waits_ask_for_nothing() {
    let mut producer = create();
    let consumer = attach(&mut producer);
    let observed = consumer.events(producer.shared());
    let wait = consumer
        .begin_wait(producer.pages(), observed, WaitInterest::data(), Some(SECOND), 0)
        .unwrap();
    assert!(consumer.continue_wait(producer.pages(), &wait, &Cancellation::new(), 0).is_none());
    assert_ne!(producer.shared().claims.get(&1).unwrap().wait_interest(), 0);
    consumer.abandon_wait(producer.pages());
    assert_eq!(producer.shared().claims.get(&1).unwrap().wait_interest(), 0);
    publish(&mut producer);
    assert!(matches!(
        consumer.continue_wait(producer.pages(), &wait, &Cancellation::new(), 0),
        Some(WaitOutcome::Changed(_))
    ));
}

#[test]
fn strange_notifications_wake_nobody() {
    let mut producer = create();
    let mut consumer = attach(&mut producer);
    consumer.retire(producer.pages(), 0);
    consumer.notified(ReleaseNotification { slot: 0, serial: 1 });
    consumer.notified(ReleaseNotification { slot: 9, serial: 1 });
    assert!(!consumer.waiting());
}

#[test]
fn refused_descriptors_return_their_credit() {
    let mut producer = create();
    let mut consumer = attach(&mut producer);
    publish(&mut producer);
    for verdict in [Err(ArenaError::Mapping("descriptor names another pool")), Ok(())] {
        let lease = match consumer.acquire_latest(producer.pages(), 0).unwrap() {
            AcquireOutcome::Frame(lease) => lease,
            _ => panic!("no frame"),
        };
        let refused = verdict.is_err();
        match consumer.finish_native(producer.pages(), lease, verdict) {
            Err(error) => assert_eq!(error, ArenaError::Mapping("descriptor names another pool")),
            Ok(AcquireOutcome::Frame(lease)) => {
                assert!(!refused);
                assert_eq!(lease.cursor(), 1);
            }
            Ok(_) => panic!("no frame"),
        }
    }
    assert!(matches!(
        consumer.acquire_latest(producer.pages(), 0).unwrap(),
        AcquireOutcome::HoldingLimit
    ));
}
