use std::sync::{Arc, Mutex};

use jackstay::acquisition::arena::cleanup::{ProcessExit, ReleaseNotification, ReleaseTimeline};
use jackstay::acquisition::arena::consumer::retirement::RetirementStep;
use jackstay::acquisition::arena::consumer::{AcquireOutcome, ArenaConsumer, FrameLease};
use jackstay::acquisition::arena::producer::observer::ObserverStep;
use jackstay::acquisition::arena::producer::reconfiguration::{ConfigurationInstall, ReconfigurationStatus};
use jackstay::acquisition::arena::producer::ArenaProducer;
use jackstay::acquisition::arena::{ArenaConfig, ArenaError, FrameDescriptor, PublishOutcome, ScopeId};
use jackstay::acquisition::AdmissionError;
use jackstay::error::CaptureTransferError;

const SECOND: u128 = 1_000_000_000;
const PAGE: i64 = 4096;

/// A timeline that a test moves on.
#[derive(Clone)]
struct Timeline {
    completed: Arc<Mutex<Result<u64, String>>>,
    asked: Arc<Mutex<Vec<u64>>>,
}

impl Timeline {
    fn new() -> Self {
        Timeline { completed: Arc::new(Mutex::new(Ok(0))), asked: Arc::new(Mutex::new(Vec::new())) }
    }

    fn complete(&self, value: u64) {
        *self.completed.lock().unwrap() = Ok(value);
    }

    fn fail(&self, reason: &str) {
        *self.completed.lock().unwrap() = Err(reason.to_string());
    }
}

impl ReleaseTimeline for Timeline {
    fn completed_value(&self) -> Result<u64, CaptureTransferError> {
        match &*self.completed.lock().unwrap() {
            Ok(value) => Ok(*value),
            Err(reason) => Err(CaptureTransferError::SharedMemory { operation: "test", message: reason.clone() }),
        }
    }

    fn notify_at(&self, value: u64, _notification: ReleaseNotification) -> Result<(), CaptureTransferError> {
        self.asked.lock().unwrap().push(value);
        Ok(())
    }
}

type Producer = ArenaProducer<Timeline>;
type Consumer = ArenaConsumer<Timeline>;

fn config() -> ArenaConfig {
    ArenaConfig {
        resource_capacity: 6,
        retained_history: 2,
        producer_reserve: 1,
        payload_capacity: 4,
        memory_budget: 1024 * 1024,
        max_incarnations: 2,
        drain_timeout: 5 * SECOND,
    }
}

fn create() -> Producer {
    Producer::new(config(), PAGE, ScopeId { low: 1, high: 1 }, 0).unwrap()
}

fn attach(producer: &mut Producer, holding: u32, low: u64) -> Consumer {
    let grant = match producer.attach(holding, Ok(ScopeId { low, high: 2 }), 0) {
        Ok(grant) => grant,
        Err(error) => panic!("{}", error.message()),
    };
    match Consumer::from_grant(grant, producer.pages(), PAGE) {
        Ok(consumer) => consumer,
        Err(error) => panic!("{}", error.message()),
    }
}

fn publish(producer: &mut Producer, bytes: &[u8]) -> u64 {
    match producer.publish(0, FrameDescriptor::default(), bytes).unwrap() {
        PublishOutcome::Published { cursor } => cursor,
        PublishOutcome::Dropped => panic!("dropped"),
    }
}

fn acquire(producer: &mut Producer, consumer: &mut Consumer) -> FrameLease {
    match consumer.acquire_latest(producer.pages(), 0).unwrap() {
        AcquireOutcome::Frame(frame) => frame,
        _ => panic!("no frame"),
    }
}

#[test]
fn holdings_never_starve_publication() {
    let mut producer = create();
    let mut first = attach(&mut producer, 2, 10);
    let mut second = attach(&mut producer, 1, 11);
    let mut held = Vec::new();
    publish(&mut producer, b"0001");
    held.push((acquire(&mut producer, &mut first), *b"0001"));
    publish(&mut producer, b"0002");
    held.push((acquire(&mut producer, &mut first), *b"0002"));
    publish(&mut producer, b"0003");
    held.push((acquire(&mut producer, &mut second), *b"0003"));
    for _ in 0..50 {
        publish(&mut producer, b"wxyz");
    }
    for (frame, bytes) in &held {
        assert_eq!(frame.bytes(producer.shared()), bytes);
    }
}

#[test]
fn retained_frames_are_delivered_in_order() {
    let mut producer = create();
    let mut consumer = attach(&mut producer, 1, 10);
    publish(&mut producer, b"0001");
    publish(&mut producer, b"0002");
    let mut after = 0;
    for expected in [b"0001", b"0002"] {
        match consumer.acquire_next(producer.pages(), after).unwrap() {
            AcquireOutcome::Frame(frame) => {
                after = frame.cursor();
                assert_eq!(frame.bytes(producer.shared()), expected);
                consumer.release(producer.pages(), frame, 0);
            }
            _ => panic!("no frame"),
        }
    }
    assert!(matches!(
        consumer.acquire_next(producer.pages(), after).unwrap(),
        AcquireOutcome::Empty
    ));
}

#[test]
fn only_completed_releases_return_credit() {
    let mut producer = create();
    let mut consumer = attach(&mut producer, 1, 10);
    let near = Timeline::new();
    let far = near.clone();
    let registration = producer.register_release_timeline(consumer.incarnation(), far).unwrap();
    let bound = consumer
        .bind_release_timeline(producer.shared(), &registration, 1, near.clone())
        .unwrap();
    publish(&mut producer, b"abcd");
    let frame = acquire(&mut producer, &mut consumer);
    assert!(consumer.defer_release(producer.pages(), frame, &bound, 3, 0).is_ok());
    assert_eq!(bound.pending_releases(&consumer), 1);
    near.complete(2);
    consumer.retire(producer.pages(), 0);
    assert_eq!(producer.poll_cleanup(0), 0);
    assert!(matches!(
        consumer.acquire_latest(producer.pages(), 0).unwrap(),
        AcquireOutcome::HoldingLimit
    ));
    assert!(near.asked.lock().unwrap().contains(&3));
    near.complete(3);
    consumer.retire(producer.pages(), 0);
    assert_eq!(bound.pending_releases(&consumer), 0);
    assert_eq!(producer.poll_cleanup(0), 1);
    acquire(&mut producer, &mut consumer);
}

#[test]
fn failed_timelines_quarantine_their_claims() {
    let mut producer = create();
    let mut consumer = attach(&mut producer, 1, 10);
    let timeline = Timeline::new();
    let registration = producer.register_release_timeline(consumer.incarnation(), timeline.clone()).unwrap();
    let bound = consumer
        .bind_release_timeline(producer.shared(), &registration, 1, timeline.clone())
        .unwrap();
    publish(&mut producer, b"abcd");
    let frame = acquire(&mut producer, &mut consumer);
    assert!(consumer.defer_release(producer.pages(), frame, &bound, 3, 0).is_ok());
    timeline.fail("device lost");
    producer.poll_cleanup(0);
    let failures = producer.cleanup_failures();
    assert_eq!(failures.len(), 1);
    assert!(failures[0].reason.contains("device lost"));
    assert!(consumer.is_closed(producer.shared()));
    timeline.complete(3);
    consumer.retire(producer.pages(), 0);
    producer.retry_cleanup(consumer.incarnation()).unwrap();
    assert_eq!(producer.poll_cleanup(0), 1);
}

#[test]
fn deadlines_release_nothing() {
    let mut producer = create();
    let mut consumer = attach(&mut producer, 1, 10);
    publish(&mut producer, b"abcd");
    let frame = acquire(&mut producer, &mut consumer);
    consumer.close(producer.pages(), 0);
    producer.poll_cleanup(0);
    producer.poll_cleanup(100 * SECOND);
    assert_eq!(producer.cleanup_failures().len(), 1);
    for _ in 0..20 {
        publish(&mut producer, b"wxyz");
    }
    assert_eq!(frame.bytes(producer.shared()), b"abcd");
    consumer.release(producer.pages(), frame, 100 * SECOND);
    producer.stop();
    assert!(producer.poll_shutdown_ready(100 * SECOND));
}

#[test]
fn stopping_revokes_nothing() {
    let mut producer = create();
    let mut consumer = attach(&mut producer, 1, 10);
    publish(&mut producer, b"abcd");
    let frame = acquire(&mut producer, &mut consumer);
    producer.stop();
    assert_eq!(frame.bytes(producer.shared()), b"abcd");
    assert!(matches!(
        producer.publish(0, FrameDescriptor::default(), b"late"),
        Err(ArenaError::Closed)
    ));
    assert!(!producer.poll_shutdown_ready(0));
}

#[test]
fn exits_free_cpu_claims_but_prove_no_completion() {
    let mut producer = create();
    let grant = match producer.attach_process(1, 77, Ok(()), Ok(ScopeId { low: 10, high: 2 }), 0) {
        Ok(grant) => grant,
        Err(error) => panic!("{}", error.message()),
    };
    let incarnation = grant.incarnation();
    publish(&mut producer, b"abcd");
    assert!(matches!(
        producer.work(incarnation, Ok(()), ProcessExit::Running, 0),
        ObserverStep::Sleep { watching: true, .. }
    ));
    assert!(matches!(
        producer.work(incarnation, Ok(()), ProcessExit::Exited, 0),
        ObserverStep::Ended
    ));
    producer.stop();
    assert!(producer.poll_shutdown_ready(0));
}

#[test]
fn broken_channels_are_recovery_failures() {
    let mut producer = create();
    let consumer = attach(&mut producer, 1, 10);
    assert!(matches!(
        producer.work(consumer.incarnation(), Err("broken".to_string()), ProcessExit::Running, 0),
        ObserverStep::Ended
    ));
    assert_eq!(producer.cleanup_failures()[0].reason, "broken");
    assert!(producer.retry_cleanup(consumer.incarnation()).is_err());
}

#[test]
fn departed_consumers_drain() {
    let mut producer = create();
    let mut consumer = attach(&mut producer, 1, 10);
    consumer.close(producer.pages(), 0);
    assert_eq!(consumer.retire(producer.pages(), 0), RetirementStep::Done);
    producer.poll_cleanup(0);
    // Its identity is never used again, and its credit is free.
    let next = attach(&mut producer, 3, 11);
    assert_ne!(next.incarnation(), consumer.incarnation());
}

#[test]
fn replaced_storage_waits_for_its_readers() {
    let mut producer = create();
    let mut consumer = attach(&mut producer, 1, 10);
    publish(&mut producer, b"abcd");
    let held = acquire(&mut producer, &mut consumer);
    assert!(matches!(
        producer.reconfigure_cpu(8, 0).unwrap(),
        ReconfigurationStatus::Ready { generation: 2 }
    ));
    assert!(matches!(
        consumer.acquire_latest(producer.pages(), 0).unwrap(),
        AcquireOutcome::Reconfiguration
    ));
    assert_eq!(
        producer.configure_consumer(&mut consumer).unwrap(),
        Some(ConfigurationInstall::Installed)
    );
    assert_eq!(producer.configure_consumer(&mut consumer).unwrap(), None);
    assert_eq!(held.bytes(producer.shared()), b"abcd", "the old storage is still there");
    assert!(producer.shared().resources.contains_key(&1));
    consumer.release(producer.pages(), held, 0);
    producer.poll_cleanup(0);
    assert!(!producer.shared().resources.contains_key(&1));
}

#[test]
fn replacements_pause_for_capacity() {
    let mut config = config();
    config.payload_capacity = 4096;
    config.memory_budget = 100 * 1024;
    let mut producer = Producer::new(config, PAGE, ScopeId { low: 1, high: 1 }, 0).unwrap();
    let mut consumer = attach(&mut producer, 1, 10);
    publish(&mut producer, b"abcd");
    let held = acquire(&mut producer, &mut consumer);
    match producer.reconfigure_cpu(12000, 0).unwrap() {
        ReconfigurationStatus::PausedCapacity { requested, available } => assert!(requested > available),
        ReconfigurationStatus::Ready { .. } => panic!("the budget was exceeded"),
    }
    assert!(matches!(
        producer.publish(0, FrameDescriptor::default(), b"late").unwrap(),
        PublishOutcome::Dropped
    ));
    consumer.relinquish_configuration(producer.pages());
    consumer.release(producer.pages(), held, 0);
    assert!(matches!(
        producer.advance_reconfiguration(0).unwrap(),
        ReconfigurationStatus::Ready { generation: 2 }
    ));
}

#[test]
fn external_pools_publish_into_ready_resources() {
    let config = ArenaConfig { payload_capacity: 0, ..config() };
    let mut producer = Producer::with_external_allocation(config, 4096, PAGE, ScopeId { low: 1, high: 1 }, 0).unwrap();
    let asked = std::cell::RefCell::new(Vec::new());
    let prepare = |index: u32, held: u64| {
        asked.borrow_mut().push((index, held));
        if index == 0 {
            Ok(None)
        } else {
            Ok(Some(FrameDescriptor { sequence: 6 + index as u64, ..FrameDescriptor::default() }))
        }
    };
    for cursor in 1..=3 {
        assert_eq!(
            producer.publish_resource(0, prepare).unwrap(),
            PublishOutcome::Published { cursor }
        );
    }
    assert_eq!(*asked.borrow(), vec![(0, 0), (1, 0), (2, 0), (3, 0)]);
    assert!(matches!(
        producer.publish_resource(0, |_, _| Ok(None)).unwrap(),
        PublishOutcome::Dropped
    ));
    assert_eq!(
        producer.publish_resource(0, |_, _| Err(ArenaError::Configuration("lost device"))).unwrap_err(),
        ArenaError::Configuration("lost device")
    );
    assert!(producer.reconfigure_cpu(8, 0).is_err());
}

#[test]
fn refusals_leave_the_arena_as_it_was() {
    let mut producer = create();
    assert!(matches!(
        producer.attach(4, Ok(ScopeId { low: 10, high: 2 }), 0),
        Err(ArenaError::Admission(AdmissionError::InsufficientResources { requested: 4, available: 3 }))
    ));
    let failed = producer.attach(3, Err(ArenaError::Notification("no channel".to_string())), 0);
    assert!(matches!(failed, Err(ArenaError::Notification(_))));
    attach(&mut producer, 3, 11);
    assert!(matches!(
        producer.publish(0, FrameDescriptor::default(), b"12345"),
        Err(ArenaError::PayloadTooLarge)
    ));
}
