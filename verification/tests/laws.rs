use std::sync::{Arc, Mutex};

use jackstay::acquisition::arena::claims::{ClaimMap, CAPACITY_EPOCH};
use jackstay::acquisition::arena::cleanup::{
    ObservationState, Question, ReleaseNotification, ReleaseTimeline, TimelineAnswer,
};
use jackstay::acquisition::arena::consumer::{AcquireOutcome, ArenaConsumer, FrameLease};
use jackstay::acquisition::arena::producer::reconfiguration::{ConfigurationInstall, ReconfigurationStatus};
use jackstay::acquisition::arena::producer::ArenaProducer;
use jackstay::acquisition::arena::{ArenaConfig, ArenaError, FrameDescriptor, PublishOutcome, ScopeId};
use jackstay::acquisition::AdmissionError;
use jackstay::error::CaptureTransferError;

const PAGE: i64 = 4096;

/// A timeline that a test moves on, with what it was asked to notify.
#[derive(Clone, Default)]
struct Timeline {
    completed: Arc<Mutex<u64>>,
    reads: Arc<Mutex<usize>>,
    armed: Arc<Mutex<Vec<(u64, ReleaseNotification)>>>,
    broken: Arc<Mutex<bool>>,
}

impl Timeline {
    fn complete(&self, value: u64) {
        *self.completed.lock().unwrap() = value;
    }

    fn reads(&self) -> usize {
        *self.reads.lock().unwrap()
    }
}

impl ReleaseTimeline for Timeline {
    fn completed_value(&self) -> Result<u64, CaptureTransferError> {
        *self.reads.lock().unwrap() += 1;
        Ok(*self.completed.lock().unwrap())
    }

    fn notify_at(&self, value: u64, notification: ReleaseNotification) -> Result<(), CaptureTransferError> {
        if *self.broken.lock().unwrap() {
            return Err(CaptureTransferError::SharedMemory { operation: "arm", message: "no events".to_string() });
        }
        self.armed.lock().unwrap().push((value, notification));
        Ok(())
    }
}

type Producer = ArenaProducer<Timeline>;
type Consumer = ArenaConsumer<Timeline>;

fn create() -> Producer {
    let config = ArenaConfig {
        resource_capacity: 6,
        retained_history: 2,
        producer_reserve: 1,
        payload_capacity: 4,
        memory_budget: 1024 * 1024,
        max_incarnations: 3,
        drain_timeout: 5_000_000_000,
    };
    Producer::new(config, PAGE, ScopeId { low: 1, high: 1 }, 0).unwrap()
}

fn attach(producer: &mut Producer, holding: u32, low: u64) -> Consumer {
    let grant = match producer.attach(holding, Ok(ScopeId { low, high: 2 }), 0) {
        Ok(grant) => grant,
        Err(error) => panic!("{}", error.message()),
    };
    match Consumer::from_grant(grant, producer.pages(), PAGE) {
        Ok(consumer) => consumer,
        Err(error) => panic!("{}", error.message()),
    }
}

fn publish(producer: &mut Producer, bytes: &[u8]) -> u64 {
    match producer.publish(0, FrameDescriptor::default(), bytes).unwrap() {
        PublishOutcome::Published { cursor } => cursor,
        PublishOutcome::Dropped => panic!("dropped"),
    }
}

fn latest(producer: &mut Producer, consumer: &mut Consumer) -> FrameLease {
    match consumer.acquire_latest(producer.pages(), 0).unwrap() {
        AcquireOutcome::Frame(frame) => frame,
        _ => panic!("no frame"),
    }
}

#[test]
fn deferred_credit_waits_for_both_ends() {
    for producer_first in [false, true] {
        let mut producer = create();
        let mut consumer = attach(&mut producer, 1, 10);
        let (near, far) = (Timeline::default(), Timeline::default());
        let registration = producer.register_release_timeline(consumer.incarnation(), far.clone()).unwrap();
        let bound = consumer.bind_release_timeline(producer.shared(), &registration, 1, near.clone()).unwrap();
        publish(&mut producer, b"abcd");
        let frame = latest(&mut producer, &mut consumer);
        assert!(consumer.defer_release(producer.pages(), frame, &bound, 3, 0).is_ok());
        if producer_first {
            far.complete(3);
        } else {
            near.complete(3);
        }
        consumer.retire(producer.pages(), 0);
        assert_eq!(producer.poll_cleanup(0), 0);
        assert!(matches!(
            consumer.acquire_latest(producer.pages(), 0).unwrap(),
            AcquireOutcome::HoldingLimit
        ));
        near.complete(3);
        far.complete(3);
        consumer.retire(producer.pages(), 0);
        assert_eq!(producer.poll_cleanup(0), 1);
        latest(&mut producer, &mut consumer);
    }
}

#[test]
fn looks_ask_the_timeline_that_a_release_names() {
    let mut producer = create();
    let mut consumer = attach(&mut producer, 2, 10);
    let (first, second) = (Timeline::default(), Timeline::default());
    let ours = Timeline::default();
    producer.register_release_timeline(consumer.incarnation(), first.clone()).unwrap();
    let registration = producer.register_release_timeline(consumer.incarnation(), second.clone()).unwrap();
    let bound = consumer.bind_release_timeline(producer.shared(), &registration, 7, ours.clone()).unwrap();
    publish(&mut producer, b"abcd");
    let frame = latest(&mut producer, &mut consumer);
    assert_eq!(consumer.question(0), None);
    assert!(consumer.defer_release(producer.pages(), frame, &bound, 9, 0).is_ok());
    assert_eq!(
        consumer.question(0),
        Some(Question { timeline: 1, value: 9, arming: Some(ReleaseNotification { slot: 0, serial: 1 }) })
    );
    consumer.retire(producer.pages(), 0);
    assert_eq!(*ours.armed.lock().unwrap(), vec![(9, ReleaseNotification { slot: 0, serial: 1 })]);
    assert_eq!(consumer.question(0), Some(Question { timeline: 1, value: 9, arming: None }));
    producer.poll_cleanup(0);
    producer.poll_cleanup(0);
    assert_eq!(first.reads(), 0);
    assert_eq!(second.reads(), 2);
    assert_eq!(second.armed.lock().unwrap().len(), 1);
}

#[test]
fn reported_notifications_are_armed_again() {
    let mut producer = create();
    let mut consumer = attach(&mut producer, 1, 10);
    let timeline = Timeline::default();
    let registration = producer.register_release_timeline(consumer.incarnation(), timeline.clone()).unwrap();
    let bound = consumer.bind_release_timeline(producer.shared(), &registration, 1, Timeline::default()).unwrap();
    publish(&mut producer, b"abcd");
    let frame = latest(&mut producer, &mut consumer);
    assert!(consumer.defer_release(producer.pages(), frame, &bound, 3, 0).is_ok());
    producer.poll_cleanup(0);
    let (_, notification) = timeline.armed.lock().unwrap()[0];
    producer.poll_cleanup(0);
    assert_eq!(timeline.armed.lock().unwrap().len(), 1);
    producer.notified(consumer.incarnation(), ReleaseNotification { serial: notification.serial + 1, ..notification });
    producer.poll_cleanup(0);
    assert_eq!(timeline.armed.lock().unwrap().len(), 1);
    producer.notified(consumer.incarnation(), notification);
    producer.poll_cleanup(0);
    assert_eq!(timeline.armed.lock().unwrap().len(), 2);
}

#[test]
fn timelines_that_cannot_notify_are_failures() {
    let mut producer = create();
    let mut consumer = attach(&mut producer, 1, 10);
    let timeline = Timeline::default();
    *timeline.broken.lock().unwrap() = true;
    let registration = producer.register_release_timeline(consumer.incarnation(), timeline.clone()).unwrap();
    let bound = consumer.bind_release_timeline(producer.shared(), &registration, 1, timeline).unwrap();
    publish(&mut producer, b"abcd");
    let frame = latest(&mut producer, &mut consumer);
    assert!(consumer.defer_release(producer.pages(), frame, &bound, 3, 0).is_ok());
    consumer.retire(producer.pages(), 0);
    let reason = bound.cleanup_failure(&consumer, 0).unwrap();
    assert!(reason.contains("no events"));
    assert!(consumer.is_closed(producer.shared()));
}

#[test]
fn cleanup_failures_come_by_incarnation() {
    let mut producer = create();
    let mut consumers: Vec<Consumer> = (0..3).map(|low| attach(&mut producer, 1, 10 + low)).collect();
    publish(&mut producer, b"abcd");
    let mut held = Vec::new();
    for consumer in &mut consumers {
        held.push(latest(&mut producer, consumer));
    }
    for consumer in consumers.iter_mut().rev() {
        consumer.close(producer.pages(), 0);
    }
    producer.poll_cleanup(0);
    producer.poll_cleanup(100_000_000_000);
    let order: Vec<u64> = producer.cleanup_failures().iter().map(|failure| failure.incarnation.0).collect();
    assert_eq!(order, vec![1, 2, 3]);
}

#[test]
fn overtaken_acquisitions_miss() {
    let mut producer = create();
    let mut consumer = attach(&mut producer, 1, 10);
    let cursor = publish(&mut producer, b"0001");
    let index = consumer.select(producer.shared(), cursor).unwrap();
    publish(&mut producer, b"0002");
    let slot = consumer.claim(producer.pages(), cursor).unwrap();
    for _ in 0..20 {
        publish(&mut producer, b"wxyz");
    }
    // The claim kept the first frame where it was, but it is withdrawn.
    assert!(!consumer.validate(producer.shared(), cursor, index));
    assert!(matches!(
        consumer.finish(producer.pages(), cursor, index, slot, false).unwrap(),
        AcquireOutcome::Miss { cursor: 1 }
    ));
    let frame = latest(&mut producer, &mut consumer);
    assert_eq!(frame.cursor(), 22);
    assert_eq!(frame.bytes(producer.shared()), b"wxyz");
    for _ in 0..20 {
        publish(&mut producer, b"late");
    }
    assert_eq!(frame.bytes(producer.shared()), b"wxyz");
}

#[test]
fn claims_before_reuse_acquire_the_selected_frame() {
    let mut producer = create();
    let mut consumer = attach(&mut producer, 1, 10);
    let cursor = publish(&mut producer, b"0001");
    let index = consumer.select(producer.shared(), cursor).unwrap();
    let slot = consumer.claim(producer.pages(), cursor).unwrap();
    publish(&mut producer, b"0002");
    let valid = consumer.validate(producer.shared(), cursor, index);
    assert!(valid);
    let frame = match consumer.finish(producer.pages(), cursor, index, slot, valid).unwrap() {
        AcquireOutcome::Frame(frame) => frame,
        _ => panic!("no frame"),
    };
    for _ in 0..20 {
        publish(&mut producer, b"wxyz");
    }
    assert_eq!((frame.cursor(), frame.bytes(producer.shared())), (1, b"0001".as_slice()));
}

#[test]
fn ordered_delivery_is_complete() {
    let mut producer = create();
    let mut consumer = attach(&mut producer, 1, 10);
    for value in 1..=7u8 {
        publish(&mut producer, &[value]);
    }
    for (start, expected) in [(0, vec![6, 7]), (2, vec![6, 7]), (6, vec![7]), (7, vec![])] {
        let mut after = start;
        let mut seen = Vec::new();
        let mut gaps = Vec::new();
        loop {
            match consumer.acquire_next(producer.pages(), after).unwrap() {
                AcquireOutcome::Frame(frame) => {
                    after = frame.cursor();
                    assert_eq!(frame.bytes(producer.shared()), [after as u8]);
                    seen.push(after);
                    consumer.release(producer.pages(), frame, 0);
                }
                AcquireOutcome::Gap { first, last } => {
                    gaps.push((first, last));
                    after = last;
                }
                AcquireOutcome::Empty => break,
                _ => panic!("delivery was refused"),
            }
        }
        assert_eq!(seen, expected);
        assert_eq!(gaps, if start == 2 { vec![(3, 5)] } else { vec![] });
    }
}

#[test]
fn replacement_keeps_what_is_held() {
    let mut producer = create();
    let mut consumer = attach(&mut producer, 2, 10);
    publish(&mut producer, b"0001");
    let held = latest(&mut producer, &mut consumer);
    assert_eq!(producer.reconfigure_cpu(8, 0).unwrap(), ReconfigurationStatus::Ready { generation: 2 });
    assert!(matches!(
        consumer.acquire_next(producer.pages(), 0).unwrap(),
        AcquireOutcome::Reconfiguration
    ));
    assert_eq!(held.bytes(producer.shared()), b"0001");
    let offer = producer.configuration_offer(consumer.incarnation()).unwrap().unwrap();
    match consumer.install_configuration(producer.pages(), offer) {
        Ok(installed) => assert_eq!(installed, ConfigurationInstall::Installed),
        Err(_) => panic!("the replacement was refused"),
    }
    assert!(matches!(
        consumer.acquire_latest(producer.pages(), 0).unwrap(),
        AcquireOutcome::Empty
    ));
    assert!(matches!(
        consumer.acquire_exact(producer.pages(), 1).unwrap(),
        AcquireOutcome::Miss { cursor: 1 }
    ));
    assert_eq!(publish(&mut producer, b"12345678"), 2);
    let frame = latest(&mut producer, &mut consumer);
    assert_eq!((frame.cursor(), frame.bytes(producer.shared())), (2, b"12345678".as_slice()));
    assert!(matches!(
        consumer.acquire_latest(producer.pages(), 0).unwrap(),
        AcquireOutcome::HoldingLimit
    ));
    assert_eq!(held.bytes(producer.shared()), b"0001");
    assert_eq!(producer.reconfigure_cpu(4, 0).unwrap(), ReconfigurationStatus::Ready { generation: 3 });
}

#[test]
fn pending_replacements_admit_nothing() {
    let config = ArenaConfig {
        resource_capacity: 6,
        retained_history: 2,
        producer_reserve: 1,
        payload_capacity: 4096,
        memory_budget: 100 * 1024,
        max_incarnations: 3,
        drain_timeout: 5_000_000_000,
    };
    let mut producer = Producer::new(config, PAGE, ScopeId { low: 1, high: 1 }, 0).unwrap();
    let mut consumer = attach(&mut producer, 1, 10);
    publish(&mut producer, b"abcd");
    let held = latest(&mut producer, &mut consumer);
    assert!(matches!(
        producer.reconfigure_cpu(12000, 0).unwrap(),
        ReconfigurationStatus::PausedCapacity { .. }
    ));
    assert_eq!(
        producer.publish(0, FrameDescriptor::default(), b"late").unwrap(),
        PublishOutcome::Dropped
    );
    assert_eq!(
        producer.attach(1, Ok(ScopeId { low: 11, high: 2 }), 0).err().unwrap(),
        ArenaError::Admission(AdmissionError::ReconfigurationPending)
    );
    assert_eq!(
        producer.reconfigure_cpu(8, 0).unwrap_err(),
        ArenaError::Admission(AdmissionError::ReconfigurationPending)
    );
    assert_eq!(held.bytes(producer.shared()), b"abcd");
}

fn heard(completed: u64) -> TimelineAnswer {
    TimelineAnswer { completed: Ok(completed), armed: Ok(()) }
}

#[test]
fn answers_decide_what_becomes_of_a_handed_over_slot() {
    let lost = || CaptureTransferError::SharedMemory { operation: "read", message: "device lost".to_string() };
    let mut producer = create();
    let mut consumer = attach(&mut producer, 1, 10);
    let registration = producer.register_release_timeline(consumer.incarnation(), Timeline::default()).unwrap();
    let bound = consumer.bind_release_timeline(producer.shared(), &registration, 1, Timeline::default()).unwrap();
    publish(&mut producer, b"abcd");
    let frame = latest(&mut producer, &mut consumer);
    assert!(consumer.defer_release(producer.pages(), frame, &bound, 3, 0).is_ok());
    let page = producer.pages().claims.get_mut(&1).unwrap();
    assert!(!consumer.answer(page, 0, heard(2)));
    assert_eq!(page.release_pending(0), 1);
    assert_eq!(consumer.question(0).unwrap().arming, None);
    let silent = TimelineAnswer { completed: Err(lost()), armed: Ok(()) };
    assert!(consumer.answer(page, 0, silent));
    assert!(bound.cleanup_failure(&consumer, 0).unwrap().contains("device lost"));
    assert!(!consumer.answer(page, 0, heard(3)));
    assert_eq!(page.release_pending(0), 2);
    assert_eq!(bound.pending_releases(&consumer), 0);
    let mut observation: ObservationState<Timeline> = ObservationState::new(1, false, false, 5_000_000_000);
    observation.register(Timeline::default());
    assert_eq!(
        observation.question(page, 0),
        Some(Question { timeline: 0, value: 3, arming: Some(ReleaseNotification { slot: 0, serial: 1 }) })
    );
    let deaf = TimelineAnswer { completed: Ok(2), armed: Err(lost()) };
    assert!(observation.answer(page, 0, deaf));
    assert!(observation.failure_reason(page).unwrap().contains("device lost"));
    assert_eq!(page.slot(0), 1);
    assert!(!observation.answer(page, 0, heard(2)));
    assert_eq!(page.slot(0), 1);
    assert!(!observation.answer(page, 0, heard(3)));
    assert_eq!(page.slot(0), 0);
    assert_eq!(observation.take_released(), 1);
    assert_eq!(observation.question(page, 0), None);
}

#[test]
fn foreign_consumers_are_rejected() {
    let mut producer = create();
    let mut other = Producer::new(
        ArenaConfig {
            resource_capacity: 8,
            retained_history: 3,
            producer_reserve: 1,
            payload_capacity: 16,
            memory_budget: 1024 * 1024,
            max_incarnations: 3,
            drain_timeout: 5_000_000_000,
        },
        PAGE,
        ScopeId { low: 5, high: 5 },
        0,
    )
    .unwrap();
    let mut own = attach(&mut producer, 1, 10);
    let mut same_identity = attach(&mut other, 3, 20);
    let mut unknown_identity = attach(&mut other, 1, 21);
    let foreign = Err(ArenaError::Configuration("consumer belongs to another producer"));
    assert_eq!(producer.configure_consumer(&mut same_identity), foreign);
    assert_eq!(producer.configure_consumer(&mut unknown_identity), foreign);
    assert_eq!(other.configure_consumer(&mut own), foreign);
    assert_eq!(producer.configure_consumer(&mut own), Ok(None));
    own.close(producer.pages(), 0);
    producer.poll_cleanup(0);
    assert_eq!(producer.configure_consumer(&mut own), foreign, "its page is gone");
}

#[test]
fn a_whole_round_of_frames_overtakes_for_sure() {
    // Six resources and a history of two: the selected frame is safe for two more frames, and
    // the search comes to its resource within the six that follow.
    for claimed_after in 0..=8 {
        let mut producer = create();
        let mut consumer = attach(&mut producer, 1, 10);
        let cursor = publish(&mut producer, b"0001");
        let index = consumer.select(producer.shared(), cursor).unwrap();
        for _ in 0..claimed_after {
            publish(&mut producer, b"wxyz");
        }
        let slot = consumer.claim(producer.pages(), cursor).unwrap();
        for _ in claimed_after..8 {
            publish(&mut producer, b"wxyz");
        }
        let valid = consumer.validate(producer.shared(), cursor, index);
        assert!(!valid);
        assert!(matches!(
            consumer.finish(producer.pages(), cursor, index, slot, valid).unwrap(),
            AcquireOutcome::Miss { cursor: 1 }
        ));
        assert_eq!(latest(&mut producer, &mut consumer).cursor(), 9);
    }
}

#[test]
fn delivery_ends_with_the_epoch_of_returned_credit() {
    for (epoch, expected, closes) in [(u64::MAX - 2, vec![1, 2], false), (u64::MAX - 1, vec![1, 2], true), (u64::MAX, vec![1], true)] {
        let mut producer = create();
        let mut consumer = attach(&mut producer, 1, 10);
        publish(&mut producer, b"0001");
        publish(&mut producer, b"0002");
        let mut words = producer.shared().claims[&1].words().clone();
        words[CAPACITY_EPOCH] = epoch;
        let page = match ClaimMap::map(words, consumer.incarnation(), 1, 0) {
            Ok(page) => page,
            Err(error) => panic!("{}", error.message()),
        };
        producer.pages().claims.insert(1, page);
        let mut seen = Vec::new();
        loop {
            match consumer.acquire_next(producer.pages(), seen.last().copied().unwrap_or(0)).unwrap() {
                AcquireOutcome::Frame(frame) => {
                    seen.push(frame.cursor());
                    consumer.release(producer.pages(), frame, 0);
                }
                AcquireOutcome::Empty => {
                    assert!(!closes);
                    break;
                }
                AcquireOutcome::Closed => {
                    assert!(closes);
                    break;
                }
                _ => panic!("delivery was refused"),
            }
        }
        assert_eq!(seen, expected);
    }
}
