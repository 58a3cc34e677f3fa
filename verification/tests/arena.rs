use jackstay::acquisition::arena::claims::ClaimMap;
use jackstay::acquisition::arena::cleanup::{ReleaseNotification, ReleaseTimeline};
use jackstay::acquisition::arena::consumer::waiting::Cancellation;
use jackstay::acquisition::arena::consumer::{AcquireOutcome, ArenaConsumer};
use jackstay::acquisition::arena::producer::ArenaProducer;
use jackstay::acquisition::arena::wait::{WaitInterest, WaitOutcome};
use jackstay::acquisition::arena::{ArenaConfig, ArenaError, FrameDescriptor, PublishOutcome, ScopeId};
use jackstay::error::CaptureTransferError;

const SECOND: u128 = 1_000_000_000;
const PAGE: i64 = 4096;

/// No timeline is registered in these tests.
struct NoTimeline;

impl ReleaseTimeline for NoTimeline {
    fn completed_value(&self) -> Result<u64, CaptureTransferError> {
        Ok(0)
    }

    fn notify_at(&self, _value: u64, _notification: ReleaseNotification) -> Result<(), CaptureTransferError> {
        Ok(())
    }
}

type Producer = ArenaProducer<NoTimeline>;
type Consumer = ArenaConsumer<NoTimeline>;

fn scope(low: u64) -> ScopeId {
    ScopeId { low, high: 9 }
}

fn config() -> ArenaConfig {
    ArenaConfig {
        resource_capacity: 5,
        retained_history: 2,
        producer_reserve: 1,
        payload_capacity: 4,
        memory_budget: 1024 * 1024,
        max_incarnations: 2,
        drain_timeout: 5 * SECOND,
    }
}

fn create(config: ArenaConfig) -> Producer {
    Producer::new(config, PAGE, scope(1), 0).unwrap()
}

fn attach(producer: &mut Producer, holding: u32) -> Consumer {
    let grant = match producer.attach(holding, Ok(scope(2)), 0) {
        Ok(grant) => grant,
        Err(error) => panic!("{}", error.message()),
    };
    match Consumer::from_grant(grant, producer.pages(), PAGE) {
        Ok(consumer) => consumer,
        Err(error) => panic!("{}", error.message()),
    }
}

fn page<'a>(producer: &'a Producer, consumer: &Consumer) -> &'a ClaimMap {
    producer.shared().claims.get(&consumer.incarnation().0).unwrap()
}

#[derive(Clone, Copy, PartialEq, Eq)]
enum Phase {
    Selected,
    Claimed,
    Validated,
}

fn publish_many(producer: &mut Producer) {
    for sequence in 2..=20 {
        assert!(matches!(
            producer
                .publish(0, FrameDescriptor { sequence, ..FrameDescriptor::default() }, b"wxyz")
                .unwrap(),
            PublishOutcome::Published { .. }
        ));
    }
}

#[test]
fn publication_between_selection_claim_and_validation_never_reads_reused_bytes() {
    for phase in [Phase::Selected, Phase::Claimed, Phase::Validated] {
        let mut producer = create(config());
        let mut consumer = attach(&mut producer, 1);
        producer.publish(0, FrameDescriptor::default(), b"abcd").unwrap();
        let cursor = producer.shared().control.latest();
        let index = consumer.select(producer.shared(), cursor).unwrap();
        if phase == Phase::Selected {
            publish_many(&mut producer);
        }
        let slot = consumer.claim(producer.pages(), cursor).unwrap();
        if phase == Phase::Claimed {
            publish_many(&mut producer);
        }
        let valid = consumer.validate(producer.shared(), cursor, index);
        if phase == Phase::Validated {
            publish_many(&mut producer);
        }
        match (phase, consumer.finish(producer.pages(), cursor, index, slot, valid).unwrap()) {
            (Phase::Selected | Phase::Claimed, AcquireOutcome::Miss { cursor: 1 }) => {}
            (Phase::Validated, AcquireOutcome::Frame(frame)) => {
                assert_eq!(frame.bytes(producer.shared()), b"abcd");
                consumer.release(producer.pages(), frame, 0);
            }
            _ => panic!("unexpected raced acquisition"),
        }
        // Failed provisional claims and finished leases both return credit.
        let AcquireOutcome::Frame(latest) = consumer.acquire_latest(producer.pages(), 1).unwrap() else {
            panic!("claim credit leaked")
        };
        assert_eq!(latest.descriptor().sequence, 20);
        assert_eq!(latest.bytes(producer.shared()), b"wxyz");
    }
}

#[test]
fn closing_after_claim_publication_prevents_success_without_revoking_an_old_lease() {
    let mut producer = create(config());
    let mut consumer = attach(&mut producer, 2);
    producer.publish(0, FrameDescriptor::default(), b"abcd").unwrap();
    let AcquireOutcome::Frame(held) = consumer.acquire_latest(producer.pages(), 0).unwrap() else {
        panic!("missing first lease")
    };
    let cursor = producer.shared().control.latest();
    let index = consumer.select(producer.shared(), cursor).unwrap();
    let slot = consumer.claim(producer.pages(), cursor).unwrap();
    producer.close(consumer.incarnation()).unwrap();
    let valid = consumer.validate(producer.shared(), cursor, index);
    assert!(matches!(
        consumer.finish(producer.pages(), cursor, index, slot, valid).unwrap(),
        AcquireOutcome::Closed
    ));
    for _ in 0..20 {
        producer.publish(0, FrameDescriptor::default(), b"wxyz").unwrap();
    }
    assert_eq!(held.bytes(producer.shared()), b"abcd");
}

#[test]
fn data_release_closure_and_cancellation_cannot_be_lost_after_the_final_wait_recheck() {
    for event in 0..4 {
        let mut producer = create(config());
        let mut consumer = attach(&mut producer, 1);
        producer.publish(0, FrameDescriptor::default(), b"abcd").unwrap();
        let AcquireOutcome::Frame(held) = consumer.acquire_latest(producer.pages(), 0).unwrap() else {
            panic!("no frame")
        };
        let observed = consumer.events(producer.shared());
        let mut cancel = Cancellation::new();
        let interest = match event {
            0 => WaitInterest::data(),
            1 => WaitInterest::capacity(),
            _ => WaitInterest::all(),
        };
        let wait = consumer.begin_wait(producer.pages(), observed, interest, Some(2 * SECOND), 0).unwrap();
        // The final look before sleeping sees nothing.
        assert!(consumer.continue_wait(producer.pages(), &wait, &cancel, 0).is_none());
        match event {
            0 => {
                producer.publish(0, FrameDescriptor::default(), b"wxyz").unwrap();
            }
            1 => {}
            2 => producer.close(consumer.incarnation()).unwrap(),
            3 => cancel.cancel(),
            _ => unreachable!(),
        }
        consumer.release(producer.pages(), held, 0);
        // The sleeper is woken: by its own channel, or by the cancellation's.
        assert!(page(&producer, &consumer).wake_pending() || cancel.is_cancelled());
        let outcome = consumer.continue_wait(producer.pages(), &wait, &cancel, 0).unwrap();
        match (event, outcome) {
            (0, WaitOutcome::Changed(events)) => assert_eq!(events.data_cursor, 2),
            (1, WaitOutcome::Changed(events)) => assert_eq!(events.capacity_epoch, 1),
            (2, WaitOutcome::Changed(events)) => assert!(events.closed),
            (3, WaitOutcome::Cancelled) => {}
            (_, result) => panic!("lost wakeup: {result:?}"),
        }
    }
}

#[test]
fn exhausted_reconfiguration_epochs_close_waiters_without_revoking_frames() {
    // A replacement signals both retirement and installation. Exercise exhaustion at each
    // boundary, without executing 2^64 transitions.
    for epoch in [u64::MAX, u64::MAX - 1] {
        let mut producer = create(ArenaConfig {
            resource_capacity: 6,
            retained_history: 2,
            producer_reserve: 1,
            max_incarnations: 1,
            payload_capacity: 4,
            memory_budget: 1024 * 1024,
            drain_timeout: 5 * SECOND,
        });
        let mut consumer = attach(&mut producer, 1);
        producer.publish(0, FrameDescriptor::default(), b"held").unwrap();
        let AcquireOutcome::Frame(held) = consumer.acquire_latest(producer.pages(), 0).unwrap() else {
            panic!("missing frame")
        };
        producer.pages().control.set_epoch(epoch);
        let observed = consumer.events(producer.shared());
        assert!(matches!(producer.reconfigure_cpu(8, 0), Err(ArenaError::GenerationsExhausted)));
        assert_eq!(consumer.events(producer.shared()).reconfiguration_epoch, u64::MAX, "epoch wrapped");
        assert!(matches!(
            consumer.acquire_latest(producer.pages(), 0).unwrap(),
            AcquireOutcome::Closed
        ));
        assert!(matches!(producer.attach(1, Ok(scope(3)), 0), Err(ArenaError::Closed)));
        assert!(matches!(
            producer.publish(0, FrameDescriptor::default(), b"late"),
            Err(ArenaError::Closed)
        ));
        let cancel = Cancellation::new();
        let wait = consumer
            .begin_wait(producer.pages(), observed, WaitInterest::all(), Some(SECOND), 0)
            .unwrap();
        assert!(matches!(
            consumer.continue_wait(producer.pages(), &wait, &cancel, 0),
            Some(WaitOutcome::Changed(events)) if events.closed
        ));
        assert_eq!(held.bytes(producer.shared()), b"held");
        consumer.close(producer.pages(), 0);
        assert!(!producer.poll_shutdown_ready(0));
        consumer.release(producer.pages(), held, 0);
        assert!(producer.poll_shutdown_ready(0));
    }
}
