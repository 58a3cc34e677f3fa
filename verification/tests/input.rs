use jackstay::input::binary64::Binary64;
use jackstay::input::client::{Client, ConnectError, Connecting, Connection, Driver};
use jackstay::input::framing::{Framed, WireError, MAX_FRAME};
use jackstay::input::model::{
    Action, Config, Error, Event, Geometry, Key, Mode, Operation, Outcome, Position, Reason, Scope, ScrollUnit, Status,
};
use jackstay::input::service::{Phase, Service};
use jackstay::input::session::{Controller, Target};
use jackstay::input::validation::validate;
use jackstay::input::wire::{Action as Step, Answer, Fault, Welcome, Wire};

const SECOND: u128 = 1_000_000_000;

fn bits(value: f64) -> Binary64 {
    Binary64 { bits: value.to_bits() }
}

fn config() -> Config {
    Config::default()
}

fn at(x: f64, y: f64) -> Position {
    Position { revision: 1, x: bits(x), y: bits(y) }
}

fn key(press: u64, action: Action, name: &str) -> Event {
    Event::Key { press, action, key: Key::Physical(name.to_string()), modifiers: 0 }
}

fn held(config: Config) -> (Target, Controller) {
    let mut target = Target::new(config).unwrap();
    let controller = match target.admit_controller(Mode::Cooperative, 0) {
        Ok(controller) => controller,
        Err(error) => panic!("{error:?}"),
    };
    (target, controller)
}

fn welcome() -> Welcome {
    Welcome { version: 1, mode: Mode::Cooperative, controller: 1, epoch: 1, config: config() }
}

#[test]
fn close_ack_is_read_when_heartbeat_is_due_and_peer_has_closed() {
    let closed = Status::Closed { reason: Reason::Disconnect, clean: true };
    // The close has been flushed, and the peer's final acknowledgement is readable, but any
    // further write would fail.
    let now = 10 * SECOND;
    let mut client = Client::new(welcome());
    client.close();
    let mut driver = Driver::new(&welcome(), now - 2 * SECOND, now);
    let mut wrote = Vec::new();
    let mut answer = Answer::Done { queued: 0 };
    let mut replies = vec![Wire::Reply(closed)];
    loop {
        match driver.resume(&mut client, now, false, answer) {
            Step::Send(message) => {
                wrote.push(message);
                answer = Answer::Done { queued: 16 };
            }
            Step::Flush => answer = Answer::Flushed { queued: 0 },
            Step::Receive => answer = Answer::Message(replies.pop()),
            Step::Finish => break,
            _ => panic!("the acknowledgement was lost"),
        }
    }
    assert_eq!(wrote, vec![Wire::Close]);
    assert!(!client.alive());
    assert_eq!(client.poll(), Some(closed));
    assert_eq!(client.poll(), None);
}

#[test]
fn submitted_events_are_executed_and_answered() {
    let (mut target, controller) = held(config());
    assert_eq!(controller.submit(&mut target, 0, 1, 1, Event::Motion(at(10.0, 20.0))), Ok(()));
    let work = target.next(0).unwrap();
    assert_eq!(work.sequence, 1);
    assert_eq!(work.operation, Operation::Event(Event::Motion(at(10.0, 20.0))));
    assert!(target.next(0).is_none(), "only one item may be in flight");
    assert_eq!(target.complete(work.id, Outcome::Executed), Ok(()));
    assert_eq!(
        controller.poll(&mut target),
        Some(Status::Completed { sequence: 1, outcome: Outcome::Executed })
    );
    assert_eq!(controller.poll(&mut target), None);
}

#[test]
fn sequences_count_once_and_epochs_are_checked() {
    let (mut target, controller) = held(config());
    let motion = Event::Motion(at(1.0, 1.0));
    assert_eq!(controller.submit(&mut target, 0, 1, 5, motion.clone()), Ok(()));
    assert_eq!(controller.submit(&mut target, 0, 1, 5, motion.clone()), Err(Error::Invalid));
    assert_eq!(controller.submit(&mut target, 0, 2, 6, motion), Err(Error::Stale));
}

#[test]
fn targets_have_one_holder() {
    let (mut target, controller) = held(config());
    assert!(matches!(target.admit_controller(Mode::Cooperative, 0), Err(Error::Busy)));
    assert!(matches!(target.admit_controller(Mode::Physical, 0), Err(Error::Unsupported | Error::Busy)));
    controller.close(&mut target);
    let cleanup = target.next(0).unwrap();
    assert!(matches!(
        cleanup.operation,
        Operation::Cleanup { scope: Scope::All, reason: Reason::Disconnect }
    ));
    assert_eq!(target.complete(cleanup.id, Outcome::Executed), Ok(()));
    assert_eq!(
        controller.poll(&mut target),
        Some(Status::Closed { reason: Reason::Disconnect, clean: true })
    );
    assert!(target.idle());
    assert!(target.admit_controller(Mode::Cooperative, 0).is_ok());
}

#[test]
fn failed_cleanup_closes_the_target_until_it_is_resolved() {
    let (mut target, controller) = held(config());
    controller.close(&mut target);
    let cleanup = target.next(0).unwrap();
    assert_eq!(target.complete(cleanup.id, Outcome::Rejected), Err(Error::CleanupFailed));
    assert!(target.failed());
    assert!(matches!(target.admit_controller(Mode::Cooperative, 0), Err(Error::CleanupFailed)));
    assert_eq!(target.resolve_failed_cleanup(), Ok(()));
    assert!(target.admit_controller(Mode::Cooperative, 0).is_ok());
}

#[test]
fn silent_controllers_expire() {
    let (mut target, controller) = held(config());
    target.tick(5 * SECOND);
    let cleanup = target.next(5 * SECOND).unwrap();
    assert!(matches!(
        cleanup.operation,
        Operation::Cleanup { scope: Scope::All, reason: Reason::Expired }
    ));
    assert_eq!(target.complete(cleanup.id, Outcome::Executed), Ok(()));
    assert_eq!(controller.heartbeat(&mut target, 5 * SECOND), Err(Error::Closed));
}

#[test]
fn new_geometry_makes_old_positions_stale() {
    let (mut target, controller) = held(config());
    let geometry = Geometry { revision: 2, width: bits(100.0), height: bits(50.0) };
    assert_eq!(target.set_geometry(geometry), Ok(()));
    assert_eq!(
        controller.submit(&mut target, 0, 1, 1, Event::Motion(at(1.0, 1.0))),
        Err(Error::Busy)
    );
    let cleanup = target.next(0).unwrap();
    assert!(matches!(
        cleanup.operation,
        Operation::Cleanup { scope: Scope::Pointer, reason: Reason::Geometry }
    ));
    assert_eq!(target.complete(cleanup.id, Outcome::Executed), Ok(()));
    assert_eq!(controller.poll(&mut target), Some(Status::Reset { epoch: 2, geometry }));
    assert_eq!(
        controller.submit(&mut target, 0, 2, 2, Event::Motion(at(1.0, 1.0))),
        Err(Error::Stale)
    );
    assert_eq!(
        target.set_geometry(Geometry { revision: 3, width: bits(f64::NAN), height: bits(1.0) }),
        Err(Error::Invalid)
    );
}

#[test]
fn events_are_validated() {
    let config = config();
    let check = |event: Event| validate(&config, Mode::Cooperative, &event);
    assert_eq!(check(Event::Motion(at(0.0, 0.0))), Ok(()));
    assert_eq!(check(Event::Motion(at(f64::INFINITY, 0.0))), Err(Error::Invalid));
    assert_eq!(check(Event::Motion(at(-1.0, 0.0))), Err(Error::Invalid));
    assert_eq!(check(Event::Text(String::new())), Err(Error::Invalid));
    assert_eq!(check(Event::Text("é".to_string())), Ok(()));
    assert_eq!(check(key(0, Action::Down, "KeyA")), Err(Error::Invalid));
    assert_eq!(check(key(1, Action::Down, "KeyA")), Ok(()));
    assert_eq!(
        check(Event::Scroll { x: bits(f64::NAN), y: bits(0.0), unit: ScrollUnit::Line, position: at(1.0, 1.0) }),
        Err(Error::Invalid)
    );
}

#[test]
fn coordinates_compare_as_numbers() {
    assert!(bits(-0.0).reaches(bits(0.0)));
    assert!(!bits(-0.0).below(bits(0.0)));
    assert!(bits(-1.5).below(bits(-1.0)));
    assert!(bits(1.0).below(bits(f64::INFINITY)));
    assert!(!bits(f64::NAN).below(bits(1.0)) && !bits(f64::NAN).reaches(bits(1.0)));
    assert!(!bits(f64::INFINITY).is_finite() && bits(f64::MAX).is_finite());
}

#[test]
fn frames_come_out_as_they_went_in() {
    let mut near = Framed::new();
    near.send(b"first").unwrap();
    near.send(b"second").unwrap();
    let mut far = Framed::new();
    while let Some(bytes) = near.unsent() {
        // One byte at a time.
        let part = [bytes[0]];
        far.feed(&part);
        near.wrote(1).unwrap();
    }
    assert!(near.drained());
    assert_eq!(far.receive().unwrap().unwrap(), b"first");
    assert_eq!(far.receive().unwrap().unwrap(), b"second");
    assert_eq!(far.receive().unwrap(), None);
}

#[test]
fn frames_are_bounded() {
    let mut near = Framed::new();
    assert_eq!(near.send(&vec![0; MAX_FRAME + 1]), Err(WireError::BoundExceeded));
    let mut far = Framed::new();
    far.feed(&[0, 0, 0, 0]);
    assert_eq!(far.receive(), Err(WireError::InvalidSize));
}

#[test]
fn clients_connect_over_their_first_exchange() {
    let mut connecting = Connecting::new(Mode::Cooperative, 0);
    assert!(matches!(
        connecting.resume(0, Answer::Done { queued: 0 }),
        Connection::Needs(Step::Send(Wire::Hello { version: 1, mode: Mode::Cooperative }))
    ));
    assert!(matches!(connecting.resume(0, Answer::Done { queued: 9 }), Connection::Needs(Step::Flush)));
    assert!(matches!(connecting.resume(0, Answer::Flushed { queued: 0 }), Connection::Needs(Step::Receive)));
    match connecting.resume(0, Answer::Message(Some(Wire::Welcome(welcome())))) {
        Connection::Ready(offer) => assert_eq!(offer, welcome()),
        _ => panic!("not welcomed"),
    }
}

#[test]
fn clients_learn_why_they_are_refused() {
    for (reply, expected) in [
        (Some(Wire::Reject(Error::Busy)), ConnectError::Admission(Error::Busy)),
        (Some(Wire::Heartbeat), ConnectError::Transport(Fault::InvalidWelcome)),
        (None, ConnectError::Transport(Fault::TimedOut)),
        (
            Some(Wire::Welcome(Welcome { config: Config { max_events: 0, ..config() }, ..welcome() })),
            ConnectError::Transport(Fault::InvalidOffer),
        ),
    ] {
        let mut connecting = Connecting::new(Mode::Cooperative, 0);
        connecting.resume(0, Answer::Done { queued: 0 });
        connecting.resume(0, Answer::Done { queued: 9 });
        connecting.resume(0, Answer::Flushed { queued: 0 });
        match connecting.resume(5 * SECOND, Answer::Message(reply)) {
            Connection::Refused(error) => assert_eq!(error, expected),
            _ => panic!("not refused"),
        }
    }
}

#[test]
fn services_welcome_a_controller_and_pass_its_events_on() {
    let mut target = Target::new(config()).unwrap();
    let mut service = Service::new(0);
    assert!(matches!(service.resume(&mut target, 0, false, Answer::Done { queued: 0 }), Step::Receive));
    let hello = Wire::Hello { version: 1, mode: Mode::Cooperative };
    match service.resume(&mut target, 0, false, Answer::Message(Some(hello))) {
        Step::Send(Wire::Welcome(offer)) => assert_eq!(offer.epoch, 1),
        _ => panic!("not welcomed"),
    }
    assert!(matches!(service.resume(&mut target, 0, false, Answer::Done { queued: 40 }), Step::Receive));
    let submit = Wire::Submit { epoch: 1, sequence: 1, event: Event::Motion(at(3.0, 4.0)) };
    service.resume(&mut target, 0, false, Answer::Message(Some(submit)));
    let work = target.next(0).unwrap();
    assert_eq!(work.operation, Operation::Event(Event::Motion(at(3.0, 4.0))));
    service.abandon(&mut target);
    assert_eq!(service.phase(), Phase::Ended);
}

#[test]
fn services_refuse_strangers() {
    let mut target = Target::new(config()).unwrap();
    let mut service = Service::new(0);
    service.resume(&mut target, 0, false, Answer::Done { queued: 0 });
    match service.resume(&mut target, 0, false, Answer::Message(Some(Wire::Heartbeat))) {
        Step::Fail(fault) => {
            assert_eq!(fault, Fault::ExpectedHello);
            assert_eq!(fault.message(), "expected input hello");
        }
        _ => panic!("a stranger was taken"),
    }
}

#[test]
fn clients_bound_what_waits() {
    let mut offer = welcome();
    offer.config.max_events = 1;
    let mut client = Client::new(offer);
    assert_eq!(client.send(Event::Motion(at(1.0, 1.0))), Ok(1));
    assert_eq!(client.send(Event::Motion(at(1.0, 1.0))), Err(Error::Overflow));
    assert_eq!(client.send(Event::Motion(at(1.0, 1.0))), Err(Error::Closed));

    let mut client = Client::new(welcome());
    assert_eq!(client.reset(), Ok(()));
    assert_eq!(client.send(Event::Motion(at(1.0, 1.0))), Err(Error::Busy));
}
