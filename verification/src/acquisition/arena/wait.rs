//! Waiting for a change without losing one.

use super::claims::{ClaimPage, CAPACITY, CLOSED, DATA, RECONFIGURATION};
use super::mapping::ControlPage;
use vstd::prelude::*;

verus! {

/// Snapshot BEFORE checking the acquisition predicate, then wait on it if acquisition
/// reports no usable result. Epochs are notifications, not leases.
#[derive(Debug, Clone, Copy, PartialEq, Eq, Structural)]
pub struct WaitEvents {
    pub data_cursor: u64,
    pub capacity_epoch: u64,
    pub reconfiguration_epoch: u64,
    pub closed: bool,
}

/// What a waiter wants to hear of, beside closure and reconfiguration.
#[derive(Debug, Clone, Copy, PartialEq, Eq, Structural)]
pub struct WaitInterest(pub u64);

#[derive(Debug, Clone, Copy, PartialEq, Eq, Structural)]
pub enum WaitOutcome {
    Changed(WaitEvents),
    Cancelled,
    TimedOut,
}

/// The snapshot that the pages give.
pub open spec fn snapshot(control: ControlPage, page: ClaimPage) -> WaitEvents {
    WaitEvents {
        data_cursor: control.latest,
        capacity_epoch: page.capacity_epoch,
        reconfiguration_epoch: control.epoch,
        closed: page.active == 0 || control.terminal != 0,
    }
}

impl WaitInterest {
    /// New frames.
    pub fn data() -> (result: Self)
        ensures
            result.0 == 1,
    {
        WaitInterest(1)
    }

    /// Slots that come back.
    pub fn capacity() -> (result: Self)
        ensures
            result.0 == 2,
    {
        WaitInterest(2)
    }

    /// Replaced storage.
    pub fn reconfiguration() -> (result: Self)
        ensures
            result.0 == 4,
    {
        WaitInterest(4)
    }

    /// Everything.
    pub fn all() -> (result: Self)
        ensures
            result.0 == 7,
    {
        WaitInterest(7)
    }

    /// Whether the difference between two snapshots ends the wait.
    pub open spec fn sees(self, before: WaitEvents, after: WaitEvents) -> bool {
        ||| after.closed
        ||| before.reconfiguration_epoch != after.reconfiguration_epoch
        ||| self.0 & DATA != 0 && before.data_cursor != after.data_cursor
        ||| self.0 & CAPACITY != 0 && before.capacity_epoch != after.capacity_epoch
    }

    /// Whether the difference between two snapshots ends the wait.
    pub fn changed(self, before: WaitEvents, after: WaitEvents) -> (result: bool)
        ensures
            result == self.sees(before, after),
    {
        after.closed || before.reconfiguration_epoch != after.reconfiguration_epoch || (self.0 & DATA
            != 0 && before.data_cursor != after.data_cursor) || (self.0 & CAPACITY != 0
            && before.capacity_epoch != after.capacity_epoch)
    }

    /// The interest word of an armed waiter.
    pub open spec fn spec_armed(self) -> u64 {
        self.0 | CLOSED | RECONFIGURATION
    }

    /// The interest word of an armed waiter: closure and reconfiguration always count.
    pub fn armed(self) -> (result: u64)
        ensures
            result == self.spec_armed(),
    {
        self.0 | CLOSED | RECONFIGURATION
    }
}

/// What a waiter does after it has looked: end the wait, or sleep until a wake comes.
pub open spec fn wait_verdict(
    cancelled: bool,
    observed: WaitEvents,
    current: WaitEvents,
    interest: WaitInterest,
    expired: bool,
) -> Option<WaitOutcome> {
    if cancelled {
        Some(WaitOutcome::Cancelled)
    } else if interest.sees(observed, current) {
        Some(WaitOutcome::Changed(current))
    } else if expired {
        Some(WaitOutcome::TimedOut)
    } else {
        None
    }
}

/// Decides what a waiter does after it has looked. Cancellation wins over an event, and an
/// event over the deadline.
pub fn check(
    cancelled: bool,
    observed: WaitEvents,
    current: WaitEvents,
    interest: WaitInterest,
    expired: bool,
) -> (result: Option<WaitOutcome>)
    ensures
        result == wait_verdict(cancelled, observed, current, interest, expired),
{
    if cancelled {
        return Some(WaitOutcome::Cancelled);
    }
    if interest.changed(observed, current) {
        return Some(WaitOutcome::Changed(current));
    }
    if expired {
        return Some(WaitOutcome::TimedOut);
    }
    None
}

/// Nanoseconds of one millisecond.
pub const MILLISECOND: u128 = 1_000_000;

/// The time that is left until a deadline, in whole milliseconds and rounded up so that a
/// sleep never ends early; at most the longest sleep, or -1 for one without end.
pub open spec fn sleep_milliseconds(deadline: Option<u128>, now: u128) -> int {
    match deadline {
        None => -1,
        Some(deadline) => {
            let left = if deadline > now {
                deadline - now
            } else {
                0
            };
            let rounded = (left + 999_999) / 1_000_000;
            if rounded > i32::MAX {
                i32::MAX as int
            } else {
                rounded
            }
        },
    }
}

/// How long to sleep until a deadline, in milliseconds.
pub fn milliseconds(deadline: Option<u128>, now: u128) -> (result: i32)
    ensures
        result == sleep_milliseconds(deadline, now),
{
    match deadline {
        None => -1,
        Some(deadline) => {
            let left: u128 = if deadline > now {
                deadline - now
            } else {
                0
            };
            let whole: u128 = left / MILLISECOND;
            let rounded: u128 = if left % MILLISECOND != 0 {
                whole + 1
            } else {
                whole
            };
            assert(rounded == (left + 999_999) / 1_000_000);
            if rounded > i32::MAX as u128 {
                i32::MAX
            } else {
                rounded as i32
            }
        },
    }
}

/// Where a waiter stands.
pub enum Waiter {
    Away,
    /// The interest word is set.
    Armed { interest: WaitInterest, observed: WaitEvents },
    /// It has looked after arming, and saw nothing new; it sleeps, or is about to.
    Asleep { interest: WaitInterest, observed: WaitEvents },
}

/// The pages that a waiter and its wakers share. `owed` are interest bits of changes that
/// have been made and whose makers have not looked at the interest word yet.
pub struct Scene {
    pub control: ControlPage,
    pub page: ClaimPage,
    pub waiter: Waiter,
    pub owed: Set<u64>,
}

/// One step of a waiter or a waker.
pub enum Move {
    Arm { interest: WaitInterest, observed: WaitEvents },
    /// Takes the wakes that have come.
    Drain,
    /// Looks, and falls asleep if nothing changed.
    Look,
    Disarm,
    /// The newest cursor changes; a wake for data is owed.
    Publish { cursor: u64 },
    /// Capacity comes back; a wake for capacity is owed.
    Credit { epoch: u64 },
    /// The configuration changes; a wake for reconfiguration is owed.
    Reconfigure { epoch: u64 },
    /// The incarnation closes; a wake for closure is owed.
    Close,
    /// The maker of a change looks at the interest word and wakes whoever waits for it.
    Signal { bit: u64 },
}

impl Scene {
    pub open spec fn events(self) -> WaitEvents {
        snapshot(self.control, self.page)
    }

    pub open spec fn next(self, step: Move) -> Option<Scene> {
        match step {
            Move::Arm { interest, observed } => {
                if self.waiter is Away {
                    Some(
                        Scene {
                            page: ClaimPage { wait_interest: interest.spec_armed(), ..self.page },
                            waiter: Waiter::Armed { interest, observed },
                            ..self
                        },
                    )
                } else {
                    None
                }
            },
            Move::Drain => match self.waiter {
                Waiter::Armed { interest, observed } => Some(
                    Scene { page: ClaimPage { wake: false, ..self.page }, ..self },
                ),
                _ => None,
            },
            Move::Look => match self.waiter {
                Waiter::Armed { interest, observed } => {
                    if interest.sees(observed, self.events()) {
                        None
                    } else {
                        Some(Scene { waiter: Waiter::Asleep { interest, observed }, ..self })
                    }
                },
                _ => None,
            },
            Move::Disarm => Some(
                Scene {
                    page: ClaimPage { wait_interest: 0, ..self.page },
                    waiter: Waiter::Away,
                    ..self
                },
            ),
            Move::Publish { cursor } => Some(
                Scene {
                    control: ControlPage { latest: cursor, ..self.control },
                    owed: self.owed.insert(DATA),
                    ..self
                },
            ),
            Move::Credit { epoch } => Some(
                Scene {
                    page: ClaimPage { capacity_epoch: epoch, ..self.page },
                    owed: self.owed.insert(CAPACITY),
                    ..self
                },
            ),
            Move::Reconfigure { epoch } => Some(
                Scene {
                    control: ControlPage { epoch, ..self.control },
                    owed: self.owed.insert(RECONFIGURATION),
                    ..self
                },
            ),
            Move::Close => Some(
                Scene {
                    page: ClaimPage { active: 0, ..self.page },
                    owed: self.owed.insert(CLOSED),
                    ..self
                },
            ),
            Move::Signal { bit } => {
                if self.owed.contains(bit) {
                    Some(
                        Scene {
                            page: self.page.signalled(bit),
                            owed: self.owed.remove(bit),
                            ..self
                        },
                    )
                } else {
                    None
                }
            },
        }
    }

    /// An armed waiter's interest word is set; and if something that a sleeping waiter wants
    /// to hear of has changed, a wake has come or its sender is still on the way.
    pub open spec fn inv(self) -> bool {
        match self.waiter {
            Waiter::Away => true,
            Waiter::Armed { interest, observed } => self.page.wait_interest
                == interest.spec_armed(),
            Waiter::Asleep { interest, observed } => {
                &&& self.page.wait_interest == interest.spec_armed()
                &&& interest.sees(observed, self.events()) ==> self.page.wake || exists|bit: u64|
                    #[trigger] self.owed.contains(bit) && interest.spec_armed() & bit != 0
            },
        }
    }
}

/// A waiter that is armed hears of every change that ends its wait.
proof fn lemma_armed_bits(interest: u64)
    ensures
        (interest | CLOSED | RECONFIGURATION) & CLOSED != 0,
        (interest | CLOSED | RECONFIGURATION) & RECONFIGURATION != 0,
        interest & DATA != 0 ==> (interest | CLOSED | RECONFIGURATION) & DATA != 0,
        interest & CAPACITY != 0 ==> (interest | CLOSED | RECONFIGURATION) & CAPACITY != 0,
{
    assert((interest | 8 | 4) & 8 != 0) by (bit_vector);
    assert((interest | 8 | 4) & 4 != 0) by (bit_vector);
    assert(interest & 1 != 0 ==> (interest | 8 | 4) & 1 != 0) by (bit_vector);
    assert(interest & 2 != 0 ==> (interest | 8 | 4) & 2 != 0) by (bit_vector);
}

/// Every step keeps the invariant.
pub proof fn moves_keep_the_invariant(scene: Scene, step: Move)
    requires
        scene.inv(),
        scene.next(step) is Some,
    ensures
        (scene.next(step)->0).inv(),
{
    let after = scene.next(step)->0;
    match scene.waiter {
        Waiter::Asleep { interest, observed } => {
            lemma_armed_bits(interest.0);
            match step {
                Move::Publish { .. } => {
                    assert(after.owed.contains(DATA));
                    if !(interest.sees(observed, scene.events())) {
                    } else if !scene.page.wake {
                        let bit = choose|bit: u64| #[trigger]
                            scene.owed.contains(bit) && interest.spec_armed() & bit != 0;
                        assert(after.owed.contains(bit));
                    }
                },
                Move::Credit { .. } => {
                    assert(after.owed.contains(CAPACITY));
                    if interest.sees(observed, scene.events()) && !scene.page.wake {
                        let bit = choose|bit: u64| #[trigger]
                            scene.owed.contains(bit) && interest.spec_armed() & bit != 0;
                        assert(after.owed.contains(bit));
                    }
                },
                Move::Reconfigure { .. } => {
                    assert(after.owed.contains(RECONFIGURATION));
                },
                Move::Close => {
                    assert(after.owed.contains(CLOSED));
                },
                Move::Signal { bit } => {
                    if interest.spec_armed() & bit == 0 && interest.sees(observed, scene.events())
                        && !scene.page.wake {
                        let other = choose|b: u64| #[trigger]
                            scene.owed.contains(b) && interest.spec_armed() & b != 0;
                        assert(after.owed.contains(other));
                    }
                },
                _ => {},
            }
        },
        _ => {},
    }
}

/// No wake is lost: when all changes have been signalled, a sleeping waiter has a wake
/// whenever something changed that ends its wait, in whatever order the steps came.
pub proof fn no_wakeup_is_lost(scenes: Seq<Scene>, steps: Seq<Move>, at: int)
    requires
        scenes.len() == steps.len() + 1,
        forall|i: int|
            0 <= i < steps.len() ==> #[trigger] scenes[i].next(steps[i]) == Some(scenes[i + 1]),
        scenes[0].inv(),
        0 <= at <= steps.len(),
    ensures
        scenes[at].inv(),
        scenes[at].waiter matches Waiter::Asleep { interest, observed } ==> (scenes[at].owed
            == Set::<u64>::empty() && interest.sees(observed, scenes[at].events())
            ==> scenes[at].page.wake),
    decreases at,
{
    if at > 0 {
        no_wakeup_is_lost(scenes, steps, at - 1);
        assert(scenes[at - 1].next(steps[at - 1]) == Some(scenes[at]));
        moves_keep_the_invariant(scenes[at - 1], steps[at - 1]);
    }
}

} // verus!
