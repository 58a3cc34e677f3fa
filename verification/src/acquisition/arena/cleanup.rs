//! The producer's observation of one incarnation: closure, process exit and the completion
//! of deferred releases.

use super::claims::{ClaimMap, ClaimPage};
use crate::acquisition::IncarnationId;
use crate::error::CaptureTransferError;
use crate::text::{decimal, decimal_text};
use vstd::prelude::*;

verus! {

/// Access to a registered completion timeline. Returning a value asserts that the
/// corresponding consumer work has completed, not merely been submitted. Producer and
/// consumer owners each retain a handle through draining, so either can observe completion
/// after the other shuts down.
pub trait ReleaseTimeline {
    /// Reads the monotonic completion value without blocking.
    fn completed_value(&self) -> Result<u64, CaptureTransferError>;

    /// Arranges a notification when this value is complete, including when it completed
    /// before registration. Must not block. A notification only wakes the owner, which
    /// checks `completed_value` again before returning credit. An error must mean that no
    /// notification was registered.
    fn notify_at(&self, value: u64, notification: ReleaseNotification) -> Result<
        (),
        CaptureTransferError,
    >;
}

/// Setup-channel registration result, bound to one claim mapping as well as its incarnation.
/// The random scope prevents matching local identities in another arena or a restarted
/// producer from satisfying this registration accidentally.
#[derive(Debug, Clone, Copy, PartialEq, Eq, Structural)]
pub struct ReleaseTimelineRegistration {
    pub incarnation: u64,
    pub scope: super::ScopeId,
    pub id: u64,
}

/// A one-shot wake owned by a bounded release observation. It carries no frame ownership.
#[derive(Debug, Clone, Copy, PartialEq, Eq, Structural)]
pub struct ReleaseNotification {
    pub slot: usize,
    pub serial: u64,
}

/// A notification that a backend has been asked for.
#[derive(Debug, Clone, Copy, PartialEq, Eq, Structural)]
pub struct Armed {
    pub serial: u64,
    pub fired: bool,
}

/// What the system says of a watched process.
#[derive(Debug, PartialEq, Eq)]
pub enum ProcessExit {
    Running,
    Exited,
    Failed(String),
}

/// A persistent recovery failure of one incarnation.
#[derive(Debug, PartialEq, Eq)]
pub struct CleanupFailure {
    pub incarnation: IncarnationId,
    pub reason: String,
}

/// What a look at a slot asks a timeline.
#[derive(Debug, Clone, Copy, PartialEq, Eq, Structural)]
pub struct Question {
    /// Which of the timelines is asked, for its completed value first.
    pub timeline: u64,
    /// The value that the release waits for.
    pub value: u64,
    /// What a notification at that value carries, if one has to be armed while the completed
    /// value is lower.
    pub arming: Option<ReleaseNotification>,
}

/// What a timeline answered while one slot was looked at.
pub struct TimelineAnswer {
    pub completed: Result<u64, CaptureTransferError>,
    pub armed: Result<(), CaptureTransferError>,
}

/// A timeline was asked for its completed value and answered like this.
pub open spec fn read_from<T: ReleaseTimeline>(
    timeline: T,
    answer: Result<u64, CaptureTransferError>,
) -> bool {
    call_ensures(T::completed_value, (&timeline,), answer)
}

/// A timeline was asked for this notification at this value and answered like this.
pub open spec fn armed_at<T: ReleaseTimeline>(
    timeline: T,
    value: u64,
    notification: ReleaseNotification,
    answer: Result<(), CaptureTransferError>,
) -> bool {
    call_ensures(T::notify_at, (&timeline, value, notification), answer)
}

/// What the producer has observed of one incarnation.
#[verifier::ext_equal]
pub struct Observation<T> {
    pub native_resources: bool,
    /// Whether a process exit has yet to be observed.
    pub watched: bool,
    /// Claims of an exited process that nothing proves complete.
    pub unresolved: nat,
    pub drain_timeout: u128,
    pub deadline: Option<u128>,
    pub expired: bool,
    /// The registered timelines, in the order of their identities.
    pub timelines: Seq<T>,
    pub armed: Seq<Option<Armed>>,
    pub failure: Option<Seq<char>>,
    pub notification_failed: bool,
    /// Slots given back since this was last asked for.
    pub released: usize,
    pub serial: u64,
}

pub open spec fn one_more(count: usize) -> usize {
    if count == usize::MAX {
        count
    } else {
        (count + 1) as usize
    }
}

pub open spec fn next_serial(serial: u64) -> u64 {
    if serial == u64::MAX {
        0
    } else {
        (serial + 1) as u64
    }
}

pub open spec fn unresolved_text(count: nat) -> Seq<char> {
    "process exited with "@ + decimal(count)
        + " asynchronous claims lacking completion evidence; resources remain quarantined"@
}

impl<T> Observation<T> {
    /// A failure ends acquisition and is remembered.
    pub open spec fn fails(self, page: ClaimPage, reason: Seq<char>) -> (Observation<T>, ClaimPage) {
        (Observation { failure: Some(reason), ..self }, page.closed())
    }

    /// What an exited process leaves in a slot: a submitted release keeps waiting for its
    /// completion, a plain claim is given back, and asynchronous use without evidence
    /// stays charged.
    pub open spec fn swept(self, page: ClaimPage, slot: int) -> (Observation<T>, ClaimPage) {
        if page.slots[slot] == 0 {
            (self, page)
        } else if page.pending[slot] == 1 || page.pending[slot] == 2 {
            (self, ClaimPage { pending: page.pending.update(slot, 2), ..page })
        } else if page.pending[slot] == 0 {
            if !self.native_resources && self.timelines.len() == 0 {
                (
                    Observation { released: one_more(self.released), ..self },
                    page.credited(slot),
                )
            } else {
                (Observation { unresolved: self.unresolved + 1, ..self }, page)
            }
        } else {
            self.fails(page, "invalid release state at process exit"@)
        }
    }

    /// The first slots have been swept.
    pub open spec fn swept_to(self, page: ClaimPage, count: int) -> (Observation<T>, ClaimPage)
        decreases count,
    {
        if count <= 0 {
            (self, page)
        } else {
            let (observation, before) = self.swept_to(page, count - 1);
            observation.swept(before, count - 1)
        }
    }

    /// A watched process exited: nothing of it can touch the page any more.
    pub open spec fn exited(self, page: ClaimPage) -> (Observation<T>, ClaimPage) {
        let left = page.closed().acknowledged();
        Observation { watched: false, ..self }.swept_to(
            ClaimPage { mappings: Seq::new(page.mappings.len(), |i: int| 0u64), ..left },
            page.slots.len() as int,
        )
    }

    /// What the system says of the watched process has been taken note of.
    pub open spec fn saw_process(self, page: ClaimPage, exit: ProcessExit) -> (
        Observation<T>,
        ClaimPage,
    ) {
        if !self.watched {
            (self, page)
        } else {
            match exit {
                ProcessExit::Running => (self, page),
                ProcessExit::Exited => self.exited(page),
                ProcessExit::Failed(reason) => Observation {
                    watched: false,
                    notification_failed: true,
                    ..self
                }.fails(page, reason@),
            }
        }
    }

    /// The deadline starts when closure is observed and passes without permitting reuse.
    pub open spec fn saw_time(self, page: ClaimPage, now: u128) -> (Observation<T>, ClaimPage) {
        if page.active != 0 || page.drained() {
            (self, page)
        } else {
            let started = match self.deadline {
                Some(deadline) => (self, page),
                None => if now + self.drain_timeout > u128::MAX {
                    self.fails(
                        page,
                        "drain deadline is not representable; resources remain quarantined"@,
                    )
                } else {
                    (
                        Observation { deadline: Some((now + self.drain_timeout) as u128), ..self },
                        page,
                    )
                },
            };
            if started.0.deadline matches Some(deadline) && now >= deadline {
                (Observation { expired: true, ..started.0 }, started.1)
            } else {
                started
            }
        }
    }

    /// Why recovery is required, if it is.
    pub open spec fn failure_reason(self, page: ClaimPage) -> Option<Seq<char>> {
        if page.drained() {
            None
        } else if self.failure is Some {
            self.failure
        } else if self.unresolved != 0 {
            Some(unresolved_text(self.unresolved))
        } else if self.expired {
            Some("drain deadline expired; claims or claim-page access remain unresolved"@)
        } else {
            None
        }
    }

    /// One slot has been looked at, and its timeline answered like this if it was asked. The
    /// flag says that the look ended here.
    pub open spec fn looked(self, page: ClaimPage, slot: int, answer: TimelineAnswer) -> (
        Observation<T>,
        ClaimPage,
        bool,
    ) {
        let seen = Observation {
            armed: if self.armed[slot] matches Some(armed) && armed.fired {
                self.armed.update(slot, None)
            } else {
                self.armed
            },
            ..self
        };
        let pending = page.pending[slot];
        let id = page.release_ids[slot];
        let value = page.release_values[slot];
        if pending == 0 {
            (seen, page, false)
        } else if pending != 1 && pending != 2 {
            let (failed, closed) = seen.fails(page, "invalid deferred release state"@);
            (failed, closed, true)
        } else if id == 0 || id > seen.timelines.len() {
            let (failed, closed) = seen.fails(
                page,
                "deferred release names an unregistered timeline"@,
            );
            (failed, closed, true)
        } else {
            match answer.completed {
                Err(error) => {
                    let (failed, closed) = seen.fails(page, error.reported());
                    (failed, closed, true)
                },
                Ok(completed) => {
                    if completed >= value && pending == 2 {
                        (
                            Observation { released: one_more(seen.released), ..seen },
                            page.credited(slot),
                            false,
                        )
                    } else if completed < value && seen.armed[slot] is None {
                        let serial = next_serial(seen.serial);
                        let asked = Observation { serial, ..seen };
                        match answer.armed {
                            Err(error) => {
                                let (failed, closed) = asked.fails(page, error.reported());
                                (failed, closed, true)
                            },
                            Ok(()) => (
                                Observation {
                                    armed: asked.armed.update(
                                        slot,
                                        Some(Armed { serial, fired: false }),
                                    ),
                                    ..asked
                                },
                                page,
                                false,
                            ),
                        }
                    } else {
                        (seen, page, false)
                    }
                },
            }
        }
    }

    /// The first slots have been looked at, with these answers.
    pub open spec fn looked_at(self, page: ClaimPage, answers: Seq<TimelineAnswer>) -> (
        Observation<T>,
        ClaimPage,
        bool,
    )
        decreases answers.len(),
    {
        if answers.len() == 0 {
            (self, page, false)
        } else {
            let before = self.looked_at(page, answers.drop_last());
            if before.2 {
                before
            } else {
                before.0.looked(before.1, answers.len() - 1, answers.last())
            }
        }
    }

    /// A whole look, with these answers: the time first, then every slot until one ends it.
    pub open spec fn polled(self, page: ClaimPage, now: u128, answers: Seq<TimelineAnswer>) -> (
        Observation<T>,
        ClaimPage,
    ) {
        let timed = self.saw_time(page, now);
        if timed.0.failure is Some {
            timed
        } else {
            let all = timed.0.looked_at(timed.1, answers);
            (all.0, all.1)
        }
    }

}

/// Whether this is what a timeline answered to a question, as far as it was asked: first for
/// its completed value, and while that is too low, for a notification where one has to be armed.
pub open spec fn replied<T: ReleaseTimeline>(
    timeline: T,
    question: Question,
    answer: TimelineAnswer,
) -> bool {
    &&& read_from(timeline, answer.completed)
    &&& (answer.completed matches Ok(completed) && completed < question.value
        && question.arming is Some) ==> armed_at(
        timeline,
        question.value,
        question.arming->0,
        answer.armed,
    )
}

impl<T> Observation<T> {
    /// What a look at a slot asks, if anything: the timeline that the slot's release names, and
    /// for a notification where none is armed that is still to fire.
    pub open spec fn asks(self, page: ClaimPage, slot: int) -> Option<Question> {
        let pending = page.pending[slot];
        let id = page.release_ids[slot];
        if (pending == 1 || pending == 2) && 1 <= id <= self.timelines.len() {
            Some(
                Question {
                    timeline: (id - 1) as u64,
                    value: page.release_values[slot],
                    arming: if self.armed[slot] matches Some(armed) && !armed.fired {
                        None
                    } else {
                        Some(
                            ReleaseNotification {
                                slot: slot as usize,
                                serial: next_serial(self.serial),
                            },
                        )
                    },
                },
            )
        } else {
            None
        }
    }
}

impl<T: ReleaseTimeline> Observation<T> {
    /// Whether an answer came from the timeline that a slot's release names, as far as the look
    /// at the slot asks it.
    pub open spec fn came(self, page: ClaimPage, slot: int, answer: TimelineAnswer) -> bool {
        self.asks(page, slot) matches Some(question) ==> replied(
            self.timelines[question.timeline as int],
            question,
            answer,
        )
    }

    /// Whether the answers came from the timelines of the slots, looked at in turn.
    pub open spec fn answered(self, page: ClaimPage, answers: Seq<TimelineAnswer>) -> bool
        decreases answers.len(),
    {
        answers.len() > 0 ==> {
            let before = self.looked_at(page, answers.drop_last());
            &&& self.answered(page, answers.drop_last())
            &&& before.2 || before.0.came(before.1, answers.len() - 1, answers.last())
        }
    }

    /// Whether the answers make a whole look: they came from the timelines, and every slot was
    /// reached, or one ended it.
    pub open spec fn complete_look(
        self,
        page: ClaimPage,
        now: u128,
        answers: Seq<TimelineAnswer>,
    ) -> bool {
        let timed = self.saw_time(page, now);
        &&& answers.len() <= page.slots.len()
        &&& {
            ||| timed.0.failure is Some
            ||| answers.len() == page.slots.len()
            ||| timed.0.looked_at(timed.1, answers).2
        }
        &&& timed.0.failure is None ==> timed.0.answered(timed.1, answers)
    }
}

/// The producer's owner of one incarnation's recovery.
pub struct ObservationState<T> {
    native_resources: bool,
    watched: bool,
    unresolved: u64,
    drain_timeout: u128,
    deadline: Option<u128>,
    expired: bool,
    timelines: Vec<T>,
    armed: Vec<Option<Armed>>,
    failure: Option<String>,
    notification_failed: bool,
    released: usize,
    serial: u64,
}

impl<T> View for ObservationState<T> {
    type V = Observation<T>;

    closed spec fn view(&self) -> Observation<T> {
        Observation {
            native_resources: self.native_resources,
            watched: self.watched,
            unresolved: self.unresolved as nat,
            drain_timeout: self.drain_timeout,
            deadline: self.deadline,
            expired: self.expired,
            timelines: self.timelines@,
            armed: self.armed@,
            failure: match self.failure {
                Some(reason) => Some(reason@),
                None => None,
            },
            notification_failed: self.notification_failed,
            released: self.released,
            serial: self.serial,
        }
    }
}

/// Whether an observation belongs to a page of that many slots.
pub open spec fn observes<T>(observation: Observation<T>, frames: nat) -> bool {
    &&& observation.armed.len() == frames
    &&& observation.timelines.len() <= frames
    &&& observation.watched ==> observation.unresolved == 0
}

impl<T> ObservationState<T> {
    /// A fresh observation of an incarnation.
    pub fn new(
        frames: usize,
        native_resources: bool,
        watched: bool,
        drain_timeout: u128,
    ) -> (result: Self)
        ensures
            observes(result@, frames as nat),
            result@ == (Observation {
                native_resources,
                watched,
                unresolved: 0,
                drain_timeout,
                deadline: None,
                expired: false,
                timelines: Seq::<T>::empty(),
                armed: Seq::new(frames as nat, |i: int| None::<Armed>),
                failure: None,
                notification_failed: false,
                released: 0,
                serial: 0,
            }),
    {
        let mut armed: Vec<Option<Armed>> = Vec::new();
        while armed.len() < frames
            invariant
                armed@.len() <= frames,
                forall|i: int| 0 <= i < armed@.len() ==> armed@[i] is None,
            decreases frames - armed@.len(),
        {
            armed.push(None);
        }
        let state = ObservationState {
            native_resources,
            watched,
            unresolved: 0,
            drain_timeout,
            deadline: None,
            expired: false,
            timelines: Vec::new(),
            armed,
            failure: None,
            notification_failed: false,
            released: 0,
            serial: 0,
        };
        assert(state@.armed =~= Seq::new(frames as nat, |i: int| None::<Armed>));
        state
    }

    fn fail(&mut self, page: &mut ClaimMap, reason: String)
        requires
            old(page).wf(),
        ensures
            final(page).wf(),
            final(page).spec_frames() == old(page).spec_frames(),
            final(page).spec_len() == old(page).spec_len(),
            (final(self)@, final(page)@) == old(self)@.fails(old(page)@, reason@),
    {
        page.close();
        self.failure = Some(reason);
        assert(self@ =~= old(self)@.fails(old(page)@, reason@).0);
    }

    /// Takes note that the channel to the observer broke.
    pub fn fail_notification(&mut self, page: &mut ClaimMap, reason: String)
        requires
            old(page).wf(),
        ensures
            final(page).wf(),
            final(page).spec_frames() == old(page).spec_frames(),
            final(page).spec_len() == old(page).spec_len(),
            (final(self)@, final(page)@) == (Observation {
                notification_failed: true,
                ..old(self)@
            }).fails(old(page)@, reason@),
    {
        self.notification_failed = true;
        assert(self@ =~= (Observation { notification_failed: true, ..old(self)@ }));
        self.fail(page, reason);
    }

    fn sweep(&mut self, page: &mut ClaimMap, slot: usize)
        requires
            old(page).wf(),
            slot < old(page).spec_frames(),
            observes((Observation { unresolved: 0, ..old(self)@ }), old(page).spec_frames()),
            old(self)@.unresolved < u64::MAX,
        ensures
            final(page).wf(),
            final(page).spec_frames() == old(page).spec_frames(),
            final(page).spec_len() == old(page).spec_len(),
            (final(self)@, final(page)@) == old(self)@.swept(old(page)@, slot as int),
    {
        if page.slot(slot) == 0 {
            return;
        }
        let pending: u64 = page.release_pending(slot);
        if pending == 1 || pending == 2 {
            page.set_release_pending(slot, 2);
        } else if pending == 0 {
            if !self.native_resources && self.timelines.len() == 0 {
                page.return_credit(slot);
                self.released = self.released.saturating_add(1);
                assert(self@ =~= (Observation {
                    released: one_more(old(self)@.released),
                    ..old(self)@
                }));
            } else {
                self.unresolved = self.unresolved + 1;
                assert(self@ =~= (Observation {
                    unresolved: old(self)@.unresolved + 1,
                    ..old(self)@
                }));
            }
        } else {
            self.fail(page, String::from_str("invalid release state at process exit"));
        }
    }

    /// Takes note of what the system says of the watched process. The watch was bound
    /// before the grant escaped, so an exit proves that no admitted thread can still read
    /// or publish a claim.
    pub fn observe_process(&mut self, page: &mut ClaimMap, exit: ProcessExit)
        requires
            old(page).wf(),
            observes(old(self)@, old(page).spec_frames()),
        ensures
            final(page).wf(),
            final(page).spec_frames() == old(page).spec_frames(),
            final(page).spec_len() == old(page).spec_len(),
            observes(final(self)@, final(page).spec_frames()),
            (final(self)@, final(page)@) == old(self)@.saw_process(old(page)@, exit),
    {
        proof {
            page.page_is_shaped();
        }

        if !self.watched {
            return;
        }
        match exit {
            ProcessExit::Running => {},
            ProcessExit::Failed(reason) => {
                self.watched = false;
                assert(self@ =~= (Observation { watched: false, ..old(self)@ }));
                self.fail_notification(page, reason);
            },
            ProcessExit::Exited => {
                self.watched = false;
                let ghost start = Observation { watched: false, ..old(self)@ };
                assert(self@ =~= start);
                page.close();
                page.acknowledge_quiescent();
                let frames: usize = page.frames();
                let ghost left = old(page)@.closed().acknowledged();
                let mut index: usize = 0;
                while index < frames + 2
                    invariant
                        page.wf(),
                        page.spec_frames() == frames,
                        frames == old(page).spec_frames(),
                        page.spec_len() == old(page).spec_len(),
                        self@ == start,
                        frames + 2 <= usize::MAX,
                        index <= frames + 2,
                        left.mappings.len() == frames + 2,
                        page@ == (ClaimPage {
                            mappings: Seq::new(
                                (frames + 2) as nat,
                                |i: int|
                                    if i < index {
                                        0u64
                                    } else {
                                        left.mappings[i]
                                    },
                            ),
                            ..left
                        }),
                    decreases frames + 2 - index,
                {
                    let ghost before = page@;
                    page.set_mapping_slot(index, 0);
                    index = index + 1;
                    assert(page@ =~= (ClaimPage {
                        mappings: Seq::new(
                            (frames + 2) as nat,
                            |i: int|
                                if i < index {
                                    0u64
                                } else {
                                    left.mappings[i]
                                },
                        ),
                        ..left
                    }));
                }
                let ghost cleared = ClaimPage {
                    mappings: Seq::new(old(page)@.mappings.len(), |i: int| 0u64),
                    ..left
                };
                assert(page@ =~= cleared);
                let mut slot: usize = 0;
                while slot < frames
                    invariant
                        page.wf(),
                        page.spec_frames() == frames,
                        frames == old(page).spec_frames(),
                        page.spec_len() == old(page).spec_len(),
                        slot <= frames,
                        observes((Observation { unresolved: 0, ..self@ }), frames as nat),
                        self@.unresolved <= slot,
                        !self@.watched,
                        (self@, page@) == start.swept_to(cleared, slot as int),
                    decreases frames - slot,
                {
                    self.sweep(page, slot);
                    slot = slot + 1;
                }
                assert(old(page)@.slots.len() == frames);
            },
        }
    }

    fn observe_deadline(&mut self, page: &mut ClaimMap, now: u128)
        requires
            old(page).wf(),
        ensures
            final(page).wf(),
            final(page).spec_frames() == old(page).spec_frames(),
            final(page).spec_len() == old(page).spec_len(),
            (final(self)@, final(page)@) == old(self)@.saw_time(old(page)@, now),
    {
        if page.active() != 0 || page.is_drained() {
            return;
        }
        if self.deadline.is_none() {
            match now.checked_add(self.drain_timeout) {
                Some(deadline) => {
                    self.deadline = Some(deadline);
                    assert(self@ =~= (Observation { deadline: Some(deadline), ..old(self)@ }));
                },
                None => {
                    self.fail(
                        page,
                        String::from_str(
                            "drain deadline is not representable; resources remain quarantined",
                        ),
                    );
                },
            }
        }
        if let Some(deadline) = self.deadline {
            if now >= deadline {
                let ghost before = self@;
                self.expired = true;
                assert(self@ =~= (Observation { expired: true, ..before }));
            }
        }
    }

    /// When to look again without a wake.
    pub fn wake_deadline(&self, page: &ClaimMap) -> (result: Option<u128>)
        requires
            page.wf(),
        ensures
            result == (if page@.drained() || self@.failure_reason(page@) is Some {
                None
            } else {
                self@.deadline
            }),
    {
        if page.is_drained() || self.failure_reason(page).is_some() {
            None
        } else {
            self.deadline
        }
    }

    /// Why recovery is required, if it is.
    pub fn failure_reason(&self, page: &ClaimMap) -> (result: Option<String>)
        requires
            page.wf(),
        ensures
            match result {
                Some(reason) => self@.failure_reason(page@) == Some(reason@),
                None => self@.failure_reason(page@) is None,
            },
    {
        if page.is_drained() {
            return None;
        }
        if let Some(reason) = &self.failure {
            return Some(reason.clone());
        }
        if self.unresolved != 0 {
            return Some(
                String::from_str("process exited with ").concat(
                    decimal_text(self.unresolved).as_str(),
                ).concat(
                    " asynchronous claims lacking completion evidence; resources remain quarantined",
                ),
            );
        }
        if self.expired {
            return Some(
                String::from_str(
                    "drain deadline expired; claims or claim-page access remain unresolved",
                ),
            );
        }
        None
    }

    /// Whether the channel to the observer broke.
    pub fn notification_failed(&self) -> (result: bool)
        ensures
            result == self@.notification_failed,
    {
        self.notification_failed
    }

    /// Whether a process exit has yet to be observed.
    pub fn watched(&self) -> (result: bool)
        ensures
            result == self@.watched,
    {
        self.watched
    }

    /// Number of registered timelines.
    pub fn registered(&self) -> (result: usize)
        ensures
            result == self@.timelines.len(),
    {
        self.timelines.len()
    }

    /// Registers a timeline under the next identity.
    pub fn register(&mut self, timeline: T)
        ensures
            final(self)@ == (Observation {
                timelines: old(self)@.timelines.push(timeline),
                ..old(self)@
            }),
    {
        self.timelines.push(timeline);
        assert(self@ =~= (Observation {
            timelines: old(self)@.timelines.push(timeline),
            ..old(self)@
        }));
    }

    /// Forgets a failure, so that its cause is observed again.
    pub fn forget_failure(&mut self)
        ensures
            final(self)@ == (Observation { failure: None, ..old(self)@ }),
    {
        self.failure = None;
        assert(self@ =~= (Observation { failure: None, ..old(self)@ }));
    }

    /// Takes the number of slots given back since this was last asked for.
    pub fn take_released(&mut self) -> (result: usize)
        ensures
            result == old(self)@.released,
            final(self)@ == (Observation { released: 0, ..old(self)@ }),
    {
        let released: usize = self.released;
        self.released = 0;
        assert(self@ =~= (Observation { released: 0, ..old(self)@ }));
        released
    }
}

impl ReleaseNotification {
    /// Reports a completion, inline or from a backend's callback. Only the first report of a
    /// notification that is still awaited wakes the owner.
    pub fn notify<T>(self, observation: &mut ObservationState<T>, page: &mut ClaimMap)
        requires
            old(page).wf(),
        ensures
            final(page).wf(),
            final(page).spec_frames() == old(page).spec_frames(),
            final(page).spec_len() == old(page).spec_len(),
            if self.slot < old(observation)@.armed.len() && old(observation)@.armed[self.slot as int]
                == Some(Armed { serial: self.serial, fired: false }) {
                &&& final(observation)@ == (Observation {
                    armed: old(observation)@.armed.update(
                        self.slot as int,
                        Some(Armed { serial: self.serial, fired: true }),
                    ),
                    ..old(observation)@
                })
                &&& final(page)@ == (ClaimPage { release_wake: true, ..old(page)@ })
            } else {
                final(observation)@ == old(observation)@ && final(page)@ == old(page)@
            },
    {
        if self.slot >= observation.armed.len() {
            return;
        }
        if let Some(armed) = observation.armed[self.slot] {
            if armed.serial == self.serial && !armed.fired {
                observation.armed.set(self.slot, Some(Armed { serial: self.serial, fired: true }));
                assert(observation@ =~= (Observation {
                    armed: old(observation)@.armed.update(
                        self.slot as int,
                        Some(Armed { serial: self.serial, fired: true }),
                    ),
                    ..old(observation)@
                }));
                page.signal_release();
            }
        }
    }
}

impl<T> ObservationState<T> {
    /// What a look at a slot asks, if anything.
    pub fn question(&self, page: &ClaimMap, slot: usize) -> (result: Option<Question>)
        requires
            page.wf(),
            slot < page.spec_frames(),
            observes(self@, page.spec_frames()),
        ensures
            result == self@.asks(page@, slot as int),
    {
        let pending: u64 = page.release_pending(slot);
        let id: u64 = page.release_id(slot);
        if (pending != 1 && pending != 2) || id == 0 || id > self.timelines.len() as u64 {
            return None;
        }
        let arming = match self.armed[slot] {
            Some(armed) => if armed.fired {
                Some(ReleaseNotification { slot, serial: self.serial.wrapping_add(1) })
            } else {
                None
            },
            None => Some(ReleaseNotification { slot, serial: self.serial.wrapping_add(1) }),
        };
        Some(Question { timeline: id - 1, value: page.release_value(slot), arming })
    }

    /// Takes what a slot's timeline answered, as far as it was asked: a failure is remembered
    /// and closes the incarnation, a completed release that was submitted gives its slot back,
    /// and a notification that was armed is charged to the slot. The result is whether the look
    /// ends here.
    pub fn answer(&mut self, page: &mut ClaimMap, slot: usize, answer: TimelineAnswer) -> (result:
        bool)
        requires
            old(page).wf(),
            slot < old(page).spec_frames(),
            observes(old(self)@, old(page).spec_frames()),
        ensures
            final(page).wf(),
            final(page).spec_frames() == old(page).spec_frames(),
            final(page).spec_len() == old(page).spec_len(),
            observes(final(self)@, final(page).spec_frames()),
            (final(self)@, final(page)@, result) == old(self)@.looked(
                old(page)@,
                slot as int,
                answer,
            ),
    {
        // A completed value can be observed before its queued callback runs. That callback
        // stays charged to this slot until it fires, even if the slot is already reused,
        // so that queued callbacks remain bounded.
        let fired = match self.armed[slot] {
            Some(armed) => armed.fired,
            None => false,
        };
        if fired {
            self.armed.set(slot, None);
        }
        let ghost seen = Observation {
            armed: if fired {
                old(self)@.armed.update(slot as int, None)
            } else {
                old(self)@.armed
            },
            ..old(self)@
        };
        assert(self@ =~= seen);
        let pending: u64 = page.release_pending(slot);
        if pending == 0 {
            return false;
        }
        if pending != 1 && pending != 2 {
            self.fail(page, String::from_str("invalid deferred release state"));
            return true;
        }
        let id: u64 = page.release_id(slot);
        let value: u64 = page.release_value(slot);
        if id == 0 || id > self.timelines.len() as u64 {
            self.fail(page, String::from_str("deferred release names an unregistered timeline"));
            return true;
        }
        match answer.completed {
            Err(error) => {
                self.fail(page, error.message());
                true
            },
            Ok(completed) => {
                if completed >= value && pending == 2 {
                    page.return_credit(slot);
                    self.released = self.released.saturating_add(1);
                    assert(self@ =~= (Observation { released: one_more(seen.released), ..seen }));
                } else if completed < value && self.armed[slot].is_none() {
                    self.serial = self.serial.wrapping_add(1);
                    let serial: u64 = self.serial;
                    let ghost asked = Observation { serial: next_serial(seen.serial), ..seen };
                    assert(self@ =~= asked);
                    match answer.armed {
                        Ok(()) => {
                            self.armed.set(slot, Some(Armed { serial, fired: false }));
                            assert(self@ =~= (Observation {
                                armed: asked.armed.update(
                                    slot as int,
                                    Some(Armed { serial, fired: false }),
                                ),
                                ..asked
                            }));
                        },
                        Err(error) => {
                            self.fail(page, error.message());
                            return true;
                        },
                    }
                }
                false
            },
        }
    }
}

impl<T: ReleaseTimeline> ObservationState<T> {
    /// Looks at one slot. The result is what its timeline answered, as far as it was asked,
    /// and whether the look ended here.
    fn look(&mut self, page: &mut ClaimMap, slot: usize) -> (result: (Ghost<TimelineAnswer>, bool))
        requires
            old(page).wf(),
            slot < old(page).spec_frames(),
            observes(old(self)@, old(page).spec_frames()),
        ensures
            final(page).wf(),
            final(page).spec_frames() == old(page).spec_frames(),
            final(page).spec_len() == old(page).spec_len(),
            observes(final(self)@, final(page).spec_frames()),
            (final(self)@, final(page)@, result.1) == old(self)@.looked(
                old(page)@,
                slot as int,
                result.0@,
            ),
            old(self)@.came(old(page)@, slot as int, result.0@),
    {
        let answer = match self.question(page, slot) {
            None => TimelineAnswer { completed: Ok(0), armed: Ok(()) },
            Some(question) => {
                assert(question.timeline < self.timelines.len() <= usize::MAX);
                let timeline = &self.timelines[question.timeline as usize];
                assert(*timeline == self@.timelines[question.timeline as int]);
                let read = timeline.completed_value();
                let behind = match &read {
                    Ok(completed) => *completed < question.value,
                    Err(_) => false,
                };
                let armed = match question.arming {
                    Some(notification) => if behind {
                        timeline.notify_at(question.value, notification)
                    } else {
                        Ok(())
                    },
                    None => Ok(()),
                };
                TimelineAnswer { completed: read, armed }
            },
        };
        let ghost given = answer;
        let ended = self.answer(page, slot, answer);
        (Ghost(given), ended)
    }

    /// Looks at the time and at every slot. Whatever the timelines answer, what changes is
    /// what those answers call for.
    pub fn poll(&mut self, page: &mut ClaimMap, now: u128)
        requires
            old(page).wf(),
            observes(old(self)@, old(page).spec_frames()),
        ensures
            final(page).wf(),
            final(page).spec_frames() == old(page).spec_frames(),
            final(page).spec_len() == old(page).spec_len(),
            observes(final(self)@, final(page).spec_frames()),
            exists|answers: Seq<TimelineAnswer>|
                {
                    &&& #[trigger] old(self)@.polled(old(page)@, now, answers) == (
                        final(self)@,
                        final(page)@,
                    )
                    &&& old(self)@.complete_look(old(page)@, now, answers)
                },
    {
        proof {
            page.page_is_shaped();
        }

        self.observe_deadline(page, now);
        let ghost timed = (self@, page@);
        let ghost mut answers: Seq<TimelineAnswer> = Seq::empty();
        if self.failure.is_some() {
            assert(old(self)@.polled(old(page)@, now, answers) == (self@, page@));
            return;
        }
        let frames: usize = page.frames();
        let mut slot: usize = 0;
        while slot < frames
            invariant
                page.wf(),
                page.spec_frames() == frames,
                frames == old(page).spec_frames(),
                page.spec_len() == old(page).spec_len(),
                observes(self@, frames as nat),
                old(page)@.slots.len() == frames,
                timed == old(self)@.saw_time(old(page)@, now),
                timed.0.failure is None,
                slot <= frames,
                answers.len() == slot,
                timed.0.looked_at(timed.1, answers) == (self@, page@, false),
                timed.0.answered(timed.1, answers),
            decreases frames - slot,
        {
            let (answer, ended) = self.look(page, slot);
            proof {
                let more = answers.push(answer@);
                assert(more.drop_last() =~= answers);
                answers = more;
            }
            if ended {
                assert(old(self)@.polled(old(page)@, now, answers) == (self@, page@));
                return;
            }
            slot = slot + 1;
        }
        assert(old(page)@.slots.len() == frames);
        assert(old(self)@.polled(old(page)@, now, answers) == (self@, page@));
    }
}

} // verus!
