//! Consumer-local completion ownership. It survives either public owner being destroyed and
//! does not depend on the producer continuing to observe work.

use super::{ArenaConsumer, FrameLease, Source};
use crate::acquisition::arena::claims::{ClaimMap, ClaimPage};
use crate::acquisition::arena::cleanup::{
    next_serial, Armed, Question, ReleaseNotification, ReleaseTimeline, ReleaseTimelineRegistration,
    TimelineAnswer,
};
use crate::acquisition::arena::holding::{ConsumerState, Mapping, Pending};
use crate::acquisition::arena::pages::ArenaPages;
use crate::acquisition::arena::{configuration_error, mapping_error, ArenaError};
use vstd::prelude::*;

verus! {

/// Consumer-local binding to the same actual completion timeline that the producer
/// registered. This handle does not keep completed mappings or an incarnation alive: pending
/// use has a separate bounded owner.
#[derive(Debug, Clone, Copy, PartialEq, Eq, Structural)]
pub struct ConsumerReleaseTimeline {
    pub registration: ReleaseTimelineRegistration,
    pub index: usize,
}

/// A failed handoff retains the caller's lease. In particular, a wrapper must keep this frame
/// in its lease table when it reports the error to its caller.
pub struct RejectedDeferredRelease {
    pub error: ArenaError,
    pub frame: FrameLease,
}

/// What the retirement worker does next.
#[derive(Debug, Clone, Copy, PartialEq, Eq, Structural)]
pub enum RetirementStep {
    /// Nothing is left to wait for.
    Done,
    /// Sleep until a wake comes, or until this time.
    Sleep { deadline: Option<u128> },
}

impl<T> ConsumerState<T> {
    /// Whether a binding is to a source of this consumer.
    pub open spec fn bound_to(self, binding: ConsumerReleaseTimeline) -> bool {
        &&& binding.registration.incarnation == self.incarnation.0
        &&& binding.registration.scope == self.claim_scope
        &&& binding.index < self.frames()
        &&& self.bound[binding.index as int] is Some
    }

    /// Whether a slot waits on a binding.
    pub open spec fn waits_on(self, slot: int, index: usize) -> bool {
        self.pending[slot] matches Some(pending) && pending.timeline == index
    }

    /// Number of the first slots that wait on a binding.
    pub open spec fn waiting_on(self, index: usize, count: int) -> nat
        decreases count,
    {
        if count <= 0 {
            0
        } else if self.waits_on(count - 1, index) {
            self.waiting_on(index, count - 1) + 1
        } else {
            self.waiting_on(index, count - 1)
        }
    }

    /// The consumer itself goes: acquisition ends, and the mapping is let go unless a lease or
    /// a completion keeps it.
    pub open spec fn departed(self, page: ClaimPage, now: u128, answers: Seq<TimelineAnswer>) -> (
        ConsumerState<T>,
        ClaimPage,
    ) {
        let (draining, closed) = self.draining(page, now);
        let (left, remaining) = ConsumerState { alive: false, ..draining }.left(
            closed,
            now,
            answers,
        );
        let gone = ConsumerState { installed: None, ..left };
        (
            gone,
            match self.installed {
                Some(mapping) => gone.unmapped(remaining, mapping.slot),
                None => remaining,
            },
        )
    }

}

impl<T: ReleaseTimeline> ConsumerState<T> {
    /// Whether the answers make a whole look, if the consumer's going calls for one.
    pub open spec fn departs_with(
        self,
        page: ClaimPage,
        now: u128,
        answers: Seq<TimelineAnswer>,
    ) -> bool {
        let (draining, closed) = self.draining(page, now);
        ConsumerState { alive: false, ..draining }.leaves_with(closed, now, answers)
    }
}

impl<T> ArenaConsumer<T> {
    /// Whether anything keeps a mapping word.
    fn uses(&self, slot: usize) -> (result: bool)
        requires
            self.wf(),
        ensures
            result == self@.uses(slot),
    {
        if let Some(mapping) = self.installed {
            if mapping.slot == slot {
                return true;
            }
        }
        let mut i: usize = 0;
        while i < self.held.len()
            invariant
                self.wf(),
                i <= self.held@.len(),
                forall|j: int|
                    0 <= j < i ==> !((#[trigger] self@.held[j]) matches Some(mapping)
                        && mapping.slot == slot),
                forall|j: int|
                    0 <= j < i ==> !((#[trigger] self@.pending[j]) matches Some(pending)
                        && pending.mapping.slot == slot),
            decreases self.held@.len() - i,
        {
            if let Some(mapping) = self.held[i] {
                if mapping.slot == slot {
                    assert(self@.held[i as int] is Some);
                    return true;
                }
            }
            if let Some(pending) = self.pending[i] {
                if pending.mapping.slot == slot {
                    assert(self@.pending[i as int] is Some);
                    return true;
                }
            }
            i = i + 1;
        }
        false
    }

    /// Whether a lease is outstanding.
    fn leasing(&self) -> (result: bool)
        ensures
            result == self@.leasing(),
    {
        let mut i: usize = 0;
        while i < self.held.len()
            invariant
                i <= self.held@.len(),
                forall|j: int| 0 <= j < i ==> (#[trigger] self@.held[j]) is None,
            decreases self.held@.len() - i,
        {
            if self.held[i].is_some() {
                assert(self@.held[i as int] is Some);
                return true;
            }
            i = i + 1;
        }
        false
    }

    /// Whether a handed-over slot waits.
    pub fn waiting(&self) -> (result: bool)
        requires
            self.wf(),
        ensures
            result == self@.waiting(),
    {
        let mut i: usize = 0;
        while i < self.pending.len()
            invariant
                self.wf(),
                i <= self.pending@.len(),
                forall|j: int| 0 <= j < i ==> (#[trigger] self@.pending[j]) is None,
            decreases self.pending@.len() - i,
        {
            if self.pending[i].is_some() {
                assert(self@.pending[i as int] is Some);
                return true;
            }
            i = i + 1;
        }
        false
    }

    /// Clears a mapping word that nothing keeps any more. The mapping is gone by then: the
    /// word permits the producer to reclaim its bytes.
    pub(crate) fn unmap(&self, page: &mut ClaimMap, slot: usize)
        requires
            self.wf(),
            old(page).wf(),
            slot < old(page).spec_frames() + 2,
        ensures
            final(page).wf(),
            final(page).spec_frames() == old(page).spec_frames(),
            final(page).spec_len() == old(page).spec_len(),
            final(page)@ == self@.unmapped(old(page)@, slot),
    {
        if !self.uses(slot) {
            page.set_mapping_slot(slot, 0);
            page.signal_release();
        }
    }

    fn fail(&mut self, page: &mut ClaimMap, reason: String)
        requires
            old(self).wf(),
            old(page).wf(),
        ensures
            final(self).wf(),
            final(page).wf(),
            final(page).spec_frames() == old(page).spec_frames(),
            final(page).spec_len() == old(page).spec_len(),
            (final(self)@, final(page)@) == old(self)@.fails(old(page)@, reason@),
    {
        self.failure = Some(reason);
        page.close();
        assert(self@ =~= old(self)@.fails(old(page)@, reason@).0);
    }

    /// Why recovery is required, if it is.
    pub fn failure_reason(&self, now: u128) -> (result: Option<String>)
        requires
            self.wf(),
        ensures
            match result {
                Some(reason) => self@.failure_reason(now) == Some(reason@),
                None => self@.failure_reason(now) is None,
            },
    {
        if !self.waiting() {
            return None;
        }
        if let Some(reason) = &self.failure {
            return Some(reason.clone());
        }
        if let Some(deadline) = self.deadline {
            if now >= deadline {
                return Some(
                    String::from_str(
                        "consumer retirement deadline expired; mappings remain retained",
                    ),
                );
            }
        }
        None
    }

    /// Ends acquisition; the time to drain runs from the first end.
    fn begin_drain(&mut self, page: &mut ClaimMap, now: u128)
        requires
            old(self).wf(),
            old(page).wf(),
        ensures
            final(self).wf(),
            final(page).wf(),
            final(page).spec_frames() == old(page).spec_frames(),
            final(page).spec_len() == old(page).spec_len(),
            (final(self)@, final(page)@) == old(self)@.draining(old(page)@, now),
    {
        page.close();
        if self.deadline.is_none() {
            self.deadline = now.checked_add(self.drain_timeout);
        }
        self.wake = true;
        assert(self@ =~= old(self)@.draining(old(page)@, now).0);
    }

    /// Takes note of a completion that a source reports. Only the first report of a
    /// notification that is still awaited wakes the worker.
    pub fn notified(&mut self, notification: ReleaseNotification)
        requires
            old(self).wf(),
        ensures
            final(self).wf(),
            if notification.slot < old(self)@.armed.len()
                && old(self)@.armed[notification.slot as int] == Some(
                Armed { serial: notification.serial, fired: false },
            ) {
                final(self)@ == (ConsumerState {
                    armed: old(self)@.armed.update(
                        notification.slot as int,
                        Some(Armed { serial: notification.serial, fired: true }),
                    ),
                    wake: true,
                    ..old(self)@
                })
            } else {
                final(self)@ == old(self)@
            },
    {
        let slot: usize = notification.slot;
        if slot >= self.armed.len() {
            return;
        }
        if let Some(armed) = self.armed[slot] {
            if armed.serial == notification.serial && !armed.fired {
                self.armed.set(slot, Some(Armed { serial: notification.serial, fired: true }));
                self.wake = true;
                assert(self@ =~= (ConsumerState {
                    armed: old(self)@.armed.update(
                        slot as int,
                        Some(Armed { serial: notification.serial, fired: true }),
                    ),
                    wake: true,
                    ..old(self)@
                }));
            }
        }
    }

    /// Binds a completion source before asynchronous use. The source must observe the same
    /// actual completion signal as the producer's imported registration; `identity` tells
    /// it from other sources. Both ends retain their own handle: producer shutdown is not
    /// completion evidence.
    pub fn bind_release_timeline(
        &mut self,
        pages: &ArenaPages,
        registration: &ReleaseTimelineRegistration,
        identity: u64,
        source: T,
    ) -> (result: Result<ConsumerReleaseTimeline, ArenaError>)
        requires
            old(self).wf(),
            old(self).attached(*pages),
        ensures
            final(self).wf(),
            final(self).attached(*pages),
            ({
                let page = pages@.claims[old(self)@.incarnation.0];
                let known = {
                    &&& registration.incarnation == old(self)@.incarnation.0
                    &&& registration.scope == old(self)@.claim_scope
                    &&& 1 <= registration.id <= old(self)@.frames()
                    &&& page.registered[registration.id - 1] == registration.id
                };
                let index = registration.id - 1;
                if !known {
                    &&& result matches Err(error) && mapping_error(
                        error,
                        "release timeline belongs to another incarnation or is unregistered"@,
                    )
                    &&& final(self)@ == old(self)@
                } else if old(self)@.shut(pages@) {
                    &&& result == Err::<ConsumerReleaseTimeline, ArenaError>(ArenaError::Closed)
                    &&& final(self)@ == old(self)@
                } else if old(self)@.bound[index] matches Some(other) && other.identity != identity {
                    &&& result matches Err(error) && configuration_error(
                        error,
                        "release timeline already has a local binding"@,
                    )
                    &&& final(self)@ == old(self)@
                } else {
                    &&& result == Ok::<ConsumerReleaseTimeline, ArenaError>(
                        ConsumerReleaseTimeline {
                            registration: *registration,
                            index: index as usize,
                        },
                    )
                    &&& final(self)@ == (ConsumerState {
                        bound: if old(self)@.bound[index] is Some {
                            old(self)@.bound
                        } else {
                            old(self)@.bound.update(
                                index,
                                Some(Source { identity, timeline: source }),
                            )
                        },
                        ..old(self)@
                    })
                }
            }),
    {
        let frames: usize = self.held.len();
        if registration.incarnation != self.incarnation.0 || registration.scope != self.claim_scope
            || registration.id == 0 || registration.id > frames as u64 {
            return Err(
                ArenaError::Mapping(
                    "release timeline belongs to another incarnation or is unregistered",
                ),
            );
        }
        let index: usize = (registration.id - 1) as usize;
        let registered: u64 = match pages.claims.get(&self.incarnation.0) {
            Some(page) => page.registered_timeline(index),
            None => 0,
        };
        if registered != registration.id {
            return Err(
                ArenaError::Mapping(
                    "release timeline belongs to another incarnation or is unregistered",
                ),
            );
        }
        if self.is_closed(pages) {
            return Err(ArenaError::Closed);
        }
        let existing = match &self.sources[index] {
            Some(bound) => Some(bound.identity),
            None => None,
        };
        match existing {
            Some(other) => {
                if other != identity {
                    return Err(
                        ArenaError::Configuration("release timeline already has a local binding"),
                    );
                }
            },
            None => {
                self.sources.set(index, Some(Source { identity, timeline: source }));
            },
        }
        Ok(ConsumerReleaseTimeline { registration: *registration, index })
    }
}

impl ConsumerReleaseTimeline {
    /// Consumer mappings awaiting completion on this binding. Producer holding credit may
    /// remain charged until its separate observer finishes too.
    #[must_use]
    pub fn pending_releases<T>(&self, consumer: &ArenaConsumer<T>) -> (result: usize)
        requires
            consumer.wf(),
        ensures
            result == (if consumer@.bound_to(*self) {
                consumer@.waiting_on(self.index, consumer@.frames() as int)
            } else {
                0
            }),
    {
        if !self.belongs_to(consumer) {
            return 0;
        }
        let mut count: usize = 0;
        let mut i: usize = 0;
        while i < consumer.pending.len()
            invariant
                consumer.wf(),
                i <= consumer.pending@.len(),
                count <= i,
                count == consumer@.waiting_on(self.index, i as int),
            decreases consumer.pending@.len() - i,
        {
            if let Some(pending) = consumer.pending[i] {
                if pending.timeline == self.index {
                    count = count + 1;
                }
            }
            i = i + 1;
        }
        count
    }

    fn belongs_to<T>(&self, consumer: &ArenaConsumer<T>) -> (result: bool)
        requires
            consumer.wf(),
        ensures
            result == consumer@.bound_to(*self),
    {
        self.registration.incarnation == consumer.incarnation.0 && self.registration.scope
            == consumer.claim_scope && self.index < consumer.held.len() && match &consumer.sources[self.index] {
            Some(_) => true,
            None => false,
        }
    }

    /// Why recovery is required, if it is.
    #[must_use]
    pub fn cleanup_failure<T>(&self, consumer: &ArenaConsumer<T>, now: u128) -> (result: Option<
        String,
    >)
        requires
            consumer.wf(),
        ensures
            match result {
                Some(reason) => consumer@.bound_to(*self) && consumer@.failure_reason(now) == Some(
                    reason@,
                ),
                None => !consumer@.bound_to(*self) || consumer@.failure_reason(now) is None,
            },
    {
        if !self.belongs_to(consumer) {
            return None;
        }
        consumer.failure_reason(now)
    }

    /// Looks again after the host repaired its backend.
    pub fn retry_cleanup<T>(&self, consumer: &mut ArenaConsumer<T>, now: u128) -> (result: Result<
        (),
        ArenaError,
    >)
        requires
            old(consumer).wf(),
        ensures
            final(consumer).wf(),
            if !old(consumer)@.bound_to(*self) {
                result is Ok && final(consumer)@ == old(consumer)@
            } else {
                let again = ConsumerState { failure: None, wake: true, ..old(consumer)@ };
                &&& final(consumer)@ == again
                &&& match again.failure_reason(now) {
                    None => result is Ok,
                    Some(why) => result matches Err(ArenaError::RecoveryRequired { reason })
                        && reason@ == why,
                }
            },
    {
        if !self.belongs_to(consumer) {
            return Ok(());
        }
        consumer.failure = None;
        consumer.wake = true;
        assert(consumer@ =~= (ConsumerState { failure: None, wake: true, ..old(consumer)@ }));
        match consumer.failure_reason(now) {
            Some(reason) => Err(ArenaError::RecoveryRequired { reason }),
            None => Ok(()),
        }
    }
}

impl<T> ArenaConsumer<T> {
    /// What a look at a handed-over slot asks, if anything.
    pub fn question(&self, slot: usize) -> (result: Option<Question>)
        requires
            self.wf(),
            slot < self@.frames(),
        ensures
            result == self@.asks(slot as int),
    {
        let pending = match self.pending[slot] {
            None => {
                return None;
            },
            Some(pending) => pending,
        };
        assert(self@.pending[slot as int] == Some(pending));
        let arming = match self.armed[slot] {
            Some(armed) => if armed.fired {
                Some(ReleaseNotification { slot, serial: self.serial.wrapping_add(1) })
            } else {
                None
            },
            None => Some(ReleaseNotification { slot, serial: self.serial.wrapping_add(1) }),
        };
        Some(Question { timeline: pending.timeline as u64, value: pending.value, arming })
    }

    /// Takes what a handed-over slot's source answered, as far as it was asked: a failure is
    /// remembered and closes the incarnation, a completed use lets its mapping go and submits
    /// the release, and a notification that was armed is charged to the slot. The result is
    /// whether the look ends here.
    pub fn answer(&mut self, page: &mut ClaimMap, slot: usize, answer: TimelineAnswer) -> (result:
        bool)
        requires
            old(self).wf(),
            old(page).wf(),
            old(page).spec_frames() == old(self)@.frames(),
            slot < old(self)@.frames(),
        ensures
            final(self).wf(),
            final(page).wf(),
            final(page).spec_frames() == old(page).spec_frames(),
            final(page).spec_len() == old(page).spec_len(),
            final(self)@.frames() == old(self)@.frames(),
            (final(self)@, final(page)@, result) == old(self)@.looked(
                old(page)@,
                slot as int,
                answer,
            ),
    {
        let fired = match self.armed[slot] {
            Some(armed) => armed.fired,
            None => false,
        };
        if fired {
            self.armed.set(slot, None);
        }
        let ghost seen = ConsumerState {
            armed: if fired {
                old(self)@.armed.update(slot as int, None)
            } else {
                old(self)@.armed
            },
            ..old(self)@
        };
        assert(self@ =~= seen);
        let pending = match self.pending[slot] {
            None => {
                return false;
            },
            Some(pending) => pending,
        };
        assert(self@.pending[slot as int] == Some(pending));
        match answer.completed {
            Err(error) => {
                self.fail(page, error.message());
                true
            },
            Ok(completed) => {
                if completed >= pending.value {
                    // The mapping goes before the producer may return holding credit. The
                    // producer still checks its own imported completion source before it
                    // clears this claim.
                    self.pending.set(slot, None);
                    assert(self@ =~= (ConsumerState {
                        pending: seen.pending.update(slot as int, None),
                        ..seen
                    }));
                    self.unmap(page, pending.mapping.slot);
                    page.set_release_pending(slot, 2);
                    page.signal_release();
                } else if self.armed[slot].is_none() {
                    self.serial = self.serial.wrapping_add(1);
                    let serial: u64 = self.serial;
                    let ghost asked = ConsumerState { serial: next_serial(seen.serial), ..seen };
                    assert(self@ =~= asked);
                    match answer.armed {
                        Ok(()) => {
                            self.armed.set(slot, Some(Armed { serial, fired: false }));
                            assert(self@ =~= (ConsumerState {
                                armed: asked.armed.update(
                                    slot as int,
                                    Some(Armed { serial, fired: false }),
                                ),
                                ..asked
                            }));
                        },
                        Err(error) => {
                            self.fail(page, error.message());
                            return true;
                        },
                    }
                }
                false
            },
        }
    }
}

impl<T: ReleaseTimeline> ArenaConsumer<T> {
    /// Looks at one handed-over slot. The result is what its source answered, as far as it was
    /// asked, and whether the look ended here.
    fn look(&mut self, page: &mut ClaimMap, slot: usize) -> (result: (Ghost<TimelineAnswer>, bool))
        requires
            old(self).wf(),
            old(page).wf(),
            old(page).spec_frames() == old(self)@.frames(),
            slot < old(self)@.frames(),
        ensures
            final(self).wf(),
            final(page).wf(),
            final(page).spec_frames() == old(page).spec_frames(),
            final(page).spec_len() == old(page).spec_len(),
            final(self)@.frames() == old(self)@.frames(),
            (final(self)@, final(page)@, result.1) == old(self)@.looked(
                old(page)@,
                slot as int,
                result.0@,
            ),
            old(self)@.came(slot as int, result.0@),
    {
        let answer = match self.question(slot) {
            None => TimelineAnswer { completed: Ok(0), armed: Ok(()) },
            Some(question) => {
                assert(self@.bound[question.timeline as int] is Some);
                match &self.sources[question.timeline as usize] {
                    None => {
                        assert(false);
                        TimelineAnswer { completed: Ok(0), armed: Ok(()) }
                    },
                    Some(source) => {
                        let read = source.timeline.completed_value();
                        let behind = match &read {
                            Ok(completed) => *completed < question.value,
                            Err(_) => false,
                        };
                        let armed = match question.arming {
                            Some(notification) => if behind {
                                source.timeline.notify_at(question.value, notification)
                            } else {
                                Ok(())
                            },
                            None => Ok(()),
                        };
                        TimelineAnswer { completed: read, armed }
                    },
                }
            },
        };
        let ghost given = answer;
        let ended = self.answer(page, slot, answer);
        (Ghost(given), ended)
    }

    /// Looks at every handed-over slot. Whatever the sources answer, what changes is what
    /// those answers call for.
    fn poll(&mut self, page: &mut ClaimMap) -> (answered: Ghost<Seq<TimelineAnswer>>)
        requires
            old(self).wf(),
            old(page).wf(),
            old(page).spec_frames() == old(self)@.frames(),
        ensures
            final(self).wf(),
            final(page).wf(),
            final(page).spec_frames() == old(page).spec_frames(),
            final(page).spec_len() == old(page).spec_len(),
            final(self)@.frames() == old(self)@.frames(),
            old(self)@.complete_look(old(page)@, answered@),
            (final(self)@, final(page)@) == old(self)@.polled(old(page)@, answered@),
    {
        let ghost mut answers: Seq<TimelineAnswer> = Seq::empty();
        if self.failure.is_some() {
            return Ghost(answers);
        }
        let frames: usize = self.held.len();
        let mut slot: usize = 0;
        while slot < frames
            invariant
                self.wf(),
                page.wf(),
                page.spec_frames() == frames,
                frames == old(page).spec_frames(),
                page.spec_len() == old(page).spec_len(),
                frames == old(self)@.frames(),
                self@.frames() == frames,
                old(self)@.failure is None,
                slot <= frames,
                answers.len() == slot,
                old(self)@.looked_at(old(page)@, answers) == (self@, page@, false),
                old(self)@.answered(old(page)@, answers),
            decreases frames - slot,
        {
            let (answer, ended) = self.look(page, slot);
            proof {
                let more = answers.push(answer@);
                assert(more.drop_last() =~= answers);
                answers = more;
            }
            if ended {
                return Ghost(answers);
            }
            slot = slot + 1;
        }
        if self.closed && !self.waiting() {
            page.acknowledge_quiescent();
        }
        Ghost(answers)
    }

    /// Retires if no owner is left: what waits is looked at once more.
    fn leave(&mut self, page: &mut ClaimMap, now: u128) -> (answered: Ghost<Seq<TimelineAnswer>>)
        requires
            old(self).wf(),
            old(page).wf(),
            old(page).spec_frames() == old(self)@.frames(),
        ensures
            final(self).wf(),
            final(page).wf(),
            final(page).spec_frames() == old(page).spec_frames(),
            final(page).spec_len() == old(page).spec_len(),
            final(self)@.frames() == old(self)@.frames(),
            final(self)@.installed == old(self)@.installed,
            final(self)@.incarnation == old(self)@.incarnation,
            old(self)@.leaves_with(old(page)@, now, answered@),
            (final(self)@, final(page)@) == old(self)@.left(old(page)@, now, answered@),
    {
        if self.alive || self.leasing() {
            return Ghost(Seq::empty());
        }
        self.begin_drain(page, now);
        let ghost draining = self@;
        self.closed = true;
        assert(self@ =~= (ConsumerState { closed: true, ..draining }));
        let ghost closing = self@;
        let ghost start = page@;
        let answers = self.poll(page);
        let ghost polled = self@;
        self.wake = true;
        proof {
            assert(self@ =~= (ConsumerState { wake: true, ..polled }));
            lemma_polled_keeps_identity(closing, start, answers@);
        }
        answers
    }

    /// Gives a lease back: its credit is returned, and then what it kept is let go.
    pub fn release(&mut self, pages: &mut ArenaPages, lease: FrameLease, now: u128)
        requires
            old(self).wf(),
            old(self).attached(*old(pages)),
            old(self)@.holds(lease@),
        ensures
            final(self).wf(),
            final(self).attached(*final(pages)),
            ({
                let id = old(self)@.incarnation.0;
                let (after, page) = old(self)@.released(old(pages)@.claims[id], lease@);
                &&& after.may_leave(page, now, final(self)@, final(pages)@.claims[id])
                &&& final(pages)@ == old(pages)@.with_claims(id, final(pages)@.claims[id])
            }),
    {
        let terms = lease.terms();
        let id: u64 = self.incarnation.0;
        let ghost claims = pages.claims@;
        assert(self@.held[terms.slot as int] == Some(terms.mapping));
        match pages.claims.remove(&id) {
            None => {
                assert(false);
            },
            Some(mut page) => {
                assert(page@ == old(pages)@.claims[id]);
                page.return_credit(terms.slot);
                self.held.set(terms.slot, None);
                assert(self@ =~= old(self)@.gave_back(terms.slot));
                self.unmap(&mut page, terms.mapping.slot);
                let ghost after = self@;
                let ghost given = page@;
                let answers = self.leave(&mut page, now);
                pages.claims.insert(id, page);
                proof {
                    assert(old(self)@.released(old(pages)@.claims[id], lease@) == (after, given));
                    assert(after.left(given, now, answers@) == (self@, page@));
                    assert(pages@.claims =~= old(pages)@.with_claims(id, page@).claims);
                    assert(pages@ == old(pages)@.with_claims(id, page@));
                }
            },
        }
    }

    /// Hands a lease to both completion owners. The consumer retains its own mapping until its
    /// bound local completion; then the producer may return credit after it independently
    /// observed the registered completion. A failure returns the original still-owned frame.
    pub fn defer_release(
        &mut self,
        pages: &mut ArenaPages,
        frame: FrameLease,
        completion: &ConsumerReleaseTimeline,
        value: u64,
        now: u128,
    ) -> (result: Result<(), RejectedDeferredRelease>)
        requires
            old(self).wf(),
            old(self).attached(*old(pages)),
            old(self)@.holds(frame@),
        ensures
            final(self).wf(),
            final(self).attached(*final(pages)),
            match result {
                Err(rejected) => {
                    &&& rejected.frame == frame
                    &&& final(self)@ == old(self)@
                    &&& final(pages)@ == old(pages)@
                    &&& if !old(self)@.bound_to(*completion) {
                        mapping_error(
                            rejected.error,
                            "consumer completion belongs to another incarnation"@,
                        )
                    } else {
                        match old(self)@.failure_reason(now) {
                            Some(why) => rejected.error matches ArenaError::RecoveryRequired {
                                reason,
                            } && reason@ == why,
                            None => {
                                &&& old(self)@.pending[frame@.slot as int] is Some
                                &&& mapping_error(
                                    rejected.error,
                                    "consumer retirement slot is still in use"@,
                                )
                            },
                        }
                    }
                },
                Ok(()) => {
                    let id = old(self)@.incarnation.0;
                    let (after, page) = old(self)@.deferred(
                        old(pages)@.claims[id],
                        frame@,
                        completion.index,
                        completion.registration.id,
                        value,
                    );
                    &&& old(self)@.bound_to(*completion)
                    &&& old(self)@.failure_reason(now) is None
                    &&& old(self)@.pending[frame@.slot as int] is None
                    &&& after.may_leave(page, now, final(self)@, final(pages)@.claims[id])
                    &&& final(pages)@ == old(pages)@.with_claims(id, final(pages)@.claims[id])
                },
            },
    {
        if !completion.belongs_to(self) {
            return Err(
                RejectedDeferredRelease {
                    error: ArenaError::Mapping(
                        "consumer completion belongs to another incarnation",
                    ),
                    frame,
                },
            );
        }
        if let Some(reason) = self.failure_reason(now) {
            return Err(
                RejectedDeferredRelease { error: ArenaError::RecoveryRequired { reason }, frame },
            );
        }
        let terms = frame.terms();
        assert(self@.held[terms.slot as int] == Some(terms.mapping));
        if self.pending[terms.slot].is_some() {
            return Err(
                RejectedDeferredRelease {
                    error: ArenaError::Mapping("consumer retirement slot is still in use"),
                    frame,
                },
            );
        }
        let id: u64 = self.incarnation.0;
        match pages.claims.remove(&id) {
            None => {
                assert(false);
            },
            Some(mut page) => {
                let ghost start = page@;
                assert(start == old(pages)@.claims[id]);
                self.pending.set(
                    terms.slot,
                    Some(Pending { mapping: terms.mapping, timeline: completion.index, value }),
                );
                self.held.set(terms.slot, None);
                self.wake = true;
                page.defer(terms.slot, completion.registration.id, value);
                let ghost after = self@;
                let ghost given = page@;
                assert(after.pending =~= old(self)@.deferred(
                    start,
                    frame@,
                    completion.index,
                    completion.registration.id,
                    value,
                ).0.pending);
                assert(old(self)@.deferred(
                    start,
                    frame@,
                    completion.index,
                    completion.registration.id,
                    value,
                ) == (after, given));
                let answers = self.leave(&mut page, now);
                pages.claims.insert(id, page);
                proof {
                    assert(after.left(given, now, answers@) == (self@, page@));
                    assert(pages@.claims =~= old(pages)@.with_claims(id, page@).claims);
                    assert(pages@ == old(pages)@.with_claims(id, page@));
                }
            },
        }
        Ok(())
    }

    /// Ends the consumer itself. Its leases stay valid until they are released.
    pub fn close(&mut self, pages: &mut ArenaPages, now: u128)
        requires
            old(self).wf(),
            old(self).attached(*old(pages)),
        ensures
            final(self).wf(),
            final(self).attached(*final(pages)),
            if !old(self)@.alive {
                final(self)@ == old(self)@ && final(pages)@ == old(pages)@
            } else {
                let id = old(self)@.incarnation.0;
                let page = old(pages)@.claims[id];
                exists|answers: Seq<TimelineAnswer>|
                    {
                        &&& old(self)@.departs_with(page, now, answers)
                        &&& final(self)@ == (#[trigger] old(self)@.departed(page, now, answers)).0
                        &&& final(pages)@ == old(pages)@.with_claims(
                            id,
                            old(self)@.departed(page, now, answers).1,
                        )
                    }
            },
    {
        if !self.alive {
            return;
        }
        let id: u64 = self.incarnation.0;
        match pages.claims.remove(&id) {
            None => {
                assert(false);
            },
            Some(mut page) => {
                let ghost start = page@;
                assert(start == old(pages)@.claims[id]);
                self.begin_drain(&mut page, now);
                let ghost draining = self@;
                self.alive = false;
                assert(self@ =~= (ConsumerState { alive: false, ..draining }));
                let answers = self.leave(&mut page, now);
                let ghost left = self@;
                let installed = self.installed;
                self.installed = None;
                assert(self@ =~= (ConsumerState { installed: None, ..left }));
                if let Some(mapping) = installed {
                    self.unmap(&mut page, mapping.slot);
                }
                pages.claims.insert(id, page);
                proof {
                    assert(old(self)@.departed(start, now, answers@) == (self@, page@));
                    assert(pages@.claims =~= old(pages)@.with_claims(id, page@).claims);
                    assert(pages@ == old(pages)@.with_claims(id, page@));
                }
            },
        }
    }

    /// One round of the retirement worker: take the wakes that have come, look at everything,
    /// and say what to do next.
    pub fn retire(&mut self, pages: &mut ArenaPages, now: u128) -> (result: RetirementStep)
        requires
            old(self).wf(),
            old(self).attached(*old(pages)),
        ensures
            final(self).wf(),
            final(self).attached(*final(pages)),
            ({
                let id = old(self)@.incarnation.0;
                let page = old(pages)@.claims[id];
                let woken = ConsumerState { wake: false, ..old(self)@ };
                exists|answers: Seq<TimelineAnswer>|
                    {
                        &&& woken.complete_look(page, answers)
                        &&& final(self)@ == (#[trigger] woken.polled(page, answers)).0
                        &&& final(pages)@ == old(pages)@.with_claims(
                            id,
                            woken.polled(page, answers).1,
                        )
                    }
            }),
            result == (if final(self)@.closed && !final(self)@.waiting() {
                RetirementStep::Done
            } else {
                RetirementStep::Sleep {
                    deadline: match final(self)@.deadline {
                        Some(deadline) => if deadline > now {
                            Some(deadline)
                        } else {
                            None
                        },
                        None => None,
                    },
                }
            }),
    {
        self.wake = false;
        let ghost woken = self@;
        assert(woken =~= (ConsumerState { wake: false, ..old(self)@ }));
        let id: u64 = self.incarnation.0;
        match pages.claims.remove(&id) {
            None => {
                assert(false);
            },
            Some(mut page) => {
                let ghost start = page@;
                assert(start == old(pages)@.claims[id]);
                let answers = self.poll(&mut page);
                pages.claims.insert(id, page);
                proof {
                    lemma_polled_keeps_identity(woken, start, answers@);
                    assert(woken.polled(start, answers@) == (self@, page@));
                    assert(pages@.claims =~= old(pages)@.with_claims(id, page@).claims);
                    assert(pages@ == old(pages)@.with_claims(id, page@));
                }
            },
        }
        if self.closed && !self.waiting() {
            return RetirementStep::Done;
        }
        RetirementStep::Sleep {
            deadline: match self.deadline {
                Some(deadline) => if deadline > now {
                    Some(deadline)
                } else {
                    None
                },
                None => None,
            },
        }
    }
}

/// A look changes neither whose tables these are nor what is installed.
proof fn lemma_looked_at_keeps_identity<T>(
    state: ConsumerState<T>,
    page: ClaimPage,
    answers: Seq<TimelineAnswer>,
)
    ensures
        state.looked_at(page, answers).0.incarnation == state.incarnation,
        state.looked_at(page, answers).0.installed == state.installed,
    decreases answers.len(),
{
    if answers.len() > 0 {
        lemma_looked_at_keeps_identity(state, page, answers.drop_last());
    }
}

proof fn lemma_polled_keeps_identity<T>(
    state: ConsumerState<T>,
    page: ClaimPage,
    answers: Seq<TimelineAnswer>,
)
    ensures
        state.polled(page, answers).0.incarnation == state.incarnation,
        state.polled(page, answers).0.installed == state.installed,
{
    lemma_looked_at_keeps_identity(state, page, answers);
}

} // verus!
