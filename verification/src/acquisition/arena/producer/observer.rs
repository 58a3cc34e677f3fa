//! One sleeping owner per admitted incarnation handles closure, process exit and release
//! completion, also while publication is idle. Here is what it does between two sleeps.

use super::ArenaProducer;
use crate::acquisition::arena::claims::{ClaimMap, ClaimPage};
use crate::acquisition::arena::cleanup::{
    observes, Armed, Observation, ObservationState, ProcessExit, ReleaseNotification,
    ReleaseTimeline, TimelineAnswer,
};
use crate::acquisition::arena::producer::collection::{lemma_one_page, lemma_saw_process_keeps};
use crate::acquisition::arena::state::ProducerState;
use crate::acquisition::arena::upkeep::{lemma_polled_keeps, same_page};
use crate::acquisition::IncarnationId;
use vstd::prelude::*;

verus! {

/// What an observer does next.
#[derive(Debug, Clone, Copy, PartialEq, Eq, Structural)]
pub enum ObserverStep {
    /// Nothing is left to observe, or nothing can be.
    Ended,
    /// Sleep until a wake, the watched process's exit or this time comes.
    Sleep { watching: bool, deadline: Option<u128> },
}

impl<T> Observation<T> {
    /// One round after the wakes that had come were taken, with these answers.
    pub open spec fn worked(
        self,
        page: ClaimPage,
        exit: ProcessExit,
        now: u128,
        answers: Seq<TimelineAnswer>,
    ) -> (Observation<T>, ClaimPage) {
        let seen = self.saw_process(ClaimPage { release_wake: false, ..page }, exit);
        seen.0.polled(seen.1, now, answers)
    }
}

impl<T: ReleaseTimeline> Observation<T> {
    /// Whether a round can end like this, for some answers of the timelines.
    pub open spec fn may_work(
        self,
        page: ClaimPage,
        exit: ProcessExit,
        now: u128,
        after: Observation<T>,
        left: ClaimPage,
    ) -> bool {
        exists|answers: Seq<TimelineAnswer>|
            self.works_with(page, exit, now, answers) && #[trigger] self.worked(
                page,
                exit,
                now,
                answers,
            ) == (after, left)
    }

    /// Whether the answers make a whole look in a round.
    pub open spec fn works_with(
        self,
        page: ClaimPage,
        exit: ProcessExit,
        now: u128,
        answers: Seq<TimelineAnswer>,
    ) -> bool {
        let seen = self.saw_process(ClaimPage { release_wake: false, ..page }, exit);
        seen.0.complete_look(seen.1, now, answers)
    }
}

impl<T> Observation<T> {
    /// What the observer does after a round.
    pub open spec fn next_step(self, page: ClaimPage) -> ObserverStep {
        if page.drained() {
            ObserverStep::Ended
        } else {
            ObserverStep::Sleep {
                watching: self.watched,
                deadline: if self.failure_reason(page) is Some {
                    None
                } else {
                    self.deadline
                },
            }
        }
    }
}

impl<T: ReleaseTimeline> ObservationState<T> {
    /// One round of the observer: take the wakes that have come BEFORE looking, so that a
    /// later handoff or completion leaves one for the following sleep; then look. `channel`
    /// says whether the wakes could be taken, and `exit` what the system says of a watched
    /// process.
    pub fn work(
        &mut self,
        page: &mut ClaimMap,
        channel: Result<(), String>,
        exit: ProcessExit,
        now: u128,
    ) -> (result: ObserverStep)
        requires
            old(page).wf(),
            observes(old(self)@, old(page).spec_frames()),
        ensures
            final(page).wf(),
            final(page).spec_frames() == old(page).spec_frames(),
            final(page).spec_len() == old(page).spec_len(),
            observes(final(self)@, final(page).spec_frames()),
            match channel {
                Err(reason) => {
                    &&& result == ObserverStep::Ended
                    &&& (final(self)@, final(page)@) == (Observation {
                        notification_failed: true,
                        ..old(self)@
                    }).fails(old(page)@, reason@)
                },
                Ok(()) => {
                    &&& old(self)@.may_work(
                        old(page)@,
                        exit,
                        now,
                        final(self)@,
                        final(page)@,
                    )
                    &&& result == final(self)@.next_step(final(page)@)
                },
            },
    {
        if let Err(reason) = channel {
            self.fail_notification(page, reason);
            return ObserverStep::Ended;
        }
        page.drain_release_wake();
        self.observe_process(page, exit);
        let ghost seen = (self@, page@);
        self.poll(page, now);
        proof {
            let answers = choose|answers: Seq<TimelineAnswer>|
                {
                    &&& #[trigger] seen.0.polled(seen.1, now, answers) == (self@, page@)
                    &&& seen.0.complete_look(seen.1, now, answers)
                };
            assert(old(self)@.works_with(old(page)@, exit, now, answers));
            assert(old(self)@.worked(old(page)@, exit, now, answers) == (self@, page@));
        }
        if page.is_drained() {
            return ObserverStep::Ended;
        }
        ObserverStep::Sleep { watching: self.watched(), deadline: self.wake_deadline(page) }
    }
}

impl<T> Observation<T> {
    /// Whether a notification is awaited: it is armed and has not been reported yet.
    pub open spec fn awaits(self, notification: ReleaseNotification) -> bool {
        &&& notification.slot < self.armed.len()
        &&& self.armed[notification.slot as int] == Some(
            Armed { serial: notification.serial, fired: false },
        )
    }
}

impl<T> ArenaProducer<T> {
    /// Takes note of a completion that a registered timeline reports. Only the first report of
    /// a notification that is still awaited wakes the incarnation's observer.
    pub fn notified(&mut self, incarnation: IncarnationId, notification: ReleaseNotification)
        requires
            old(self).wf(),
        ensures
            final(self).wf(),
            ({
                let id = incarnation.0;
                let page = old(self)@.pages.claims[id];
                let observation = old(self)@.cleanup[id];
                if old(self)@.cleanup.contains_key(id) && observation.awaits(notification) {
                    final(self)@ == (ProducerState {
                        pages: old(self)@.pages.with_claims(
                            id,
                            ClaimPage { release_wake: true, ..page },
                        ),
                        cleanup: old(self)@.cleanup.insert(
                            id,
                            Observation {
                                armed: observation.armed.update(
                                    notification.slot as int,
                                    Some(Armed { serial: notification.serial, fired: true }),
                                ),
                                ..observation
                            },
                        ),
                        ..old(self)@
                    })
                } else {
                    final(self)@ == old(self)@
                }
            }),
    {
        let id: u64 = incarnation.0;
        let ghost start = self@;
        let ghost claims = self.pages.claims@;
        let ghost states = self.cleanup@;
        proof {
            self.admission.accounts_are_consistent();
            assert(start.cleanup.dom() =~= states.dom());
            assert(start.pages.claims.dom() =~= claims.dom());
            if start.cleanup.contains_key(id) {
                assert(start.pages.claims.contains_key(id));
                assert(start.claim_proper(id));
                claims[id].page_is_shaped();
            }
        }
        match (self.cleanup.remove(&id), self.pages.claims.remove(&id)) {
            (Some(mut state), Some(mut page)) => {
                notification.notify(&mut state, &mut page);
                self.cleanup.insert(id, state);
                self.pages.claims.insert(id, page);
                proof {
                    page.page_is_shaped();
                    let after = ProducerState {
                        pages: start.pages.with_claims(id, page@),
                        cleanup: start.cleanup.insert(id, state@),
                        ..start
                    };
                    assert(self@.pages.claims =~= after.pages.claims);
                    assert(self@.cleanup =~= after.cleanup);
                    assert(self@ == after);
                    assert(after.accounts.reservations =~= start.accounts.reservations.insert(
                        id,
                        after.accounts.reservations[id],
                    ));
                    lemma_one_page(start, after, id);
                    if !start.cleanup[id].awaits(notification) {
                        assert(after.pages.claims =~= start.pages.claims);
                        assert(after.cleanup =~= start.cleanup);
                    }
                }
            },
            _ => {
                proof {
                    assert(self.cleanup@ =~= states);
                    assert(self.pages.claims@ =~= claims);
                }
            },
        }
    }
}

impl<T: ReleaseTimeline> ArenaProducer<T> {
    /// One round of an incarnation's observer.
    pub fn work(
        &mut self,
        incarnation: IncarnationId,
        channel: Result<(), String>,
        exit: ProcessExit,
        now: u128,
    ) -> (result: ObserverStep)
        requires
            old(self).wf(),
        ensures
            final(self).wf(),
            ({
                let id = incarnation.0;
                let page = old(self)@.pages.claims[id];
                let observation = old(self)@.cleanup[id];
                if !old(self)@.cleanup.contains_key(id) {
                    result == ObserverStep::Ended && final(self)@ == old(self)@
                } else {
                    &&& final(self)@ == (ProducerState {
                        pages: old(self)@.pages.with_claims(id, final(self)@.pages.claims[id]),
                        cleanup: old(self)@.cleanup.insert(id, final(self)@.cleanup[id]),
                        ..old(self)@
                    })
                    &&& match channel {
                        Err(reason) => {
                            &&& result == ObserverStep::Ended
                            &&& (final(self)@.cleanup[id], final(self)@.pages.claims[id]) == (
                            Observation { notification_failed: true, ..observation }).fails(
                                page,
                                reason@,
                            )
                        },
                        Ok(()) => {
                            &&& observation.may_work(
                                page,
                                exit,
                                now,
                                final(self)@.cleanup[id],
                                final(self)@.pages.claims[id],
                            )
                            &&& result == final(self)@.cleanup[id].next_step(
                                final(self)@.pages.claims[id],
                            )
                        },
                    }
                }
            }),
    {
        let id: u64 = incarnation.0;
        let ghost start = self@;
        let ghost claims = self.pages.claims@;
        let ghost states = self.cleanup@;
        let ghost failed = channel is Err;
        proof {
            self.admission.accounts_are_consistent();
            assert(start.cleanup.dom() =~= states.dom());
            assert(start.pages.claims.dom() =~= claims.dom());
            if start.cleanup.contains_key(id) {
                assert(start.pages.claims.contains_key(id));
                assert(start.claim_proper(id));
                claims[id].page_is_shaped();
            }
        }
        match (self.cleanup.remove(&id), self.pages.claims.remove(&id)) {
            (Some(mut state), Some(mut page)) => {
                let step = state.work(&mut page, channel, exit, now);
                self.cleanup.insert(id, state);
                self.pages.claims.insert(id, page);
                proof {
                    page.page_is_shaped();
                    let frames = start.accounts.reservations[id].frames as nat;
                    let before = start.pages.claims[id];
                    let after = ProducerState {
                        pages: start.pages.with_claims(id, page@),
                        cleanup: start.cleanup.insert(id, state@),
                        ..start
                    };
                    if !failed {
                        let drained = ClaimPage { release_wake: false, ..before };
                        let seen = start.cleanup[id].saw_process(drained, exit);
                        let answers = choose|answers: Seq<TimelineAnswer>|
                            start.cleanup[id].works_with(before, exit, now, answers)
                                && #[trigger] start.cleanup[id].worked(before, exit, now, answers)
                                == (state@, page@);
                        lemma_saw_process_keeps(start.cleanup[id], drained, exit, frames);
                        lemma_saw_process_observes(start.cleanup[id], drained, exit, frames);
                        lemma_polled_keeps(seen.0, seen.1, now, answers, frames);
                    }
                    assert(same_page(before, page@, frames));
                    assert(self@.pages.claims =~= after.pages.claims);
                    assert(self@.cleanup =~= after.cleanup);
                    assert(self@ == after);
                    assert(after.accounts.reservations =~= start.accounts.reservations.insert(
                        id,
                        after.accounts.reservations[id],
                    ));
                    lemma_one_page(start, after, id);
                }
                step
            },
            _ => {
                proof {
                    assert(self.cleanup@ =~= states);
                    assert(self.pages.claims@ =~= claims);
                }
                ObserverStep::Ended
            },
        }
    }
}

/// What is taken note of a process keeps the observation's tables.
proof fn lemma_saw_process_observes<T>(
    observation: Observation<T>,
    page: ClaimPage,
    exit: ProcessExit,
    frames: nat,
)
    requires
        page.shaped(frames),
        observes(observation, frames),
    ensures
        observes(observation.saw_process(page, exit).0, frames),
{
    if observation.watched && exit is Exited {
        let left = page.closed().acknowledged();
        lemma_swept_observes(
            Observation { watched: false, ..observation },
            ClaimPage { mappings: Seq::new(page.mappings.len(), |i: int| 0u64), ..left },
            page.slots.len() as int,
            frames,
        );
    }
}

proof fn lemma_swept_observes<T>(observation: Observation<T>, page: ClaimPage, count: int, frames: nat)
    requires
        observes(observation, frames),
        !observation.watched,
    ensures
        observes(observation.swept_to(page, count).0, frames),
        !observation.swept_to(page, count).0.watched,
    decreases count,
{
    if count > 0 {
        lemma_swept_observes(observation, page, count - 1, frames);
    }
}

} // verus!
