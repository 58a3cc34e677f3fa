//! The mathematical model of a consumer: what it holds, what waits for a completion, and what
//! its steps do to the pages.

use super::claims::{first_free, ClaimPage};
use super::cleanup::{
    next_serial, replied, Armed, Question, ReleaseNotification, ReleaseTimeline, TimelineAnswer,
};
use super::consumer::Source;
use super::layout::ResourceLayout;
use super::mapping::ControlPage;
use super::pages::Pages;
use super::{state_word, FrameDescriptor, ScopeId};
use crate::acquisition::IncarnationId;
use vstd::prelude::*;

verus! {

/// One mapping of a resource generation, recorded in a mapping word of the claim page.
#[derive(Debug, Clone, Copy, PartialEq, Eq, Structural)]
pub struct Mapping {
    pub generation: u64,
    pub slot: usize,
    pub layout: ResourceLayout,
}

/// A held slot that waits for the completion of a timeline.
#[derive(Debug, Clone, Copy, PartialEq, Eq, Structural)]
pub struct Pending {
    pub mapping: Mapping,
    pub timeline: usize,
    pub value: u64,
}

/// What a lease names.
#[derive(Debug, Clone, Copy, PartialEq, Eq, Structural)]
pub struct LeaseTerms {
    pub descriptor: FrameDescriptor,
    /// The claim slot.
    pub slot: usize,
    /// The resource.
    pub index: usize,
    pub mapping: Mapping,
}

/// What comes of an attempt to acquire a frame.
pub enum Acquisition {
    Frame(LeaseTerms),
    Empty,
    Miss { cursor: u64 },
    Gap { first: u64, last: u64 },
    HoldingLimit,
    Reconfiguration,
    Closed,
    /// The shared pages contradict themselves.
    Refused(Seq<char>),
}

/// The state of one consumer incarnation on its own side.
#[verifier::ext_equal]
pub struct ConsumerState<T> {
    pub incarnation: IncarnationId,
    pub arena_scope: ScopeId,
    pub claim_scope: ScopeId,
    pub recipient_pid: u32,
    /// Whether the consumer itself is still there; leases can outlive it.
    pub alive: bool,
    pub installed: Option<Mapping>,
    /// The mapping that each claim slot's lease keeps.
    pub held: Seq<Option<Mapping>>,
    pub pending: Seq<Option<Pending>>,
    pub armed: Seq<Option<Armed>>,
    /// The completion source that is bound to each registration.
    pub bound: Seq<Option<Source<T>>>,
    /// Whether the last owner is gone.
    pub closed: bool,
    pub failure: Option<Seq<char>>,
    pub drain_timeout: u128,
    pub deadline: Option<u128>,
    pub serial: u64,
    /// Whether a wake is on its way to the retirement worker.
    pub wake: bool,
    /// The page size that layouts are rounded to.
    pub page_size: i64,
}

pub open spec fn mapping_fits(mapping: Mapping, frames: nat, page_size: int) -> bool {
    mapping.slot < frames + 2 && mapping.layout.consistent(page_size)
}

impl<T> ConsumerState<T> {
    pub open spec fn frames(self) -> nat {
        self.held.len()
    }

    /// The tables cover the holding, every mapping has its word, and everything that waits
    /// waits for a bound source.
    pub open spec fn inv(self, page_size: int) -> bool {
        &&& self.pending.len() == self.frames()
        &&& self.armed.len() == self.frames()
        &&& self.bound.len() == self.frames()
        &&& self.installed matches Some(mapping) ==> mapping_fits(
            mapping,
            self.frames(),
            page_size,
        )
        &&& forall|i: int|
            0 <= i < self.frames() ==> ((#[trigger] self.held[i]) matches Some(mapping)
                ==> mapping_fits(mapping, self.frames(), page_size))
        &&& forall|i: int|
            0 <= i < self.frames() ==> ((#[trigger] self.pending[i]) matches Some(pending)
                ==> mapping_fits(pending.mapping, self.frames(), page_size) && pending.timeline
                < self.frames() && self.bound[pending.timeline as int] is Some)
    }

    /// Whether anything keeps a mapping word.
    pub open spec fn uses(self, slot: usize) -> bool {
        ||| self.installed matches Some(mapping) && mapping.slot == slot
        ||| exists|i: int|
            0 <= i < self.frames() && ((#[trigger] self.held[i]) matches Some(mapping)
                && mapping.slot == slot)
        ||| exists|i: int|
            0 <= i < self.frames() && ((#[trigger] self.pending[i]) matches Some(pending)
                && pending.mapping.slot == slot)
    }

    /// Whether a lease is outstanding.
    pub open spec fn leasing(self) -> bool {
        exists|i: int| 0 <= i < self.frames() && (#[trigger] self.held[i]) is Some
    }

    /// Whether a handed-over slot waits.
    pub open spec fn waiting(self) -> bool {
        exists|i: int| 0 <= i < self.frames() && (#[trigger] self.pending[i]) is Some
    }

    /// Whether a lease is this consumer's.
    pub open spec fn holds(self, lease: LeaseTerms) -> bool {
        lease.slot < self.frames() && self.held[lease.slot as int] == Some(lease.mapping)
    }

    /// Whether acquisition is over.
    pub open spec fn shut(self, pages: Pages) -> bool {
        pages.claims[self.incarnation.0].active == 0 || pages.control.terminal != 0
    }

    /// Whether the mapping is the installed resource generation.
    pub open spec fn configured(self, pages: Pages) -> bool {
        self.installed matches Some(mapping) && mapping.generation == pages.control.configuration
    }

    /// The page, after a mapping word that nothing keeps any more has been cleared.
    pub open spec fn unmapped(self, page: ClaimPage, slot: usize) -> ClaimPage {
        if self.uses(slot) {
            page
        } else {
            ClaimPage { release_wake: true, ..page.remapped(slot as int, 0) }
        }
    }

    /// A slot that was claimed is given back.
    pub open spec fn gave_back(self, slot: usize) -> ConsumerState<T> {
        ConsumerState { held: self.held.update(slot as int, None), ..self }
    }

    /// What an attempt to acquire one cursor gives, once the resources are configured.
    pub open spec fn acquired(self, pages: Pages, cursor: u64) -> (
        ConsumerState<T>,
        Pages,
        Acquisition,
    ) {
        let id = self.incarnation.0;
        let mapping = self.installed->0;
        let resources = pages.resources[mapping.generation];
        let position = pages.control.ring[pages.control.position(cursor)];
        if position == 0 || position > mapping.layout.resources {
            (self, pages, Acquisition::Refused("advertised resource index is invalid"@))
        } else {
            let index = (position - 1) as usize;
            match first_free(pages.claims[id].slots) {
                None => (self, pages, Acquisition::HoldingLimit),
                Some(slot) => {
                    let claimed = pages.claims[id].taken(slot, cursor);
                    let holding = ConsumerState {
                        held: self.held.update(slot, Some(mapping)),
                        ..self
                    };
                    let verdict = self.verdict(pages, cursor, index);
                    if verdict is Frame {
                        (
                            holding,
                            pages.with_claims(id, claimed),
                            Acquisition::Frame(
                                LeaseTerms {
                                    descriptor: resources.records[index as int].descriptor,
                                    slot: slot as usize,
                                    index,
                                    mapping,
                                },
                            ),
                        )
                    } else {
                        (
                            holding.gave_back(slot as usize),
                            pages.with_claims(id, claimed.credited(slot)),
                            verdict,
                        )
                    }
                },
            }
        }
    }

    /// What a claimed resource is found to be: `Frame` if the claim holds.
    pub open spec fn verdict(self, pages: Pages, cursor: u64, index: usize) -> Acquisition {
        let record = pages.resources[(self.installed->0).generation].records[index as int];
        if record.state != state_word(cursor, true) {
            Acquisition::Miss { cursor }
        } else {
            self.finding(pages, cursor, index)
        }
    }

    /// What a claimed and validated resource is found to be.
    pub open spec fn finding(self, pages: Pages, cursor: u64, index: usize) -> Acquisition {
        let mapping = self.installed->0;
        let descriptor = pages.resources[mapping.generation].records[index as int].descriptor;
        if self.shut(pages) {
            Acquisition::Closed
        } else if !self.configured(pages) {
            Acquisition::Reconfiguration
        } else if descriptor.cursor != cursor || descriptor.payload_offset
            != mapping.layout.spec_payload_offset(index as int) || descriptor.payload_len
            > mapping.layout.payload_capacity {
            Acquisition::Refused(
                "leased descriptor contradicts resource identity or bounds"@,
            )
        } else {
            Acquisition::Frame(LeaseTerms { descriptor, slot: 0, index, mapping })
        }
    }

    /// A slot has been claimed for a frame of the installed storage.
    pub open spec fn claimed_in(self, slot: int) -> ConsumerState<T> {
        ConsumerState { held: self.held.update(slot, self.installed), ..self }
    }

    /// What comes of a claimed resource that was found to hold the frame still, or not. A claim
    /// that comes to nothing returns its credit.
    pub open spec fn concluded(
        self,
        pages: Pages,
        cursor: u64,
        index: usize,
        slot: usize,
        valid: bool,
    ) -> (ConsumerState<T>, Pages, Acquisition) {
        let id = self.incarnation.0;
        let verdict = if valid {
            self.finding(pages, cursor, index)
        } else {
            Acquisition::Miss { cursor }
        };
        if let Acquisition::Frame(terms) = verdict {
            (self, pages, Acquisition::Frame(LeaseTerms { slot, ..terms }))
        } else {
            (
                self.gave_back(slot),
                pages.with_claims(id, pages.claims[id].credited(slot as int)),
                verdict,
            )
        }
    }

    /// The oldest cursor that is still advertised.
    pub open spec fn oldest(self, control: ControlPage) -> int {
        let oldest = if control.latest > control.ring.len() - 1 {
            control.latest - (control.ring.len() - 1)
        } else {
            0
        };
        if oldest < control.first_cursor {
            control.first_cursor as int
        } else {
            oldest
        }
    }

    /// No frame is advertised under cursor zero, where ordered delivery could reach it. Every
    /// page that a producer made is like this: its first cursor is at least one.
    pub open spec fn cursors_start_at_one(self, control: ControlPage, after: u64) -> bool {
        after == 0 && control.latest != 0 ==> self.oldest(control) != 0
    }

    /// What asking for the newest frame after a cursor gives.
    pub open spec fn acquired_latest(self, pages: Pages, after: u64) -> (
        ConsumerState<T>,
        Pages,
        Acquisition,
    ) {
        let cursor = pages.control.latest;
        if self.shut(pages) {
            (self, pages, Acquisition::Closed)
        } else if !self.configured(pages) {
            (self, pages, Acquisition::Reconfiguration)
        } else if cursor == 0 || cursor <= after || cursor < pages.control.first_cursor {
            (self, pages, Acquisition::Empty)
        } else {
            self.acquired(pages, cursor)
        }
    }

    /// What ordered retained delivery after a cursor gives.
    pub open spec fn acquired_next(self, pages: Pages, after: u64) -> (
        ConsumerState<T>,
        Pages,
        Acquisition,
    ) {
        let latest = pages.control.latest;
        let oldest = self.oldest(pages.control);
        let cursor = if after == 0 {
            oldest
        } else {
            after + 1
        };
        if self.shut(pages) {
            (self, pages, Acquisition::Closed)
        } else if !self.configured(pages) {
            (self, pages, Acquisition::Reconfiguration)
        } else if latest == 0 || after >= latest {
            (self, pages, Acquisition::Empty)
        } else if cursor < oldest {
            (
                self,
                pages,
                Acquisition::Gap { first: cursor as u64, last: (oldest - 1) as u64 },
            )
        } else if cursor > latest {
            (self, pages, Acquisition::Empty)
        } else {
            self.acquired(pages, cursor as u64)
        }
    }

    /// What asking for precisely one cursor gives.
    pub open spec fn acquired_exact(self, pages: Pages, cursor: u64) -> (
        ConsumerState<T>,
        Pages,
        Acquisition,
    ) {
        if self.shut(pages) {
            (self, pages, Acquisition::Closed)
        } else if !self.configured(pages) {
            (self, pages, Acquisition::Reconfiguration)
        } else if cursor > pages.control.latest {
            (self, pages, Acquisition::Empty)
        } else if cursor < self.oldest(pages.control) {
            (self, pages, Acquisition::Miss { cursor })
        } else {
            self.acquired(pages, cursor)
        }
    }

    /// A failure ends acquisition and is remembered.
    pub open spec fn fails(self, page: ClaimPage, reason: Seq<char>) -> (ConsumerState<T>, ClaimPage) {
        (ConsumerState { failure: Some(reason), ..self }, page.closed())
    }

    /// Why recovery is required, if it is.
    pub open spec fn failure_reason(self, now: u128) -> Option<Seq<char>> {
        if !self.waiting() {
            None
        } else if self.failure is Some {
            self.failure
        } else if self.deadline matches Some(deadline) && now >= deadline {
            Some("consumer retirement deadline expired; mappings remain retained"@)
        } else {
            None
        }
    }

    /// One handed-over slot has been looked at, and its source answered like this if it was
    /// asked. The flag says that the look ended here.
    pub open spec fn looked(self, page: ClaimPage, slot: int, answer: TimelineAnswer) -> (
        ConsumerState<T>,
        ClaimPage,
        bool,
    ) {
        let seen = ConsumerState {
            armed: if self.armed[slot] matches Some(armed) && armed.fired {
                self.armed.update(slot, None)
            } else {
                self.armed
            },
            ..self
        };
        match self.pending[slot] {
            None => (seen, page, false),
            Some(pending) => match answer.completed {
                Err(error) => {
                    let (failed, closed) = seen.fails(page, error.reported());
                    (failed, closed, true)
                },
                Ok(completed) => {
                    if completed >= pending.value {
                        let done = ConsumerState { pending: seen.pending.update(slot, None), ..seen };
                        let left = done.unmapped(page, pending.mapping.slot);
                        (
                            done,
                            ClaimPage {
                                pending: left.pending.update(slot, 2),
                                release_wake: true,
                                ..left
                            },
                            false,
                        )
                    } else if seen.armed[slot] is None {
                        let serial = next_serial(seen.serial);
                        let asked = ConsumerState { serial, ..seen };
                        match answer.armed {
                            Err(error) => {
                                let (failed, closed) = asked.fails(page, error.reported());
                                (failed, closed, true)
                            },
                            Ok(()) => (
                                ConsumerState {
                                    armed: asked.armed.update(
                                        slot,
                                        Some(Armed { serial, fired: false }),
                                    ),
                                    ..asked
                                },
                                page,
                                false,
                            ),
                        }
                    } else {
                        (seen, page, false)
                    }
                },
            },
        }
    }

    /// The first slots have been looked at, with these answers.
    pub open spec fn looked_at(self, page: ClaimPage, answers: Seq<TimelineAnswer>) -> (
        ConsumerState<T>,
        ClaimPage,
        bool,
    )
        decreases answers.len(),
    {
        if answers.len() == 0 {
            (self, page, false)
        } else {
            let before = self.looked_at(page, answers.drop_last());
            if before.2 {
                before
            } else {
                before.0.looked(before.1, answers.len() - 1, answers.last())
            }
        }
    }

    /// A whole look, with these answers. Once the last owner is gone and nothing waits, the
    /// consumer will not touch the page again.
    pub open spec fn polled(self, page: ClaimPage, answers: Seq<TimelineAnswer>) -> (
        ConsumerState<T>,
        ClaimPage,
    ) {
        if self.failure is Some {
            (self, page)
        } else {
            let all = self.looked_at(page, answers);
            if !all.2 && all.0.closed && !all.0.waiting() {
                (all.0, all.1.acknowledged())
            } else {
                (all.0, all.1)
            }
        }
    }

    /// Acquisition is over, and the time to drain runs.
    pub open spec fn draining(self, page: ClaimPage, now: u128) -> (ConsumerState<T>, ClaimPage) {
        (
            ConsumerState {
                deadline: if self.deadline is Some {
                    self.deadline
                } else if now + self.drain_timeout > u128::MAX {
                    None
                } else {
                    Some((now + self.drain_timeout) as u128)
                },
                wake: true,
                ..self
            },
            page.closed(),
        )
    }

    /// The last owner is gone: what waits is looked at once more.
    pub open spec fn retired(self, page: ClaimPage, now: u128, answers: Seq<TimelineAnswer>) -> (
        ConsumerState<T>,
        ClaimPage,
    ) {
        let (drain, closed) = self.draining(page, now);
        let (after, left) = ConsumerState { closed: true, ..drain }.polled(closed, answers);
        (ConsumerState { wake: true, ..after }, left)
    }

    /// Retires if no owner is left.
    pub open spec fn left(self, page: ClaimPage, now: u128, answers: Seq<TimelineAnswer>) -> (
        ConsumerState<T>,
        ClaimPage,
    ) {
        if self.alive || self.leasing() {
            (self, page)
        } else {
            self.retired(page, now, answers)
        }
    }

    /// A lease ends: its credit is returned, and then what it kept is let go.
    pub open spec fn released(self, page: ClaimPage, lease: LeaseTerms) -> (ConsumerState<T>, ClaimPage) {
        let after = self.gave_back(lease.slot);
        (after, after.unmapped(page.credited(lease.slot as int), lease.mapping.slot))
    }

    /// A lease is handed to the completion of a timeline.
    pub open spec fn deferred(
        self,
        page: ClaimPage,
        lease: LeaseTerms,
        timeline: usize,
        id: u64,
        value: u64,
    ) -> (ConsumerState<T>, ClaimPage) {
        (
            ConsumerState {
                pending: self.pending.update(
                    lease.slot as int,
                    Some(Pending { mapping: lease.mapping, timeline, value }),
                ),
                held: self.held.update(lease.slot as int, None),
                wake: true,
                ..self
            },
            page.deferred(lease.slot as int, id, value),
        )
    }
}

impl<T> ConsumerState<T> {
    /// What a look at a handed-over slot asks, if anything: the source that the slot waits for,
    /// and for a notification where none is armed that is still to fire.
    pub open spec fn asks(self, slot: int) -> Option<Question> {
        match self.pending[slot] {
            None => None,
            Some(pending) => Some(
                Question {
                    timeline: pending.timeline as u64,
                    value: pending.value,
                    arming: if self.armed[slot] matches Some(armed) && !armed.fired {
                        None
                    } else {
                        Some(
                            ReleaseNotification {
                                slot: slot as usize,
                                serial: next_serial(self.serial),
                            },
                        )
                    },
                },
            ),
        }
    }
}

impl<T: ReleaseTimeline> ConsumerState<T> {
    /// Whether an answer came from the source that a handed-over slot waits for, as far as the
    /// look at the slot asks it.
    pub open spec fn came(self, slot: int, answer: TimelineAnswer) -> bool {
        self.asks(slot) matches Some(question) ==> replied(
            (self.bound[question.timeline as int]->0).timeline,
            question,
            answer,
        )
    }

    /// Whether the answers came from the sources of the slots, looked at in turn.
    pub open spec fn answered(self, page: ClaimPage, answers: Seq<TimelineAnswer>) -> bool
        decreases answers.len(),
    {
        answers.len() > 0 ==> {
            let before = self.looked_at(page, answers.drop_last());
            &&& self.answered(page, answers.drop_last())
            &&& before.2 || before.0.came(answers.len() - 1, answers.last())
        }
    }

    /// Whether the answers make a whole look: they came from the sources, and every slot was
    /// reached, or one ended it.
    pub open spec fn complete_look(self, page: ClaimPage, answers: Seq<TimelineAnswer>) -> bool {
        &&& answers.len() <= self.frames()
        &&& {
            ||| self.failure is Some
            ||| answers.len() == self.frames()
            ||| self.looked_at(page, answers).2
        }
        &&& self.failure is None ==> self.answered(page, answers)
    }

    /// Whether the answers make a whole look, if one is due.
    pub open spec fn leaves_with(self, page: ClaimPage, now: u128, answers: Seq<TimelineAnswer>) -> bool {
        if self.alive || self.leasing() {
            true
        } else {
            let (drain, closed) = self.draining(page, now);
            ConsumerState { closed: true, ..drain }.complete_look(closed, answers)
        }
    }

    /// Whether retiring if no owner is left can end like this, for some answers of the sources.
    pub open spec fn may_leave(
        self,
        page: ClaimPage,
        now: u128,
        after: ConsumerState<T>,
        left: ClaimPage,
    ) -> bool {
        exists|answers: Seq<TimelineAnswer>|
            self.leaves_with(page, now, answers) && #[trigger] self.left(page, now, answers) == (
                after,
                left,
            )
    }
}

} // verus!
