//! The mathematical model of a producer: its state, and what publication and cleanup do.

use super::claims::{ClaimPage, DATA};
use super::cleanup::{observes, Observation, ReleaseTimeline, TimelineAnswer};
use super::layout::{length_fits, ResourceLayout, HEADER_LEN};
use super::mapping::{ControlPage, ResourcePage};
use super::pages::Pages;
use super::{ArenaError, FrameDescriptor, PublishOutcome, MAX_GENERATION};
use crate::acquisition::{Accounts, AllocationId};
use vstd::prelude::*;

verus! {

/// A resource generation that is no longer published to.
#[derive(Debug, Clone, Copy, PartialEq, Eq, Structural)]
pub struct RetiredAllocation {
    pub id: AllocationId,
    /// Whether the producer's own use of an external pool is still outstanding.
    pub native_pending: bool,
}

/// The state of a producer.
#[verifier::ext_equal]
pub struct ProducerState<T> {
    pub pages: Pages,
    /// The resource generation that is published to.
    pub current: Option<u64>,
    pub retired: Seq<RetiredAllocation>,
    /// The layout of a replacement that is not installed yet.
    pub pending_layout: Option<ResourceLayout>,
    pub accounts: Accounts,
    /// The newest published cursor.
    pub cursor: u64,
    /// Where the next search for a free resource starts.
    pub next_slot: usize,
    pub cleanup: Map<u64, Observation<T>>,
    pub native_resources: bool,
    pub drain_timeout: u128,
    pub page_size: i64,
}

/// A published resource describes itself: its cursor, its place and its length.
pub open spec fn record_proper(page: ResourcePage, index: int) -> bool {
    let record = page.records[index];
    record.generation() != 0 ==> {
        &&& record.descriptor.cursor == record.generation()
        &&& record.descriptor.config_generation == page.generation
        &&& record.descriptor.payload_offset == page.layout.spec_payload_offset(index)
        &&& record.descriptor.payload_len == record.payload.len()
        &&& record.payload.len() <= page.layout.payload_capacity
    }
}

/// The frame that a scan finds for a cursor, if the resource is still there.
pub open spec fn acquirable(control: ControlPage, page: ResourcePage, cursor: u64) -> bool {
    let position = control.ring[control.position(cursor)];
    &&& 1 <= position <= page.records.len()
    &&& page.records[position - 1].state == super::state_word(cursor, true)
}

/// The descriptor that is published: the given one, stamped by the arena.
pub open spec fn stamped(
    descriptor: FrameDescriptor,
    page: ResourcePage,
    index: int,
    cursor: u64,
    len: nat,
) -> FrameDescriptor {
    FrameDescriptor {
        cursor,
        config_generation: page.generation,
        payload_offset: page.layout.spec_payload_offset(index) as u64,
        payload_len: len as u64,
        ..descriptor
    }
}

/// What the caller offers to publish in each resource: nothing where an external resource
/// is not ready for a new frame, and an error where preparing it fails.
pub enum Offer {
    /// The same frame in whichever resource is free.
    Inline(FrameDescriptor),
    /// What preparing each resource gives.
    Each(Seq<Result<Option<FrameDescriptor>, ArenaError>>),
}

impl Offer {
    pub open spec fn at(self, index: int) -> Result<Option<FrameDescriptor>, ArenaError> {
        match self {
            Offer::Inline(descriptor) => Ok(Some(descriptor)),
            Offer::Each(frames) => if 0 <= index < frames.len() {
                frames[index]
            } else {
                Ok(None)
            },
        }
    }

    /// Whether a search ends at this resource: it is ready, or preparing it fails.
    pub open spec fn ends_at(self, index: int) -> bool {
        match self.at(index) {
            Ok(None) => false,
            _ => true,
        }
    }
}

impl<T> ProducerState<T> {
    pub open spec fn resources(self) -> int {
        self.accounts.limits.resource_capacity as int
    }

    pub open spec fn history(self) -> int {
        self.accounts.limits.retained_history as int
    }

    /// The first cursor that publication must leave alone.
    pub open spec fn oldest_protected(self) -> int {
        let oldest = self.cursor - (self.history() - 1);
        if oldest < 1 {
            1
        } else {
            oldest
        }
    }

    /// The cursors that consumers may still ask for.
    pub open spec fn retains(self, cursor: u64) -> bool {
        &&& 1 <= cursor <= self.cursor
        &&& cursor >= self.pages.control.first_cursor
        &&& cursor > self.cursor - self.history()
    }

    /// Whether a retired allocation has to stay.
    pub open spec fn retained(self, retired: RetiredAllocation) -> bool {
        ||| retired.native_pending
        ||| self.pages.mapped(retired.id.0)
        ||| self.pages.holds_frame_of(retired.id.0)
    }

    /// Every resource generation has the shape that the limits give it.
    pub open spec fn resource_proper(self, generation: u64) -> bool {
        let page = self.pages.resources[generation];
        &&& page.generation == generation
        &&& page.scope == self.pages.control.scope
        &&& page.layout.consistent(self.page_size as int)
        &&& page.layout.resources == self.resources()
        &&& page.layout.history == self.history()
        &&& page.records.len() == self.resources()
        &&& forall|i: int|
            0 <= i < page.records.len() ==> (#[trigger] page.records[i]).generation()
                <= self.cursor && record_proper(page, i)
    }

    /// Every incarnation has its page, its observation and its reservation.
    pub open spec fn claim_proper(self, id: u64) -> bool {
        let page = self.pages.claims[id];
        &&& page.incarnation.0 == id
        &&& page.shaped(self.accounts.reservations[id].frames as nat)
        &&& observes(self.cleanup[id], self.accounts.reservations[id].frames as nat)
    }

    /// What everything else relies on: the pages, the accounts and the observations speak of
    /// the same allocations and incarnations.
    pub open spec fn inv(self) -> bool {
        &&& self.accounts.inv()
        &&& self.page_size % 8 == 0
        &&& length_fits(HEADER_LEN + self.history() * 8, self.page_size as int)
        &&& self.pages.control.ring.len() == self.history()
        &&& self.history() > 0
        &&& self.pages.control.latest == self.cursor
        &&& self.cursor <= MAX_GENERATION
        &&& 1 <= self.pages.control.first_cursor <= self.cursor + 1
        &&& self.next_slot < self.resources()
        &&& self.pages.resources.dom().finite()
        &&& self.pages.claims.dom().finite()
        &&& forall|p: int|
            0 <= p < self.history() ==> (#[trigger] self.pages.control.ring[p])
                <= self.resources()
        &&& forall|g: u64| #[trigger]
            self.pages.resources.contains_key(g) ==> self.resource_proper(g)
        &&& self.pages.claims.dom() == self.accounts.reservations.dom()
        &&& self.cleanup.dom() == self.accounts.reservations.dom()
        &&& forall|id: u64| #[trigger]
            self.pages.claims.contains_key(id) ==> self.claim_proper(id)
        &&& self.allocations_proper()
        &&& self.current matches Some(g) ==> self.retention(g)
    }

    /// The current, the retired and the pending allocation are told apart and charged.
    pub open spec fn allocations_proper(self) -> bool {
        &&& match self.current {
            Some(g) => {
                &&& self.pages.resources.contains_key(g)
                &&& self.accounts.current == Some(AllocationId(g))
                &&& self.accounts.pending is None
                &&& self.pending_layout is None
                &&& self.pages.control.configuration == g
            },
            None => {
                &&& self.accounts.current is None
                &&& self.accounts.pending matches Some(pending) && pending.reserved is None
                &&& self.pending_layout matches Some(layout) && layout.consistent(
                    self.page_size as int,
                ) && layout.resources == self.resources() && layout.history == self.history()
                &&& self.pages.control.configuration == 0
                &&& self.pages.control.first_cursor == self.cursor + 1
            },
        }
        &&& forall|i: int|
            0 <= i < self.retired.len() ==> {
                let g = (#[trigger] self.retired[i]).id.0;
                &&& self.pages.resources.contains_key(g)
                &&& self.accounts.allocations.contains_key(g)
                &&& self.current != Some(g)
            }
        &&& forall|i: int, j: int|
            0 <= i < j < self.retired.len() ==> (#[trigger] self.retired[i]).id != (
            #[trigger] self.retired[j]).id
        &&& forall|g: u64| #[trigger]
            self.pages.resources.contains_key(g) ==> g < self.accounts.next_allocation
    }

    /// Retained frames can be acquired, and no frame is in two resources.
    pub open spec fn retention(self, generation: u64) -> bool {
        let page = self.pages.resources[generation];
        &&& forall|cursor: u64| #[trigger]
            self.retains(cursor) ==> acquirable(self.pages.control, page, cursor)
        &&& forall|i: int, j: int|
            0 <= i < j < page.records.len() && (#[trigger] page.records[i]).generation() != 0
                ==> page.records[i].generation() != (#[trigger] page.records[j]).generation()
    }

    /// One look at every incarnation, with these answers of their timelines.
    pub open spec fn observed(self, now: u128, answers: Map<u64, Seq<TimelineAnswer>>) -> ProducerState<T> {
        ProducerState {
            pages: Pages {
                claims: Map::new(
                    |id: u64| self.pages.claims.contains_key(id),
                    |id: u64|
                        self.cleanup[id].polled(self.pages.claims[id], now, answers[id]).1,
                ),
                ..self.pages
            },
            cleanup: Map::new(
                |id: u64| self.cleanup.contains_key(id),
                |id: u64|
                    Observation {
                        released: 0,
                        ..self.cleanup[id].polled(self.pages.claims[id], now, answers[id]).0
                    },
            ),
            ..self
        }
    }

    /// Slots that each incarnation gave back since the last look, with these answers.
    pub open spec fn released(self, now: u128, answers: Map<u64, Seq<TimelineAnswer>>) -> Map<
        u64,
        u64,
    > {
        Map::new(
            |id: u64| self.cleanup.contains_key(id),
            |id: u64|
                self.cleanup[id].polled(self.pages.claims[id], now, answers[id]).0.released as u64,
        )
    }
}

impl<T: ReleaseTimeline> ProducerState<T> {
    /// Whether the answers make a whole look at every incarnation.
    pub open spec fn complete_look(self, now: u128, answers: Map<u64, Seq<TimelineAnswer>>) -> bool {
        forall|id: u64| #[trigger]
            self.cleanup.contains_key(id) ==> self.cleanup[id].complete_look(
                self.pages.claims[id],
                now,
                answers[id],
            )
    }
}

impl<T> ProducerState<T> {
    /// Incarnations that have left nothing to wait for are forgotten.
    pub open spec fn collected(self) -> ProducerState<T> {
        let stays = |id: u64| self.pages.claims.contains_key(id) && !self.pages.claims[id].drained();
        ProducerState {
            pages: Pages {
                claims: Map::new(stays, |id: u64| self.pages.claims[id]),
                ..self.pages
            },
            cleanup: Map::new(stays, |id: u64| self.cleanup[id]),
            accounts: Accounts {
                reservations: Map::new(stays, |id: u64| self.accounts.reservations[id]),
                ..self.accounts
            },
            ..self
        }
    }

    /// Whether a resource generation is retired and need not stay.
    pub open spec fn disposable(self, generation: u64) -> bool {
        exists|i: int|
            0 <= i < self.retired.len() && (#[trigger] self.retired[i]).id.0 == generation
                && !self.retained(self.retired[i])
    }

    /// Retired allocations that nobody uses are destroyed, and then no longer charged.
    pub open spec fn reclaimed(self) -> ProducerState<T> {
        ProducerState {
            retired: self.retired.filter(|retired: RetiredAllocation| self.retained(retired)),
            pages: Pages {
                resources: Map::new(
                    |g: u64| self.pages.resources.contains_key(g) && !self.disposable(g),
                    |g: u64| self.pages.resources[g],
                ),
                ..self.pages
            },
            accounts: Accounts {
                allocations: Map::new(
                    |g: u64| self.accounts.allocations.contains_key(g) && !self.disposable(g),
                    |g: u64| self.accounts.allocations[g],
                ),
                ..self.accounts
            },
            ..self
        }
    }

    /// A whole round of cleanup, with these answers.
    pub open spec fn cleaned(self, now: u128, answers: Map<u64, Seq<TimelineAnswer>>) -> ProducerState<T> {
        self.observed(now, answers).collected().reclaimed()
    }

    /// The arena is closed for everybody; what is held stays.
    pub open spec fn stopped(self) -> ProducerState<T> {
        ProducerState {
            pages: Pages {
                control: ControlPage { terminal: 1, ..self.pages.control },
                ..self.pages
            }.each_claims(|page: ClaimPage| page.closed()),
            ..self
        }
    }

    /// The resources after that many have been tried from the search position on, and the one
    /// that was found free and at which the search ends.
    pub open spec fn tried(self, generation: u64, offer: Offer, count: int) -> (
        ResourcePage,
        Option<int>,
    )
        decreases count,
    {
        if count <= 0 {
            (self.pages.resources[generation], None)
        } else {
            let (page, found) = self.tried(generation, offer, count - 1);
            if found is Some {
                (page, found)
            } else {
                let index = (self.next_slot + count - 1) % self.resources();
                let held = page.records[index].generation();
                if held != 0 && held >= self.oldest_protected() {
                    (page, None)
                } else if held != 0 && self.pages.claimed(held as u64) {
                    (page.retired(index), None)
                } else if !offer.ends_at(index) {
                    (page.retired(index), None)
                } else {
                    (page.retired(index), Some(index))
                }
            }
        }
    }

    /// Whether publication comes to search for a resource.
    pub open spec fn searches(self, generation: u64, bytes: Seq<u8>) -> bool {
        &&& bytes.len() <= self.pages.resources[generation].layout.payload_capacity
        &&& self.cursor != MAX_GENERATION
    }

    /// The resource that the search tries at this offset.
    pub open spec fn candidate(self, offset: int) -> int {
        (self.next_slot + offset) % self.resources()
    }

    /// Whether the search has a resource prepared at this offset: nothing was found before, and
    /// it holds nothing retained and nothing that is claimed once it is withdrawn.
    pub open spec fn comes_to(self, generation: u64, offer: Offer, offset: int) -> bool {
        let (page, found) = self.tried(generation, offer, offset);
        let held = page.records[self.candidate(offset)].generation();
        &&& found is None
        &&& held == 0 || (held < self.oldest_protected() && !self.pages.claimed(held as u64))
    }

    /// Whether the resource at `index` last held the frame with cursor `held`, which is neither
    /// retained nor claimed; zero where it held none yet.
    pub open spec fn vacates(self, index: u32, held: u64) -> bool {
        self.current matches Some(generation) && {
            &&& index < self.resources()
            &&& self.pages.resources[generation].records[index as int].generation() == held
            &&& held == 0 || (held < self.oldest_protected() && !self.pages.claimed(held))
        }
    }

    /// Whether each of these is what `prepare` gives of the resource that the search has it
    /// prepare, with the cursor of the frame that the resource last held.
    pub open spec fn prepared_by<
        F: Fn(u32, u64) -> Result<Option<FrameDescriptor>, ArenaError>,
    >(
        self,
        prepare: F,
        bytes: Seq<u8>,
        frames: Seq<Result<Option<FrameDescriptor>, ArenaError>>,
    ) -> bool {
        self.current matches Some(generation) ==> self.searches(generation, bytes) ==> {
            &&& frames.len() == self.resources()
            &&& forall|offset: int|
                0 <= offset < self.resources() && #[trigger] self.comes_to(
                    generation,
                    Offer::Each(frames),
                    offset,
                ) ==> self.prepared_at(generation, prepare, frames, self.candidate(offset))
        }
    }

    pub open spec fn prepared_at<
        F: Fn(u32, u64) -> Result<Option<FrameDescriptor>, ArenaError>,
    >(
        self,
        generation: u64,
        prepare: F,
        frames: Seq<Result<Option<FrameDescriptor>, ArenaError>>,
        index: int,
    ) -> bool {
        prepare.ensures(
            (
                index as u32,
                self.pages.resources[generation].records[index].generation() as u64,
            ),
            frames[index],
        )
    }

    /// A frame has been written to a resource and advertised.
    pub open spec fn advertised(
        self,
        generation: u64,
        page: ResourcePage,
        index: int,
        descriptor: FrameDescriptor,
        bytes: Seq<u8>,
    ) -> ProducerState<T> {
        let cursor = (self.cursor + 1) as u64;
        ProducerState {
            pages: Pages {
                control: self.pages.control.advertised(cursor, index),
                resources: self.pages.resources.insert(
                    generation,
                    page.filled(
                        index,
                        cursor,
                        stamped(descriptor, page, index, cursor, bytes.len()),
                        bytes,
                    ),
                ),
                ..self.pages
            }.each_claims(|page: ClaimPage| page.signalled(DATA)),
            cursor,
            next_slot: ((index + 1) % self.resources()) as usize,
            ..self
        }
    }

    /// Publication after a round of cleanup.
    pub open spec fn published(self, offer: Offer, bytes: Seq<u8>) -> (
        ProducerState<T>,
        Result<PublishOutcome, ArenaError>,
    ) {
        match self.current {
            None => (self, Ok(PublishOutcome::Dropped)),
            Some(generation) => {
                if bytes.len() > self.pages.resources[generation].layout.payload_capacity {
                    (self, Err(ArenaError::PayloadTooLarge))
                } else if self.cursor == MAX_GENERATION {
                    (self.stopped(), Err(ArenaError::GenerationsExhausted))
                } else {
                    let (page, found) = self.tried(generation, offer, self.resources());
                    let withdrawn = ProducerState {
                        pages: Pages {
                            resources: self.pages.resources.insert(generation, page),
                            ..self.pages
                        },
                        ..self
                    };
                    match found {
                        Some(index) => match offer.at(index) {
                            Ok(Some(descriptor)) => (
                                self.advertised(generation, page, index, descriptor, bytes),
                                Ok(PublishOutcome::Published { cursor: (self.cursor + 1) as u64 }),
                            ),
                            Ok(None) => (withdrawn, Ok(PublishOutcome::Dropped)),
                            Err(error) => (withdrawn, Err(error)),
                        },
                        None => (withdrawn, Ok(PublishOutcome::Dropped)),
                    }
                }
            },
        }
    }
}

} // verus!
