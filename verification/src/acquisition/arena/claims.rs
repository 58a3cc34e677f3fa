//! The page through which one consumer incarnation publishes its claims.

use super::layout::claim_bytes;
use super::{mapping_error, ArenaError, ScopeId, VERSION};
use crate::acquisition::IncarnationId;
use vstd::prelude::*;

verus! {

/// Marks a claim page: the bytes `JSCLM001`, least significant first.
pub const CLAIM_MAGIC: u64 = 0x3130_304d_4c43_534a;

/// Word positions, in units of eight bytes.
pub const ACTIVE: usize = 16;

pub const QUIESCENT: usize = 17;

pub const CAPACITY_EPOCH: usize = 18;

pub const WAIT_INTEREST: usize = 19;

pub const OFFERED_GENERATION: usize = 20;

/// The first claim slot. A slot has four words: its claim, and the identity, the value and
/// the state of a deferred release. One registration word for each slot follows all
/// slots, and after those come the mapping words.
pub const FIRST_WORD: usize = 32;

pub const RELEASE_ID: usize = 1;

pub const RELEASE_VALUE: usize = 2;

pub const RELEASE_PENDING: usize = 3;

/// Interest bits of a waiting consumer.
pub const DATA: u64 = 1;

pub const CAPACITY: u64 = 2;

pub const RECONFIGURATION: u64 = 4;

pub const CLOSED: u64 = 8;

/// What a claim page says.
#[verifier::ext_equal]
pub struct ClaimPage {
    pub incarnation: IncarnationId,
    pub scope: ScopeId,
    /// Zero for a consumer in the producer's own process.
    pub recipient_pid: u32,
    pub active: u64,
    pub quiescent: u64,
    pub capacity_epoch: u64,
    pub wait_interest: u64,
    pub offered: u64,
    /// The cursor that each slot claims, or zero.
    pub slots: Seq<u64>,
    pub release_ids: Seq<u64>,
    pub release_values: Seq<u64>,
    /// Zero, or one for a release that waits for the consumer's own completion, or two for
    /// one that waits for the producer's.
    pub pending: Seq<u64>,
    /// The identity of each registered timeline, or zero.
    pub registered: Seq<u64>,
    /// The resource generation of each mapping of the consumer, or zero.
    pub mappings: Seq<u64>,
    /// Whether a wake is on its way to the consumer.
    pub wake: bool,
    /// Whether a wake is on its way to the producer's observer.
    pub release_wake: bool,
}

impl ClaimPage {
    /// A fresh page for a holding of that many frames.
    pub open spec fn fresh(
        incarnation: IncarnationId,
        frames: nat,
        scope: ScopeId,
        recipient_pid: u32,
    ) -> ClaimPage {
        let zeros = Seq::new(frames, |i: int| 0u64);
        ClaimPage {
            incarnation,
            scope,
            recipient_pid,
            active: 1,
            quiescent: 0,
            capacity_epoch: 0,
            wait_interest: 0,
            offered: 0,
            slots: zeros,
            release_ids: zeros,
            release_values: zeros,
            pending: zeros,
            registered: zeros,
            mappings: Seq::new(frames + 2, |i: int| 0u64),
            wake: false,
            release_wake: false,
        }
    }

    /// The sequences have the lengths that the holding gives them.
    pub open spec fn shaped(self, frames: nat) -> bool {
        &&& self.slots.len() == frames
        &&& self.release_ids.len() == frames
        &&& self.release_values.len() == frames
        &&& self.pending.len() == frames
        &&& self.registered.len() == frames
        &&& self.mappings.len() == frames + 2
    }

    /// Whether a slot claims this cursor.
    pub open spec fn holds(self, cursor: u64) -> bool {
        exists|i: int| 0 <= i < self.slots.len() && #[trigger] self.slots[i] == cursor
    }

    /// Whether a mapping of the consumer is outstanding.
    pub open spec fn mapped(self) -> bool {
        exists|i: int| 0 <= i < self.mappings.len() && #[trigger] self.mappings[i] != 0
    }

    /// Whether a mapping of this resource generation is outstanding.
    pub open spec fn maps(self, generation: u64) -> bool {
        exists|i: int| 0 <= i < self.mappings.len() && #[trigger] self.mappings[i] == generation
    }

    /// Whether any slot is claimed.
    pub open spec fn claiming(self) -> bool {
        exists|i: int| 0 <= i < self.slots.len() && #[trigger] self.slots[i] != 0
    }

    /// Whether the consumer has left nothing to wait for.
    pub open spec fn drained(self) -> bool {
        self.quiescent != 0 && !self.mapped() && !self.claiming()
    }

    /// Wakes the consumer if it waits for one of these.
    pub open spec fn signalled(self, interest: u64) -> ClaimPage {
        ClaimPage { wake: self.wake || self.wait_interest & interest != 0, ..self }
    }

    /// Acquisition is over for this incarnation; claims that it holds stay.
    pub open spec fn closed(self) -> ClaimPage {
        if self.active != 0 {
            ClaimPage { active: 0, release_wake: true, ..self.signalled(CLOSED) }
        } else {
            self
        }
    }

    /// The consumer will not touch the page again.
    pub open spec fn acknowledged(self) -> ClaimPage {
        ClaimPage { quiescent: 1, release_wake: true, ..self }
    }

    /// A slot is given back. The epoch that waiters compare never repeats: when it runs out
    /// the incarnation closes.
    pub open spec fn credited(self, slot: int) -> ClaimPage {
        let freed = ClaimPage {
            pending: self.pending.update(slot, 0),
            slots: self.slots.update(slot, 0),
            capacity_epoch: if self.capacity_epoch == u64::MAX {
                0
            } else {
                (self.capacity_epoch + 1) as u64
            },
            ..self
        };
        let counted = if self.capacity_epoch == u64::MAX {
            freed.closed()
        } else {
            freed
        };
        let told = counted.signalled(CAPACITY);
        ClaimPage { release_wake: told.release_wake || told.active == 0, ..told }
    }

    /// A free slot claims a cursor.
    pub open spec fn taken(self, slot: int, cursor: u64) -> ClaimPage {
        ClaimPage { slots: self.slots.update(slot, cursor), ..self }
    }

    /// A mapping word changes.
    pub open spec fn remapped(self, slot: int, generation: u64) -> ClaimPage {
        ClaimPage { mappings: self.mappings.update(slot, generation), ..self }
    }

    /// A grant is given up before anybody used it.
    pub open spec fn abandoned(self, slot: int) -> ClaimPage {
        ClaimPage { offered: 0, ..self.remapped(slot, 0) }.closed().acknowledged()
    }

    /// An offer of replaced storage is given up.
    pub open spec fn declined(self, slot: int) -> ClaimPage {
        ClaimPage { offered: 0, release_wake: true, ..self.remapped(slot, 0) }
    }

    /// A held slot is handed to the completion of a timeline.
    pub open spec fn deferred(self, slot: int, id: u64, value: u64) -> ClaimPage {
        ClaimPage {
            release_ids: self.release_ids.update(slot, id),
            release_values: self.release_values.update(slot, value),
            pending: self.pending.update(slot, 1),
            release_wake: true,
            ..self
        }
    }
}

/// What the words of a claim page say.
pub open spec fn claim_page(
    words: Seq<u64>,
    incarnation: IncarnationId,
    frames: nat,
    scope: ScopeId,
    recipient_pid: u32,
    wake: bool,
    release_wake: bool,
) -> ClaimPage {
    ClaimPage {
        incarnation,
        scope,
        recipient_pid,
        active: words[16],
        quiescent: words[17],
        capacity_epoch: words[18],
        wait_interest: words[19],
        offered: words[20],
        slots: Seq::new(frames, |i: int| words[32 + 4 * i]),
        release_ids: Seq::new(frames, |i: int| words[32 + 4 * i + 1]),
        release_values: Seq::new(frames, |i: int| words[32 + 4 * i + 2]),
        pending: Seq::new(frames, |i: int| words[32 + 4 * i + 3]),
        registered: Seq::new(frames, |i: int| words[32 + 4 * frames + i]),
        mappings: Seq::new(frames + 2, |i: int| words[32 + 5 * frames + i]),
        wake,
        release_wake,
    }
}

/// The first slot that is free, if one is.
pub open spec fn first_free(words: Seq<u64>) -> Option<int>
    decreases words.len(),
{
    if words.len() == 0 {
        None
    } else {
        match first_free(words.drop_last()) {
            Some(i) => Some(i),
            None => if words.last() == 0 {
                Some(words.len() - 1)
            } else {
                None
            },
        }
    }
}

/// The first free slot is free, and every slot before it is not.
pub proof fn lemma_first_free(words: Seq<u64>)
    ensures
        match first_free(words) {
            Some(at) => 0 <= at < words.len() && words[at] == 0 && forall|i: int|
                0 <= i < at ==> #[trigger] words[i] != 0,
            None => forall|i: int| 0 <= i < words.len() ==> #[trigger] words[i] != 0,
        },
    decreases words.len(),
{
    if words.len() > 0 {
        lemma_first_free(words.drop_last());
        let rest = words.drop_last();
        assert forall|i: int| 0 <= i < rest.len() implies words[i] == #[trigger] rest[i] by {}
        match first_free(rest) {
            Some(at) => {
                assert forall|i: int| 0 <= i < at implies #[trigger] words[i] != 0 by {
                    assert(rest[i] == words[i]);
                }
            },
            None => {
                assert forall|i: int| 0 <= i < words.len() - 1 implies #[trigger] words[i]
                    != 0 by {
                    assert(rest[i] == words[i]);
                }
            },
        }
    }
}

/// A scan that found the first free position found `first_free`.
pub proof fn lemma_first_free_found(words: Seq<u64>, at: int)
    requires
        0 <= at < words.len(),
        words[at] == 0,
        forall|i: int| 0 <= i < at ==> #[trigger] words[i] != 0,
    ensures
        first_free(words) == Some(at),
{
    lemma_first_free(words);
}

/// One incarnation's claim page, as the words of its mapping.
pub struct ClaimMap {
    words: Vec<u64>,
    incarnation: IncarnationId,
    frames: usize,
    scope: ScopeId,
    recipient_pid: u32,
    wake: bool,
    release_wake: bool,
}

impl View for ClaimMap {
    type V = ClaimPage;

    closed spec fn view(&self) -> ClaimPage {
        claim_page(
            self.words@,
            self.incarnation,
            self.frames as nat,
            self.scope,
            self.recipient_pid,
            self.wake,
            self.release_wake,
        )
    }
}

impl ClaimMap {
    /// Slots of the holding.
    pub closed spec fn spec_frames(self) -> nat {
        self.frames as nat
    }

    /// Length of the mapping, in bytes.
    pub closed spec fn spec_len(self) -> nat {
        self.words@.len() * 8
    }

    /// The words of the mapping.
    pub closed spec fn spec_words(self) -> Seq<u64> {
        self.words@
    }

    /// The words of a well-formed page are those of a page that can be received.
    pub proof fn words_can_be_received(self)
        requires
            self.wf(),
        ensures
            Self::header_agrees(
                self.spec_words(),
                self@.incarnation,
                self.spec_frames(),
                self@.recipient_pid,
            ),
            self.spec_words().len() * 8 == self.spec_len(),
            self@.scope == (ScopeId { low: self.spec_words()[5], high: self.spec_words()[6] }),
            self@ == claim_page(
                self.spec_words(),
                self@.incarnation,
                self.spec_frames(),
                self@.scope,
                self@.recipient_pid,
                self@.wake,
                self@.release_wake,
            ),
    {
    }

    /// The words of the mapping, as a recipient receives them.
    pub fn words(&self) -> (result: &Vec<u64>)
        ensures
            result@ == self.spec_words(),
    {
        &self.words
    }

    /// The words cover all slots, and the header says whose page this is.
    pub closed spec fn wf(self) -> bool {
        let w = self.words@;
        &&& w.len() <= usize::MAX / 8
        &&& w.len() * 8 >= claim_bytes(self.frames as int)
        &&& w[0] == CLAIM_MAGIC
        &&& w[1] == VERSION
        &&& w[2] == self.incarnation.0
        &&& w[3] == self.frames
        &&& w[4] == w.len() * 8
        &&& w[5] == self.scope.low
        &&& w[6] == self.scope.high
        &&& w[7] == self.recipient_pid
    }

    /// A well-formed page has the shape that its holding gives it, and fits in memory.
    pub proof fn page_is_shaped(self)
        requires
            self.wf(),
        ensures
            self@.shaped(self.spec_frames()),
            claim_bytes(self.spec_frames() as int) <= self.spec_len() <= usize::MAX,
    {
    }

    /// A fresh page in a zeroed mapping of that many bytes.
    pub fn new(
        incarnation: IncarnationId,
        frames: u32,
        len: usize,
        scope: ScopeId,
        recipient_pid: u32,
    ) -> (result: Self)
        requires
            len >= claim_bytes(frames as int),
            len % 8 == 0,
        ensures
            result.wf(),
            result.spec_frames() == frames,
            result.spec_len() == len,
            result@ == ClaimPage::fresh(incarnation, frames as nat, scope, recipient_pid),
    {
        let count: usize = len / 8;
        let mut words: Vec<u64> = Vec::with_capacity(count);
        while words.len() < count
            invariant
                words@.len() <= count,
                forall|i: int| 0 <= i < words@.len() ==> words@[i] == 0,
            decreases count - words@.len(),
        {
            words.push(0);
        }
        words.set(0, CLAIM_MAGIC);
        words.set(1, VERSION);
        words.set(2, incarnation.0);
        words.set(3, frames as u64);
        words.set(4, len as u64);
        words.set(5, scope.low);
        words.set(6, scope.high);
        words.set(7, recipient_pid as u64);
        words.set(16, 1);
        let page = ClaimMap {
            words,
            incarnation,
            frames: frames as usize,
            scope,
            recipient_pid,
            wake: false,
            release_wake: false,
        };
        assert(page@ =~= ClaimPage::fresh(incarnation, frames as nat, scope, recipient_pid));
        page
    }

    /// Whether the words of a received mapping begin with the header that a grant names.
    pub open spec fn header_agrees(
        words: Seq<u64>,
        incarnation: IncarnationId,
        frames: nat,
        recipient_pid: u32,
    ) -> bool {
        &&& words[0] == CLAIM_MAGIC
        &&& words[1] == VERSION
        &&& words[2] == incarnation.0
        &&& words[3] == frames
        &&& words[4] == words.len() * 8
        &&& words[7] == recipient_pid
    }

    /// Takes a received mapping, if its header agrees with the grant.
    pub fn map(
        words: Vec<u64>,
        incarnation: IncarnationId,
        frames: usize,
        recipient_pid: u32,
    ) -> (result: Result<Self, ArenaError>)
        requires
            words@.len() <= usize::MAX / 8,
            words@.len() * 8 >= claim_bytes(frames as int),
        ensures
            match result {
                Ok(page) => {
                    &&& Self::header_agrees(words@, incarnation, frames as nat, recipient_pid)
                    &&& page.wf()
                    &&& page.spec_frames() == frames
                    &&& page.spec_len() == words@.len() * 8
                    &&& page@ == claim_page(
                        words@,
                        incarnation,
                        frames as nat,
                        ScopeId { low: words@[5], high: words@[6] },
                        recipient_pid,
                        false,
                        false,
                    )
                },
                Err(error) => {
                    &&& !Self::header_agrees(words@, incarnation, frames as nat, recipient_pid)
                    &&& mapping_error(error, "claim header disagrees with grant"@)
                },
            },
    {
        if words[0] != CLAIM_MAGIC || words[1] != VERSION || words[2] != incarnation.0 || words[3]
            != frames as u64 || words[4] != (words.len() * 8) as u64 || words[7]
            != recipient_pid as u64 {
            return Err(ArenaError::Mapping("claim header disagrees with grant"));
        }
        let scope = ScopeId { low: words[5], high: words[6] };
        Ok(
            ClaimMap {
                words,
                incarnation,
                frames,
                scope,
                recipient_pid,
                wake: false,
                release_wake: false,
            },
        )
    }

    pub fn incarnation(&self) -> (result: IncarnationId)
        ensures
            result == self@.incarnation,
    {
        self.incarnation
    }

    pub fn frames(&self) -> (result: usize)
        ensures
            result == self.spec_frames(),
    {
        self.frames
    }

    pub fn len(&self) -> (result: usize)
        requires
            self.wf(),
        ensures
            result == self.spec_len(),
            result >= claim_bytes(self.spec_frames() as int),
    {
        self.words.len() * 8
    }

    pub fn scope(&self) -> (result: ScopeId)
        ensures
            result == self@.scope,
    {
        self.scope
    }

    pub fn recipient_pid(&self) -> (result: u32)
        ensures
            result == self@.recipient_pid,
    {
        self.recipient_pid
    }

    /// Whether a wake is on its way to the consumer.
    pub fn wake_pending(&self) -> (result: bool)
        ensures
            result == self@.wake,
    {
        self.wake
    }

    /// Whether a wake is on its way to the producer's observer.
    pub fn release_wake_pending(&self) -> (result: bool)
        ensures
            result == self@.release_wake,
    {
        self.release_wake
    }

    /// Takes the wakes that were on their way to the consumer.
    pub fn drain_wake(&mut self)
        requires
            old(self).wf(),
        ensures
            final(self).wf(),
            final(self).spec_frames() == old(self).spec_frames(),
            final(self).spec_len() == old(self).spec_len(),
            final(self)@ == (ClaimPage { wake: false, ..old(self)@ }),
    {
        self.wake = false;
        assert(self@ =~= (ClaimPage { wake: false, ..old(self)@ }));
    }

    /// Takes the wakes that were on their way to the producer's observer.
    pub fn drain_release_wake(&mut self)
        requires
            old(self).wf(),
        ensures
            final(self).wf(),
            final(self).spec_frames() == old(self).spec_frames(),
            final(self).spec_len() == old(self).spec_len(),
            final(self)@ == (ClaimPage { release_wake: false, ..old(self)@ }),
    {
        self.release_wake = false;
        assert(self@ =~= (ClaimPage { release_wake: false, ..old(self)@ }));
    }

    /// Sends a wake to the producer's observer.
    pub fn signal_release(&mut self)
        requires
            old(self).wf(),
        ensures
            final(self).wf(),
            final(self).spec_frames() == old(self).spec_frames(),
            final(self).spec_len() == old(self).spec_len(),
            final(self)@ == (ClaimPage { release_wake: true, ..old(self)@ }),
    {
        self.release_wake = true;
        assert(self@ =~= (ClaimPage { release_wake: true, ..old(self)@ }));
    }

    fn set(&mut self, at: usize, value: u64)
        requires
            old(self).wf(),
            16 <= at,
            at * 8 < claim_bytes(old(self).frames as int),
        ensures
            final(self).wf(),
            final(self).words@ == old(self).words@.update(at as int, value),
            final(self).frames == old(self).frames,
            final(self).incarnation == old(self).incarnation,
            final(self).scope == old(self).scope,
            final(self).recipient_pid == old(self).recipient_pid,
            final(self).wake == old(self).wake,
            final(self).release_wake == old(self).release_wake,
    {
        self.words.set(at, value);
    }

    pub fn active(&self) -> (result: u64)
        requires
            self.wf(),
        ensures
            result == self@.active,
    {
        self.words[ACTIVE]
    }

    pub fn quiescent(&self) -> (result: u64)
        requires
            self.wf(),
        ensures
            result == self@.quiescent,
    {
        self.words[QUIESCENT]
    }

    pub fn capacity_epoch(&self) -> (result: u64)
        requires
            self.wf(),
        ensures
            result == self@.capacity_epoch,
    {
        self.words[CAPACITY_EPOCH]
    }

    pub fn wait_interest(&self) -> (result: u64)
        requires
            self.wf(),
        ensures
            result == self@.wait_interest,
    {
        self.words[WAIT_INTEREST]
    }

    pub fn offered(&self) -> (result: u64)
        requires
            self.wf(),
        ensures
            result == self@.offered,
    {
        self.words[OFFERED_GENERATION]
    }

    pub fn set_active(&mut self, value: u64)
        requires
            old(self).wf(),
        ensures
            final(self).wf(),
            final(self).spec_frames() == old(self).spec_frames(),
            final(self).spec_len() == old(self).spec_len(),
            final(self)@ == (ClaimPage { active: value, ..old(self)@ }),
    {
        self.set(ACTIVE, value);
        assert(self@ =~= (ClaimPage { active: value, ..old(self)@ }));
    }

    pub fn set_wait_interest(&mut self, value: u64)
        requires
            old(self).wf(),
        ensures
            final(self).wf(),
            final(self).spec_frames() == old(self).spec_frames(),
            final(self).spec_len() == old(self).spec_len(),
            final(self)@ == (ClaimPage { wait_interest: value, ..old(self)@ }),
    {
        self.set(WAIT_INTEREST, value);
        assert(self@ =~= (ClaimPage { wait_interest: value, ..old(self)@ }));
    }

    pub fn set_offered(&mut self, value: u64)
        requires
            old(self).wf(),
        ensures
            final(self).wf(),
            final(self).spec_frames() == old(self).spec_frames(),
            final(self).spec_len() == old(self).spec_len(),
            final(self)@ == (ClaimPage { offered: value, ..old(self)@ }),
    {
        self.set(OFFERED_GENERATION, value);
        assert(self@ =~= (ClaimPage { offered: value, ..old(self)@ }));
    }

    /// The cursor that a slot claims.
    pub fn slot(&self, index: usize) -> (result: u64)
        requires
            self.wf(),
            index < self.spec_frames(),
        ensures
            result == self@.slots[index as int],
    {
        self.words[FIRST_WORD + index * 4]
    }

    pub fn set_slot(&mut self, index: usize, value: u64)
        requires
            old(self).wf(),
            index < old(self).spec_frames(),
        ensures
            final(self).wf(),
            final(self).spec_frames() == old(self).spec_frames(),
            final(self).spec_len() == old(self).spec_len(),
            final(self)@ == old(self)@.taken(index as int, value),
    {
        self.set(FIRST_WORD + index * 4, value);
        assert(self@ =~= old(self)@.taken(index as int, value));
    }

    pub fn release_id(&self, index: usize) -> (result: u64)
        requires
            self.wf(),
            index < self.spec_frames(),
        ensures
            result == self@.release_ids[index as int],
    {
        self.words[FIRST_WORD + index * 4 + RELEASE_ID]
    }

    pub fn release_value(&self, index: usize) -> (result: u64)
        requires
            self.wf(),
            index < self.spec_frames(),
        ensures
            result == self@.release_values[index as int],
    {
        self.words[FIRST_WORD + index * 4 + RELEASE_VALUE]
    }

    pub fn release_pending(&self, index: usize) -> (result: u64)
        requires
            self.wf(),
            index < self.spec_frames(),
        ensures
            result == self@.pending[index as int],
    {
        self.words[FIRST_WORD + index * 4 + RELEASE_PENDING]
    }

    pub fn set_release_pending(&mut self, index: usize, value: u64)
        requires
            old(self).wf(),
            index < old(self).spec_frames(),
        ensures
            final(self).wf(),
            final(self).spec_frames() == old(self).spec_frames(),
            final(self).spec_len() == old(self).spec_len(),
            final(self)@ == (ClaimPage {
                pending: old(self)@.pending.update(index as int, value),
                ..old(self)@
            }),
    {
        self.set(FIRST_WORD + index * 4 + RELEASE_PENDING, value);
        assert(self@ =~= (ClaimPage {
            pending: old(self)@.pending.update(index as int, value),
            ..old(self)@
        }));
    }

    /// Hands a held slot to the completion of a timeline: the words that say which, then the
    /// word that makes the handoff visible.
    pub fn defer(&mut self, index: usize, id: u64, value: u64)
        requires
            old(self).wf(),
            index < old(self).spec_frames(),
        ensures
            final(self).wf(),
            final(self).spec_frames() == old(self).spec_frames(),
            final(self).spec_len() == old(self).spec_len(),
            final(self)@ == old(self)@.deferred(index as int, id, value),
    {
        let base: usize = FIRST_WORD + index * 4;
        self.set(base + RELEASE_ID, id);
        self.set(base + RELEASE_VALUE, value);
        self.set(base + RELEASE_PENDING, 1);
        self.release_wake = true;
        assert(self@ =~= old(self)@.deferred(index as int, id, value));
    }

    /// The identity of a registered timeline, or zero.
    pub fn registered_timeline(&self, index: usize) -> (result: u64)
        requires
            self.wf(),
            index < self.spec_frames(),
        ensures
            result == self@.registered[index as int],
    {
        self.words[FIRST_WORD + self.frames * 4 + index]
    }

    pub fn register_timeline(&mut self, index: usize, id: u64)
        requires
            old(self).wf(),
            index < old(self).spec_frames(),
        ensures
            final(self).wf(),
            final(self).spec_frames() == old(self).spec_frames(),
            final(self).spec_len() == old(self).spec_len(),
            final(self)@ == (ClaimPage {
                registered: old(self)@.registered.update(index as int, id),
                ..old(self)@
            }),
    {
        self.set(FIRST_WORD + self.frames * 4 + index, id);
        assert(self@ =~= (ClaimPage {
            registered: old(self)@.registered.update(index as int, id),
            ..old(self)@
        }));
    }

    /// The resource generation of a mapping, or zero.
    pub fn mapping_slot(&self, index: usize) -> (result: u64)
        requires
            self.wf(),
            index < self.spec_frames() + 2,
        ensures
            result == self@.mappings[index as int],
    {
        self.words[FIRST_WORD + self.frames * 5 + index]
    }

    pub fn set_mapping_slot(&mut self, index: usize, generation: u64)
        requires
            old(self).wf(),
            index < old(self).spec_frames() + 2,
        ensures
            final(self).wf(),
            final(self).spec_frames() == old(self).spec_frames(),
            final(self).spec_len() == old(self).spec_len(),
            final(self)@ == old(self)@.remapped(index as int, generation),
    {
        self.set(FIRST_WORD + self.frames * 5 + index, generation);
        assert(self@ =~= old(self)@.remapped(index as int, generation));
    }

    /// Whether a slot claims this cursor.
    pub fn contains(&self, generation: u64) -> (result: bool)
        requires
            self.wf(),
        ensures
            result == self@.holds(generation),
    {
        let mut index: usize = 0;
        while index < self.frames
            invariant
                self.wf(),
                index <= self.frames,
                forall|i: int| 0 <= i < index ==> self@.slots[i] != generation,
            decreases self.frames - index,
        {
            if self.slot(index) == generation {
                assert(self@.slots[index as int] == generation);
                return true;
            }
            index = index + 1;
        }
        false
    }

    /// Whether any slot is claimed.
    pub fn has_claims(&self) -> (result: bool)
        requires
            self.wf(),
        ensures
            result == self@.claiming(),
    {
        let mut index: usize = 0;
        while index < self.frames
            invariant
                self.wf(),
                index <= self.frames,
                forall|i: int| 0 <= i < index ==> self@.slots[i] == 0,
            decreases self.frames - index,
        {
            if self.slot(index) != 0 {
                assert(self@.slots[index as int] != 0);
                return true;
            }
            index = index + 1;
        }
        false
    }

    /// Whether a mapping of the consumer is outstanding.
    pub fn has_mappings(&self) -> (result: bool)
        requires
            self.wf(),
        ensures
            result == self@.mapped(),
    {
        let mut index: usize = 0;
        while index < self.frames + 2
            invariant
                self.wf(),
                index <= self.frames + 2,
                forall|i: int| 0 <= i < index ==> self@.mappings[i] == 0,
            decreases self.frames + 2 - index,
        {
            if self.mapping_slot(index) != 0 {
                assert(self@.mappings[index as int] != 0);
                return true;
            }
            index = index + 1;
        }
        false
    }

    /// Whether a mapping of this resource generation is outstanding.
    pub fn maps(&self, generation: u64) -> (result: bool)
        requires
            self.wf(),
        ensures
            result == self@.maps(generation),
    {
        let mut index: usize = 0;
        while index < self.frames + 2
            invariant
                self.wf(),
                index <= self.frames + 2,
                forall|i: int| 0 <= i < index ==> self@.mappings[i] != generation,
            decreases self.frames + 2 - index,
        {
            if self.mapping_slot(index) == generation {
                assert(self@.mappings[index as int] == generation);
                return true;
            }
            index = index + 1;
        }
        false
    }

    /// Whether the consumer has left nothing to wait for.
    pub fn is_drained(&self) -> (result: bool)
        requires
            self.wf(),
        ensures
            result == self@.drained(),
    {
        self.quiescent() != 0 && !self.has_mappings() && !self.has_claims()
    }

    /// Claims a cursor in the first free slot, if there is one.
    pub fn take(&mut self, cursor: u64) -> (result: Option<usize>)
        requires
            old(self).wf(),
        ensures
            final(self).wf(),
            final(self).spec_frames() == old(self).spec_frames(),
            final(self).spec_len() == old(self).spec_len(),
            match result {
                Some(slot) => {
                    &&& slot < old(self).spec_frames()
                    &&& first_free(old(self)@.slots) == Some(slot as int)
                    &&& final(self)@ == old(self)@.taken(slot as int, cursor)
                },
                None => first_free(old(self)@.slots) is None && final(self)@ == old(self)@,
            },
    {
        let mut index: usize = 0;
        while index < self.frames
            invariant
                *self == *old(self),
                self.wf(),
                index <= self.frames,
                forall|i: int| 0 <= i < index ==> self@.slots[i] != 0,
            decreases self.frames - index,
        {
            if self.slot(index) == 0 {
                proof {
                    lemma_first_free_found(self@.slots, index as int);
                }
                self.set_slot(index, cursor);
                return Some(index);
            }
            index = index + 1;
        }
        proof {
            lemma_first_free(self@.slots);
        }
        None
    }

    /// Records a mapping in the first free mapping word, if there is one.
    pub fn take_mapping(&mut self, generation: u64) -> (result: Option<usize>)
        requires
            old(self).wf(),
        ensures
            final(self).wf(),
            final(self).spec_frames() == old(self).spec_frames(),
            final(self).spec_len() == old(self).spec_len(),
            match result {
                Some(slot) => {
                    &&& slot < old(self).spec_frames() + 2
                    &&& first_free(old(self)@.mappings) == Some(slot as int)
                    &&& final(self)@ == old(self)@.remapped(slot as int, generation)
                },
                None => first_free(old(self)@.mappings) is None && final(self)@ == old(self)@,
            },
    {
        let mut index: usize = 0;
        while index < self.frames + 2
            invariant
                *self == *old(self),
                self.wf(),
                index <= self.frames + 2,
                forall|i: int| 0 <= i < index ==> self@.mappings[i] != 0,
            decreases self.frames + 2 - index,
        {
            if self.mapping_slot(index) == 0 {
                proof {
                    lemma_first_free_found(self@.mappings, index as int);
                }
                self.set_mapping_slot(index, generation);
                return Some(index);
            }
            index = index + 1;
        }
        proof {
            lemma_first_free(self@.mappings);
        }
        None
    }

    /// Gives up a grant that nobody used: nothing of it can touch the page any more.
    pub fn abandon(&mut self, slot: usize)
        requires
            old(self).wf(),
            slot < old(self).spec_frames() + 2,
        ensures
            final(self).wf(),
            final(self).spec_frames() == old(self).spec_frames(),
            final(self).spec_len() == old(self).spec_len(),
            final(self)@ == old(self)@.abandoned(slot as int),
    {
        self.set_mapping_slot(slot, 0);
        self.set_offered(0);
        self.close();
        self.acknowledge_quiescent();
    }

    /// Gives up an offer of replaced storage.
    pub fn decline(&mut self, slot: usize)
        requires
            old(self).wf(),
            slot < old(self).spec_frames() + 2,
        ensures
            final(self).wf(),
            final(self).spec_frames() == old(self).spec_frames(),
            final(self).spec_len() == old(self).spec_len(),
            final(self)@ == old(self)@.declined(slot as int),
    {
        self.set_mapping_slot(slot, 0);
        self.set_offered(0);
        self.signal_release();
    }

    /// Wakes the consumer if it waits for one of these.
    pub fn signal(&mut self, interest: u64)
        requires
            old(self).wf(),
        ensures
            final(self).wf(),
            final(self).spec_frames() == old(self).spec_frames(),
            final(self).spec_len() == old(self).spec_len(),
            final(self)@ == old(self)@.signalled(interest),
    {
        if self.wait_interest() & interest != 0 {
            self.wake = true;
        }
        assert(self@ =~= old(self)@.signalled(interest));
    }

    /// Ends acquisition. Claims that are held stay.
    pub fn close(&mut self)
        requires
            old(self).wf(),
        ensures
            final(self).wf(),
            final(self).spec_frames() == old(self).spec_frames(),
            final(self).spec_len() == old(self).spec_len(),
            final(self)@ == old(self)@.closed(),
    {
        if self.active() != 0 {
            self.set_active(0);
            self.signal(CLOSED);
            self.signal_release();
        }
    }

    /// Takes note that the consumer's end of the wake channel is gone. Outstanding claims
    /// still drain normally.
    pub fn wake_broken(&mut self)
        requires
            old(self).wf(),
        ensures
            final(self).wf(),
            final(self).spec_frames() == old(self).spec_frames(),
            final(self).spec_len() == old(self).spec_len(),
            final(self)@ == (ClaimPage { active: 0, wake: false, ..old(self)@ }),
    {
        self.set_active(0);
        self.drain_wake();
    }

    /// Declares that the consumer will not touch the page again.
    pub fn acknowledge_quiescent(&mut self)
        requires
            old(self).wf(),
        ensures
            final(self).wf(),
            final(self).spec_frames() == old(self).spec_frames(),
            final(self).spec_len() == old(self).spec_len(),
            final(self)@ == old(self)@.acknowledged(),
    {
        self.set(QUIESCENT, 1);
        self.release_wake = true;
        assert(self@ =~= old(self)@.acknowledged());
    }

    /// Gives a slot back. The handoff state is reset before the slot is free: whoever takes
    /// it next must not inherit an old pending release.
    pub fn return_credit(&mut self, index: usize)
        requires
            old(self).wf(),
            index < old(self).spec_frames(),
        ensures
            final(self).wf(),
            final(self).spec_frames() == old(self).spec_frames(),
            final(self).spec_len() == old(self).spec_len(),
            final(self)@ == old(self)@.credited(index as int),
    {
        self.set_release_pending(index, 0);
        self.set_slot(index, 0);
        let epoch: u64 = self.capacity_epoch();
        self.set(CAPACITY_EPOCH, epoch.wrapping_add(1));
        let ghost freed = ClaimPage {
            pending: old(self)@.pending.update(index as int, 0),
            slots: old(self)@.slots.update(index as int, 0),
            capacity_epoch: if old(self)@.capacity_epoch == u64::MAX {
                0
            } else {
                (old(self)@.capacity_epoch + 1) as u64
            },
            ..old(self)@
        };
        assert(self@ =~= freed);
        if epoch == u64::MAX {
            self.close();
        }
        self.signal(CAPACITY);
        if self.active() == 0 {
            self.signal_release();
        }
        assert(self@ =~= old(self)@.credited(index as int));
    }
}

} // verus!
