//! Persistent control is separate from replaceable resource storage. Descriptors and
//! payloads are read only after a claim has been validated.

use super::layout::{ResourceLayout, HEADER_LEN};
use super::{
    blank_descriptor, mapping_error, state_word, ArenaError, FrameDescriptor, ScopeId,
    MAX_GENERATION, VERSION,
};
use vstd::prelude::*;
use vstd::slice::slice_subrange;

verus! {

/// Marks a resource mapping: the bytes `JSRES001`, least significant first.
pub const RESOURCE_MAGIC: u64 = 0x3130_3053_4552_534a;

/// Marks a control mapping: the bytes `JSCTL001`, least significant first.
pub const CONTROL_MAGIC: u64 = 0x3130_304c_5443_534a;

/// Word positions of the control mapping, in units of eight bytes.
pub const LATEST: usize = 16;

pub const TERMINAL: usize = 17;

pub const RECONFIGURATION_EPOCH: usize = 18;

pub const CONFIGURATION: usize = 19;

pub const FIRST_CURSOR: usize = 20;

/// The first position of the ring.
pub const RING: usize = 32;

/// What the control mapping says.
#[verifier::ext_equal]
pub struct ControlPage {
    pub scope: ScopeId,
    /// The newest published cursor, or zero.
    pub latest: u64,
    /// Nonzero once the arena is closed.
    pub terminal: u64,
    pub epoch: u64,
    /// The installed resource generation, or zero while one is replaced.
    pub configuration: u64,
    /// The first cursor of the installed generation.
    pub first_cursor: u64,
    /// For each retained position, one more than the index of its resource, or zero.
    pub ring: Seq<u64>,
}

impl ControlPage {
    /// Where the ring advertises a cursor.
    pub open spec fn position(self, cursor: u64) -> int {
        (cursor - 1) % self.ring.len() as int
    }

    /// A frame is advertised under a new cursor.
    pub open spec fn advertised(self, cursor: u64, index: int) -> ControlPage {
        ControlPage {
            ring: self.ring.update(self.position(cursor), (index + 1) as u64),
            latest: cursor,
            ..self
        }
    }
}

/// The control mapping, as its words.
pub struct ControlMap {
    words: Vec<u64>,
    history: usize,
    scope: ScopeId,
}

impl View for ControlMap {
    type V = ControlPage;

    closed spec fn view(&self) -> ControlPage {
        let w = self.words@;
        ControlPage {
            scope: self.scope,
            latest: w[16],
            terminal: w[17],
            epoch: w[18],
            configuration: w[19],
            first_cursor: w[20],
            ring: Seq::new(self.history as nat, |i: int| w[32 + i]),
        }
    }
}

impl ControlMap {
    /// Positions of the ring.
    pub closed spec fn spec_history(self) -> nat {
        self.history as nat
    }

    /// The words cover the ring, and the header says which arena this is.
    pub closed spec fn wf(self) -> bool {
        let w = self.words@;
        &&& w.len() <= usize::MAX / 8
        &&& w.len() >= 32 + self.history
        &&& self.history > 0
        &&& w[0] == CONTROL_MAGIC
        &&& w[1] == VERSION
        &&& w[2] == self.history
        &&& w[3] == w.len() * 8
        &&& w[4] == self.scope.low
        &&& w[5] == self.scope.high
    }

    /// The ring has as many positions as the history.
    pub broadcast proof fn ring_is_history(self)
        ensures
            #[trigger] self@.ring.len() == self.spec_history(),
    {
    }

    /// Something is retained.
    pub proof fn ring_is_not_empty(self)
        requires
            self.wf(),
        ensures
            self@.ring.len() > 0,
    {
    }

    /// A fresh control mapping of that many bytes, for the first resource generation.
    pub fn new(history: usize, len: usize, scope: ScopeId) -> (result: Self)
        requires
            history > 0,
            len >= HEADER_LEN + history * 8,
            len % 8 == 0,
        ensures
            result.wf(),
            result.spec_history() == history,
            result@ == (ControlPage {
                scope,
                latest: 0,
                terminal: 0,
                epoch: 0,
                configuration: 1,
                first_cursor: 1,
                ring: Seq::new(history as nat, |i: int| 0u64),
            }),
    {
        let count: usize = len / 8;
        let mut words: Vec<u64> = Vec::with_capacity(count);
        while words.len() < count
            invariant
                words@.len() <= count,
                forall|i: int| 0 <= i < words@.len() ==> words@[i] == 0,
            decreases count - words@.len(),
        {
            words.push(0);
        }
        words.set(0, CONTROL_MAGIC);
        words.set(1, VERSION);
        words.set(2, history as u64);
        words.set(3, len as u64);
        words.set(4, scope.low);
        words.set(5, scope.high);
        words.set(CONFIGURATION, 1);
        words.set(FIRST_CURSOR, 1);
        let map = ControlMap { words, history, scope };
        assert(map@.ring =~= Seq::new(history as nat, |i: int| 0u64));
        map
    }

    /// Whether the words of a received mapping begin with the header that a grant names.
    pub open spec fn header_agrees(words: Seq<u64>, history: nat, scope: ScopeId) -> bool {
        &&& words[0] == CONTROL_MAGIC
        &&& words[1] == VERSION
        &&& words[2] == history
        &&& words[3] == words.len() * 8
        &&& words[4] == scope.low
        &&& words[5] == scope.high
    }

    /// Takes a received mapping, if its header agrees with the grant.
    pub fn map(words: Vec<u64>, history: usize, scope: ScopeId) -> (result: Result<
        Self,
        ArenaError,
    >)
        requires
            history > 0,
            32 + history <= words@.len() <= usize::MAX / 8,
        ensures
            match result {
                Ok(map) => {
                    &&& Self::header_agrees(words@, history as nat, scope)
                    &&& map.wf()
                    &&& map.spec_history() == history
                    &&& map@.scope == scope
                    &&& map@.latest == words@[16]
                    &&& map@.terminal == words@[17]
                    &&& map@.epoch == words@[18]
                    &&& map@.configuration == words@[19]
                    &&& map@.first_cursor == words@[20]
                    &&& forall|i: int| 0 <= i < history ==> #[trigger] map@.ring[i] == words@[32 + i]
                },
                Err(error) => {
                    &&& !Self::header_agrees(words@, history as nat, scope)
                    &&& mapping_error(error, "control header disagrees with grant"@)
                },
            },
    {
        if words[0] != CONTROL_MAGIC || words[1] != VERSION || words[2] != history as u64
            || words[3] != (words.len() * 8) as u64 || words[4] != scope.low || words[5]
            != scope.high {
            return Err(ArenaError::Mapping("control header disagrees with grant"));
        }
        Ok(ControlMap { words, history, scope })
    }

    /// The words of the mapping.
    pub closed spec fn spec_words(self) -> Seq<u64> {
        self.words@
    }

    /// The words of the mapping.
    pub fn words(&self) -> (result: &Vec<u64>)
        ensures
            result@ == self.spec_words(),
    {
        &self.words
    }

    /// The words of a mapping can be received: their header names the same arena, and they say
    /// the same.
    pub proof fn words_can_be_received(self)
        requires
            self.wf(),
        ensures
            ({
                let words = self.spec_words();
                &&& 32 + self.spec_history() <= words.len() <= usize::MAX / 8
                &&& Self::header_agrees(words, self.spec_history(), self@.scope)
                &&& self@.latest == words[16]
                &&& self@.terminal == words[17]
                &&& self@.epoch == words[18]
                &&& self@.configuration == words[19]
                &&& self@.first_cursor == words[20]
                &&& forall|i: int|
                    0 <= i < self.spec_history() ==> #[trigger] self@.ring[i] == words[32 + i]
            }),
    {
    }

    pub fn history(&self) -> (result: usize)
        ensures
            result == self.spec_history(),
    {
        self.history
    }

    pub fn scope(&self) -> (result: ScopeId)
        ensures
            result == self@.scope,
    {
        self.scope
    }

    pub fn latest(&self) -> (result: u64)
        requires
            self.wf(),
        ensures
            result == self@.latest,
    {
        self.words[LATEST]
    }

    pub fn terminal(&self) -> (result: u64)
        requires
            self.wf(),
        ensures
            result == self@.terminal,
    {
        self.words[TERMINAL]
    }

    pub fn epoch(&self) -> (result: u64)
        requires
            self.wf(),
        ensures
            result == self@.epoch,
    {
        self.words[RECONFIGURATION_EPOCH]
    }

    pub fn configuration(&self) -> (result: u64)
        requires
            self.wf(),
        ensures
            result == self@.configuration,
    {
        self.words[CONFIGURATION]
    }

    pub fn first_cursor(&self) -> (result: u64)
        requires
            self.wf(),
        ensures
            result == self@.first_cursor,
    {
        self.words[FIRST_CURSOR]
    }

    /// What the ring advertises for a cursor.
    pub fn ring(&self, cursor: u64) -> (result: u64)
        requires
            self.wf(),
            cursor != 0,
        ensures
            result == self@.ring[self@.position(cursor)],
    {
        let position: usize = ((cursor - 1) % self.history as u64) as usize;
        self.words[RING + position]
    }

    pub fn set_terminal(&mut self)
        requires
            old(self).wf(),
        ensures
            final(self).wf(),
            final(self).spec_history() == old(self).spec_history(),
            final(self)@ == (ControlPage { terminal: 1, ..old(self)@ }),
    {
        self.words.set(TERMINAL, 1);
        assert(self@ =~= (ControlPage { terminal: 1, ..old(self)@ }));
    }

    pub fn set_epoch(&mut self, epoch: u64)
        requires
            old(self).wf(),
        ensures
            final(self).wf(),
            final(self).spec_history() == old(self).spec_history(),
            final(self)@ == (ControlPage { epoch, ..old(self)@ }),
    {
        self.words.set(RECONFIGURATION_EPOCH, epoch);
        assert(self@ =~= (ControlPage { epoch, ..old(self)@ }));
    }

    pub fn set_configuration(&mut self, configuration: u64)
        requires
            old(self).wf(),
        ensures
            final(self).wf(),
            final(self).spec_history() == old(self).spec_history(),
            final(self)@ == (ControlPage { configuration, ..old(self)@ }),
    {
        self.words.set(CONFIGURATION, configuration);
        assert(self@ =~= (ControlPage { configuration, ..old(self)@ }));
    }

    pub fn set_first_cursor(&mut self, first_cursor: u64)
        requires
            old(self).wf(),
        ensures
            final(self).wf(),
            final(self).spec_history() == old(self).spec_history(),
            final(self)@ == (ControlPage { first_cursor, ..old(self)@ }),
    {
        self.words.set(FIRST_CURSOR, first_cursor);
        assert(self@ =~= (ControlPage { first_cursor, ..old(self)@ }));
    }

    /// Advertises a resource under a new cursor: the ring position first, then the newest
    /// cursor.
    pub fn advertise(&mut self, cursor: u64, index: usize)
        requires
            old(self).wf(),
            cursor != 0,
            index < u64::MAX,
        ensures
            final(self).wf(),
            final(self).spec_history() == old(self).spec_history(),
            final(self)@ == old(self)@.advertised(cursor, index as int),
    {
        let position: usize = ((cursor - 1) % self.history as u64) as usize;
        self.words.set(RING + position, index as u64 + 1);
        self.words.set(LATEST, cursor);
        assert(self@ =~= old(self)@.advertised(cursor, index as int));
    }
}

/// One resource as its users see it.
#[verifier::ext_equal]
pub struct Record {
    pub state: u64,
    pub descriptor: FrameDescriptor,
    pub payload: Seq<u8>,
}

impl Record {
    /// The frame generation that the resource holds, or zero.
    pub open spec fn generation(self) -> int {
        self.state as int / 2
    }

    /// The record that a mapping's state word, descriptor and payload bytes hold. Only the bytes
    /// that were published count.
    pub open spec fn stored(state: u64, descriptor: FrameDescriptor, bytes: Seq<u8>) -> Record {
        let len = if descriptor.payload_len <= bytes.len() {
            descriptor.payload_len as int
        } else {
            bytes.len() as int
        };
        Record { state, descriptor, payload: bytes.take(len) }
    }

    /// Whether the generation may still be acquired.
    pub open spec fn valid(self) -> bool {
        self.state % 2 == 1
    }

    /// The generation may no longer be acquired.
    pub open spec fn retired(self) -> Record {
        Record { state: (self.state - self.state % 2) as u64, ..self }
    }
}

/// One resource generation as its users see it.
#[verifier::ext_equal]
pub struct ResourcePage {
    pub layout: ResourceLayout,
    pub scope: ScopeId,
    pub generation: u64,
    pub records: Seq<Record>,
}

impl ResourcePage {
    /// One resource may no longer be acquired.
    pub open spec fn retired(self, index: int) -> ResourcePage {
        ResourcePage { records: self.records.update(index, self.records[index].retired()), ..self }
    }

    /// No resource may be acquired any more.
    pub open spec fn all_retired(self) -> ResourcePage {
        ResourcePage { records: self.records.map_values(|record: Record| record.retired()), ..self }
    }

    /// A resource holds a new frame.
    pub open spec fn filled(
        self,
        index: int,
        cursor: u64,
        descriptor: FrameDescriptor,
        bytes: Seq<u8>,
    ) -> ResourcePage {
        ResourcePage {
            records: self.records.update(
                index,
                Record { state: state_word(cursor, true) as u64, descriptor, payload: bytes },
            ),
            ..self
        }
    }
}

/// One resource: its state word, its descriptor and the bytes that were published with it.
struct ResourceRecord {
    state: u64,
    descriptor: FrameDescriptor,
    payload: Vec<u8>,
}

impl ResourceRecord {
    spec fn record(self) -> Record {
        Record { state: self.state, descriptor: self.descriptor, payload: self.payload@ }
    }
}

/// The storage of one resource generation.
pub struct ResourceMap {
    layout: ResourceLayout,
    scope: ScopeId,
    generation: u64,
    records: Vec<ResourceRecord>,
}

/// What the first bytes of a resource mapping say.
#[derive(Debug, Clone, Copy, PartialEq, Eq, Structural)]
pub struct ResourceHeader {
    pub magic: u64,
    pub version: u64,
    pub resources: u64,
    pub history: u64,
    pub payload_capacity: u64,
    pub map_len: u64,
    pub records_offset: u64,
    pub payload_offset: u64,
    pub scope: ScopeId,
    pub generation: u64,
}

/// The header of a generation with this layout.
pub open spec fn resource_header(layout: ResourceLayout, scope: ScopeId, generation: u64) -> ResourceHeader {
    ResourceHeader {
        magic: RESOURCE_MAGIC,
        version: VERSION,
        resources: layout.resources as u64,
        history: layout.history as u64,
        payload_capacity: layout.payload_capacity as u64,
        map_len: layout.len as u64,
        records_offset: layout.records as u64,
        payload_offset: layout.payload as u64,
        scope,
        generation,
    }
}

/// Checks that a received resource mapping is the one that a grant names.
pub fn check_resource_header(
    header: &ResourceHeader,
    expected: &ResourceLayout,
    scope: ScopeId,
    generation: u64,
) -> (result: Result<(), ArenaError>)
    ensures
        match result {
            Ok(()) => *header == resource_header(*expected, scope, generation),
            Err(error) => {
                &&& *header != resource_header(*expected, scope, generation)
                &&& mapping_error(error, "arena header disagrees with grant"@)
            },
        },
{
    if header.magic != RESOURCE_MAGIC || header.scope != scope || header.version != VERSION
        || header.map_len != expected.len as u64 || header.resources != expected.resources as u64
        || header.history != expected.history as u64 || header.payload_capacity
        != expected.payload_capacity as u64 || header.records_offset != expected.records as u64
        || header.payload_offset != expected.payload as u64 || header.generation != generation {
        return Err(ArenaError::Mapping("arena header disagrees with grant"));
    }
    Ok(())
}

impl View for ResourceMap {
    type V = ResourcePage;

    closed spec fn view(&self) -> ResourcePage {
        ResourcePage {
            layout: self.layout,
            scope: self.scope,
            generation: self.generation,
            records: self.records@.map_values(|record: ResourceRecord| record.record()),
        }
    }
}

impl ResourceMap {
    /// There is a record for every resource.
    pub closed spec fn wf(self) -> bool {
        self.records@.len() == self.layout.resources
    }

    pub proof fn records_cover_the_layout(self)
        requires
            self.wf(),
        ensures
            self@.records.len() == self@.layout.resources,
    {
    }

    /// A fresh generation in which nothing is published.
    pub fn new(layout: ResourceLayout, scope: ScopeId, generation: u64) -> (result: Self)
        ensures
            result.wf(),
            result@ == (ResourcePage {
                layout,
                scope,
                generation,
                records: Seq::new(
                    layout.resources as nat,
                    |i: int|
                        Record {
                            state: 0,
                            descriptor: blank_descriptor(),
                            payload: Seq::<u8>::empty(),
                        },
                ),
            }),
    {
        let mut records: Vec<ResourceRecord> = Vec::new();
        while records.len() < layout.resources
            invariant
                records@.len() <= layout.resources,
                forall|i: int|
                    0 <= i < records@.len() ==> (#[trigger] records@[i]).record() == (Record {
                        state: 0,
                        descriptor: blank_descriptor(),
                        payload: Seq::<u8>::empty(),
                    }),
            decreases layout.resources - records@.len(),
        {
            records.push(
                ResourceRecord {
                    state: 0,
                    descriptor: FrameDescriptor::default(),
                    payload: Vec::new(),
                },
            );
        }
        let map = ResourceMap { layout, scope, generation, records };
        assert(map@.records =~= Seq::new(
            layout.resources as nat,
            |i: int|
                Record { state: 0, descriptor: blank_descriptor(), payload: Seq::<u8>::empty() },
        ));
        map
    }

    /// What the first bytes of the mapping say.
    pub fn header(&self) -> (result: ResourceHeader)
        ensures
            result == resource_header(self@.layout, self@.scope, self@.generation),
    {
        ResourceHeader {
            magic: RESOURCE_MAGIC,
            version: VERSION,
            resources: self.layout.resources as u64,
            history: self.layout.history as u64,
            payload_capacity: self.layout.payload_capacity as u64,
            map_len: self.layout.len as u64,
            records_offset: self.layout.records as u64,
            payload_offset: self.layout.payload as u64,
            scope: self.scope,
            generation: self.generation,
        }
    }

    pub fn layout(&self) -> (result: ResourceLayout)
        ensures
            result == self@.layout,
    {
        self.layout
    }

    pub fn generation(&self) -> (result: u64)
        ensures
            result == self@.generation,
    {
        self.generation
    }

    pub fn state(&self, index: usize) -> (result: u64)
        requires
            self.wf(),
            index < self@.layout.resources,
        ensures
            result == self@.records[index as int].state,
    {
        self.records[index].state
    }

    pub fn descriptor(&self, index: usize) -> (result: FrameDescriptor)
        requires
            self.wf(),
            index < self@.layout.resources,
        ensures
            result == self@.records[index as int].descriptor,
    {
        self.records[index].descriptor
    }

    /// The bytes that were published with a resource.
    pub fn payload(&self, index: usize) -> (result: &[u8])
        requires
            self.wf(),
            index < self@.layout.resources,
        ensures
            result@ == self@.records[index as int].payload,
    {
        self.records[index].payload.as_slice()
    }

    /// Withdraws a resource: its generation may no longer be acquired.
    pub fn retire(&mut self, index: usize)
        requires
            old(self).wf(),
            index < old(self)@.layout.resources,
        ensures
            final(self).wf(),
            final(self)@ == old(self)@.retired(index as int),
    {
        let state: u64 = self.records[index].state;
        let record = &mut self.records[index];
        record.state = state - state % 2;
        assert(self@.records =~= old(self)@.retired(index as int).records);
    }

    /// Withdraws every resource.
    pub fn retire_all(&mut self)
        requires
            old(self).wf(),
        ensures
            final(self).wf(),
            final(self)@ == old(self)@.all_retired(),
    {
        let mut index: usize = 0;
        while index < self.records.len()
            invariant
                self.wf(),
                index <= self.records@.len(),
                self.layout == old(self).layout,
                self.scope == old(self).scope,
                self.generation == old(self).generation,
                self.records@.len() == old(self).records@.len(),
                forall|i: int|
                    0 <= i < index ==> (#[trigger] self.records@[i]).record()
                        == old(self).records@[i].record().retired(),
                forall|i: int|
                    index <= i < self.records@.len() ==> (#[trigger] self.records@[i])
                        == old(self).records@[i],
            decreases self.records@.len() - index,
        {
            let state: u64 = self.records[index].state;
            let record = &mut self.records[index];
            record.state = state - state % 2;
            index = index + 1;
        }
        assert(self@.records =~= old(self)@.all_retired().records);
    }

    /// Writes a frame into a withdrawn resource and lets it be acquired.
    pub fn fill(&mut self, index: usize, cursor: u64, descriptor: FrameDescriptor, bytes: &[u8])
        requires
            old(self).wf(),
            index < old(self)@.layout.resources,
            cursor <= MAX_GENERATION,
        ensures
            final(self).wf(),
            final(self)@ == old(self)@.filled(index as int, cursor, descriptor, bytes@),
    {
        let mut payload: Vec<u8> = Vec::new();
        payload.extend_from_slice(bytes);
        assert(payload@ =~= bytes@);
        let record = &mut self.records[index];
        record.payload = payload;
        record.descriptor = descriptor;
        record.state = cursor * 2 + 1;
        assert(self@.records =~= old(self)@.filled(
            index as int,
            cursor,
            descriptor,
            bytes@,
        ).records);
    }

    /// Takes over what a shared mapping holds of a resource: its state word, its descriptor and
    /// the bytes at its place.
    pub fn load(&mut self, index: usize, state: u64, descriptor: FrameDescriptor, bytes: &[u8])
        requires
            old(self).wf(),
            index < old(self)@.layout.resources,
        ensures
            final(self).wf(),
            final(self)@ == (ResourcePage {
                records: old(self)@.records.update(
                    index as int,
                    Record::stored(state, descriptor, bytes@),
                ),
                ..old(self)@
            }),
    {
        let len: usize = if descriptor.payload_len <= bytes.len() as u64 {
            descriptor.payload_len as usize
        } else {
            bytes.len()
        };
        let mut payload: Vec<u8> = Vec::new();
        payload.extend_from_slice(slice_subrange(bytes, 0, len));
        assert(payload@ =~= bytes@.take(len as int));
        let record = &mut self.records[index];
        record.payload = payload;
        record.descriptor = descriptor;
        record.state = state;
        assert(self@.records =~= old(self)@.records.update(
            index as int,
            Record::stored(state, descriptor, bytes@),
        ));
    }
}

} // verus!
