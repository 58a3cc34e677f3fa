//! Everything that a producer and its consumers share.

use std::collections::BTreeMap;

use super::claims::{ClaimMap, ClaimPage};
use super::mapping::{ControlMap, ControlPage, ResourceMap, ResourcePage};
use crate::maps::keys_of;
use vstd::prelude::*;

verus! {

/// What the shared pages say.
#[verifier::ext_equal]
pub struct Pages {
    pub control: ControlPage,
    /// Every resource generation that has not been destroyed.
    pub resources: Map<u64, ResourcePage>,
    /// The claim page of every incarnation that has not been forgotten.
    pub claims: Map<u64, ClaimPage>,
}

impl Pages {
    /// Whether any incarnation claims this cursor.
    pub open spec fn claimed(self, cursor: u64) -> bool {
        exists|id: u64| #[trigger] self.claims.contains_key(id) && self.claims[id].holds(cursor)
    }

    /// Whether any incarnation has this resource generation mapped.
    pub open spec fn mapped(self, generation: u64) -> bool {
        exists|id: u64| #[trigger] self.claims.contains_key(id) && self.claims[id].maps(generation)
    }

    /// Whether any incarnation claims a frame that this resource generation holds.
    pub open spec fn holds_frame_of(self, generation: u64) -> bool {
        exists|i: int|
            0 <= i < self.resources[generation].records.len() && (
            #[trigger] self.resources[generation].records[i]).generation() != 0 && self.claimed(
                self.resources[generation].records[i].generation() as u64,
            )
    }

    /// One claim page changes.
    pub open spec fn with_claims(self, id: u64, page: ClaimPage) -> Pages {
        Pages { claims: self.claims.insert(id, page), ..self }
    }

    /// Every claim page changes in the same way.
    pub open spec fn each_claims(self, change: spec_fn(ClaimPage) -> ClaimPage) -> Pages {
        Pages { claims: self.claims.map_values(change), ..self }
    }
}

/// The shared pages.
pub struct ArenaPages {
    pub control: ControlMap,
    pub resources: BTreeMap<u64, ResourceMap>,
    pub claims: BTreeMap<u64, ClaimMap>,
}

impl View for ArenaPages {
    type V = Pages;

    open spec fn view(&self) -> Pages {
        Pages {
            control: self.control@,
            resources: self.resources@.map_values(|map: ResourceMap| map@),
            claims: self.claims@.map_values(|map: ClaimMap| map@),
        }
    }
}

impl ArenaPages {
    /// Every page is well formed.
    pub open spec fn wf(self) -> bool {
        &&& self.control.wf()
        &&& self.resources@.dom().finite()
        &&& self.claims@.dom().finite()
        &&& forall|g: u64| #[trigger]
            self.resources@.contains_key(g) ==> self.resources@[g].wf()
        &&& forall|id: u64| #[trigger] self.claims@.contains_key(id) ==> self.claims@[id].wf()
    }

    /// Pages of the same incarnations, with the same numbers of slots.
    pub open spec fn same_frames(self, other: ArenaPages) -> bool {
        &&& self.claims@.dom() == other.claims@.dom()
        &&& forall|id: u64| #[trigger]
            self.claims@.contains_key(id) ==> self.claims@[id].spec_frames()
                == other.claims@[id].spec_frames() && self.claims@[id].spec_len()
                == other.claims@[id].spec_len()
    }

    /// Whether any incarnation claims this cursor.
    pub fn claimed(&self, cursor: u64) -> (result: bool)
        requires
            self.wf(),
        ensures
            result == self@.claimed(cursor),
    {
        let ids = keys_of(&self.claims);
        let mut i: usize = 0;
        while i < ids.len()
            invariant
                self.wf(),
                ids@.to_set() == self.claims@.dom(),
                i <= ids@.len(),
                forall|j: int|
                    0 <= j < i ==> !self@.claims[#[trigger] ids@[j]].holds(cursor),
            decreases ids@.len() - i,
        {
            let id: u64 = ids[i];
            assert(ids@.to_set().contains(id));
            match self.claims.get(&id) {
                Some(page) => {
                    if page.contains(cursor) {
                        assert(self@.claims.contains_key(id));
                        return true;
                    }
                },
                None => {},
            }
            i = i + 1;
        }
        assert forall|id: u64| #[trigger] self@.claims.contains_key(id) implies !self@.claims[id].holds(
            cursor,
        ) by {
            assert(ids@.to_set().contains(id));
            let j = choose|j: int| 0 <= j < ids@.len() && ids@[j] == id;
            assert(!self@.claims[ids@[j]].holds(cursor));
        }
        false
    }

    /// Whether any incarnation has this resource generation mapped.
    pub fn mapped(&self, generation: u64) -> (result: bool)
        requires
            self.wf(),
        ensures
            result == self@.mapped(generation),
    {
        let ids = keys_of(&self.claims);
        let mut i: usize = 0;
        while i < ids.len()
            invariant
                self.wf(),
                ids@.to_set() == self.claims@.dom(),
                i <= ids@.len(),
                forall|j: int|
                    0 <= j < i ==> !self@.claims[#[trigger] ids@[j]].maps(generation),
            decreases ids@.len() - i,
        {
            let id: u64 = ids[i];
            assert(ids@.to_set().contains(id));
            match self.claims.get(&id) {
                Some(page) => {
                    if page.maps(generation) {
                        assert(self@.claims.contains_key(id));
                        return true;
                    }
                },
                None => {},
            }
            i = i + 1;
        }
        assert forall|id: u64| #[trigger] self@.claims.contains_key(id) implies !self@.claims[id].maps(
            generation,
        ) by {
            assert(ids@.to_set().contains(id));
            let j = choose|j: int| 0 <= j < ids@.len() && ids@[j] == id;
            assert(!self@.claims[ids@[j]].maps(generation));
        }
        false
    }

    /// Whether any incarnation claims a frame that this resource generation holds.
    pub fn holds_frame_of(&self, generation: u64) -> (result: bool)
        requires
            self.wf(),
            self.resources@.contains_key(generation),
        ensures
            result == self@.holds_frame_of(generation),
    {
        match self.resources.get(&generation) {
            None => false,
            Some(map) => {
                proof {
                    map.records_cover_the_layout();
                }
                let count: usize = map.layout().resources;
                let mut i: usize = 0;
                while i < count
                    invariant
                        self.wf(),
                        self.resources@.contains_key(generation),
                        *map == self.resources@[generation],
                        map.wf(),
                        count == map@.layout.resources,
                        map@.records.len() == count,
                        i <= count,
                        forall|j: int|
                            0 <= j < i ==> (#[trigger] self@.resources[generation].records[j]).generation()
                                == 0 || !self@.claimed(
                                self@.resources[generation].records[j].generation() as u64,
                            ),
                    decreases count - i,
                {
                    let cursor: u64 = map.state(i) / 2;
                    assert(self@.resources[generation].records[i as int].generation() == cursor);
                    if cursor != 0 && self.claimed(cursor) {
                        return true;
                    }
                    i = i + 1;
                }
                false
            },
        }
    }

    /// Wakes every consumer that waits for one of these.
    pub fn signal_all(&mut self, interest: u64)
        requires
            old(self).wf(),
        ensures
            final(self).wf(),
            final(self).same_frames(*old(self)),
            final(self).control == old(self).control,
            final(self).resources == old(self).resources,
            final(self)@ == old(self)@.each_claims(
                |page: ClaimPage| page.signalled(interest),
            ),
    {
        let ids = keys_of(&self.claims);
        let mut i: usize = 0;
        let ghost before = self.claims@;
        while i < ids.len()
            invariant
                self.wf(),
                self.control == old(self).control,
                self.resources == old(self).resources,
                self.same_frames(*old(self)),
                before == old(self).claims@,
                ids@.no_duplicates(),
                ids@.to_set() == before.dom(),
                i <= ids@.len(),
                self.claims@.dom() == before.dom(),
                forall|j: int|
                    0 <= j < i ==> self.claims@[#[trigger] ids@[j]]@ == before[ids@[j]]@.signalled(
                        interest,
                    ),
                forall|j: int|
                    i <= j < ids@.len() ==> self.claims@[#[trigger] ids@[j]] == before[ids@[j]],
            decreases ids@.len() - i,
        {
            let id: u64 = ids[i];
            assert(ids@.to_set().contains(id));
            match self.claims.remove(&id) {
                Some(mut page) => {
                    page.signal(interest);
                    self.claims.insert(id, page);
                    assert(self.claims@.dom() =~= before.dom());
                },
                None => {},
            }
            i = i + 1;
        }
        proof {
            lemma_each(before, self.claims@, ids@, |page: ClaimPage| page.signalled(interest));
        }
    }

    /// Ends acquisition for every consumer. Claims that are held stay.
    pub fn close_all(&mut self)
        requires
            old(self).wf(),
        ensures
            final(self).wf(),
            final(self).same_frames(*old(self)),
            final(self).control == old(self).control,
            final(self).resources == old(self).resources,
            final(self)@ == old(self)@.each_claims(|page: ClaimPage| page.closed()),
    {
        let ids = keys_of(&self.claims);
        let mut i: usize = 0;
        let ghost before = self.claims@;
        while i < ids.len()
            invariant
                self.wf(),
                self.control == old(self).control,
                self.resources == old(self).resources,
                self.same_frames(*old(self)),
                before == old(self).claims@,
                ids@.no_duplicates(),
                ids@.to_set() == before.dom(),
                i <= ids@.len(),
                self.claims@.dom() == before.dom(),
                forall|j: int|
                    0 <= j < i ==> self.claims@[#[trigger] ids@[j]]@ == before[ids@[j]]@.closed(),
                forall|j: int|
                    i <= j < ids@.len() ==> self.claims@[#[trigger] ids@[j]] == before[ids@[j]],
            decreases ids@.len() - i,
        {
            let id: u64 = ids[i];
            assert(ids@.to_set().contains(id));
            match self.claims.remove(&id) {
                Some(mut page) => {
                    page.close();
                    self.claims.insert(id, page);
                    assert(self.claims@.dom() =~= before.dom());
                },
                None => {},
            }
            i = i + 1;
        }
        proof {
            lemma_each(before, self.claims@, ids@, |page: ClaimPage| page.closed());
        }
    }
}

/// A map whose pages have all been changed one by one has been changed as a whole.
proof fn lemma_each(
    before: Map<u64, ClaimMap>,
    after: Map<u64, ClaimMap>,
    ids: Seq<u64>,
    change: spec_fn(ClaimPage) -> ClaimPage,
)
    requires
        ids.to_set() == before.dom(),
        after.dom() == before.dom(),
        forall|j: int| 0 <= j < ids.len() ==> after[#[trigger] ids[j]]@ == change(before[ids[j]]@),
    ensures
        after.map_values(|map: ClaimMap| map@) == before.map_values(
            |map: ClaimMap| map@,
        ).map_values(change),
{
    assert forall|id: u64| before.dom().contains(id) implies after[id]@ == change(before[id]@) by {
        assert(ids.to_set().contains(id));
        let j = choose|j: int| 0 <= j < ids.len() && ids[j] == id;
        assert(after[ids[j]]@ == change(before[ids[j]]@));
    }
    assert(after.map_values(|map: ClaimMap| map@) =~= before.map_values(
        |map: ClaimMap| map@,
    ).map_values(change));
}

} // verus!
