//! Allocation accounting only. The arena supplies the mapping, lease and completion proofs
//! before it acknowledges cleanup; this book cannot establish them.

use std::collections::BTreeMap;

use super::{Accounts, AdmissionBook, AdmissionError};
use crate::totals::{
    lemma_total_insert, lemma_total_over, lemma_total_remove, lemma_total_replace, total, total_over,
};
use vstd::prelude::*;
use vstd::std_specs::iter::IteratorSpec;

verus! {

/// Identifies one resource allocation in its producer's admission book. An old identity is
/// never reused for a replacement, even when its geometry is equal.
#[derive(Debug, Clone, Copy, PartialEq, Eq, PartialOrd, Ord, Structural)]
pub struct AllocationId(pub u64);

/// A replacement that has been started and not yet installed.
#[derive(Debug, Clone, Copy, PartialEq, Eq, Structural)]
pub struct PendingAllocation {
    pub upper_bound: u64,
    pub reserved: Option<AllocationId>,
}

/// Why a replacement cannot be started, in the order in which the reasons are looked at.
pub open spec fn start_refusal(accounts: Accounts, upper_bound: u64) -> Option<AdmissionError> {
    if accounts.pending is Some {
        Some(AdmissionError::ReconfigurationPending)
    } else if upper_bound == 0 {
        Some(AdmissionError::InvalidAllocationSize)
    } else if upper_bound > accounts.free_bytes() + accounts.resource_bytes() {
        Some(
            AdmissionError::InsufficientMemory {
                requested: upper_bound,
                available: (accounts.free_bytes() + accounts.resource_bytes()) as u64,
            },
        )
    } else if accounts.next_allocation == u64::MAX {
        Some(AdmissionError::IdsExhausted)
    } else {
        None
    }
}

impl Accounts {
    /// A replacement that has been started.
    pub open spec fn started(self, upper_bound: u64) -> Accounts {
        Accounts {
            pending: Some(PendingAllocation { upper_bound, reserved: None }),
            current: None,
            ..self
        }
    }

    /// A replacement whose bound has been charged under the next identity.
    pub open spec fn reserved(self) -> Accounts {
        let bound = (self.pending->0).upper_bound;
        Accounts {
            next_allocation: (self.next_allocation + 1) as u64,
            allocations: self.allocations.insert(self.next_allocation, bound),
            pending: Some(
                PendingAllocation {
                    upper_bound: bound,
                    reserved: Some(AllocationId(self.next_allocation)),
                },
            ),
            ..self
        }
    }

    /// A replacement that has become the current allocation at its actual size.
    pub open spec fn installed(self, id: AllocationId, actual_bytes: u64) -> Accounts {
        Accounts {
            allocations: self.allocations.insert(id.0, actual_bytes),
            current: Some(id),
            pending: None,
            ..self
        }
    }

    /// An allocation that has been destroyed.
    pub open spec fn reclaimed(self, id: AllocationId) -> Accounts {
        Accounts { allocations: self.allocations.remove(id.0), ..self }
    }
}

/// The sum of all values of a map.
fn sum_values(m: &BTreeMap<u64, u64>) -> (result: u64)
    requires
        m@.dom().finite(),
        total(m@) <= u64::MAX,
    ensures
        result == total(m@),
{
    let mut sum: u64 = 0;
    let keys = m.keys();
    let ghost all = keys.remaining().unref();
    proof {
        assert(keys.remaining().no_duplicates());
        assert(all.no_duplicates());
        lemma_total_over(m@, all);
    }
    for k in it: keys
        invariant
            m@.dom().finite(),
            it.seq().unref() == all,
            all.to_set() == m@.dom(),
            total_over(m@, all) == total(m@),
            total(m@) <= u64::MAX,
            sum == total_over(m@, all.take(it.index())),
    {
        let ghost i = it.index();
        proof {
            assert(all.len() == it.seq().len());
            assert(*k == all[i]);
            assert(all.to_set().contains(all[i]));
            assert(all.take(i + 1).drop_last() =~= all.take(i));
            assert(all.take(i + 1).last() == all[i]);
            lemma_total_over_prefix(m@, all, i + 1);
        }
        let value: u64 = match m.get(k) {
            Some(value) => *value,
            None => 0,
        };
        sum = sum + value;
    }
    assert(all.take(all.len() as int) =~= all);
    sum
}

proof fn lemma_total_over_prefix(m: Map<u64, u64>, keys: Seq<u64>, len: int)
    requires
        0 <= len <= keys.len(),
    ensures
        total_over(m, keys.take(len)) <= total_over(m, keys),
    decreases keys.len() - len,
{
    if len == keys.len() {
        assert(keys.take(len) =~= keys);
    } else {
        lemma_total_over_prefix(m, keys, len + 1);
        assert(keys.take(len + 1).drop_last() =~= keys.take(len));
    }
}

impl AdmissionBook {
    #[must_use]
    pub fn current_allocation(&self) -> (result: Option<AllocationId>)
        ensures
            result == self@.current,
    {
        self.current_allocation
    }

    /// Includes fixed control bytes, claim mappings, all unreclaimed resource generations,
    /// and the bound of a reserved replacement.
    #[must_use]
    pub fn committed_bytes(&self) -> (result: u64)
        requires
            self.inv(),
        ensures
            result == self@.committed(),
    {
        self.committed_bytes
    }

    /// Starts a producer-serialized transition before publication is retired. Resource
    /// count, history and reserve remain unchanged. Admission stays closed through
    /// allocation and installation. No bytes are released here.
    pub fn begin_reconfiguration(&mut self, upper_bound: u64) -> (result: Result<(), AdmissionError>)
        requires
            old(self).inv(),
        ensures
            final(self).inv(),
            match result {
                Ok(()) => {
                    &&& start_refusal(old(self)@, upper_bound) is None
                    &&& final(self)@ == old(self)@.started(upper_bound)
                },
                Err(error) => {
                    &&& start_refusal(old(self)@, upper_bound) == Some(error)
                    &&& final(self)@ == old(self)@
                },
            },
    {
        if self.pending_allocation.is_some() {
            return Err(AdmissionError::ReconfigurationPending);
        }
        if upper_bound == 0 {
            return Err(AdmissionError::InvalidAllocationSize);
        }
        // A proposal that cannot fit even after all old resource generations are reclaimed
        // is refused. Existing claim reservations stay covered.
        let resource_bytes: u64 = sum_values(&self.allocations);
        let nonresource_bytes: u64 = self.committed_bytes - resource_bytes;
        let available: u64 = self.limits.memory_budget - nonresource_bytes;
        if upper_bound > available {
            return Err(
                AdmissionError::InsufficientMemory { requested: upper_bound, available },
            );
        }
        if self.next_allocation == u64::MAX {
            return Err(AdmissionError::IdsExhausted);
        }
        self.pending_allocation = Some(PendingAllocation { upper_bound, reserved: None });
        self.current_allocation = None;
        Ok(())
    }

    /// Reserves before allocating. Insufficient overlap capacity leaves the proposal pending
    /// and admission paused, so that proven old-allocation cleanup can make space. Retrying
    /// an existing reservation is idempotent.
    pub fn reserve_reconfiguration(&mut self) -> (result: Result<AllocationId, AdmissionError>)
        requires
            old(self).inv(),
        ensures
            final(self).inv(),
            match result {
                Ok(id) => {
                    &&& old(self)@.pending is Some
                    &&& match (old(self)@.pending->0).reserved {
                        Some(reserved) => id == reserved && final(self)@ == old(self)@,
                        None => {
                            let bound = (old(self)@.pending->0).upper_bound;
                            &&& bound <= old(self)@.free_bytes()
                            &&& old(self)@.next_allocation < u64::MAX
                            &&& id == AllocationId(old(self)@.next_allocation)
                            &&& final(self)@ == old(self)@.reserved()
                        },
                    }
                },
                Err(error) => {
                    &&& final(self)@ == old(self)@
                    &&& match old(self)@.pending {
                        None => error == AdmissionError::NoReconfiguration,
                        Some(pending) => {
                            &&& pending.reserved is None
                            &&& if pending.upper_bound > old(self)@.free_bytes() {
                                error == (AdmissionError::InsufficientMemory {
                                    requested: pending.upper_bound,
                                    available: old(self)@.free_bytes() as u64,
                                })
                            } else {
                                &&& error == AdmissionError::IdsExhausted
                                &&& old(self)@.next_allocation == u64::MAX
                            }
                        },
                    }
                },
            },
    {
        let pending = match self.pending_allocation {
            Some(pending) => pending,
            None => {
                return Err(AdmissionError::NoReconfiguration);
            },
        };
        if let Some(id) = pending.reserved {
            return Ok(id);
        }
        let available: u64 = self.limits.memory_budget - self.committed_bytes;
        if pending.upper_bound > available {
            return Err(
                AdmissionError::InsufficientMemory { requested: pending.upper_bound, available },
            );
        }
        let next: u64 = match self.next_allocation.checked_add(1) {
            Some(next) => next,
            None => {
                return Err(AdmissionError::IdsExhausted);
            },
        };
        let id = AllocationId(self.next_allocation);
        proof {
            lemma_total_insert(self.allocations@, id.0, pending.upper_bound);
        }
        self.next_allocation = next;
        self.committed_bytes = self.committed_bytes + pending.upper_bound;
        self.allocations.insert(id.0, pending.upper_bound);
        self.pending_allocation = Some(
            PendingAllocation { upper_bound: pending.upper_bound, reserved: Some(id) },
        );
        Ok(id)
    }

    /// Installs only after allocation and setup succeeded. The allocator must obey the
    /// reserved bound during allocation, not merely compare its final size here. Any unused
    /// portion of that bound becomes available.
    pub fn install_reconfiguration(&mut self, actual_bytes: u64) -> (result: Result<
        AllocationId,
        AdmissionError,
    >)
        requires
            old(self).inv(),
        ensures
            final(self).inv(),
            match result {
                Ok(id) => {
                    &&& old(self)@.pending matches Some(pending) && pending.reserved == Some(id) && 1
                        <= actual_bytes <= pending.upper_bound
                    &&& final(self)@ == old(self)@.installed(id, actual_bytes)
                },
                Err(error) => {
                    &&& final(self)@ == old(self)@
                    &&& match old(self)@.pending {
                        None => error == AdmissionError::NoReconfiguration,
                        Some(pending) => if pending.reserved is None {
                            error == AdmissionError::AllocationNotReserved
                        } else {
                            &&& error == AdmissionError::InvalidAllocationSize
                            &&& actual_bytes == 0 || actual_bytes > pending.upper_bound
                        },
                    }
                },
            },
    {
        let pending = match self.pending_allocation {
            Some(pending) => pending,
            None => {
                return Err(AdmissionError::NoReconfiguration);
            },
        };
        let id = match pending.reserved {
            Some(id) => id,
            None => {
                return Err(AdmissionError::AllocationNotReserved);
            },
        };
        if actual_bytes == 0 || actual_bytes > pending.upper_bound {
            return Err(AdmissionError::InvalidAllocationSize);
        }
        proof {
            lemma_total_replace(self.allocations@, id.0, actual_bytes);
            lemma_total_remove(self.allocations@, id.0);
            assert(self.allocations@.insert(id.0, actual_bytes).dom() =~= self.allocations@.dom());
        }
        self.committed_bytes = self.committed_bytes - (pending.upper_bound - actual_bytes);
        self.allocations.insert(id.0, actual_bytes);
        self.current_allocation = Some(id);
        self.pending_allocation = None;
        Ok(id)
    }

    /// Returns a failed setup allocation's reservation only after the arena has destroyed its
    /// allocation and every partial mapping and handle. The proposal stays pending, so that
    /// another admission cannot consume its retry capacity.
    pub fn abandon_reconfiguration_allocation(&mut self) -> (result: Result<(), AdmissionError>)
        requires
            old(self).inv(),
        ensures
            final(self).inv(),
            match result {
                Ok(()) => {
                    &&& old(self)@.pending matches Some(pending) && pending.reserved is Some
                    &&& final(self)@ == (Accounts {
                        allocations: old(self)@.allocations.remove(
                            ((old(self)@.pending->0).reserved->0).0,
                        ),
                        pending: Some(
                            PendingAllocation { reserved: None, ..old(self)@.pending->0 },
                        ),
                        ..old(self)@
                    })
                },
                Err(error) => {
                    &&& final(self)@ == old(self)@
                    &&& match old(self)@.pending {
                        None => error == AdmissionError::NoReconfiguration,
                        Some(pending) => {
                            &&& pending.reserved is None
                            &&& error == AdmissionError::AllocationNotReserved
                        },
                    }
                },
            },
    {
        let pending = match self.pending_allocation {
            Some(pending) => pending,
            None => {
                return Err(AdmissionError::NoReconfiguration);
            },
        };
        let id = match pending.reserved {
            Some(id) => id,
            None => {
                return Err(AdmissionError::AllocationNotReserved);
            },
        };
        proof {
            lemma_total_remove(self.allocations@, id.0);
        }
        self.pending_allocation = Some(
            PendingAllocation { upper_bound: pending.upper_bound, reserved: None },
        );
        self.allocations.remove(&id.0);
        self.committed_bytes = self.committed_bytes - pending.upper_bound;
        Ok(())
    }

    /// Acknowledges actual destruction of a retired allocation. The arena must first prove
    /// that all mappings, setup offers, leases and asynchronous uses have retired. Neither
    /// installation nor timeout supplies that proof.
    pub fn complete_allocation_cleanup(&mut self, id: AllocationId) -> (result: Result<
        (),
        AdmissionError,
    >)
        requires
            old(self).inv(),
        ensures
            final(self).inv(),
            ({
                let in_use = old(self)@.current == Some(id) || (old(self)@.pending matches Some(
                    pending,
                ) && pending.reserved == Some(id));
                match result {
                    Ok(()) => {
                        &&& !in_use
                        &&& old(self)@.allocations.contains_key(id.0)
                        &&& final(self)@ == old(self)@.reclaimed(id)
                    },
                    Err(error) => {
                        &&& final(self)@ == old(self)@
                        &&& if in_use {
                            error == AdmissionError::AllocationInUse
                        } else {
                            &&& error == AdmissionError::UnknownAllocation
                            &&& !old(self)@.allocations.contains_key(id.0)
                        }
                    },
                }
            }),
    {
        if let Some(current) = self.current_allocation {
            if current == id {
                return Err(AdmissionError::AllocationInUse);
            }
        }
        if let Some(pending) = self.pending_allocation {
            if let Some(reserved) = pending.reserved {
                if reserved == id {
                    return Err(AdmissionError::AllocationInUse);
                }
            }
        }
        match self.allocations.remove(&id.0) {
            None => {
                assert(self.allocations@ =~= old(self).allocations@);
                Err(AdmissionError::UnknownAllocation)
            },
            Some(bytes) => {
                proof {
                    lemma_total_remove(old(self).allocations@, id.0);
                }
                self.committed_bytes = self.committed_bytes - bytes;
                Ok(())
            },
        }
    }
}

/// A replacement that is reserved, installed and followed by the destruction of the old
/// allocation commits exactly its actual bytes in the place of the old ones.
pub proof fn replacement_exchanges_the_bytes(
    accounts: Accounts,
    upper_bound: u64,
    actual_bytes: u64,
    old: AllocationId,
)
    requires
        accounts.inv(),
        accounts.current == Some(old),
        start_refusal(accounts, upper_bound) is None,
        upper_bound <= accounts.free_bytes(),
        1 <= actual_bytes <= upper_bound,
    ensures
        ({
            let new = AllocationId(accounts.next_allocation);
            let reserved = accounts.started(upper_bound).reserved();
            let installed = reserved.installed(new, actual_bytes);
            let finished = installed.reclaimed(old);
            &&& reserved.committed() == accounts.committed() + upper_bound
            &&& installed.committed() == accounts.committed() + actual_bytes
            &&& finished.committed() == accounts.committed() + actual_bytes
                - accounts.allocations[old.0]
            &&& new != old
            &&& finished.current == Some(new)
        }),
{
    let new = AllocationId(accounts.next_allocation);
    let reserved = accounts.started(upper_bound).reserved();
    let installed = reserved.installed(new, actual_bytes);
    lemma_total_insert(accounts.allocations, new.0, upper_bound);
    lemma_total_replace(reserved.allocations, new.0, actual_bytes);
    lemma_total_remove(installed.allocations, old.0);
}

/// While a replacement is pending, nobody is admitted.
pub proof fn pending_replacement_pauses_admission(
    accounts: Accounts,
    request: super::HoldingRequest,
)
    requires
        accounts.pending is Some,
    ensures
        super::admission_refusal(accounts, request) == Some(AdmissionError::ReconfigurationPending),
{
}

} // verus!
