//! Waiting for a change: arm, take the wakes that have come, look, and only then sleep.

use super::ArenaConsumer;
use crate::acquisition::arena::claims::ClaimPage;
use crate::acquisition::arena::pages::ArenaPages;
use crate::acquisition::arena::wait::{
    check, snapshot, wait_verdict, WaitEvents, WaitInterest, WaitOutcome,
};
use crate::acquisition::arena::{configuration_error, ArenaError};
use vstd::prelude::*;

verus! {

/// A one-way cancellation token: cancellation is permanent and level-triggered. Cancelling
/// never releases frame leases.
#[derive(Debug, PartialEq, Eq)]
pub struct Cancellation {
    cancelled: bool,
    signalled: bool,
}

impl Cancellation {
    pub closed spec fn spec_cancelled(self) -> bool {
        self.cancelled
    }

    /// Whether a wake is on its way to every waiter. It is never taken.
    pub closed spec fn spec_signalled(self) -> bool {
        self.signalled
    }

    pub fn new() -> (result: Self)
        ensures
            !result.spec_cancelled(),
            !result.spec_signalled(),
    {
        Cancellation { cancelled: false, signalled: false }
    }

    /// Cancels; only the first call sends a wake.
    pub fn cancel(&mut self)
        ensures
            final(self).spec_cancelled(),
            final(self).spec_signalled() == (old(self).spec_signalled()
                || !old(self).spec_cancelled()),
    {
        if !self.cancelled {
            self.cancelled = true;
            self.signalled = true;
        }
    }

    #[must_use]
    pub fn is_cancelled(&self) -> (result: bool)
        ensures
            result == self.spec_cancelled(),
    {
        self.cancelled
    }
}

/// A wait that has been armed.
#[derive(Debug, Clone, Copy, PartialEq, Eq, Structural)]
pub struct Wait {
    pub observed: WaitEvents,
    pub interest: WaitInterest,
    pub deadline: Option<u128>,
}

/// Whether the deadline of a wait has come.
pub open spec fn wait_expired(deadline: Option<u128>, now: u128) -> bool {
    deadline matches Some(deadline) && now >= deadline
}

impl<T> ArenaConsumer<T> {
    /// Starts an efficient wait for changes relative to a snapshot taken before the
    /// acquisition predicate. Closure and reconfiguration are always relevant: releasing old
    /// frames may be needed before more data can arrive.
    pub fn begin_wait(
        &self,
        pages: &mut ArenaPages,
        observed: WaitEvents,
        interest: WaitInterest,
        timeout: Option<u128>,
        now: u128,
    ) -> (result: Result<Wait, ArenaError>)
        requires
            self.attached(*old(pages)),
        ensures
            self.attached(*final(pages)),
            ({
                let id = self@.incarnation.0;
                if timeout matches Some(duration) && now + duration > u128::MAX {
                    &&& result matches Err(error) && configuration_error(
                        error,
                        "wait deadline overflow"@,
                    )
                    &&& final(pages)@ == old(pages)@
                } else {
                    &&& result == Ok::<Wait, ArenaError>(
                        Wait {
                            observed,
                            interest,
                            deadline: match timeout {
                                Some(duration) => Some((now + duration) as u128),
                                None => None,
                            },
                        },
                    )
                    &&& final(pages)@ == old(pages)@.with_claims(
                        id,
                        (ClaimPage {
                            wait_interest: interest.spec_armed(),
                            ..old(pages)@.claims[id]
                        }),
                    )
                }
            }),
    {
        let deadline: Option<u128> = match timeout {
            Some(duration) => match now.checked_add(duration) {
                Some(deadline) => Some(deadline),
                None => {
                    return Err(ArenaError::Configuration("wait deadline overflow"));
                },
            },
            None => None,
        };
        let id: u64 = self.incarnation.0;
        match pages.claims.remove(&id) {
            None => {
                assert(false);
            },
            Some(mut page) => {
                page.set_wait_interest(interest.armed());
                pages.claims.insert(id, page);
                proof {
                    assert(pages@.claims =~= old(pages)@.with_claims(id, page@).claims);
                    assert(pages@ == old(pages)@.with_claims(id, page@));
                }
            },
        }
        Ok(Wait { observed, interest, deadline })
    }

    /// One round of a wait: takes the wakes that have come, then looks. Without an outcome the
    /// waiter sleeps until a wake, a cancellation or the deadline comes, and looks again. A
    /// wait that is over is disarmed. Cancellation wins over a simultaneous event.
    pub fn continue_wait(&self, pages: &mut ArenaPages, wait: &Wait, cancel: &Cancellation, now: u128) -> (result:
        Option<WaitOutcome>)
        requires
            self.attached(*old(pages)),
        ensures
            self.attached(*final(pages)),
            ({
                let id = self@.incarnation.0;
                let page = ClaimPage { wake: false, ..old(pages)@.claims[id] };
                let verdict = wait_verdict(
                    cancel.spec_cancelled(),
                    wait.observed,
                    snapshot(old(pages)@.control, page),
                    wait.interest,
                    wait_expired(wait.deadline, now),
                );
                &&& result == verdict
                &&& final(pages)@ == old(pages)@.with_claims(
                    id,
                    if verdict is Some {
                        ClaimPage { wait_interest: 0, ..page }
                    } else {
                        page
                    },
                )
            }),
    {
        let id: u64 = self.incarnation.0;
        let current = self.events(pages);
        let expired = match wait.deadline {
            Some(deadline) => now >= deadline,
            None => false,
        };
        let outcome = check(
            cancel.is_cancelled(),
            wait.observed,
            current,
            wait.interest,
            expired,
        );
        match pages.claims.remove(&id) {
            None => {
                assert(false);
            },
            Some(mut page) => {
                assert(page@ == old(pages)@.claims[id]);
                page.drain_wake();
                if outcome.is_some() {
                    page.set_wait_interest(0);
                }
                pages.claims.insert(id, page);
                proof {
                    assert(pages@.claims =~= old(pages)@.with_claims(id, page@).claims);
                    assert(pages@ == old(pages)@.with_claims(id, page@));
                }
            },
        }
        outcome
    }

    /// Ends a wait whose channel failed.
    pub fn abandon_wait(&self, pages: &mut ArenaPages)
        requires
            self.attached(*old(pages)),
        ensures
            self.attached(*final(pages)),
            final(pages)@ == old(pages)@.with_claims(
                self@.incarnation.0,
                (ClaimPage { wait_interest: 0, ..old(pages)@.claims[self@.incarnation.0] }),
            ),
    {
        let id: u64 = self.incarnation.0;
        match pages.claims.remove(&id) {
            None => {
                assert(false);
            },
            Some(mut page) => {
                page.set_wait_interest(0);
                pages.claims.insert(id, page);
                proof {
                    assert(pages@.claims =~= old(pages)@.with_claims(id, page@).claims);
                    assert(pages@ == old(pages)@.with_claims(id, page@));
                }
            },
        }
    }
}

} // verus!
