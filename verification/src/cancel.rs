//! Cooperative cancellation.
//!
//! A token is polled between filesystem operations, never inside one. This
//! crate models the poll deterministically: a token carries a budget of
//! polls it will still answer calmly; once the budget is spent, every poll
//! reports cancellation.

use vstd::prelude::*;

verus! {

/// A cooperative cancellation token with a poll budget.
pub struct CancelToken {
    pub budget: u64,
}

impl CancelToken {
    /// A token that never fires within any feasible walk.
    pub fn never() -> (r: CancelToken)
        ensures
            r.budget == u64::MAX,
    {
        CancelToken { budget: u64::MAX }
    }

    /// A token that answers `n` polls calmly and then fires.
    pub fn firing_after(n: u64) -> (r: CancelToken)
        ensures
            r.budget == n,
    {
        CancelToken { budget: n }
    }

    /// One cancellation check.
    pub fn poll(&mut self) -> (cancelled: bool)
        ensures
            cancelled == (old(self).budget == 0),
            cancelled ==> final(self).budget == 0,
            !cancelled ==> final(self).budget == old(self).budget - 1,
    {
        if self.budget == 0 {
            true
        } else {
            self.budget = self.budget - 1;
            false
        }
    }
}

} // verus!
