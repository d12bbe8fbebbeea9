//! How often the client tries to authenticate and to log in before it gives
//! up: as many times as the limit says, and not at all when the limit is zero
//! or negative.
use vstd::prelude::*;

verus! {

/// The tries made so far, out of a limit.
pub struct RetryBudget {
    pub limit: i32,
    pub used: i32,
}

impl RetryBudget {
    /// The tries still allowed.
    pub open spec fn left(self) -> int {
        if self.used < self.limit {
            self.limit - self.used
        } else {
            0
        }
    }

    /// A budget of `limit` tries, none made.
    pub fn new(limit: i32) -> (b: RetryBudget)
        ensures
            b.limit == limit,
            b.used == 0,
    {
        RetryBudget { limit, used: 0 }
    }

    /// Another try is allowed.
    pub fn may_try(&self) -> (allowed: bool)
        ensures
            allowed == (self.used < self.limit),
            allowed == (self.left() > 0),
    {
        self.used < self.limit
    }

    /// Records a try.
    pub fn spend(&mut self)
        requires
            old(self).used < old(self).limit,
        ensures
            final(self).limit == old(self).limit,
            final(self).used == old(self).used + 1,
            final(self).left() == old(self).left() - 1,
    {
        self.used = self.used + 1;
    }
}

/// A fresh budget allows exactly as many tries as its limit, and none when
/// the limit is zero or negative: after `k` tries another is allowed exactly
/// when `k` is below the limit.
pub proof fn lemma_budget_allows_limit_tries(limit: i32, k: int)
    requires
        0 <= k,
        k <= limit || k == 0,
    ensures
        (RetryBudget { limit, used: k as i32 }).left() > 0 <==> k < limit,
        (RetryBudget { limit, used: k as i32 }).left() == (if limit > 0 { limit - k } else { 0 }),
{
}

} // verus!
