use vstd::prelude::*;
use crate::error::FinanceError;

verus! {

/// The ceiling of the evaluation counter of one search.
pub const EVALUATION_LIMIT: u32 = 1000;

/// The evaluation counter of one search, with its ceiling.
///
/// Every evaluation is charged before it is made. A charge that would take
/// the counter past the ceiling is refused, and the search ends there.
#[derive(Clone, Copy, Debug, PartialEq, Eq, Structural)]
pub struct Budget {
    pub count: u32,
    pub limit: u32,
}

impl Budget {
    /// How many evaluations can still be charged.
    pub open spec fn remaining(self) -> nat {
        if self.count < self.limit {
            (self.limit - self.count) as nat
        } else {
            0
        }
    }

    /// The budget of a fresh search: the counter starts at one and may rise to
    /// `EVALUATION_LIMIT`, which leaves room for one evaluation fewer than the
    /// ceiling.
    pub fn new() -> (b: Budget)
        ensures
            b.count == 1,
            b.limit == EVALUATION_LIMIT,
            b.remaining() == EVALUATION_LIMIT - 1,
    {
        Budget { count: 1, limit: EVALUATION_LIMIT }
    }

    /// A budget with a ceiling of the caller's choice; the counter starts at
    /// one here too.
    pub fn with_limit(limit: u32) -> (b: Budget)
        ensures
            b.count == 1,
            b.limit == limit,
    {
        Budget { count: 1, limit }
    }

    /// Charges one evaluation. Succeeds exactly when something remains, and
    /// then raises the counter by one; a refused charge changes nothing.
    pub fn charge(&mut self) -> (r: Result<(), FinanceError>)
        ensures
            final(self).limit == old(self).limit,
            old(self).remaining() > 0 ==> r == Ok::<(), FinanceError>(())
                && final(self).count == old(self).count + 1,
            old(self).remaining() == 0 ==> r == Err::<(), FinanceError>(
                FinanceError::SearchBudgetExceeded,
            ) && final(self).count == old(self).count,
    {
        if self.count < self.limit {
            self.count = self.count + 1;
            Ok(())
        } else {
            Err(FinanceError::SearchBudgetExceeded)
        }
    }

    /// How many evaluations can still be charged, as a number.
    pub fn remaining_evaluations(&self) -> (n: u32)
        ensures
            n == self.remaining(),
    {
        if self.count < self.limit {
            self.limit - self.count
        } else {
            0
        }
    }
}

} // verus!
