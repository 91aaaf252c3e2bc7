use vstd::prelude::*;

verus! {

/// Why a computation gave no result.
#[derive(Clone, Copy, Debug, PartialEq, Eq, Structural)]
pub enum FinanceError {
    /// The cash-flow series has fewer than two elements.
    InsufficientCashFlows,
    /// The search for a rate asked for more evaluations than its budget holds.
    SearchBudgetExceeded,
}

impl FinanceError {
    /// The text that goes with each failure.
    pub open spec fn spec_message(self) -> Seq<char> {
        match self {
            FinanceError::InsufficientCashFlows => "cash-flow series needs at least 2 elements"@,
            FinanceError::SearchBudgetExceeded => "IRR search exceeded evaluation budget"@,
        }
    }

    pub fn message(&self) -> (text: &'static str)
        ensures
            text@ == self.spec_message(),
    {
        match self {
            FinanceError::InsufficientCashFlows => "cash-flow series needs at least 2 elements",
            FinanceError::SearchBudgetExceeded => "IRR search exceeded evaluation budget",
        }
    }
}

} // verus!
