use vstd::prelude::*;
use crate::error::FinanceError;

verus! {

/// The fewest elements a cash-flow series may have where a payback period or
/// a profitability index is asked of it: the outlay and one return.
pub const MIN_CASH_FLOWS: usize = 2;

/// Decides whether a cash-flow series of `len` elements is long enough for a
/// payback period or a profitability index.
pub fn require_flows(len: usize) -> (r: Result<(), FinanceError>)
    ensures
        len >= MIN_CASH_FLOWS ==> r == Ok::<(), FinanceError>(()),
        len < MIN_CASH_FLOWS ==> r == Err::<(), FinanceError>(
            FinanceError::InsufficientCashFlows,
        ),
{
    if len < MIN_CASH_FLOWS {
        Err(FinanceError::InsufficientCashFlows)
    } else {
        Ok(())
    }
}

/// How many discount factors a table over `num_of_periods` periods holds: one
/// fewer than the periods, and none where there is no period at all.
pub open spec fn df_count(num_of_periods: int) -> nat {
    if num_of_periods >= 1 {
        (num_of_periods - 1) as nat
    } else {
        0
    }
}

/// The exponents of a table of discount factors over `num_of_periods`
/// periods, in order. The factor at place `i` discounts over `i` periods, so
/// the first one discounts over none.
pub fn df_exponents(num_of_periods: i32) -> (exps: Vec<i32>)
    ensures
        exps@.len() == df_count(num_of_periods as int),
        forall|i: int| 0 <= i < exps@.len() ==> exps@[i] == i,
{
    let mut exps: Vec<i32> = Vec::new();
    if num_of_periods < 1 {
        return exps;
    }
    let mut i: i32 = 1;
    while i < num_of_periods
        invariant
            1 <= i <= num_of_periods,
            exps@.len() == i - 1,
            forall|j: int| 0 <= j < exps@.len() ==> exps@[j] == j,
        decreases num_of_periods - i,
    {
        exps.push(i - 1);
        i = i + 1;
    }
    exps
}

} // verus!
