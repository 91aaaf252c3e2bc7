use vstd::prelude::*;
use crate::error::FinanceError;
use crate::series::require_flows;

verus! {

/// Where in a cash-flow series the outlay is paid back.
#[derive(Clone, Copy, Debug, PartialEq, Eq, Structural)]
pub enum Payback {
    /// No periods were given: the payback is the ratio of the outlay to the
    /// first return, and nothing else of the series is looked at.
    Ratio,
    /// The running total first rises above zero with the element at this
    /// index, which is the number of periods up to and with that element.
    RecoveredAt(usize),
    /// The running total never rises above zero: every element counts as a
    /// period, the outlay too.
    Unrecovered(usize),
}

/// `recovered` may answer `b` when asked whether the running total through
/// the element at index `i` is above zero.
pub open spec fn tells<F: Fn(usize) -> bool>(recovered: F, i: int, b: bool) -> bool {
    call_ensures(recovered, (i as usize,), b)
}

/// `recovered` answered no at every index from 1 up to `j`, `j` left out.
pub open spec fn short_until<F: Fn(usize) -> bool>(recovered: F, j: int) -> bool {
    forall|i: int| 1 <= i < j ==> #[trigger] tells(recovered, i, false)
}

/// What the walk along a series of `len` elements may return, given the
/// answers of `recovered`.
pub open spec fn located<F: Fn(usize) -> bool>(
    zero_periods: bool,
    len: int,
    recovered: F,
    r: Result<Payback, FinanceError>,
) -> bool {
    if len < 2 {
        r == Err::<Payback, FinanceError>(FinanceError::InsufficientCashFlows)
    } else if zero_periods {
        r == Ok::<Payback, FinanceError>(Payback::Ratio)
    } else {
        match r {
            Ok(Payback::RecoveredAt(j)) => 1 <= j < len && short_until(recovered, j as int)
                && tells(recovered, j as int, true),
            Ok(Payback::Unrecovered(n)) => n == len && short_until(recovered, len),
            _ => false,
        }
    }
}

/// Finds the element of a cash-flow series with which the outlay is paid
/// back.
///
/// A series of fewer than two elements is refused before anything else is
/// looked at. With zero periods the answer is the ratio of the first two
/// elements. Otherwise the series is walked from its second element on, and
/// the walk stops at the first element with which the running total is above
/// zero, as `recovered` tells it.
pub fn locate_payback<F: Fn(usize) -> bool>(zero_periods: bool, len: usize, recovered: F) -> (r:
    Result<Payback, FinanceError>)
    requires
        forall|i: usize| 1 <= i < len ==> call_requires(recovered, (i,)),
    ensures
        located(zero_periods, len as int, recovered, r),
{
    if require_flows(len).is_err() {
        return Err(FinanceError::InsufficientCashFlows);
    }
    if zero_periods {
        return Ok(Payback::Ratio);
    }
    let mut j: usize = 1;
    while j < len
        invariant
            1 <= j <= len,
            2 <= len,
            !zero_periods,
            forall|i: usize| 1 <= i < len ==> call_requires(recovered, (i,)),
            short_until(recovered, j as int),
        decreases len - j,
    {
        let hit = recovered(j);
        if hit {
            assert(tells(recovered, j as int, true));
            return Ok(Payback::RecoveredAt(j));
        }
        assert(tells(recovered, j as int, false));
        j = j + 1;
    }
    Ok(Payback::Unrecovered(len))
}

} // verus!
