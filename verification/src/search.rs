use vstd::prelude::*;
use crate::budget::Budget;
use crate::error::FinanceError;
use crate::sign::Sign;

verus! {

/// A rate that the search can stand on: `ups` whole steps up from 1.00,
/// then `downs` steps of one hundredth back down.
#[derive(Clone, Copy, Debug, PartialEq, Eq, Structural)]
pub struct RatePoint {
    pub ups: u32,
    pub downs: u32,
}

impl RatePoint {
    /// The rate in hundredths of a percent point: 1.00 is 100.
    pub open spec fn hundredths(self) -> int {
        100 + 100 * self.ups - self.downs
    }

    /// How many evaluations a search that ends on this point has asked for:
    /// one for each step, one that ends the ascent and one that ends the
    /// descent.
    pub open spec fn cost(self) -> int {
        self.ups + self.downs + 2
    }

    /// The point at which every search starts: the rate 1.00.
    pub fn start() -> (p: RatePoint)
        ensures
            p == at(0, 0),
            p.hundredths() == 100,
    {
        RatePoint { ups: 0, downs: 0 }
    }

    /// The rate in hundredths, as a number: exact to two decimals.
    pub fn to_hundredths(&self) -> (h: i64)
        ensures
            h == self.hundredths(),
    {
        let up: i64 = self.ups as i64;
        let down: i64 = self.downs as i64;
        100 + 100 * up - down
    }
}

/// The point reached by `ups` whole steps up and `downs` hundredths down.
pub open spec fn at(ups: int, downs: int) -> RatePoint {
    RatePoint { ups: ups as u32, downs: downs as u32 }
}

/// `f` may answer `s` when asked at `p`.
pub open spec fn reads<F: Fn(RatePoint) -> Sign>(f: F, p: RatePoint, s: Sign) -> bool {
    call_ensures(f, (p,), s)
}

/// `f` answered above zero at each of the first `k` whole steps.
pub open spec fn rises<F: Fn(RatePoint) -> Sign>(f: F, k: int) -> bool {
    forall|j: int| 0 <= j < k ==> #[trigger] reads(f, at(j, 0), Sign::Positive)
}

/// `f` answered something other than above zero at whole step `k`.
pub open spec fn crests<F: Fn(RatePoint) -> Sign>(f: F, k: int) -> bool {
    exists|s: Sign| s != Sign::Positive && #[trigger] reads(f, at(k, 0), s)
}

/// From whole step `k`, `f` answered below zero at each of the first `m`
/// hundredths on the way down.
pub open spec fn sinks<F: Fn(RatePoint) -> Sign>(f: F, k: int, m: int) -> bool {
    forall|i: int| 0 <= i < m ==> #[trigger] reads(f, at(k, i), Sign::Negative)
}

/// `f` answered something other than below zero at `p`.
pub open spec fn rests<F: Fn(RatePoint) -> Sign>(f: F, p: RatePoint) -> bool {
    exists|s: Sign| s != Sign::Negative && #[trigger] reads(f, p, s)
}

/// The answers of `f` lead the search to `p` and end it there.
pub open spec fn found<F: Fn(RatePoint) -> Sign>(f: F, p: RatePoint) -> bool {
    &&& rises(f, p.ups as int)
    &&& crests(f, p.ups as int)
    &&& sinks(f, p.ups as int, p.downs as int)
    &&& rests(f, p)
}

/// The answers of `f` keep the search going through `n` evaluations: either
/// all of them are spent on the way up, or the ascent ends and the rest are
/// spent on the way down.
pub open spec fn exhausts<F: Fn(RatePoint) -> Sign>(f: F, n: int) -> bool {
    ||| rises(f, n)
    ||| exists|k: int|
        0 <= k < n && rises(f, k) && #[trigger] crests(f, k) && sinks(f, k, n - k - 1)
}

/// What a search with `n` evaluations to spend may return, given the answers
/// of `f`: the point it found, if that costs no more than `n`, and else a
/// failure after `n` evaluations that did not end it.
pub open spec fn outcome<F: Fn(RatePoint) -> Sign>(
    f: F,
    n: int,
    r: Result<RatePoint, FinanceError>,
) -> bool {
    match r {
        Ok(p) => found(f, p) && p.cost() <= n,
        Err(e) => e == FinanceError::SearchBudgetExceeded && exhausts(f, n),
    }
}

/// Two-phase search for the rate at which `f` turns from above zero to below.
///
/// Starting at 1.00 the search climbs in whole steps while `f` answers above
/// zero, then walks back down in hundredths while `f` answers below zero, and
/// returns the point on which it stops. Every evaluation of `f` is charged to
/// `budget` first; the search fails once a charge is refused.
pub fn seek_zero<F: Fn(RatePoint) -> Sign>(f: F, budget: &mut Budget) -> (r: Result<
    RatePoint,
    FinanceError,
>)
    requires
        forall|p: RatePoint| call_requires(f, (p,)),
    ensures
        outcome(f, old(budget).remaining() as int, r),
        final(budget).limit == old(budget).limit,
        r matches Ok(p) ==> final(budget).count == old(budget).count + p.cost(),
        r is Err ==> final(budget).count == old(budget).count + old(budget).remaining(),
{
    let ghost n = budget.remaining() as int;
    let ghost start = *budget;
    let mut ups: u32 = 0;
    loop
        invariant_except_break
            budget.count == start.count + ups,
            ups <= n,
        invariant
            forall|p: RatePoint| call_requires(f, (p,)),
            start == *old(budget),
            n == start.remaining(),
            budget.limit == start.limit,
            rises(f, ups as int),
        ensures
            budget.limit == start.limit,
            budget.count == start.count + ups + 1,
            ups + 1 <= n,
            rises(f, ups as int),
            crests(f, ups as int),
        decreases budget.remaining(),
    {
        if budget.charge().is_err() {
            return Err(FinanceError::SearchBudgetExceeded);
        }
        let s = f(RatePoint { ups, downs: 0 });
        if s.is_positive() {
            assert(reads(f, at(ups as int, 0), Sign::Positive));
            ups = ups + 1;
        } else {
            assert(reads(f, at(ups as int, 0), s));
            break ;
        }
    }
    let mut downs: u32 = 0;
    loop
        invariant_except_break
            budget.count == start.count + ups + 1 + downs,
            ups + 1 + downs <= n,
        invariant
            forall|p: RatePoint| call_requires(f, (p,)),
            start == *old(budget),
            n == start.remaining(),
            budget.limit == start.limit,
            rises(f, ups as int),
            crests(f, ups as int),
            sinks(f, ups as int, downs as int),
        ensures
            budget.limit == start.limit,
            budget.count == start.count + ups + downs + 2,
            ups + downs + 2 <= n,
            sinks(f, ups as int, downs as int),
            rests(f, RatePoint { ups, downs }),
        decreases budget.remaining(),
    {
        if budget.charge().is_err() {
            assert(sinks(f, ups as int, n - ups - 1));
            return Err(FinanceError::SearchBudgetExceeded);
        }
        let s = f(RatePoint { ups, downs });
        if s.is_negative() {
            assert(reads(f, at(ups as int, downs as int), Sign::Negative));
            downs = downs + 1;
        } else {
            assert(reads(f, RatePoint { ups, downs }, s));
            break ;
        }
    }
    Ok(RatePoint { ups, downs })
}

/// Searches for an internal rate of return, given the sign of the net present
/// value at each rate asked, within the budget of a fresh search.
pub fn irr<F: Fn(RatePoint) -> Sign>(npv_sign: F) -> (r: Result<RatePoint, FinanceError>)
    requires
        forall|p: RatePoint| call_requires(npv_sign, (p,)),
    ensures
        outcome(npv_sign, crate::budget::EVALUATION_LIMIT - 1, r),
{
    let mut budget = Budget::new();
    seek_zero(npv_sign, &mut budget)
}

} // verus!
