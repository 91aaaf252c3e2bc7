use vstd::prelude::*;
use crate::error::FinanceError;
use crate::payback::{located, tells, Payback};
use crate::search::{at, crests, exhausts, found, outcome, reads, rests, rises, sinks, RatePoint};
use crate::sign::Sign;

verus! {

/// `f` never gives two different answers at one point.
pub open spec fn single_valued<F: Fn(RatePoint) -> Sign>(f: F) -> bool {
    forall|p: RatePoint, s: Sign, t: Sign| #[trigger]
        reads(f, p, s) && #[trigger] reads(f, p, t) ==> s == t
}

/// Every answer of `f` is the value of `g` at the rate asked, in hundredths.
pub open spec fn tabulates<F: Fn(RatePoint) -> Sign>(f: F, g: spec_fn(int) -> Sign) -> bool {
    forall|p: RatePoint, s: Sign| #[trigger] reads(f, p, s) ==> s == g(p.hundredths())
}

/// `g` never rises as the rate rises.
pub open spec fn falling(g: spec_fn(int) -> Sign) -> bool {
    forall|a: int, b: int| a <= b ==> (#[trigger] g(a)).rank() >= (#[trigger] g(b)).rank()
}

/// `g` is above zero below `c`, below zero above `c`, and not below zero at
/// `c`: `c` is the last hundredth at which `g` is not below zero.
pub open spec fn crosses_at(g: spec_fn(int) -> Sign, c: int) -> bool {
    &&& forall|h: int| h < c ==> #[trigger] g(h) == Sign::Positive
    &&& forall|h: int| h > c ==> #[trigger] g(h) == Sign::Negative
    &&& g(c) != Sign::Negative
}

/// The values of `g` lead the search to `p` and end it there.
pub open spec fn leads(g: spec_fn(int) -> Sign, p: RatePoint) -> bool {
    &&& forall|j: int| 0 <= j < p.ups ==> #[trigger] g(100 + 100 * j) == Sign::Positive
    &&& g(100 + 100 * p.ups) != Sign::Positive
    &&& forall|i: int| 0 <= i < p.downs ==> #[trigger] g(100 + 100 * p.ups - i) == Sign::Negative
    &&& g(p.hundredths()) != Sign::Negative
}

/// A function that answers one thing at each point leads the search to one
/// point at most.
pub proof fn lemma_found_unique<F: Fn(RatePoint) -> Sign>(f: F, p: RatePoint, q: RatePoint)
    requires
        single_valued(f),
        found(f, p),
        found(f, q),
    ensures
        p == q,
{
    if p.ups < q.ups {
        assert(reads(f, at(p.ups as int, 0), Sign::Positive));
    }
    if q.ups < p.ups {
        assert(reads(f, at(q.ups as int, 0), Sign::Positive));
    }
    assert(p.ups == q.ups);
    if p.downs < q.downs {
        assert(reads(f, at(q.ups as int, p.downs as int), Sign::Negative));
        assert(at(q.ups as int, p.downs as int) == p);
    }
    if q.downs < p.downs {
        assert(reads(f, at(p.ups as int, q.downs as int), Sign::Negative));
        assert(at(p.ups as int, q.downs as int) == q);
    }
}

/// Where a function that answers one thing at each point leads the search to
/// `p`, fewer evaluations than `p` costs are all spent without an end, and no
/// more can be.
pub proof fn lemma_found_bounds_exhausts<F: Fn(RatePoint) -> Sign>(f: F, p: RatePoint, n: int)
    requires
        single_valued(f),
        found(f, p),
        exhausts(f, n),
    ensures
        n < p.cost(),
{
    if rises(f, n) {
        if p.ups < n {
            assert(reads(f, at(p.ups as int, 0), Sign::Positive));
        }
    } else {
        let k = choose|k: int|
            0 <= k < n && rises(f, k) && #[trigger] crests(f, k) && sinks(f, k, n - k - 1);
        if k < p.ups {
            assert(reads(f, at(k, 0), Sign::Positive));
        }
        if p.ups < k {
            assert(reads(f, at(p.ups as int, 0), Sign::Positive));
        }
        assert(k == p.ups);
        if p.downs < n - k - 1 {
            assert(reads(f, at(k, p.downs as int), Sign::Negative));
            assert(at(k, p.downs as int) == p);
        }
    }
}

/// The search is a function of the answers and the budget: where `f` answers
/// one thing at each point, two results that the same budget allows are one
/// result.
pub proof fn lemma_outcome_unique<F: Fn(RatePoint) -> Sign>(
    f: F,
    n: int,
    r1: Result<RatePoint, FinanceError>,
    r2: Result<RatePoint, FinanceError>,
)
    requires
        single_valued(f),
        outcome(f, n, r1),
        outcome(f, n, r2),
    ensures
        r1 == r2,
{
    match (r1, r2) {
        (Ok(p), Ok(q)) => {
            lemma_found_unique(f, p, q);
        },
        (Ok(p), Err(_)) => {
            lemma_found_bounds_exhausts(f, p, n);
        },
        (Err(_), Ok(q)) => {
            lemma_found_bounds_exhausts(f, q, n);
        },
        (Err(_), Err(_)) => {},
    }
}

/// A function that reports the values of `g` answers one thing at each point.
pub proof fn lemma_tabulates_single_valued<F: Fn(RatePoint) -> Sign>(f: F, g: spec_fn(int) -> Sign)
    requires
        tabulates(f, g),
    ensures
        single_valued(f),
{
}

/// Where `f` reports the values of `g`, the point that `f` leads to is the
/// point that `g` leads to.
pub proof fn lemma_found_leads<F: Fn(RatePoint) -> Sign>(
    f: F,
    g: spec_fn(int) -> Sign,
    p: RatePoint,
)
    requires
        tabulates(f, g),
        found(f, p),
    ensures
        leads(g, p),
{
    assert forall|j: int| 0 <= j < p.ups implies #[trigger] g(100 + 100 * j) == Sign::Positive by {
        assert(reads(f, at(j, 0), Sign::Positive));
        assert(at(j, 0).hundredths() == 100 + 100 * j);
    }
    assert(at(p.ups as int, 0).hundredths() == 100 + 100 * p.ups);
    assert forall|i: int| 0 <= i < p.downs implies #[trigger] g(100 + 100 * p.ups - i)
        == Sign::Negative by {
        assert(reads(f, at(p.ups as int, i), Sign::Negative));
        assert(at(p.ups as int, i).hundredths() == 100 + 100 * p.ups - i);
    }
}

/// The result brackets the zero to one hundredth: at the point found the
/// value is not below zero; where the search came down to it, the value one
/// hundredth higher is below zero; where it did not come down at all, the
/// value at the point is neither above nor below zero; and where it climbed,
/// the value one whole step under the top of the climb is above zero.
pub proof fn lemma_found_brackets_zero<F: Fn(RatePoint) -> Sign>(
    f: F,
    g: spec_fn(int) -> Sign,
    p: RatePoint,
)
    requires
        tabulates(f, g),
        found(f, p),
    ensures
        g(p.hundredths()) != Sign::Negative,
        p.downs > 0 ==> g(p.hundredths() + 1) == Sign::Negative,
        p.downs == 0 ==> g(p.hundredths()) == Sign::Zero,
        p.ups > 0 ==> g(100 * p.ups) == Sign::Positive,
{
    lemma_found_leads(f, g, p);
    if p.downs > 0 {
        assert(g(100 + 100 * p.ups - (p.downs - 1)) == Sign::Negative);
    }
    if p.ups > 0 {
        assert(g(100 + 100 * (p.ups - 1)) == Sign::Positive);
    }
}

/// For a value that never rises with the rate, a search that came down to its
/// result found the last hundredth at which the value is not below zero.
pub proof fn lemma_found_is_last_nonnegative<F: Fn(RatePoint) -> Sign>(
    f: F,
    g: spec_fn(int) -> Sign,
    p: RatePoint,
    h: int,
)
    requires
        tabulates(f, g),
        falling(g),
        found(f, p),
        p.downs > 0,
    ensures
        h <= p.hundredths() ==> g(h) != Sign::Negative,
        h > p.hundredths() ==> g(h) == Sign::Negative,
{
    lemma_found_brackets_zero(f, g, p);
    let c = p.hundredths();
    if h <= c {
        assert(g(h).rank() >= g(c).rank());
    } else {
        assert(g(c + 1).rank() >= g(h).rank());
    }
}

/// The search returns the point that the values lead to whenever the budget
/// covers its cost, and fails whenever it does not.
pub proof fn lemma_outcome_follows_values<F: Fn(RatePoint) -> Sign>(
    f: F,
    g: spec_fn(int) -> Sign,
    p: RatePoint,
    n: int,
    r: Result<RatePoint, FinanceError>,
)
    requires
        tabulates(f, g),
        leads(g, p),
        outcome(f, n, r),
    ensures
        p.cost() <= n ==> r == Ok::<RatePoint, FinanceError>(p),
        p.cost() > n ==> r == Err::<RatePoint, FinanceError>(FinanceError::SearchBudgetExceeded),
{
    match r {
        Ok(q) => {
            lemma_found_leads(f, g, q);
            lemma_leads_unique(g, p, q);
        },
        Err(_) => {
            if p.cost() <= n {
                lemma_exhausts_outruns(f, g, p, n);
            }
        },
    }
}

/// The values lead the search to one point at most.
pub proof fn lemma_leads_unique(g: spec_fn(int) -> Sign, p: RatePoint, q: RatePoint)
    requires
        leads(g, p),
        leads(g, q),
    ensures
        p == q,
{
    if p.ups < q.ups {
        assert(g(100 + 100 * p.ups) == Sign::Positive);
    }
    if q.ups < p.ups {
        assert(g(100 + 100 * q.ups) == Sign::Positive);
    }
    if p.downs < q.downs {
        assert(g(100 + 100 * q.ups - p.downs) == Sign::Negative);
    }
    if q.downs < p.downs {
        assert(g(100 + 100 * p.ups - q.downs) == Sign::Negative);
    }
}

/// Evaluations that are all spent without an end are fewer than the cost of
/// the point that the values lead to.
pub proof fn lemma_exhausts_outruns<F: Fn(RatePoint) -> Sign>(
    f: F,
    g: spec_fn(int) -> Sign,
    p: RatePoint,
    n: int,
)
    requires
        tabulates(f, g),
        leads(g, p),
        exhausts(f, n),
    ensures
        n < p.cost(),
{
    if rises(f, n) {
        if p.ups < n {
            assert(reads(f, at(p.ups as int, 0), Sign::Positive));
            assert(at(p.ups as int, 0).hundredths() == 100 + 100 * p.ups);
        }
    } else {
        let k = choose|k: int|
            0 <= k < n && rises(f, k) && #[trigger] crests(f, k) && sinks(f, k, n - k - 1);
        if k < p.ups {
            assert(g(100 + 100 * k) == Sign::Positive);
            assert(at(k, 0).hundredths() == 100 + 100 * k);
        }
        if p.ups < k {
            assert(reads(f, at(p.ups as int, 0), Sign::Positive));
            assert(at(p.ups as int, 0).hundredths() == 100 + 100 * p.ups);
        }
        assert(k == p.ups);
        if p.downs < n - k - 1 {
            assert(reads(f, at(k, p.downs as int), Sign::Negative));
            assert(at(k, p.downs as int) == p);
        }
    }
}

/// The point on which a search stops for a value that crosses zero at `c`
/// hundredths: above `c` by whole steps from 1.00, then back down to `c`.
pub open spec fn crossing_point(g: spec_fn(int) -> Sign, c: int) -> RatePoint {
    if c < 100 {
        at(0, 100 - c)
    } else if c % 100 == 0 && g(c) == Sign::Zero {
        at(c / 100 - 1, 0)
    } else {
        at(c / 100, 100 - c % 100)
    }
}

/// A value that crosses zero once, at `c` hundredths, leads the search to
/// `c`, by at most one whole step more than `c` holds and at most a hundred
/// hundredths back.
pub proof fn lemma_crossing_leads(g: spec_fn(int) -> Sign, c: int)
    requires
        crosses_at(g, c),
        100 <= c < 100 * u32::MAX,
    ensures
        leads(g, crossing_point(g, c)),
        crossing_point(g, c).hundredths() == c,
        crossing_point(g, c).cost() <= c / 100 + 102,
{
    let p = crossing_point(g, c);
    if c % 100 == 0 && g(c) == Sign::Zero {
        assert(p.ups == c / 100 - 1 && p.downs == 0);
        assert forall|j: int| 0 <= j < p.ups implies #[trigger] g(100 + 100 * j)
            == Sign::Positive by {
            assert(100 + 100 * j < c);
        }
    } else {
        assert(p.ups == c / 100 && p.downs == 100 - c % 100);
        assert forall|j: int| 0 <= j < p.ups implies #[trigger] g(100 + 100 * j)
            == Sign::Positive by {
            assert(100 + 100 * j <= c);
        }
        assert(100 + 100 * p.ups > c);
        assert forall|i: int| 0 <= i < p.downs implies #[trigger] g(100 + 100 * p.ups - i)
            == Sign::Negative by {
            assert(100 + 100 * p.ups - i > c);
        }
    }
}

/// A search over a value that crosses zero once, at `c` hundredths from 1.00
/// up, returns `c` whenever its budget holds one evaluation for each whole
/// step in `c` and 102 more.
pub proof fn lemma_crossing_is_found<F: Fn(RatePoint) -> Sign>(
    f: F,
    g: spec_fn(int) -> Sign,
    c: int,
    n: int,
    r: Result<RatePoint, FinanceError>,
)
    requires
        tabulates(f, g),
        crosses_at(g, c),
        100 <= c < 100 * u32::MAX,
        c / 100 + 102 <= n,
        outcome(f, n, r),
    ensures
        r == Ok::<RatePoint, FinanceError>(crossing_point(g, c)),
        r->Ok_0.hundredths() == c,
{
    lemma_crossing_leads(g, c);
    lemma_outcome_follows_values(f, g, crossing_point(g, c), n, r);
}

/// `recovered` never gives two different answers at one index.
pub open spec fn tells_one<F: Fn(usize) -> bool>(recovered: F) -> bool {
    forall|i: int, a: bool, b: bool| #[trigger]
        tells(recovered, i, a) && #[trigger] tells(recovered, i, b) ==> a == b
}

/// The walk along a series is a function of the answers: where `recovered`
/// answers one thing at each index, two results of the same walk are one
/// result.
pub proof fn lemma_located_unique<F: Fn(usize) -> bool>(
    zero_periods: bool,
    len: int,
    recovered: F,
    r1: Result<Payback, FinanceError>,
    r2: Result<Payback, FinanceError>,
)
    requires
        tells_one(recovered),
        located(zero_periods, len, recovered, r1),
        located(zero_periods, len, recovered, r2),
    ensures
        r1 == r2,
{
    if len >= 2 && !zero_periods {
        match (r1, r2) {
            (Ok(Payback::RecoveredAt(i)), Ok(Payback::RecoveredAt(j))) => {
                if i < j {
                    assert(tells(recovered, i as int, false));
                }
                if j < i {
                    assert(tells(recovered, j as int, false));
                }
            },
            (Ok(Payback::RecoveredAt(i)), Ok(Payback::Unrecovered(_))) => {
                assert(tells(recovered, i as int, false));
            },
            (Ok(Payback::Unrecovered(_)), Ok(Payback::RecoveredAt(j))) => {
                assert(tells(recovered, j as int, false));
            },
            _ => {},
        }
    }
}

/// The element that pays the outlay back is the first with which the running
/// total is above zero: where the answers are the values of `above`, a walk
/// that stops at an index stops at the least index at which `above` holds,
/// and a walk that stops nowhere found `above` to hold nowhere.
pub proof fn lemma_located_is_first<F: Fn(usize) -> bool>(
    len: int,
    recovered: F,
    above: spec_fn(int) -> bool,
    r: Result<Payback, FinanceError>,
)
    requires
        2 <= len,
        forall|i: int, b: bool| #[trigger] tells(recovered, i, b) ==> b == above(i),
        located(false, len, recovered, r),
    ensures
        r matches Ok(Payback::RecoveredAt(j)) ==> above(j as int) && forall|i: int|
            1 <= i < j ==> !#[trigger] above(i),
        r matches Ok(Payback::Unrecovered(n)) ==> forall|i: int|
            1 <= i < len ==> !#[trigger] above(i),
        r is Ok && r !== Ok::<Payback, FinanceError>(Payback::Ratio),
{
    match r {
        Ok(Payback::RecoveredAt(j)) => {
            assert forall|i: int| 1 <= i < j implies !#[trigger] above(i) by {
                assert(tells(recovered, i, false));
            }
        },
        Ok(Payback::Unrecovered(n)) => {
            assert forall|i: int| 1 <= i < len implies !#[trigger] above(i) by {
                assert(tells(recovered, i, false));
            }
        },
        _ => {},
    }
}

} // verus!
