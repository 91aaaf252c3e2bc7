use finance::{irr, seek_zero, Budget, FinanceError, RatePoint, Sign, EVALUATION_LIMIT};
use std::cell::Cell;

/// The sign of a value that is above zero below `c` hundredths, `at_c` at
/// `c`, and below zero above it.
fn crossing(c: i64, at_c: Sign, p: RatePoint) -> Sign {
    let h = p.to_hundredths();
    if h < c {
        Sign::Positive
    } else if h == c {
        at_c
    } else {
        Sign::Negative
    }
}

#[test]
fn start_is_one_percent() {
    let p = RatePoint::start();
    assert_eq!(p, RatePoint { ups: 0, downs: 0 });
    assert_eq!(p.to_hundredths(), 100);
}

#[test]
fn hundredths_count_steps_up_and_down() {
    assert_eq!(RatePoint { ups: 18, downs: 18 }.to_hundredths(), 1882);
    assert_eq!(RatePoint { ups: 0, downs: 250 }.to_hundredths(), -150);
    assert_eq!(
        RatePoint { ups: u32::MAX, downs: 0 }.to_hundredths(),
        100 + 100 * (u32::MAX as i64)
    );
    assert_eq!(
        RatePoint { ups: 0, downs: u32::MAX }.to_hundredths(),
        100 - (u32::MAX as i64)
    );
}

#[test]
fn search_climbs_then_walks_back() {
    let r = irr(|p| crossing(1882, Sign::Positive, p));
    assert_eq!(r, Ok(RatePoint { ups: 18, downs: 18 }));
    assert_eq!(r.unwrap().to_hundredths(), 1882);
}

#[test]
fn search_stops_on_the_last_value_not_below_zero() {
    let r = irr(|p| crossing(1882, Sign::Zero, p));
    assert_eq!(r, Ok(RatePoint { ups: 18, downs: 18 }));
}

#[test]
fn search_asks_in_order_and_counts_each_question() {
    let asked: Cell<Vec<i64>> = Cell::new(Vec::new());
    let r = irr(|p| {
        let mut seen = asked.take();
        seen.push(p.to_hundredths());
        asked.set(seen);
        crossing(297, Sign::Positive, p)
    });
    assert_eq!(r, Ok(RatePoint { ups: 2, downs: 3 }));
    assert_eq!(asked.take(), vec![100, 200, 300, 300, 299, 298, 297]);
}

#[test]
fn exact_zero_on_a_whole_step_ends_both_phases() {
    let r = irr(|p| crossing(300, Sign::Zero, p));
    assert_eq!(r, Ok(RatePoint { ups: 2, downs: 0 }));
}

#[test]
fn positive_on_a_whole_step_climbs_past_it() {
    let r = irr(|p| crossing(300, Sign::Positive, p));
    assert_eq!(r, Ok(RatePoint { ups: 3, downs: 100 }));
    assert_eq!(r.unwrap().to_hundredths(), 300);
}

#[test]
fn crossing_below_the_start_is_reached_from_above() {
    let r = irr(|p| crossing(50, Sign::Positive, p));
    assert_eq!(r, Ok(RatePoint { ups: 0, downs: 50 }));
    assert_eq!(r.unwrap().to_hundredths(), 50);
}

#[test]
fn value_that_is_never_above_or_below_stops_at_the_start() {
    let calls = Cell::new(0u32);
    let r = irr(|_| {
        calls.set(calls.get() + 1);
        Sign::Zero
    });
    assert_eq!(r, Ok(RatePoint::start()));
    assert_eq!(calls.get(), 2);
}

#[test]
fn endless_climb_exceeds_the_budget() {
    let calls = Cell::new(0u32);
    let r = irr(|_| {
        calls.set(calls.get() + 1);
        Sign::Positive
    });
    assert_eq!(r, Err(FinanceError::SearchBudgetExceeded));
    assert_eq!(calls.get(), EVALUATION_LIMIT - 1);
}

#[test]
fn endless_descent_exceeds_the_budget() {
    let calls = Cell::new(0u32);
    let r = irr(|_| {
        calls.set(calls.get() + 1);
        Sign::Negative
    });
    assert_eq!(r, Err(FinanceError::SearchBudgetExceeded));
    assert_eq!(calls.get(), 999);
}

#[test]
fn search_that_costs_the_whole_budget_succeeds() {
    let calls = Cell::new(0u32);
    let r = irr(|p| {
        calls.set(calls.get() + 1);
        crossing(89700, Sign::Positive, p)
    });
    assert_eq!(r, Ok(RatePoint { ups: 897, downs: 100 }));
    assert_eq!(calls.get(), 999);
}

#[test]
fn search_that_costs_one_more_fails() {
    let r = irr(|p| crossing(89800, Sign::Positive, p));
    assert_eq!(r, Err(FinanceError::SearchBudgetExceeded));
}

#[test]
fn seek_zero_charges_the_budget_it_is_given() {
    let mut budget = Budget::with_limit(10);
    let r = seek_zero(|p| crossing(297, Sign::Positive, p), &mut budget);
    assert_eq!(r, Ok(RatePoint { ups: 2, downs: 3 }));
    assert_eq!(budget, Budget { count: 8, limit: 10 });
}

#[test]
fn seek_zero_succeeds_on_the_last_evaluation_it_may_make() {
    let mut budget = Budget::with_limit(8);
    let r = seek_zero(|p| crossing(297, Sign::Positive, p), &mut budget);
    assert_eq!(r, Ok(RatePoint { ups: 2, downs: 3 }));
    assert_eq!(budget.remaining_evaluations(), 0);
}

#[test]
fn seek_zero_fails_one_evaluation_short() {
    let calls = Cell::new(0u32);
    let mut budget = Budget::with_limit(7);
    let r = seek_zero(
        |p| {
            calls.set(calls.get() + 1);
            crossing(297, Sign::Positive, p)
        },
        &mut budget,
    );
    assert_eq!(r, Err(FinanceError::SearchBudgetExceeded));
    assert_eq!(calls.get(), 6);
    assert_eq!(budget, Budget { count: 7, limit: 7 });
}

#[test]
fn seek_zero_with_a_spent_budget_asks_nothing() {
    let calls = Cell::new(0u32);
    let mut budget = Budget { count: 5, limit: 5 };
    let r = seek_zero(
        |_| {
            calls.set(calls.get() + 1);
            Sign::Zero
        },
        &mut budget,
    );
    assert_eq!(r, Err(FinanceError::SearchBudgetExceeded));
    assert_eq!(calls.get(), 0);
    assert_eq!(budget, Budget { count: 5, limit: 5 });
}

#[test]
fn search_is_repeatable() {
    let a = irr(|p| crossing(1234, Sign::Zero, p));
    let b = irr(|p| crossing(1234, Sign::Zero, p));
    assert_eq!(a, b);
    assert_eq!(a, Ok(RatePoint { ups: 12, downs: 66 }));
}

#[test]
fn result_brackets_the_zero_to_one_hundredth() {
    for c in [100i64, 101, 199, 200, 1882, 5000, 12345] {
        for at_c in [Sign::Zero, Sign::Positive] {
            let p = irr(|p| crossing(c, at_c, p)).unwrap();
            let h = p.to_hundredths();
            assert_eq!(h, c);
            assert_ne!(crossing(c, at_c, p), Sign::Negative);
            if p.downs > 0 {
                let above = RatePoint { ups: p.ups, downs: p.downs - 1 };
                assert_eq!(crossing(c, at_c, above), Sign::Negative);
            } else {
                assert_eq!(crossing(c, at_c, p), Sign::Zero);
            }
            assert!((p.ups as i64) + (p.downs as i64) + 2 <= c / 100 + 102);
        }
    }
}
