//! The unlock calculator: how much of a stream's principal has unlocked at a
//! given timestamp.

use vstd::arithmetic::div_mod::{
    lemma_div_is_ordered, lemma_div_multiples_vanish, lemma_div_pos_is_pos,
};
use vstd::arithmetic::mul::{lemma_mul_inequality, lemma_mul_nonnegative};
use vstd::prelude::*;

verus! {

/// Amount unlocked at `now`: nothing before the cliff, everything at or after
/// the end, and otherwise a linear share of the time elapsed since `start`,
/// rounded down. The cliff only gates when unlocking begins; the rate is
/// measured from `start`.
pub open spec fn spec_unlocked(amount: int, start: int, cliff: int, end: int, now: int) -> int {
    if now < cliff {
        0
    } else if now >= end {
        amount
    } else {
        amount * (now - start) / (end - start)
    }
}

/// The window is ordered and the linear product fits in an `i128`, so the
/// unlock amount is computable without overflow.
pub open spec fn unlock_args_ok(amount: int, start: int, cliff: int, end: int, now: int) -> bool {
    &&& 0 < amount <= i128::MAX
    &&& start <= cliff < end
    &&& (cliff <= now < end ==> amount * (now - start) <= i128::MAX)
}

/// The unlocked amount never leaves `[0, amount]`.
pub proof fn lemma_unlocked_bounds(amount: int, start: int, cliff: int, end: int, now: int)
    requires
        0 <= amount,
        start <= cliff < end,
    ensures
        0 <= spec_unlocked(amount, start, cliff, end, now) <= amount,
{
    if cliff <= now < end {
        let n = now - start;
        let d = end - start;
        lemma_mul_nonnegative(amount, n);
        lemma_div_pos_is_pos(amount * n, d);
        lemma_mul_inequality(n, d, amount);
        lemma_div_is_ordered(amount * n, amount * d, d);
        assert(amount * d == d * amount) by (nonlinear_arith);
        lemma_div_multiples_vanish(amount, d);
    }
}

/// The unlocked amount is non-decreasing as `now` increases.
pub proof fn lemma_unlocked_monotonic(
    amount: int,
    start: int,
    cliff: int,
    end: int,
    now1: int,
    now2: int,
)
    requires
        0 <= amount,
        start <= cliff < end,
        now1 <= now2,
    ensures
        spec_unlocked(amount, start, cliff, end, now1) <= spec_unlocked(
            amount,
            start,
            cliff,
            end,
            now2,
        ),
{
    lemma_unlocked_bounds(amount, start, cliff, end, now1);
    lemma_unlocked_bounds(amount, start, cliff, end, now2);
    if cliff <= now1 < end && cliff <= now2 < end {
        lemma_mul_inequality(now1 - start, now2 - start, amount);
        assert(amount * (now1 - start) == (now1 - start) * amount) by (nonlinear_arith);
        assert(amount * (now2 - start) == (now2 - start) * amount) by (nonlinear_arith);
        lemma_div_is_ordered(amount * (now1 - start), amount * (now2 - start), end - start);
    }
}

/// Before the cliff nothing is unlocked; at or after the end everything is.
pub proof fn lemma_unlocked_gating(amount: int, start: int, cliff: int, end: int, now: int)
    requires
        start <= cliff < end,
    ensures
        now < cliff ==> spec_unlocked(amount, start, cliff, end, now) == 0,
        now >= end ==> spec_unlocked(amount, start, cliff, end, now) == amount,
{
}

/// Computes the unlocked amount.
pub fn calculate_unlocked(
    amount: i128,
    start_time: u64,
    cliff_time: u64,
    end_time: u64,
    now: u64,
) -> (r: i128)
    requires
        unlock_args_ok(amount as int, start_time as int, cliff_time as int, end_time as int, now as int),
    ensures
        r == spec_unlocked(
            amount as int,
            start_time as int,
            cliff_time as int,
            end_time as int,
            now as int,
        ),
        0 <= r <= amount,
{
    proof {
        lemma_unlocked_bounds(
            amount as int,
            start_time as int,
            cliff_time as int,
            end_time as int,
            now as int,
        );
    }
    if now < cliff_time {
        0
    } else if now >= end_time {
        amount
    } else {
        let elapsed: u64 = now - start_time;
        let duration: u64 = end_time - start_time;
        let numerator: u128 = (amount as u128) * (elapsed as u128);
        let quotient: u128 = numerator / (duration as u128);
        proof {
            lemma_div_pos_is_pos(numerator as int, duration as int);
            lemma_div_is_ordered(numerator as int, i128::MAX as int, duration as int);
        }
        quotient as i128
    }
}

} // verus!
