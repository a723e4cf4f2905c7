//! Reward and penalty arithmetic of the staking contract.

use vstd::prelude::*;
use vstd::arithmetic::div_mod::{lemma_div_is_ordered, lemma_div_multiples_vanish};

verus! {

/// Seconds in a (non-leap) year: rates are annual.
pub const SECONDS_PER_YEAR: u64 = 31_536_000;

/// Denominator of a basis-point quantity.
pub const BPS_DENOMINATOR: i128 = 10_000;

/// Rates and multipliers are both in basis points, so their product is
/// scaled by `BPS_DENOMINATOR` squared.
pub const REWARD_SCALE: i128 = 100_000_000;

/// Seconds from `from` to `now`; zero when `now` is not later than `from`.
pub open spec fn elapsed_seconds(from: u64, now: u64) -> int {
    if now > from { now - from } else { 0 }
}

/// Principal × annual rate × multiplier × seconds, before any scaling.
pub open spec fn reward_product(amount: int, rate_bps: int, multiplier_bps: int, elapsed: int) -> int {
    amount * rate_bps * multiplier_bps * elapsed
}

/// Whether forming the reward product factor by factor leaves the range of `i128`.
pub open spec fn reward_product_overflows(amount: int, rate_bps: int, multiplier_bps: int, elapsed: int) -> bool {
    ||| amount * rate_bps > i128::MAX
    ||| amount * rate_bps * multiplier_bps > i128::MAX
    ||| amount * rate_bps * multiplier_bps * elapsed > i128::MAX
}

/// Rewards accrued linearly over `elapsed` seconds:
/// `amount * rate * multiplier * elapsed / SECONDS_PER_YEAR / 10^8`, truncated.
pub open spec fn accrued_rewards(amount: int, rate_bps: int, multiplier_bps: int, elapsed: int) -> int {
    reward_product(amount, rate_bps, multiplier_bps, elapsed) / (SECONDS_PER_YEAR as int) / (REWARD_SCALE as int)
}

/// Penalty withheld on an emergency unstake: `amount * penalty_bps / 10_000`, truncated.
pub open spec fn emergency_penalty(amount: int, penalty_bps: int) -> int {
    amount * penalty_bps / (BPS_DENOMINATOR as int)
}

/// The reward product of non-negative factors is non-negative.
pub proof fn lemma_reward_product_nonneg(amount: int, rate_bps: int, multiplier_bps: int, elapsed: int)
    requires
        amount >= 0,
        rate_bps >= 0,
        multiplier_bps >= 0,
        elapsed >= 0,
    ensures
        reward_product(amount, rate_bps, multiplier_bps, elapsed) >= 0,
{
    lemma_product_nonneg(amount, rate_bps, multiplier_bps, elapsed);
}

proof fn lemma_product_nonneg(a: int, b: int, c: int, d: int)
    requires
        a >= 0,
        b >= 0,
        c >= 0,
        d >= 0,
    ensures
        a * b >= 0,
        a * b * c >= 0,
        a * b * c * d >= 0,
{
    assert(a * b >= 0) by (nonlinear_arith)
        requires
            a >= 0,
            b >= 0,
    ;
    assert(a * b * c >= 0) by (nonlinear_arith)
        requires
            a * b >= 0,
            c >= 0,
    ;
    assert(a * b * c * d >= 0) by (nonlinear_arith)
        requires
            a * b * c >= 0,
            d >= 0,
    ;
}

/// The reward reckoning is the published one: principal × rate × multiplier × seconds,
/// divided by 31_536_000 and then by 100_000_000; it is refused exactly when a partial
/// product leaves `i128`. Every factor counts: doubling the multiplier (or the rate, or
/// the principal) doubles the product.
pub proof fn lemma_accrued_rewards_formula(amount: int, rate_bps: int, multiplier_bps: int, elapsed: int)
    ensures
        accrued_rewards(amount, rate_bps, multiplier_bps, elapsed) == amount * rate_bps * multiplier_bps * elapsed
            / 31_536_000 / 100_000_000,
        reward_product_overflows(amount, rate_bps, multiplier_bps, elapsed) <==> (amount * rate_bps > i128::MAX
            || amount * rate_bps * multiplier_bps > i128::MAX || amount * rate_bps * multiplier_bps * elapsed
            > i128::MAX),
        reward_product(amount, rate_bps, 2 * multiplier_bps, elapsed) == 2 * reward_product(
            amount,
            rate_bps,
            multiplier_bps,
            elapsed,
        ),
        reward_product(amount, 2 * rate_bps, multiplier_bps, elapsed) == 2 * reward_product(
            amount,
            rate_bps,
            multiplier_bps,
            elapsed,
        ),
        reward_product(2 * amount, rate_bps, multiplier_bps, elapsed) == 2 * reward_product(
            amount,
            rate_bps,
            multiplier_bps,
            elapsed,
        ),
{
    assert(amount * rate_bps * (2 * multiplier_bps) * elapsed == 2 * (amount * rate_bps * multiplier_bps * elapsed))
        by (nonlinear_arith);
    assert(amount * (2 * rate_bps) * multiplier_bps * elapsed == 2 * (amount * rate_bps * multiplier_bps * elapsed))
        by (nonlinear_arith);
    assert((2 * amount) * rate_bps * multiplier_bps * elapsed == 2 * (amount * rate_bps * multiplier_bps * elapsed))
        by (nonlinear_arith);
}

/// Rewards grow with time: staying staked longer never yields fewer rewards.
pub proof fn lemma_accrued_rewards_monotone(amount: int, rate_bps: int, multiplier_bps: int, e1: int, e2: int)
    requires
        amount >= 0,
        rate_bps >= 0,
        multiplier_bps >= 0,
        0 <= e1 <= e2,
    ensures
        accrued_rewards(amount, rate_bps, multiplier_bps, e1) <= accrued_rewards(amount, rate_bps, multiplier_bps, e2),
{
    let k = amount * rate_bps * multiplier_bps;
    lemma_product_nonneg(amount, rate_bps, multiplier_bps, 1);
    assert(k * e1 <= k * e2) by (nonlinear_arith)
        requires
            k >= 0,
            e1 <= e2,
    ;
    lemma_div_is_ordered(k * e1, k * e2, SECONDS_PER_YEAR as int);
    lemma_div_is_ordered(k * e1 / (SECONDS_PER_YEAR as int), k * e2 / (SECONDS_PER_YEAR as int), REWARD_SCALE as int);
}

/// Rewards are linear in whole years: over `years` full years the reward is
/// `amount * rate * multiplier * years / 10^8`, with nothing lost to the per-second reckoning.
pub proof fn lemma_accrued_rewards_whole_years(amount: int, rate_bps: int, multiplier_bps: int, years: int)
    ensures
        accrued_rewards(amount, rate_bps, multiplier_bps, years * (SECONDS_PER_YEAR as int))
            == amount * rate_bps * multiplier_bps * years / (REWARD_SCALE as int),
{
    let y = SECONDS_PER_YEAR as int;
    let k = amount * rate_bps * multiplier_bps;
    assert(k * (years * y) == y * (k * years)) by (nonlinear_arith);
    lemma_div_multiples_vanish(k * years, y);
}

/// The emergency penalty is a share of the principal: never negative, never more than
/// the principal; none at 0 bps, all of it at 10_000 bps.
pub proof fn lemma_emergency_penalty_bounds(amount: int, penalty_bps: int)
    requires
        amount >= 0,
        0 <= penalty_bps <= BPS_DENOMINATOR,
    ensures
        0 <= emergency_penalty(amount, penalty_bps) <= amount,
        penalty_bps == 0 ==> emergency_penalty(amount, penalty_bps) == 0,
        penalty_bps == BPS_DENOMINATOR ==> emergency_penalty(amount, penalty_bps) == amount,
{
    let d = BPS_DENOMINATOR as int;
    assert(0 <= amount * penalty_bps <= amount * d) by (nonlinear_arith)
        requires
            amount >= 0,
            0 <= penalty_bps <= d,
    ;
    lemma_div_is_ordered(0, amount * penalty_bps, d);
    lemma_div_is_ordered(amount * penalty_bps, amount * d, d);
    assert(amount * d == d * amount) by (nonlinear_arith);
    lemma_div_multiples_vanish(amount, d);
}

/// Rewards accrued on `amount` over `elapsed` seconds at the given annual rate and
/// multiplier; `None` exactly when the reward product overflows `i128`.
pub fn compute_accrued_rewards(amount: i128, rate_bps: u32, multiplier_bps: u32, elapsed: u64) -> (r: Option<i128>)
    requires
        amount >= 0,
    ensures
        r.is_none() <==> reward_product_overflows(amount as int, rate_bps as int, multiplier_bps as int, elapsed as int),
        r matches Some(v) ==> v == accrued_rewards(amount as int, rate_bps as int, multiplier_bps as int, elapsed as int),
        r matches Some(v) ==> v >= 0,
{
    proof {
        lemma_product_nonneg(amount as int, rate_bps as int, multiplier_bps as int, elapsed as int);
    }
    let rate: i128 = rate_bps as i128;
    let mult: i128 = multiplier_bps as i128;
    let secs: i128 = elapsed as i128;
    let p1 = match amount.checked_mul(rate) {
        Some(p) => p,
        None => return None,
    };
    let p2 = match p1.checked_mul(mult) {
        Some(p) => p,
        None => return None,
    };
    let p3 = match p2.checked_mul(secs) {
        Some(p) => p,
        None => return None,
    };
    let per_year: i128 = SECONDS_PER_YEAR as i128;
    let q = p3 / per_year;
    let v = q / REWARD_SCALE;
    Some(v)
}

/// The emergency-unstake penalty on `amount`; `None` exactly when
/// `amount * penalty_bps` overflows `i128`.
pub fn compute_emergency_penalty(amount: i128, penalty_bps: u32) -> (r: Option<i128>)
    requires
        amount >= 0,
        penalty_bps <= BPS_DENOMINATOR,
    ensures
        r.is_none() <==> amount * penalty_bps > i128::MAX,
        r matches Some(v) ==> v == emergency_penalty(amount as int, penalty_bps as int),
        r matches Some(v) ==> 0 <= v <= amount,
{
    proof {
        lemma_product_nonneg(amount as int, penalty_bps as int, 1, 1);
        assert(amount * penalty_bps <= amount * 10_000) by (nonlinear_arith)
            requires
                amount >= 0,
                penalty_bps <= 10_000,
        ;
    }
    let bps: i128 = penalty_bps as i128;
    match amount.checked_mul(bps) {
        Some(p) => Some(p / BPS_DENOMINATOR),
        None => None,
    }
}

} // verus!
