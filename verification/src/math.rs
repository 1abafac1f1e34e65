//! The two arithmetic rules of the marketplace: the fixed-point capacity
//! computation that turns a pool's locked value and a cover's capacity
//! percentage into an insurable amount, and the daily payout earned by a
//! deposit.

use vstd::arithmetic::div_mod::{lemma_div_denominator, lemma_div_multiples_vanish};
use vstd::arithmetic::mul::{lemma_mul_is_associative, lemma_mul_is_commutative};
use vstd::prelude::*;

verus! {

/// Fixed-point scale: amounts are multiplied by this before a division by
/// 100 so that no fractional precision is lost along the way.
pub const PRECISION: u128 = 1_000_000_000_000_000_000;

/// `PRECISION / 100`, the exact scale that one capacity percent carries.
pub const PRECISION_PERCENT: u128 = 10_000_000_000_000_000;

/// The capacity amount a cover of `capacity` percent draws from a pool of
/// value `tvl`: exactly `tvl * capacity / 100`, computed as the protocol
/// does, by scaling with `PRECISION` before the division by 100 and
/// dividing the scale back out at the end.
pub fn capacity_amount(tvl: u128, capacity: u128) -> (r: u128)
    requires
        capacity * PRECISION <= u128::MAX,
        tvl * (capacity * PRECISION_PERCENT) <= u128::MAX,
    ensures
        r == tvl * capacity / 100,
{
    proof {
        lemma_scaled_percent(capacity as int);
    }
    let scaled: u128 = capacity * PRECISION / 100;
    proof {
        lemma_capacity_amount(tvl as int, capacity as int);
    }
    let r: u128 = tvl * scaled / PRECISION;
    r
}

/// Scaling a percentage by `PRECISION` and dividing by 100 is exact:
/// the quotient is `capacity * PRECISION_PERCENT`, nothing truncated.
proof fn lemma_scaled_percent(capacity: int)
    requires
        0 <= capacity,
    ensures
        capacity * PRECISION as int / 100 == capacity * PRECISION_PERCENT as int,
{
    assert(capacity * PRECISION as int == 100 * (capacity * PRECISION_PERCENT as int))
        by (nonlinear_arith);
    lemma_div_multiples_vanish(capacity * PRECISION_PERCENT as int, 100);
}

/// The scaled computation equals direct rational arithmetic:
/// `(tvl * (capacity * PRECISION / 100)) / PRECISION == tvl * capacity / 100`.
proof fn lemma_capacity_amount(tvl: int, capacity: int)
    requires
        0 <= tvl,
        0 <= capacity,
    ensures
        tvl * (capacity * PRECISION as int / 100) / PRECISION as int == tvl * capacity / 100,
{
    lemma_scaled_percent(capacity);
    let x = tvl * capacity * PRECISION_PERCENT as int;
    assert(tvl * (capacity * PRECISION_PERCENT as int) == x) by {
        lemma_mul_is_associative(tvl, capacity, PRECISION_PERCENT as int);
    }
    assert(x / PRECISION_PERCENT as int == tvl * capacity) by {
        lemma_mul_is_commutative(tvl * capacity, PRECISION_PERCENT as int);
        lemma_div_multiples_vanish(tvl * capacity, PRECISION_PERCENT as int);
    }
    assert(x / PRECISION as int == tvl * capacity / 100) by {
        assert(0 <= tvl * capacity * PRECISION_PERCENT as int) by (nonlinear_arith)
            requires
                0 <= tvl && 0 <= capacity,
        ;
        lemma_div_denominator(x, PRECISION_PERCENT as int, 100);
        assert(PRECISION_PERCENT as int * 100 == PRECISION as int) by (nonlinear_arith);
    }
}

/// The daily payout of a deposit: `amount * apy / 100 / 365`, the yearly
/// yield at `apy` percent spread over the days of the year.
pub fn daily_payout(amount: u128, apy: u128) -> (r: u128)
    requires
        amount * apy <= u128::MAX,
    ensures
        r == amount * apy / 100 / 365,
{
    amount * apy / 100 / 365
}

} // verus!
