//! Fixed-point quantities.
//!
//! Every price, dollar amount, share count and probability is an `i64` counted in
//! millionths ("micro-units"): `UNIT` is $1.00, one share, or a probability of 1.
//! Percentages are counted in ten-thousandths of a percent, so `PCT` is 1% and
//! `100 * PCT == UNIT` (a ratio of 0.15 and a percentage of 15% are the same number).
//! Comparisons against thresholds are made exactly, by cross-multiplying in `i128`.

use vstd::prelude::*;

verus! {

/// One dollar, one share, or a probability of 1.
pub const UNIT: i64 = 1_000_000;

/// The price tick of the order book: $0.01.
pub const TICK: i64 = 10_000;

/// One percent.
pub const PCT: i64 = 10_000;

/// Largest magnitude of the balances, bets, order budgets, position prices and confidences
/// the trading logic works with ($1e9): products of two such values fit in `i128`.
pub const MAX_AMOUNT: i64 = 1_000_000_000_000_000;

/// Lowest price a binary outcome token trades at.
pub const MIN_PRICE: i64 = 10_000;

/// Highest price a binary outcome token trades at.
pub const MAX_PRICE: i64 = 990_000;

/// Largest magnitude of a share count (millionths): any amount over any non-zero price.
pub const MAX_SHARES: i128 = 1_000_000_000_000_000_000_000;

/// A share count that a position can carry: an amount over a non-zero price.
pub open spec fn shares_in_range(x: int) -> bool {
    -MAX_SHARES <= x <= MAX_SHARES
}

/// A quantity that the fixed-point representation can carry.
pub open spec fn in_range(x: int) -> bool {
    -MAX_AMOUNT <= x <= MAX_AMOUNT
}

pub open spec fn spec_max(a: int, b: int) -> int {
    if a >= b { a } else { b }
}

pub open spec fn spec_min(a: int, b: int) -> int {
    if a <= b { a } else { b }
}

/// `x.max(MIN_PRICE).min(MAX_PRICE)`.
pub open spec fn spec_clamp_price(x: int) -> int {
    spec_min(spec_max(x, MIN_PRICE as int), MAX_PRICE as int)
}

/// A clamped price always lies in the tradable band.
pub proof fn lemma_clamp_in_band(x: int)
    ensures
        MIN_PRICE <= spec_clamp_price(x) <= MAX_PRICE,
        MIN_PRICE <= x <= MAX_PRICE ==> spec_clamp_price(x) == x,
{
}

/// Division that rounds toward zero, as machine division does (`b != 0`).
pub open spec fn trunc_div(a: int, b: int) -> int {
    if b > 0 {
        if a >= 0 { a / b } else { -((-a) / b) }
    } else {
        if a >= 0 { -(a / (-b)) } else { (-a) / (-b) }
    }
}

/// Whether `num / den * 100 > limit` holds in IEEE arithmetic, with `limit` a percentage
/// in `PCT` units: a zero denominator gives +inf (above), -inf or NaN (not above).
pub open spec fn ratio_pct_above(num: int, den: int, limit: int) -> bool {
    if den > 0 {
        num * UNIT > limit * den
    } else if den < 0 {
        num * UNIT < limit * den
    } else {
        num > 0
    }
}

/// Whether `num / den * 100 < limit` holds in IEEE arithmetic (see `ratio_pct_above`).
pub open spec fn ratio_pct_below(num: int, den: int, limit: int) -> bool {
    if den > 0 {
        num * UNIT < limit * den
    } else if den < 0 {
        num * UNIT > limit * den
    } else {
        num < 0
    }
}

/// The product of two representable quantities fits comfortably in `i128`.
pub proof fn lemma_product_bound(a: int, b: int)
    requires
        in_range(a),
        in_range(b),
    ensures
        -1_000_000_000_000_000_000_000_000_000_000 <= a * b <= 1_000_000_000_000_000_000_000_000_000_000,
{
    assert(-1_000_000_000_000_000_000_000_000_000_000 <= a * b <= 1_000_000_000_000_000_000_000_000_000_000) by (nonlinear_arith)
        requires
            -1_000_000_000_000_000 <= a <= 1_000_000_000_000_000,
            -1_000_000_000_000_000 <= b <= 1_000_000_000_000_000,
    ;
}

/// Machine division of `a` by a non-zero `b`, rounding toward zero.
pub fn div_toward_zero(a: i128, b: i128) -> (r: i128)
    requires
        b != 0,
        a > i128::MIN,
        b > i128::MIN,
    ensures
        r == trunc_div(a as int, b as int),
{
    if b > 0 {
        if a >= 0 {
            a / b
        } else {
            let n = -a;
            -(n / b)
        }
    } else {
        let m = -b;
        if a >= 0 {
            -(a / m)
        } else {
            let n = -a;
            n / m
        }
    }
}

pub fn max_i64(a: i64, b: i64) -> (r: i64)
    ensures
        r == spec_max(a as int, b as int),
{
    if a >= b {
        a
    } else {
        b
    }
}

pub fn min_i64(a: i64, b: i64) -> (r: i64)
    ensures
        r == spec_min(a as int, b as int),
{
    if a <= b {
        a
    } else {
        b
    }
}

/// Clamps a price into the tradable band `[0.01, 0.99]`.
pub fn clamp_price(x: i64) -> (r: i64)
    ensures
        r == spec_clamp_price(x as int),
        MIN_PRICE <= r <= MAX_PRICE,
{
    min_i64(max_i64(x, MIN_PRICE), MAX_PRICE)
}

/// `num / den * 100 > limit`, decided exactly.
pub fn pct_above(num: i64, den: i64, limit: i64) -> (r: bool)
    requires
        in_range(limit as int),
    ensures
        r == ratio_pct_above(num as int, den as int, limit as int),
{
    assert(-10_000_000_000_000_000_000_000_000_000_000_000 <= limit * den
        <= 10_000_000_000_000_000_000_000_000_000_000_000) by (nonlinear_arith)
        requires
            -1_000_000_000_000_000 <= limit <= 1_000_000_000_000_000,
            i64::MIN <= den <= i64::MAX,
    ;
    assert(-10_000_000_000_000_000_000_000_000 <= num * UNIT <= 10_000_000_000_000_000_000_000_000)
        by (nonlinear_arith)
        requires
            i64::MIN <= num <= i64::MAX,
    ;
    let n = num as i128 * UNIT as i128;
    let l = limit as i128 * den as i128;
    if den > 0 {
        n > l
    } else if den < 0 {
        n < l
    } else {
        num > 0
    }
}

/// `num / den * 100 < limit`, decided exactly.
pub fn pct_below(num: i64, den: i64, limit: i64) -> (r: bool)
    requires
        in_range(limit as int),
    ensures
        r == ratio_pct_below(num as int, den as int, limit as int),
{
    assert(-10_000_000_000_000_000_000_000_000_000_000_000 <= limit * den
        <= 10_000_000_000_000_000_000_000_000_000_000_000) by (nonlinear_arith)
        requires
            -1_000_000_000_000_000 <= limit <= 1_000_000_000_000_000,
            i64::MIN <= den <= i64::MAX,
    ;
    assert(-10_000_000_000_000_000_000_000_000 <= num * UNIT <= 10_000_000_000_000_000_000_000_000)
        by (nonlinear_arith)
        requires
            i64::MIN <= num <= i64::MAX,
    ;
    let n = num as i128 * UNIT as i128;
    let l = limit as i128 * den as i128;
    if den > 0 {
        n < l
    } else if den < 0 {
        n > l
    } else {
        num < 0
    }
}

} // verus!
