//! Risk manager: five balance tiers (SURVIVAL $0-5, SEED $5-15, COMFORT $15-50,
//! AGGRESSIVE $50-150, FULL_SEND $150+) that set the entry bar and the bet size.

use vstd::prelude::*;
use crate::fixed::{UNIT, in_range, spec_max, spec_min, trunc_div, div_toward_zero};

verus! {

/// One balance tier. Amounts in micro-dollars, confidences in millionths, bet percentages
/// in `PCT` units.
pub struct Tier {
    pub name: &'static str,
    pub min_balance: i64,
    pub max_balance: i64,
    pub min_confidence: i64,
    pub min_agreement: u32,
    pub max_positions: u32,
    pub bet_pct_min: i64,
    pub bet_pct_max: i64,
}

/// Number of tiers.
pub const TIER_COUNT: usize = 5;

pub open spec fn tier_min_balance(i: int) -> int {
    if i == 0 { 0 } else if i == 1 { 5 * UNIT } else if i == 2 { 15 * UNIT } else if i == 3 { 50 * UNIT } else { 150 * UNIT }
}

pub open spec fn tier_max_balance(i: int) -> int {
    if i == 0 { 5 * UNIT } else if i == 1 { 15 * UNIT } else if i == 2 { 50 * UNIT } else if i == 3 { 150 * UNIT } else { i64::MAX as int }
}

pub open spec fn tier_min_confidence(i: int) -> int {
    if i == 0 { 650_000 } else if i == 1 { 600_000 } else if i == 2 { 550_000 } else if i == 3 { 550_000 } else { 500_000 }
}

pub open spec fn tier_min_agreement(i: int) -> int {
    if i == 0 { 2 } else if i == 1 { 2 } else { 1 }
}

pub open spec fn tier_max_positions(i: int) -> int {
    if i == 0 { 2 } else if i == 1 { 4 } else if i == 2 { 6 } else if i == 3 { 10 } else { 20 }
}

pub open spec fn tier_bet_pct_min(i: int) -> int {
    if i == 0 { 150_000 } else if i == 1 { 100_000 } else if i == 2 { 40_000 } else if i == 3 { 50_000 } else { 60_000 }
}

pub open spec fn tier_bet_pct_max(i: int) -> int {
    if i == 0 { 250_000 } else if i == 1 { 180_000 } else if i == 2 { 80_000 } else if i == 3 { 100_000 } else { 120_000 }
}

pub open spec fn tier_name(i: int) -> Seq<char> {
    if i == 0 { "SURVIVAL"@ } else if i == 1 { "SEED"@ } else if i == 2 { "COMFORT"@ } else if i == 3 { "AGGRESSIVE"@ } else { "FULL_SEND"@ }
}

/// The tier table entry `i`.
pub open spec fn tier_matches(t: &Tier, i: int) -> bool {
    &&& t.name@ == tier_name(i)
    &&& t.min_balance == tier_min_balance(i)
    &&& t.max_balance == tier_max_balance(i)
    &&& t.min_confidence == tier_min_confidence(i)
    &&& t.min_agreement == tier_min_agreement(i)
    &&& t.max_positions == tier_max_positions(i)
    &&& t.bet_pct_min == tier_bet_pct_min(i)
    &&& t.bet_pct_max == tier_bet_pct_max(i)
}

/// The highest tier whose minimum balance `balance` reaches (the lowest tier for a
/// negative balance).
pub open spec fn tier_index(balance: int) -> int {
    if balance >= tier_min_balance(4) {
        4
    } else if balance >= tier_min_balance(3) {
        3
    } else if balance >= tier_min_balance(2) {
        2
    } else if balance >= tier_min_balance(1) {
        1
    } else {
        0
    }
}

/// Table entry `i` (`i < TIER_COUNT`).
pub fn tier(i: usize) -> (t: Tier)
    requires
        i < TIER_COUNT,
    ensures
        tier_matches(&t, i as int),
{
    match i {
        0 => Tier { name: "SURVIVAL", min_balance: 0, max_balance: 5 * UNIT, min_confidence: 650_000,
            min_agreement: 2, max_positions: 2, bet_pct_min: 150_000, bet_pct_max: 250_000 },
        1 => Tier { name: "SEED", min_balance: 5 * UNIT, max_balance: 15 * UNIT, min_confidence: 600_000,
            min_agreement: 2, max_positions: 4, bet_pct_min: 100_000, bet_pct_max: 180_000 },
        2 => Tier { name: "COMFORT", min_balance: 15 * UNIT, max_balance: 50 * UNIT,
            min_confidence: 550_000, min_agreement: 1, max_positions: 6, bet_pct_min: 40_000,
            bet_pct_max: 80_000 },
        3 => Tier { name: "AGGRESSIVE", min_balance: 50 * UNIT, max_balance: 150 * UNIT,
            min_confidence: 550_000, min_agreement: 1, max_positions: 10, bet_pct_min: 50_000,
            bet_pct_max: 100_000 },
        _ => Tier { name: "FULL_SEND", min_balance: 150 * UNIT, max_balance: i64::MAX,
            min_confidence: 500_000, min_agreement: 1, max_positions: 20, bet_pct_min: 60_000,
            bet_pct_max: 120_000 },
    }
}

/// Bet size before the $1 floor and the half-balance cap: the tier's bet percentage,
/// scaled linearly from `bet_pct_min` at the tier's minimum confidence to `bet_pct_max`
/// at certainty (and beyond), applied to the balance; rounded toward zero.
pub open spec fn raw_size(balance: int, confidence: int) -> int {
    let i = tier_index(balance);
    let minc = tier_min_confidence(i);
    let lo = tier_bet_pct_min(i);
    let hi = tier_bet_pct_max(i);
    let excess = spec_max(confidence - minc, 0);
    trunc_div(balance * (lo * (UNIT - minc) + (hi - lo) * excess), UNIT * (UNIT - minc))
}

/// Bet size: at least $1, but never more than half the balance.
pub open spec fn bet_size(balance: int, confidence: int) -> int {
    spec_min(spec_max(raw_size(balance, confidence), UNIT as int), trunc_div(balance, 2))
}

/// A larger balance never falls in a lower tier.
pub proof fn lemma_tier_monotone(b1: int, b2: int)
    requires
        b1 <= b2,
    ensures
        tier_index(b1) <= tier_index(b2),
{
}

/// A non-negative balance lies within its tier's bounds.
pub proof fn lemma_tier_brackets_balance(balance: int)
    requires
        0 <= balance < i64::MAX,
    ensures
        tier_min_balance(tier_index(balance)) <= balance < tier_max_balance(tier_index(balance)),
{
}

/// The bet is never more than half the balance.
pub proof fn lemma_bet_at_most_half(balance: int, confidence: int)
    ensures
        bet_size(balance, confidence) <= trunc_div(balance, 2),
{
}

/// With at least $2 the bet is at least the $1 minimum.
pub proof fn lemma_bet_at_least_minimum(balance: int, confidence: int)
    requires
        balance >= 2 * UNIT,
    ensures
        bet_size(balance, confidence) >= UNIT,
{
}

/// For a non-negative balance, more confidence never means a smaller bet.
pub proof fn lemma_bet_monotone_in_confidence(balance: int, c1: int, c2: int)
    requires
        balance >= 0,
        c1 <= c2,
    ensures
        bet_size(balance, c1) <= bet_size(balance, c2),
{
    let i = tier_index(balance);
    let minc = tier_min_confidence(i);
    let lo = tier_bet_pct_min(i);
    let hi = tier_bet_pct_max(i);
    let e1 = spec_max(c1 - minc, 0);
    let e2 = spec_max(c2 - minc, 0);
    let w1 = lo * (UNIT - minc) + (hi - lo) * e1;
    let w2 = lo * (UNIT - minc) + (hi - lo) * e2;
    let d = UNIT * (UNIT - minc);
    assert(0 <= balance * w1 <= balance * w2) by (nonlinear_arith)
        requires
            0 <= e1 <= e2,
            0 <= lo <= hi,
            minc < UNIT,
            balance >= 0,
            w1 == lo * (UNIT - minc) + (hi - lo) * e1,
            w2 == lo * (UNIT - minc) + (hi - lo) * e2,
    ;
    assert((balance * w1) / d <= (balance * w2) / d) by (nonlinear_arith)
        requires
            0 <= balance * w1 <= balance * w2,
            d > 0,
    ;
}

/// Drawdown of a balance between zero and the peak is between 0% and 100%.
pub proof fn lemma_drawdown_bounds(balance: int, peak: int)
    requires
        0 <= balance <= peak,
        peak > 0,
    ensures
        0 <= trunc_div((peak - balance) * UNIT, peak) <= UNIT,
{
    assert(0 <= ((peak - balance) * UNIT) / peak <= UNIT) by (nonlinear_arith)
        requires
            0 <= balance <= peak,
            peak > 0,
    ;
}

pub struct RiskManager {
    pub balance: i64,
    pub peak_balance: i64,
    pub total_pnl: i64,
    pub wins: u32,
    pub losses: u32,
    pub open_positions: u32,
}

impl RiskManager {
    /// The balance fits the fixed-point range.
    pub open spec fn wf(&self) -> bool {
        &&& in_range(self.balance as int)
        &&& in_range(self.peak_balance as int)
    }

    pub fn new(starting_balance: i64) -> (r: RiskManager)
        ensures
            r.balance == starting_balance,
            r.peak_balance == starting_balance,
            r.total_pnl == 0,
            r.wins == 0,
            r.losses == 0,
            r.open_positions == 0,
    {
        RiskManager {
            balance: starting_balance,
            peak_balance: starting_balance,
            total_pnl: 0,
            wins: 0,
            losses: 0,
            open_positions: 0,
        }
    }

    /// The tier the current balance falls in.
    pub fn get_tier(&self) -> (t: Tier)
        ensures
            tier_matches(&t, tier_index(self.balance as int)),
    {
        let i: usize = if self.balance >= 150 * UNIT {
            4
        } else if self.balance >= 50 * UNIT {
            3
        } else if self.balance >= 15 * UNIT {
            2
        } else if self.balance >= 5 * UNIT {
            1
        } else {
            0
        };
        tier(i)
    }

    /// Dollar size of a bet at `confidence`.
    pub fn calculate_size(&self, confidence: i64) -> (size: i64)
        requires
            self.wf(),
            in_range(confidence as int),
        ensures
            size == bet_size(self.balance as int, confidence as int),
    {
        let t = self.get_tier();
        let minc = t.min_confidence as i128;
        let lo = t.bet_pct_min as i128;
        let hi = t.bet_pct_max as i128;
        let excess: i128 = if confidence as i128 > minc { confidence as i128 - minc } else { 0 };
        assert(0 <= lo <= 250_000 && lo <= hi <= 250_000 && 500_000 <= minc <= 650_000);
        assert(0 <= lo * (UNIT - minc) <= 1_000_000_000_000 && 0 <= (hi - lo) * excess
            <= 1_000_000_000_000_000_000_000) by (nonlinear_arith)
            requires
                0 <= lo <= 250_000,
                lo <= hi <= 250_000,
                500_000 <= minc <= 650_000,
                0 <= excess <= 2_000_000_000_000_000,
        ;
        let weight = lo * (UNIT as i128 - minc) + (hi - lo) * excess;
        assert(-2_000_000_000_000_000_000_000_000_000_000_000_000 <= self.balance as i128 * weight
            <= 2_000_000_000_000_000_000_000_000_000_000_000_000) by (nonlinear_arith)
            requires
                0 <= weight <= 2_000_000_000_000_000_000_000,
                -1_000_000_000_000_000 <= self.balance <= 1_000_000_000_000_000,
        ;
        let raw = div_toward_zero(self.balance as i128 * weight, UNIT as i128 * (UNIT as i128 - minc));
        let half = div_toward_zero(self.balance as i128, 2);
        let floored: i128 = if raw >= UNIT as i128 { raw } else { UNIT as i128 };
        let size = if floored <= half { floored } else { half };
        size as i64
    }

    /// Whether a signal with `confidence` agreed on by `agreement` strategies may be taken.
    pub fn can_trade(&self, confidence: i64, agreement: u32) -> (r: bool)
        ensures
            r == {
                let i = tier_index(self.balance as int);
                &&& confidence >= tier_min_confidence(i)
                &&& agreement >= tier_min_agreement(i)
                &&& self.open_positions < tier_max_positions(i)
                &&& self.balance >= UNIT
            },
    {
        let t = self.get_tier();
        confidence >= t.min_confidence && agreement >= t.min_agreement && self.open_positions
            < t.max_positions && self.balance >= UNIT
    }

    /// Fall from the peak balance, as a percentage (`PCT` units) of the peak; 0 when the
    /// peak is not positive. (A wide type: a tiny peak and a deep loss give a huge ratio.)
    pub fn drawdown_pct(&self) -> (r: i128)
        requires
            self.wf(),
        ensures
            r == (if self.peak_balance > 0 {
                trunc_div((self.peak_balance - self.balance) * UNIT, self.peak_balance as int)
            } else {
                0
            }),
    {
        if self.peak_balance > 0 {
            let q = div_toward_zero(
                (self.peak_balance as i128 - self.balance as i128) * UNIT as i128,
                self.peak_balance as i128,
            );
            q
        } else {
            0
        }
    }
}

} // verus!
