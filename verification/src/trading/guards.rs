//! Safety guards that run before any trade decision and can veto entries:
//! a de-peg killswitch on diverging oracle prices, a volatility-desert filter that skips
//! trades whose expected profit the spread eats, and the drift reconciler's schedule.

use vstd::prelude::*;
use std::time::Instant;
use crate::fixed::UNIT;
use crate::text::{three_decimals, fixed_point_text, signed_milli_text, signed_three_decimals};
use crate::clock::{instant_now, secs_since};

verus! {

/// Halts trading while the Binance and Coinbase BTC prices diverge by more than
/// `max_divergence_pct` of their mean.
pub struct DePegGuard {
    pub binance_price: i64,
    pub coinbase_price: i64,
    /// Killswitch threshold in `PCT` units (0.15%).
    pub max_divergence_pct: i64,
    pub is_halted: bool,
    pub halt_reason: String,
    pub last_check: Instant,
}

/// Both prices are known (positive).
pub open spec fn prices_known(binance: int, coinbase: int) -> bool {
    binance > 0 && coinbase > 0
}

/// `|binance - coinbase| / mean * 100 > max_pct` (with `max_pct` in `PCT` units), exactly.
pub open spec fn diverged(binance: int, coinbase: int, max_pct: int) -> bool {
    let gap = if binance >= coinbase { binance - coinbase } else { coinbase - binance };
    gap * 2 * UNIT > max_pct * (binance + coinbase)
}

/// The divergence in thousandths of a percent, rounded half up.
pub open spec fn divergence_milli_pct(binance: int, coinbase: int) -> int {
    let gap = if binance >= coinbase { binance - coinbase } else { coinbase - binance };
    (gap * 2 * UNIT + 5 * (binance + coinbase)) / (10 * (binance + coinbase))
}

/// The halt message: `Oracle de-peg: D% divergence (max=M%)` with three decimals each
/// (`max_pct` in `PCT` units, possibly negative).
pub open spec fn depeg_reason(divergence_milli: nat, max_pct: int) -> Seq<char> {
    "Oracle de-peg: "@ + fixed_point_text(divergence_milli, 3) + "% divergence (max="@
        + signed_milli_text(max_pct) + "%)"@
}

/// The killswitch treats the two oracles alike: swapping the prices changes neither
/// whether both are known nor whether they diverge.
pub proof fn lemma_divergence_symmetric(binance: int, coinbase: int, max_pct: int)
    ensures
        prices_known(binance, coinbase) == prices_known(coinbase, binance),
        diverged(binance, coinbase, max_pct) == diverged(coinbase, binance, max_pct),
{
}

impl DePegGuard {
    /// Halted exactly when there is a reason on record.
    pub open spec fn wf(&self) -> bool {
        self.is_halted <==> self.halt_reason@.len() > 0
    }

    pub fn new() -> (g: DePegGuard)
        ensures
            g.binance_price == 0,
            g.coinbase_price == 0,
            g.max_divergence_pct == 1_500,
            !g.is_halted,
            g.halt_reason@ == Seq::<char>::empty(),
            g.wf(),
    {
        DePegGuard {
            binance_price: 0,
            coinbase_price: 0,
            max_divergence_pct: 1_500,
            is_halted: false,
            halt_reason: String::new(),
            last_check: instant_now(),
        }
    }

    /// Records new oracle prices and re-evaluates the killswitch: with both prices known, it
    /// trips (keeping the first reason) while they diverge beyond the threshold and resets
    /// once they agree again; with a price missing the state is left as it was.
    pub fn update(&mut self, binance: i64, coinbase: i64)
        ensures
            final(self).binance_price == binance,
            final(self).coinbase_price == coinbase,
            final(self).max_divergence_pct == old(self).max_divergence_pct,
            !prices_known(binance as int, coinbase as int) ==> {
                &&& final(self).is_halted == old(self).is_halted
                &&& final(self).halt_reason@ == old(self).halt_reason@
            },
            prices_known(binance as int, coinbase as int) ==> {
                if diverged(binance as int, coinbase as int, old(self).max_divergence_pct as int) {
                    &&& final(self).is_halted
                    &&& final(self).halt_reason@ == if old(self).is_halted {
                        old(self).halt_reason@
                    } else {
                        depeg_reason(
                            divergence_milli_pct(binance as int, coinbase as int) as nat,
                            old(self).max_divergence_pct as int,
                        )
                    }
                } else {
                    &&& !final(self).is_halted
                    &&& final(self).halt_reason@ == if old(self).is_halted {
                        Seq::<char>::empty()
                    } else {
                        old(self).halt_reason@
                    }
                }
            },
            prices_known(binance as int, coinbase as int) && old(self).max_divergence_pct < 0
                ==> final(self).is_halted,
            old(self).wf() ==> final(self).wf(),
    {
        self.binance_price = binance;
        self.coinbase_price = coinbase;
        self.last_check = instant_now();
        if binance <= 0 || coinbase <= 0 {
            return;
        }
        let gap: i128 = if binance >= coinbase {
            binance as i128 - coinbase as i128
        } else {
            coinbase as i128 - binance as i128
        };
        let total = binance as i128 + coinbase as i128;
        assert(-170_141_183_460_469_231_731_687_303_715_884_105_728 < self.max_divergence_pct * total
            < 170_141_183_460_469_231_731_687_303_715_884_105_727) by (nonlinear_arith)
            requires
                -9_223_372_036_854_775_808 <= self.max_divergence_pct <= 9_223_372_036_854_775_807,
                0 < total <= 18_446_744_073_709_551_614,
        ;
        assert(self.max_divergence_pct < 0 ==> self.max_divergence_pct * total < 0)
            by (nonlinear_arith)
            requires
                total > 0,
        ;
        if gap * 2 * (UNIT as i128) > self.max_divergence_pct as i128 * total {
            if !self.is_halted {
                self.is_halted = true;
                let milli = (gap * 2 * (UNIT as i128) + 5 * total) / (10 * total);
                assert(0 <= milli <= UNIT) by (nonlinear_arith)
                    requires
                        milli == (gap * 2 * UNIT + 5 * total) / (10 * total),
                        0 <= gap <= total,
                        total >= 2,
                ;
                let max_text = signed_three_decimals(self.max_divergence_pct);
                let reason = String::from_str("Oracle de-peg: ")
                    .concat(three_decimals(milli as u64).as_str())
                    .concat("% divergence (max=")
                    .concat(max_text.as_str())
                    .concat("%)");
                proof {
                    reveal_strlit("Oracle de-peg: ");
                }
                self.halt_reason = reason;
            }
        } else if self.is_halted {
            self.is_halted = false;
            self.halt_reason = String::new();
        }
    }

    /// Trading is allowed unless the killswitch is tripped.
    pub fn can_trade(&self) -> (r: bool)
        ensures
            r == !self.is_halted,
    {
        !self.is_halted
    }
}

/// Skips entries whose expected profit, after the cost of crossing half the spread, falls
/// short of `min_edge_above_spread`.
pub struct VolatilityDesertGuard {
    /// Minimum expected edge above the spread cost, in micro-dollars ($0.01).
    pub min_edge_above_spread: i64,
    pub trades_skipped: u64,
    pub trades_allowed: u64,
}

/// Expected profit per share of an entry at `entry_price` with win rate `wr` (millionths),
/// winning 15% of the entry and losing 8%, less half the spread, scaled by 2·10^8 so that
/// it is an exact integer.
pub open spec fn expected_profit_scaled(spread: int, wr: int, entry_price: int) -> int {
    30 * wr * entry_price - 16 * (UNIT - wr) * entry_price - 100_000_000 * spread
}

/// Whether the entry clears the required edge.
pub open spec fn clears_edge(min_edge: int, spread: int, wr: int, entry_price: int) -> bool {
    expected_profit_scaled(spread, wr, entry_price) >= 200_000_000 * min_edge
}

/// A wider spread never turns a skip into an entry.
pub proof fn lemma_wider_spread_never_clears(min_edge: int, s1: int, s2: int, wr: int, entry_price: int)
    requires
        s1 <= s2,
        clears_edge(min_edge, s2, wr, entry_price),
    ensures
        clears_edge(min_edge, s1, wr, entry_price),
{
}

/// Whether `e * a >= t`, for a positive `e`, decided without forming the product.
fn product_at_least(e: i128, a: i128, t: i128) -> (r: bool)
    requires
        0 < e <= 10_000_000_000_000_000_000,
        -1_000_000_000_000_000_000_000 <= a <= 1_000_000_000_000_000_000_000,
        -10_000_000_000_000_000_000_000_000_000 <= t <= 10_000_000_000_000_000_000_000_000_000,
    ensures
        r == (e * a >= t),
{
    if t <= 0 {
        let u = -t;
        let q = u / e;
        let rem = u % e;
        proof {
            vstd::arithmetic::div_mod::lemma_fundamental_div_mod(u as int, e as int);
            vstd::arithmetic::div_mod::lemma_mod_bound(u as int, e as int);
        }
        assert(e * a >= t <==> a >= -q) by (nonlinear_arith)
            requires
                u == -t,
                u == e * q + rem,
                0 <= rem < e,
                e > 0,
        ;
        a >= -q
    } else {
        let q = (t + e - 1) / e;
        let rem = (t + e - 1) % e;
        proof {
            vstd::arithmetic::div_mod::lemma_fundamental_div_mod((t + e - 1) as int, e as int);
            vstd::arithmetic::div_mod::lemma_mod_bound((t + e - 1) as int, e as int);
        }
        assert(e * a >= t <==> a >= q) by (nonlinear_arith)
            requires
                t + e - 1 == e * q + rem,
                0 <= rem < e,
                e > 0,
                t > 0,
        ;
        a >= q
    }
}

/// A higher win rate never turns an entry into a skip (for a non-negative entry price).
pub proof fn lemma_higher_win_rate_never_skips(min_edge: int, spread: int, wr1: int, wr2: int, entry_price: int)
    requires
        wr1 <= wr2,
        entry_price >= 0,
        clears_edge(min_edge, spread, wr1, entry_price),
    ensures
        clears_edge(min_edge, spread, wr2, entry_price),
{
    assert(entry_price * (46 * wr1 - 16 * UNIT) <= entry_price * (46 * wr2 - 16 * UNIT)) by (nonlinear_arith)
        requires
            wr1 <= wr2,
            entry_price >= 0,
    ;
    assert(expected_profit_scaled(spread, wr1, entry_price) == entry_price * (46 * wr1 - 16 * UNIT)
        - 100_000_000 * spread) by (nonlinear_arith);
    assert(expected_profit_scaled(spread, wr2, entry_price) == entry_price * (46 * wr2 - 16 * UNIT)
        - 100_000_000 * spread) by (nonlinear_arith);
}

/// The loss leg is charged: with no spread and no required edge, an entry at a positive
/// price clears exactly when the win rate reaches the break-even 8/23, where winning 15%
/// and losing 8% of the entry balance out.
pub proof fn lemma_break_even_win_rate(wr: int, entry_price: int)
    requires
        entry_price > 0,
    ensures
        clears_edge(0, 0, wr, entry_price) <==> 23 * wr >= 8 * UNIT,
{
    assert(expected_profit_scaled(0, wr, entry_price) == 2 * entry_price * (23 * wr - 8 * UNIT))
        by (nonlinear_arith);
    assert(2 * entry_price * (23 * wr - 8 * UNIT) >= 0 <==> 23 * wr - 8 * UNIT >= 0) by (nonlinear_arith)
        requires
            entry_price > 0,
    ;
}

/// A certain win earns 15% of the entry: at a win rate of 1 the entry clears exactly when
/// 15% of the entry price, less half the spread, reaches the required edge.
pub proof fn lemma_certain_win_edge(min_edge: int, spread: int, entry_price: int)
    ensures
        clears_edge(min_edge, spread, UNIT as int, entry_price) <==> 15 * entry_price - 50 * spread
            >= 100 * min_edge,
{
    assert(expected_profit_scaled(spread, UNIT as int, entry_price) == 30_000_000 * entry_price
        - 100_000_000 * spread) by (nonlinear_arith);
}

/// A sure loss costs 8% of the entry: at a win rate of 0 the entry clears exactly when
/// minus 8% of the entry price, less half the spread, reaches the required edge.
pub proof fn lemma_certain_loss_edge(min_edge: int, spread: int, entry_price: int)
    ensures
        clears_edge(min_edge, spread, 0, entry_price) <==> -8 * entry_price - 50 * spread
            >= 100 * min_edge,
{
    assert(expected_profit_scaled(spread, 0, entry_price) == -16_000_000 * entry_price
        - 100_000_000 * spread) by (nonlinear_arith);
}

impl VolatilityDesertGuard {
    pub fn new() -> (g: VolatilityDesertGuard)
        ensures
            g.min_edge_above_spread == 10_000,
            g.trades_skipped == 0,
            g.trades_allowed == 0,
    {
        VolatilityDesertGuard { min_edge_above_spread: 10_000, trades_skipped: 0, trades_allowed: 0 }
    }

    /// Whether to enter a trade with the given spread, expected win rate and entry price;
    /// counts the decision.
    pub fn should_enter(&mut self, spread: i64, expected_wr: i64, entry_price: i64) -> (r: bool)
        requires
            old(self).trades_skipped < u64::MAX,
            old(self).trades_allowed < u64::MAX,
        ensures
            r == clears_edge(old(self).min_edge_above_spread as int, spread as int, expected_wr as int,
                entry_price as int),
            final(self).min_edge_above_spread == old(self).min_edge_above_spread,
            r ==> final(self).trades_allowed == old(self).trades_allowed + 1
                && final(self).trades_skipped == old(self).trades_skipped,
            !r ==> final(self).trades_skipped == old(self).trades_skipped + 1
                && final(self).trades_allowed == old(self).trades_allowed,
    {
        // expected profit (scaled) = entry * (46 wr - 16) - 10^8 spread
        let a: i128 = 46 * expected_wr as i128 - 16 * UNIT as i128;
        let t: i128 = 200_000_000 * self.min_edge_above_spread as i128 + 100_000_000 * spread as i128;
        let clears = if entry_price > 0 {
            product_at_least(entry_price as i128, a, t)
        } else if entry_price < 0 {
            product_at_least(-(entry_price as i128), -a, t)
        } else {
            0 >= t
        };
        proof {
            let e = entry_price as int;
            assert(expected_profit_scaled(spread as int, expected_wr as int, e) == e * a - 100_000_000
                * spread) by (nonlinear_arith)
                requires
                    a == 46 * expected_wr - 16 * UNIT,
            ;
            if entry_price < 0 {
                assert((-e) * (-a) == e * a) by (nonlinear_arith);
            }
        }
        if !clears {
            self.trades_skipped = self.trades_skipped + 1;
            false
        } else {
            self.trades_allowed = self.trades_allowed + 1;
            true
        }
    }

    /// Share of decisions that were skips, in millionths (0 before any decision).
    pub fn skip_ratio(&self) -> (r: i64)
        ensures
            r == (if self.trades_skipped + self.trades_allowed == 0 {
                0
            } else {
                self.trades_skipped * UNIT / (self.trades_skipped + self.trades_allowed)
            }),
            0 <= r <= UNIT,
    {
        let total = self.trades_skipped as u128 + self.trades_allowed as u128;
        if total == 0 {
            return 0;
        }
        let q = (self.trades_skipped as u128 * UNIT as u128) / total;
        assert(q <= UNIT) by (nonlinear_arith)
            requires
                q == (self.trades_skipped * UNIT) / (total as int),
                self.trades_skipped <= total,
                total > 0,
        ;
        q as i64
    }
}

/// Schedules reconciliation of the local position book with on-chain positions.
pub struct DriftReconciler {
    pub last_sync: Instant,
    pub sync_interval_secs: u64,
    pub mismatches_found: u64,
}

impl DriftReconciler {
    /// A reconciler whose last sync is `now`, syncing every 15 seconds.
    pub fn new_at(now: Instant) -> (d: DriftReconciler)
        ensures
            d.last_sync == now,
            d.sync_interval_secs == 15,
            d.mismatches_found == 0,
    {
        DriftReconciler { last_sync: now, sync_interval_secs: 15, mismatches_found: 0 }
    }

    /// A reconciler whose last sync is the current instant, read from the clock and handed
    /// to `new_at`.
    pub fn new() -> (d: DriftReconciler)
        ensures
            d.sync_interval_secs == 15,
            d.mismatches_found == 0,
    {
        DriftReconciler::new_at(instant_now())
    }

    /// Whether a sync is due once `elapsed_secs` whole seconds have passed since the last.
    pub fn sync_due(&self, elapsed_secs: u64) -> (r: bool)
        ensures
            r == (elapsed_secs >= self.sync_interval_secs),
    {
        elapsed_secs >= self.sync_interval_secs
    }

    /// Whether a sync is due now: the whole seconds since the last sync (read from the clock)
    /// have reached the interval (see `sync_due`). Whatever the clock reads, a zero interval
    /// is always due.
    pub fn should_sync(&self) -> (r: bool)
        ensures
            self.sync_interval_secs == 0 ==> r,
    {
        let elapsed = secs_since(&self.last_sync);
        self.sync_due(elapsed)
    }

    /// Records that a sync completed at `at`.
    pub fn mark_synced_at(&mut self, at: Instant)
        ensures
            final(self).last_sync == at,
            final(self).sync_interval_secs == old(self).sync_interval_secs,
            final(self).mismatches_found == old(self).mismatches_found,
    {
        self.last_sync = at;
    }

    /// Records that a sync has just completed: the current instant, read from the clock, is
    /// stored by `mark_synced_at`. The reading itself depends on the clock, so only the
    /// other fields are stated here.
    pub fn mark_synced(&mut self)
        ensures
            final(self).sync_interval_secs == old(self).sync_interval_secs,
            final(self).mismatches_found == old(self).mismatches_found,
    {
        let now = instant_now();
        self.mark_synced_at(now);
    }

    /// Counts one more mismatch between local and on-chain state.
    pub fn record_mismatch(&mut self)
        requires
            old(self).mismatches_found < u64::MAX,
        ensures
            final(self).mismatches_found == old(self).mismatches_found + 1,
            final(self).sync_interval_secs == old(self).sync_interval_secs,
            final(self).last_sync == old(self).last_sync,
    {
        self.mismatches_found = self.mismatches_found + 1;
    }
}

} // verus!
