//! Decisions of the scan loop that drives the bot: when to refresh the market list, which
//! signals must clear the volatility-desert filter, and how long to wait between scans.

use vstd::prelude::*;
use crate::text::same_text;
use crate::data::clob::Orderbook;
use crate::strategies::Signal;
use crate::trading::guards::{VolatilityDesertGuard, clears_edge};

verus! {

/// Seconds a fetched market list is reused before it is fetched again.
pub const MARKET_REFRESH_SECS: u64 = 5;

/// Signals acted on per scan, best first.
pub const MAX_SIGNALS_PER_SCAN: usize = 3;

/// Target length of one scan in milliseconds.
pub const SCAN_CADENCE_MS: u64 = 100;

/// Discount taken off the back-tested win rate when strategies set their confidence.
pub const CONFIDENCE_DISCOUNT: i64 = 20_000;

/// Whether to fetch the market list again: it is empty or at least five seconds old.
pub fn refresh_due(secs_since_fetch: u64, cache_empty: bool) -> (r: bool)
    ensures
        r == (cache_empty || secs_since_fetch >= MARKET_REFRESH_SECS),
{
    secs_since_fetch >= MARKET_REFRESH_SECS || cache_empty
}

/// Pair arbitrage is risk-free, so only other strategies face the volatility-desert filter.
pub fn needs_desert_check(signal: &Signal) -> (r: bool)
    ensures
        r == (signal.strategy@ != "pair_arb"@),
{
    !same_text(signal.strategy.as_str(), "pair_arb")
}

/// Whether `signal` may go ahead: pair arbitrage and signals whose book could not be
/// fetched pass unchecked; others must clear the guard's edge with the win rate their
/// confidence implies (the confidence plus the 2% discount), which the guard counts.
pub fn passes_desert_check(guard: &mut VolatilityDesertGuard, signal: &Signal, book: Option<&Orderbook>) -> (r: bool)
    requires
        signal.confidence + CONFIDENCE_DISCOUNT <= i64::MAX,
        old(guard).trades_skipped < u64::MAX,
        old(guard).trades_allowed < u64::MAX,
    ensures
        r == (signal.strategy@ == "pair_arb"@ || book is None || clears_edge(
            old(guard).min_edge_above_spread as int,
            book->0.spread as int,
            signal.confidence + CONFIDENCE_DISCOUNT,
            signal.entry_price as int,
        )),
        (signal.strategy@ == "pair_arb"@ || book is None) ==> *final(guard) == *old(guard),
        final(guard).min_edge_above_spread == old(guard).min_edge_above_spread,
        (signal.strategy@ != "pair_arb"@ && book is Some) ==> {
            &&& r ==> final(guard).trades_allowed == old(guard).trades_allowed + 1
                && final(guard).trades_skipped == old(guard).trades_skipped
            &&& !r ==> final(guard).trades_skipped == old(guard).trades_skipped + 1
                && final(guard).trades_allowed == old(guard).trades_allowed
        },
{
    if !needs_desert_check(signal) {
        return true;
    }
    match book {
        None => true,
        Some(b) => {
            guard.should_enter(b.spread, signal.confidence + CONFIDENCE_DISCOUNT, signal.entry_price)
        },
    }
}

/// Milliseconds to wait after a scan that took `elapsed_ms`, to keep a 100ms cadence.
pub fn cadence_sleep_ms(elapsed_ms: u64) -> (r: u64)
    ensures
        r == (if elapsed_ms < SCAN_CADENCE_MS { SCAN_CADENCE_MS - elapsed_ms } else { 0 }),
{
    if elapsed_ms < SCAN_CADENCE_MS {
        SCAN_CADENCE_MS - elapsed_ms
    } else {
        0
    }
}

} // verus!
