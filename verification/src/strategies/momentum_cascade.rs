//! Momentum cascade: when at least three independent momentum conditions line up on a
//! BTC market, buy UP as a maker; confidence grows with the number of conditions.

use vstd::prelude::*;
use crate::fixed::{UNIT, TICK, PCT, spec_clamp_price, ratio_pct_below, clamp_price, pct_below};
use crate::text::same_text;
use crate::data::gamma::Market;
use crate::data::clob::Orderbook;
use super::{Signal, Rationale, CascadeChecks, make_signal};

verus! {

/// Number of conditions that must hold for the cascade to fire.
pub const MIN_CASCADE_CONDITIONS: u32 = 3;

/// The five conditions, read from the two books and the market's volume.
pub open spec fn spec_checks(m: &Market, up: &Orderbook, down: &Orderbook) -> CascadeChecks {
    CascadeChecks {
        bid_imbalance: up.ask_depth > 0 && up.bid_depth > 2 * up.ask_depth,
        price_has_room: 250_000 <= up.mid_price <= 450_000,
        tight_spread: ratio_pct_below(up.spread as int, up.best_ask as int, 2 * PCT),
        low_vol_momentum: 0 < m.volume < 100 * UNIT,
        down_expensive: down.best_ask > 550_000,
    }
}

pub open spec fn count(c: CascadeChecks) -> int {
    (if c.bid_imbalance { 1int } else { 0int }) + (if c.price_has_room { 1int } else { 0int }) + (
    if c.tight_spread { 1int } else { 0int }) + (if c.low_vol_momentum { 1int } else { 0int }) + (
    if c.down_expensive { 1int } else { 0int })
}

/// Confidence for a cascade of `n` conditions.
pub open spec fn confidence(n: int) -> int {
    if n == 3 {
        720_000
    } else if n == 4 {
        780_000
    } else if n == 5 {
        850_000
    } else {
        700_000
    }
}

/// More conditions met never means less confidence: across a firing cascade (three to five
/// conditions) the confidence strictly increases with the number of conditions.
pub proof fn lemma_confidence_grows_with_conditions(n1: int, n2: int)
    requires
        MIN_CASCADE_CONDITIONS <= n1 < n2 <= 5,
    ensures
        confidence(n1) < confidence(n2),
{
}

/// A firing cascade's confidence lies between 0.72 and 0.85, and only the full cascade of
/// five conditions reaches 0.85.
pub proof fn lemma_cascade_confidence_range(n: int)
    requires
        MIN_CASCADE_CONDITIONS <= n <= 5,
    ensures
        720_000 <= confidence(n) <= 850_000,
        confidence(n) == 850_000 <==> n == 5,
{
}

/// A BTC market with at least 45s and at least 20% of its lifetime left.
pub open spec fn eligible(m: &Market) -> bool {
    &&& m.coin@ == "BTC"@
    &&& m.seconds_remaining >= 45
    &&& m.seconds_remaining * 100 >= m.timeframe as int * 60 * 20
}

pub fn is_eligible(market: &Market) -> (r: bool)
    requires
        market.wf(),
    ensures
        r == eligible(market),
{
    if !same_text(market.coin.as_str(), "BTC") {
        return false;
    }
    if market.seconds_remaining < 45 {
        return false;
    }
    let tf_secs = market.timeframe as i128 * 60;
    (market.seconds_remaining as i128) * 100 >= tf_secs * 20
}

/// Evaluates the five cascade conditions.
pub fn cascade_checks(market: &Market, up: &Orderbook, down: &Orderbook) -> (r: CascadeChecks)
    requires
        market.wf(),
        up.wf(),
        down.wf(),
    ensures
        r == spec_checks(market, up, down),
{
    CascadeChecks {
        bid_imbalance: up.ask_depth > 0 && up.bid_depth as i128 > 2 * (up.ask_depth as i128),
        price_has_room: 250_000 <= up.mid_price && up.mid_price <= 450_000,
        tight_spread: pct_below(up.spread, up.best_ask, 2 * PCT),
        low_vol_momentum: market.volume < 100 * UNIT && market.volume > 0,
        down_expensive: down.best_ask > 550_000,
    }
}

fn count_checks(c: &CascadeChecks) -> (n: u32)
    ensures
        n == count(*c),
        n <= 5,
{
    let mut n: u32 = 0;
    if c.bid_imbalance {
        n = n + 1;
    }
    if c.price_has_room {
        n = n + 1;
    }
    if c.tight_spread {
        n = n + 1;
    }
    if c.low_vol_momentum {
        n = n + 1;
    }
    if c.down_expensive {
        n = n + 1;
    }
    n
}

/// Momentum-cascade signal for `market`, given both tokens' books (`None` where a fetch
/// failed).
pub fn analyze(market: &Market, up_book: Option<&Orderbook>, down_book: Option<&Orderbook>) -> (r:
    Option<Signal>)
    requires
        market.wf(),
        up_book matches Some(b) ==> b.wf(),
        down_book matches Some(b) ==> b.wf(),
    ensures
        r is Some <==> (eligible(market) && (up_book matches Some(u) && (down_book matches Some(d)
            && count(spec_checks(market, u, d)) >= MIN_CASCADE_CONDITIONS))),
        r matches Some(s) ==> {
            let u = up_book->0;
            let c = spec_checks(market, u, down_book->0);
            &&& s.strategy@ == "momentum_cascade"@
            &&& s.coin@ == "BTC"@
            &&& s.direction@ == "UP"@
            &&& s.token_id@ == market.up_token_id@
            &&& s.market_id@ == market.market_id@
            &&& s.entry_price == spec_clamp_price(u.best_ask - TICK)
            &&& s.confidence == confidence(count(c))
            &&& s.order_type@ == "maker"@
            &&& s.agreement_count == count(c)
            &&& s.conviction_tier@ == (if count(c) >= 4 { "HIGH"@ } else { "MEDIUM"@ })
            &&& s.seconds_remaining == market.seconds_remaining
            &&& s.rationale == (Rationale::MomentumCascade { checks: c, conditions_met: count(c) as u32 })
        },
{
    if !is_eligible(market) {
        return None;
    }
    let (up, down) = match (up_book, down_book) {
        (Some(u), Some(d)) => (u, d),
        _ => return None,
    };
    let checks = cascade_checks(market, up, down);
    let n = count_checks(&checks);
    if n < MIN_CASCADE_CONDITIONS {
        return None;
    }
    let conf: i64 = if n == 3 {
        720_000
    } else if n == 4 {
        780_000
    } else if n == 5 {
        850_000
    } else {
        700_000
    };
    let limit = clamp_price(up.best_ask - TICK);
    let tier = if n >= 4 { "HIGH" } else { "MEDIUM" };
    let rationale = Rationale::MomentumCascade { checks, conditions_met: n };
    Some(make_signal("momentum_cascade", "BTC", "UP", &market.up_token_id, market, limit, conf,
        "maker", rationale, n, tier))
}

} // verus!
