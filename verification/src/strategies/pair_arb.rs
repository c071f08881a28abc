//! Pair arbitrage: in a binary market exactly one of UP and DOWN pays $1, so buying both
//! for less than $1 (after the 3.125% taker fee on one leg) locks in the difference.

use vstd::prelude::*;
use crate::fixed::UNIT;
use crate::data::gamma::Market;
use crate::data::clob::Orderbook;
use super::{Signal, Rationale, make_signal};

verus! {

/// Minimum net profit per share, after fees, in micro-dollars ($0.02).
pub const MIN_PROFIT_MAKER: i64 = 20_000;

/// Minimum dollar depth on each ask side.
pub const MIN_DEPTH: i128 = 2_000_000;

/// Both tokens are known and at least 60s are left.
pub open spec fn eligible(m: &Market) -> bool {
    &&& m.up_token_id@.len() > 0
    &&& m.down_token_id@.len() > 0
    &&& m.seconds_remaining >= 60
}

/// `1 - (up_ask + down_ask)`: what one pair of shares earns before fees.
pub open spec fn profit_per_share(up: &Orderbook, down: &Orderbook) -> int {
    UNIT - (up.best_ask + down.best_ask)
}

/// Thirty-two times the net profit per share once the 3.125% (1/32) fee on the DOWN leg
/// is paid.
pub open spec fn net_profit_x32(up: &Orderbook, down: &Orderbook) -> int {
    32 * profit_per_share(up, down) - down.best_ask
}

/// The two asks leave at least $0.02 per share after fees and each side has $2 of depth.
pub open spec fn opportunity(up: &Orderbook, down: &Orderbook) -> bool {
    &&& net_profit_x32(up, down) >= 32 * MIN_PROFIT_MAKER
    &&& up.ask_depth >= MIN_DEPTH
    &&& down.ask_depth >= MIN_DEPTH
}

/// An opportunity (with a non-negative DOWN ask) buys the pair for less than the $1 it
/// is certain to pay: the profit per share is positive.
pub proof fn lemma_opportunity_costs_under_one_dollar(up: &Orderbook, down: &Orderbook)
    requires
        opportunity(up, down),
        down.best_ask >= 0,
    ensures
        up.best_ask + down.best_ask < UNIT,
        profit_per_share(up, down) > 0,
{
}

/// Pair-arbitrage signal for `market`, given both tokens' books (`None` where a fetch
/// failed). The first leg is the cheaper side.
pub fn analyze(market: &Market, up_book: Option<&Orderbook>, down_book: Option<&Orderbook>) -> (r:
    Option<Signal>)
    requires
        market.wf(),
        up_book matches Some(b) ==> b.wf(),
        down_book matches Some(b) ==> b.wf(),
    ensures
        r is Some <==> (eligible(market) && (up_book matches Some(u) && (down_book matches Some(d)
            && opportunity(u, d)))),
        r matches Some(s) ==> {
            let u = up_book->0;
            let d = down_book->0;
            let up_first = u.best_ask <= d.best_ask;
            &&& s.strategy@ == "pair_arb"@
            &&& s.coin@ == market.coin@
            &&& s.direction@ == (if up_first { "UP"@ } else { "DOWN"@ })
            &&& s.token_id@ == (if up_first { market.up_token_id@ } else { market.down_token_id@ })
            &&& s.market_id@ == market.market_id@
            &&& s.entry_price == (if up_first { u.best_ask } else { d.best_ask })
            &&& s.confidence == 950_000
            &&& s.order_type@ == "taker"@
            &&& s.agreement_count == 1
            &&& s.conviction_tier@ == "MAXIMUM"@
            &&& s.seconds_remaining == market.seconds_remaining
            &&& s.rationale == (Rationale::PairArb {
                up_ask: u.best_ask,
                down_ask: d.best_ask,
                combined_ask: (u.best_ask + d.best_ask) as i64,
                profit_per_share: profit_per_share(u, d) as i64,
                net_profit: (net_profit_x32(u, d) / 32) as i64,
            })
        },
{
    if market.up_token_id.as_str().is_empty() || market.down_token_id.as_str().is_empty() {
        return None;
    }
    if market.seconds_remaining < 60 {
        return None;
    }
    let (up, down) = match (up_book, down_book) {
        (Some(u), Some(d)) => (u, d),
        _ => return None,
    };
    let combined = up.best_ask + down.best_ask;
    let profit = UNIT - combined;
    let net_x32: i128 = 32 * profit as i128 - down.best_ask as i128;
    if net_x32 < 32 * MIN_PROFIT_MAKER as i128 {
        return None;
    }
    if up.ask_depth < MIN_DEPTH || down.ask_depth < MIN_DEPTH {
        return None;
    }
    let rationale = Rationale::PairArb {
        up_ask: up.best_ask,
        down_ask: down.best_ask,
        combined_ask: combined,
        profit_per_share: profit,
        net_profit: (net_x32 / 32) as i64,
    };
    if up.best_ask <= down.best_ask {
        Some(make_signal("pair_arb", market.coin.as_str(), "UP", &market.up_token_id, market,
            up.best_ask, 950_000, "taker", rationale, 1, "MAXIMUM"))
    } else {
        Some(make_signal("pair_arb", market.coin.as_str(), "DOWN", &market.down_token_id, market,
            down.best_ask, 950_000, "taker", rationale, 1, "MAXIMUM"))
    }
}

} // verus!
