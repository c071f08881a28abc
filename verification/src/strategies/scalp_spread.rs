//! Scalp spread: when the UP book's spread is wide, bid one tick above the best bid
//! (a maker order) to later sell one tick below the best ask.

use vstd::prelude::*;
use crate::fixed::{TICK, spec_min};
use crate::data::gamma::Market;
use crate::data::clob::Orderbook;
use super::{Signal, Rationale, make_signal};

verus! {

/// Minimum spread to attempt a scalp ($0.03).
pub const MIN_SPREAD: i64 = 30_000;

/// Minimum profit per share between the two inside prices ($0.015).
pub const MIN_PROFIT_PER_SHARE: i64 = 15_000;

/// Minimum dollar depth on each side.
pub const MIN_DEPTH: i128 = 2_000_000;

/// At least 120s and at least 40% of the market's lifetime left.
pub open spec fn eligible(m: &Market) -> bool {
    &&& m.seconds_remaining >= 120
    &&& m.seconds_remaining * 100 >= m.timeframe as int * 60 * 40
}

/// Profit per share of buying one tick above the bid and selling one tick below the ask.
pub open spec fn scalp_profit(b: &Orderbook) -> int {
    (b.best_ask - TICK) - (b.best_bid + TICK)
}

/// Wide spread, liquid on both sides, enough profit inside the spread, price not extreme.
pub open spec fn book_ok(b: &Orderbook) -> bool {
    &&& b.spread >= MIN_SPREAD
    &&& b.bid_depth >= MIN_DEPTH
    &&& b.ask_depth >= MIN_DEPTH
    &&& scalp_profit(b) >= MIN_PROFIT_PER_SHARE
    &&& 150_000 <= b.mid_price <= 850_000
}

/// `0.60 + 5 * profit`, capped at 0.80.
pub open spec fn confidence(profit: int) -> int {
    spec_min(600_000 + profit * 5, 800_000)
}

/// A scalp's confidence lies between 0.675 and 0.80.
pub proof fn lemma_scalp_confidence_bounds(b: &Orderbook)
    requires
        book_ok(b),
    ensures
        675_000 <= confidence(scalp_profit(b)) <= 800_000,
{
}

pub fn is_eligible(market: &Market) -> (r: bool)
    requires
        market.wf(),
    ensures
        r == eligible(market),
{
    if market.seconds_remaining < 120 {
        return false;
    }
    let tf_secs = market.timeframe as i128 * 60;
    (market.seconds_remaining as i128) * 100 >= tf_secs * 40
}

/// Scalp-spread signal for `market`, given the UP token's book (`None` if it could not be
/// fetched).
pub fn analyze(market: &Market, up_book: Option<&Orderbook>) -> (r: Option<Signal>)
    requires
        market.wf(),
        up_book matches Some(b) ==> b.wf(),
    ensures
        r is Some <==> (eligible(market) && (up_book matches Some(b) && book_ok(b))),
        r matches Some(s) ==> {
            let b = up_book->0;
            &&& s.strategy@ == "scalp_spread"@
            &&& s.coin@ == market.coin@
            &&& s.direction@ == "UP"@
            &&& s.token_id@ == market.up_token_id@
            &&& s.market_id@ == market.market_id@
            &&& s.entry_price == b.best_bid + TICK
            &&& s.confidence == confidence(scalp_profit(b))
            &&& s.order_type@ == "maker"@
            &&& s.agreement_count == 1
            &&& s.conviction_tier@ == "SINGLE"@
            &&& s.seconds_remaining == market.seconds_remaining
            &&& s.rationale == (Rationale::ScalpSpread {
                buy_price: (b.best_bid + TICK) as i64,
                sell_price: (b.best_ask - TICK) as i64,
                profit_per_share: scalp_profit(b) as i64,
                spread: b.spread,
            })
        },
{
    if !is_eligible(market) {
        return None;
    }
    let book = match up_book {
        Some(b) => b,
        None => return None,
    };
    if book.spread < MIN_SPREAD {
        return None;
    }
    if book.bid_depth < MIN_DEPTH || book.ask_depth < MIN_DEPTH {
        return None;
    }
    let buy_price = book.best_bid + TICK;
    let sell_price = book.best_ask - TICK;
    let profit = sell_price - buy_price;
    if profit < MIN_PROFIT_PER_SHARE {
        return None;
    }
    if book.mid_price < 150_000 || book.mid_price > 850_000 {
        return None;
    }
    let conf = if profit >= 40_000 { 800_000 } else { 600_000 + profit * 5 };
    let rationale = Rationale::ScalpSpread {
        buy_price,
        sell_price,
        profit_per_share: profit,
        spread: book.spread,
    };
    Some(make_signal("scalp_spread", market.coin.as_str(), "UP", &market.up_token_id, market,
        buy_price, conf, "maker", rationale, 1, "SINGLE"))
}

} // verus!
