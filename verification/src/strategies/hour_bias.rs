//! Hour bias: at some UTC hours BTC up/down markets resolve UP more (or less) often than
//! half the time. Trade only when the bias is at least 5 points away from 50%.

use vstd::prelude::*;
use crate::fixed::{UNIT, TICK, PCT, spec_clamp_price, ratio_pct_above, clamp_price, pct_above};
use crate::text::same_text;
use crate::data::gamma::Market;
use crate::data::clob::Orderbook;
use super::{Signal, Rationale, make_signal};

verus! {

/// Probability (in millionths) that a BTC market opening in the given UTC hour resolves UP;
/// 0.50 for an hour outside the table.
pub open spec fn up_probability(hour: u32) -> int {
    if hour == 0 { 520_000 }
    else if hour == 1 { 510_000 }
    else if hour == 2 { 530_000 }
    else if hour == 3 { 540_000 }
    else if hour == 4 { 530_000 }
    else if hour == 5 { 470_000 }
    else if hour == 6 { 490_000 }
    else if hour == 7 { 500_000 }
    else if hour == 8 { 460_000 }
    else if hour == 9 { 470_000 }
    else if hour == 10 { 480_000 }
    else if hour == 11 { 510_000 }
    else if hour == 12 { 530_000 }
    else if hour == 13 { 550_000 }
    else if hour == 14 { 570_000 }
    else if hour == 15 { 580_000 }
    else if hour == 16 { 560_000 }
    else if hour == 17 { 540_000 }
    else if hour == 18 { 530_000 }
    else if hour == 19 { 520_000 }
    else if hour == 20 { 510_000 }
    else if hour == 21 { 500_000 }
    else if hour == 22 { 510_000 }
    else if hour == 23 { 520_000 }
    else { 500_000 }
}

/// Minimum distance of the UP probability from one half.
pub const MIN_BIAS_EDGE: i64 = 50_000;

/// `Some(true)` for an UP-bias hour, `Some(false)` for a DOWN-bias hour, `None` otherwise.
pub open spec fn favoured(hour: u32) -> Option<bool> {
    let p = up_probability(hour);
    if p >= UNIT / 2 + MIN_BIAS_EDGE {
        Some(true)
    } else if p <= UNIT / 2 - MIN_BIAS_EDGE {
        Some(false)
    } else {
        None
    }
}

/// Size of the bias.
pub open spec fn edge(hour: u32) -> int {
    let p = up_probability(hour);
    if p >= UNIT / 2 { p - UNIT / 2 } else { UNIT / 2 - p }
}

/// Probability of the favoured side less a 2% discount.
pub open spec fn confidence(hour: u32) -> int {
    let p = up_probability(hour);
    if p >= UNIT / 2 { p - 20_000 } else { (UNIT - p) - 20_000 }
}

/// A BTC market with at least 60s left.
pub open spec fn eligible(m: &Market) -> bool {
    &&& m.coin@ == "BTC"@
    &&& m.seconds_remaining >= 60
}

/// Spread at most 4% of the ask, and the price not already above 0.65.
pub open spec fn book_ok(b: &Orderbook) -> bool {
    &&& !ratio_pct_above(b.spread as int, b.best_ask as int, 4 * PCT)
    &&& b.mid_price <= 650_000
}

pub fn up_prob(hour: u32) -> (r: i64)
    ensures
        r == up_probability(hour),
{
    match hour {
        0 => 520_000,
        1 => 510_000,
        2 => 530_000,
        3 => 540_000,
        4 => 530_000,
        5 => 470_000,
        6 => 490_000,
        7 => 500_000,
        8 => 460_000,
        9 => 470_000,
        10 => 480_000,
        11 => 510_000,
        12 => 530_000,
        13 => 550_000,
        14 => 570_000,
        15 => 580_000,
        16 => 560_000,
        17 => 540_000,
        18 => 530_000,
        19 => 520_000,
        20 => 510_000,
        21 => 500_000,
        22 => 510_000,
        23 => 520_000,
        _ => 500_000,
    }
}

/// Which side the hour favours: `Some(true)` for UP, `Some(false)` for DOWN.
pub fn favoured_side(hour: u32) -> (r: Option<bool>)
    ensures
        r == favoured(hour),
{
    let p = up_prob(hour);
    if p >= UNIT / 2 + MIN_BIAS_EDGE {
        Some(true)
    } else if p <= UNIT / 2 - MIN_BIAS_EDGE {
        Some(false)
    } else {
        None
    }
}

/// Hour-bias signal for `market` at UTC `hour`; the book of the favoured token is read
/// (`None` if it could not be fetched).
pub fn analyze(
    market: &Market,
    hour: u32,
    up_book: Option<&Orderbook>,
    down_book: Option<&Orderbook>,
) -> (r: Option<Signal>)
    requires
        market.wf(),
        up_book matches Some(b) ==> b.wf(),
        down_book matches Some(b) ==> b.wf(),
    ensures
        r is Some <==> (eligible(market) && (favoured(hour) matches Some(up) && ({
            let book = if up { up_book } else { down_book };
            book matches Some(b) && book_ok(b)
        }))),
        r matches Some(s) ==> {
            let up = favoured(hour)->0;
            let b = if up { up_book->0 } else { down_book->0 };
            &&& s.strategy@ == "hour_bias"@
            &&& s.coin@ == "BTC"@
            &&& s.direction@ == (if up { "UP"@ } else { "DOWN"@ })
            &&& s.token_id@ == (if up { market.up_token_id@ } else { market.down_token_id@ })
            &&& s.market_id@ == market.market_id@
            &&& s.entry_price == spec_clamp_price(b.best_ask - TICK)
            &&& s.confidence == confidence(hour)
            &&& s.order_type@ == "maker"@
            &&& s.agreement_count == 1
            &&& s.conviction_tier@ == (if edge(hour) > 60_000 { "MEDIUM"@ } else { "SINGLE"@ })
            &&& s.seconds_remaining == market.seconds_remaining
            &&& s.rationale == (Rationale::HourBias {
                hour,
                up_prob: up_probability(hour) as i64,
                edge: edge(hour) as i64,
            })
        },
{
    if !same_text(market.coin.as_str(), "BTC") {
        return None;
    }
    if market.seconds_remaining < 60 {
        return None;
    }
    let p = up_prob(hour);
    let up = match favoured_side(hour) {
        Some(u) => u,
        None => return None,
    };
    let (edge_v, conf) = if up {
        (p - UNIT / 2, p - 20_000)
    } else {
        (UNIT / 2 - p, (UNIT - p) - 20_000)
    };
    let chosen = if up { up_book } else { down_book };
    let book = match chosen {
        Some(b) => b,
        None => return None,
    };
    if pct_above(book.spread, book.best_ask, 4 * PCT) {
        return None;
    }
    if book.mid_price > 650_000 {
        return None;
    }
    let limit = clamp_price(book.best_ask - TICK);
    let rationale = Rationale::HourBias { hour, up_prob: p, edge: edge_v };
    let tier = if edge_v > 60_000 { "MEDIUM" } else { "SINGLE" };
    if up {
        Some(make_signal("hour_bias", "BTC", "UP", &market.up_token_id, market, limit, conf,
            "maker", rationale, 1, tier))
    } else {
        Some(make_signal("hour_bias", "BTC", "DOWN", &market.down_token_id, market, limit, conf,
            "maker", rationale, 1, tier))
    }
}

} // verus!
