//! Tick momentum: a strong imbalance between the UP book's bid and ask depth is read as
//! momentum; enter that direction with a fill-or-kill order at the ask.

use vstd::prelude::*;
use crate::fixed::{UNIT, PCT, spec_min, spec_max, trunc_div, ratio_pct_above, pct_above,
    div_toward_zero};
use crate::data::gamma::Market;
use crate::data::clob::{Orderbook, MAX_DEPTH};
use super::{Signal, Rationale, make_signal};

verus! {

/// Ask depth below which the imbalance is taken as extreme ($0.01).
pub const THIN_ASK_DEPTH: i128 = 10_000;

/// At least 90s left and at least $10 traded.
pub open spec fn eligible(m: &Market) -> bool {
    &&& m.seconds_remaining >= 90
    &&& m.volume >= 10 * UNIT
}

/// Bid depth over ask depth, in millionths; 10 when the ask side is thin.
pub open spec fn imbalance(b: &Orderbook) -> int {
    if b.ask_depth > THIN_ASK_DEPTH {
        trunc_div(b.bid_depth * UNIT, b.ask_depth as int)
    } else {
        10 * UNIT
    }
}

/// Buyers dominate: the imbalance exceeds 3.
pub open spec fn up_momentum(b: &Orderbook) -> bool {
    b.ask_depth <= THIN_ASK_DEPTH || b.bid_depth > 3 * b.ask_depth
}

/// Sellers dominate: the imbalance is below 0.33.
pub open spec fn down_momentum(b: &Orderbook) -> bool {
    b.ask_depth > THIN_ASK_DEPTH && 100 * b.bid_depth < 33 * b.ask_depth
}

/// `0.60 + 0.05 * (ratio - 3)` for a dominance ratio `strong / weak` (rounded toward
/// zero), capped at 0.78; an empty weak side counts as an unbounded ratio. A negative weak
/// side gives a negative ratio, and the confidence is held at the bottom of the fixed-point
/// range should it fall below it.
pub open spec fn ratio_confidence(strong: int, weak: int) -> int {
    if weak == 0 {
        780_000
    } else {
        spec_max(spec_min(600_000 + trunc_div(50_000 * (strong - 3 * weak), weak), 780_000),
            -crate::fixed::MAX_AMOUNT)
    }
}

pub open spec fn up_confidence(b: &Orderbook) -> int {
    if b.ask_depth > THIN_ASK_DEPTH {
        ratio_confidence(b.bid_depth as int, b.ask_depth as int)
    } else {
        780_000
    }
}

pub open spec fn down_confidence(b: &Orderbook) -> int {
    ratio_confidence(b.ask_depth as int, b.bid_depth as int)
}

/// The chosen direction is not already priced in, and the spread is at most 3% of the ask.
pub open spec fn book_ok(b: &Orderbook, up: bool) -> bool {
    &&& (up ==> b.mid_price <= 650_000)
    &&& (!up ==> b.mid_price >= 350_000)
    &&& !ratio_pct_above(b.spread as int, b.best_ask as int, 3 * PCT)
}

/// Momentum confidence never exceeds 0.78, and is at least 0.60 when the dominance
/// behind it holds.
pub proof fn lemma_confidence_bounds(b: &Orderbook)
    ensures
        up_confidence(b) <= 780_000,
        down_confidence(b) <= 780_000,
        up_momentum(b) ==> up_confidence(b) >= 600_000,
        down_momentum(b) && b.bid_depth >= 0 ==> down_confidence(b) >= 600_000,
{
    if b.ask_depth > THIN_ASK_DEPTH && up_momentum(b) {
        assert((50_000 * (b.bid_depth - 3 * b.ask_depth)) / (b.ask_depth as int) >= 0) by (nonlinear_arith)
            requires
                b.bid_depth > 3 * b.ask_depth,
                b.ask_depth > 0,
        ;
    }
    if down_momentum(b) && b.bid_depth > 0 {
        assert((50_000 * (b.ask_depth - 3 * b.bid_depth)) / (b.bid_depth as int) >= 0) by (nonlinear_arith)
            requires
                100 * b.bid_depth < 33 * b.ask_depth,
                b.bid_depth > 0,
        ;
    }
}

fn confidence_from(strong: i128, weak: i128) -> (r: i64)
    requires
        0 <= strong <= MAX_DEPTH,
        -MAX_DEPTH <= weak <= MAX_DEPTH,
    ensures
        r == ratio_confidence(strong as int, weak as int),
{
    if weak == 0 {
        780_000
    } else {
        let excess = div_toward_zero(50_000 * (strong - 3 * weak), weak);
        if excess >= 180_000 {
            780_000
        } else if excess < -1_000_000_000_600_000 {
            -crate::fixed::MAX_AMOUNT
        } else {
            600_000 + excess as i64
        }
    }
}

/// Tick-momentum signal for `market`, given the UP token's book and, for a DOWN signal, the
/// DOWN token's book (`None` where a fetch failed or was not made).
pub fn analyze(market: &Market, up_book: Option<&Orderbook>, down_book: Option<&Orderbook>) -> (r:
    Option<Signal>)
    requires
        market.wf(),
        up_book matches Some(b) ==> b.wf(),
        down_book matches Some(b) ==> b.wf(),
    ensures
        r is Some <==> (eligible(market) && (up_book matches Some(b) && (
            (up_momentum(b) && book_ok(b, true))
            || (!up_momentum(b) && down_momentum(b) && book_ok(b, false) && down_book is Some)))),
        r matches Some(s) ==> {
            let b = up_book->0;
            let up = up_momentum(b);
            &&& s.strategy@ == "tick_momentum"@
            &&& s.coin@ == market.coin@
            &&& s.direction@ == (if up { "UP"@ } else { "DOWN"@ })
            &&& s.token_id@ == (if up { market.up_token_id@ } else { market.down_token_id@ })
            &&& s.market_id@ == market.market_id@
            &&& s.entry_price == (if up { b.best_ask } else { down_book->0.best_ask })
            &&& s.confidence == (if up { up_confidence(b) } else { down_confidence(b) })
            &&& s.order_type@ == "taker"@
            &&& s.agreement_count == 1
            &&& s.conviction_tier@ == "SINGLE"@
            &&& s.seconds_remaining == market.seconds_remaining
            &&& s.rationale == (Rationale::TickMomentum { imbalance_ratio: imbalance(b) as i128 })
        },
{
    if market.seconds_remaining < 90 {
        return None;
    }
    if market.volume < 10 * UNIT {
        return None;
    }
    let book = match up_book {
        Some(b) => b,
        None => return None,
    };
    let thin = book.ask_depth <= THIN_ASK_DEPTH;
    let ratio: i128 = if thin {
        10 * UNIT as i128
    } else {
        div_toward_zero(book.bid_depth * UNIT as i128, book.ask_depth)
    };
    let up = thin || book.bid_depth > 3 * book.ask_depth;
    let down = !thin && 100 * book.bid_depth < 33 * book.ask_depth;
    if !up && !down {
        return None;
    }
    let conf = if up {
        if thin {
            780_000
        } else {
            confidence_from(book.bid_depth, book.ask_depth)
        }
    } else {
        confidence_from(book.ask_depth, book.bid_depth)
    };
    if up && book.mid_price > 650_000 {
        return None;
    }
    if !up && book.mid_price < 350_000 {
        return None;
    }
    if pct_above(book.spread, book.best_ask, 3 * PCT) {
        return None;
    }
    let rationale = Rationale::TickMomentum { imbalance_ratio: ratio };
    if up {
        Some(make_signal("tick_momentum", market.coin.as_str(), "UP", &market.up_token_id, market,
            book.best_ask, conf, "taker", rationale, 1, "SINGLE"))
    } else {
        let down_ask = match down_book {
            Some(d) => d.best_ask,
            None => return None,
        };
        Some(make_signal("tick_momentum", market.coin.as_str(), "DOWN", &market.down_token_id,
            market, down_ask, conf, "taker", rationale, 1, "SINGLE"))
    }
}


} // verus!
