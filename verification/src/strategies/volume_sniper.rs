//! BTC volume sniper: on low-volume BTC markets, buy UP as a maker.
//!
//! Volume tiers and their back-tested UP win rates: below $50 → 86.9%, $50–$200 → 79.9%,
//! $200–$1000 → 55.0%; above that there is no edge. Only UP signals are produced.

use vstd::prelude::*;
use crate::fixed::{UNIT, TICK, PCT, spec_max, spec_min, spec_clamp_price, ratio_pct_above, max_i64, min_i64, clamp_price, pct_above};
use crate::text::same_text;
use crate::data::gamma::Market;
use crate::data::clob::Orderbook;
use super::{Signal, Rationale, make_signal};

verus! {

/// Back-tested UP win rate for a BTC market of the given volume, if it falls in a tier.
pub open spec fn expected_win_rate(volume: int) -> Option<int> {
    if 0 <= volume < 50 * UNIT {
        Some(869_000)
    } else if 50 * UNIT <= volume < 200 * UNIT {
        Some(799_000)
    } else if 200 * UNIT <= volume < 1000 * UNIT {
        Some(550_000)
    } else {
        None
    }
}

/// Number of back-tested markets behind the tier of `volume`.
pub open spec fn tier_samples(volume: int) -> u32 {
    if volume < 50 * UNIT {
        2647
    } else if volume < 200 * UNIT {
        1460
    } else {
        1489
    }
}

/// A BTC market with at least 30s and at least 15% of its lifetime left, in a volume tier
/// whose win rate is at least 55%.
pub open spec fn eligible(m: &Market) -> bool {
    &&& m.coin@ == "BTC"@
    &&& m.seconds_remaining >= 30
    &&& m.seconds_remaining * 100 >= m.timeframe as int * 60 * 15
    &&& expected_win_rate(m.volume as int) matches Some(wr) && wr >= 550_000
}

/// The spread is at most 4% of the ask and the mid price at most 0.72.
pub open spec fn book_ok(b: &Orderbook) -> bool {
    &&& !ratio_pct_above(b.spread as int, b.best_ask as int, 5 * PCT)
    &&& b.mid_price <= 720_000
    &&& !ratio_pct_above(b.spread as int, b.best_ask as int, 4 * PCT)
}

/// One tick below the ask, but at least half a tick above the bid, within `[0.01, 0.99]`.
pub open spec fn limit_price(b: &Orderbook) -> int {
    spec_clamp_price(spec_max(b.best_ask - TICK, b.best_bid + TICK / 2))
}

/// Win rate less a 2% slippage discount, capped at 0.90.
pub open spec fn confidence(wr: int) -> int {
    spec_min(wr - 20_000, 900_000)
}

fn win_rate(volume: i64) -> (r: Option<i64>)
    ensures
        r matches Some(w) ==> expected_win_rate(volume as int) == Some(w as int),
        r is None ==> expected_win_rate(volume as int) is None,
{
    if 0 <= volume && volume < 50 * UNIT {
        Some(869_000)
    } else if 50 * UNIT <= volume && volume < 200 * UNIT {
        Some(799_000)
    } else if 200 * UNIT <= volume && volume < 1000 * UNIT {
        Some(550_000)
    } else {
        None
    }
}

/// Whether the market passes every check that needs no order book.
pub fn is_eligible(market: &Market) -> (r: bool)
    requires
        market.wf(),
    ensures
        r == eligible(market),
{
    if !same_text(market.coin.as_str(), "BTC") {
        return false;
    }
    if market.seconds_remaining < 30 {
        return false;
    }
    let tf_secs = market.timeframe as i128 * 60;
    if (market.seconds_remaining as i128) * 100 < tf_secs * 15 {
        return false;
    }
    match win_rate(market.volume) {
        Some(wr) => wr >= 550_000,
        None => false,
    }
}

/// Volume-sniper signal for `market`, given the UP token's book (`None` if it could not
/// be fetched).
pub fn analyze(market: &Market, up_book: Option<&Orderbook>) -> (r: Option<Signal>)
    requires
        market.wf(),
        up_book matches Some(b) ==> b.wf(),
    ensures
        r is Some <==> (eligible(market) && (up_book matches Some(b) && book_ok(b))),
        r matches Some(s) ==> {
            let b = up_book->0;
            let wr = expected_win_rate(market.volume as int)->0;
            &&& s.strategy@ == "btc_volume_sniper"@
            &&& s.coin@ == "BTC"@
            &&& s.direction@ == "UP"@
            &&& s.token_id@ == market.up_token_id@
            &&& s.market_id@ == market.market_id@
            &&& s.entry_price == limit_price(b)
            &&& s.confidence == confidence(wr)
            &&& s.order_type@ == "maker"@
            &&& s.agreement_count == 1
            &&& s.conviction_tier@ == "SINGLE"@
            &&& s.seconds_remaining == market.seconds_remaining
            &&& s.rationale == (Rationale::VolumeSniper {
                volume: market.volume,
                expected_wr: wr as i64,
                samples: tier_samples(market.volume as int),
            })
        },
{
    if !is_eligible(market) {
        return None;
    }
    let expected_wr = match win_rate(market.volume) {
        Some(w) => w,
        None => return None,
    };
    let book = match up_book {
        Some(b) => b,
        None => return None,
    };
    if pct_above(book.spread, book.best_ask, 5 * PCT) {
        return None;
    }
    if book.mid_price > 720_000 {
        return None;
    }
    if pct_above(book.spread, book.best_ask, 4 * PCT) {
        return None;
    }
    let limit = clamp_price(max_i64(book.best_ask - TICK, book.best_bid + TICK / 2));
    let conf = min_i64(expected_wr - 20_000, 900_000);
    let samples: u32 = if market.volume < 50 * UNIT {
        2647
    } else if market.volume < 200 * UNIT {
        1460
    } else {
        1489
    };
    let rationale = Rationale::VolumeSniper { volume: market.volume, expected_wr, samples };
    Some(make_signal(
        "btc_volume_sniper",
        "BTC",
        "UP",
        &market.up_token_id,
        market,
        limit,
        conf,
        "maker",
        rationale,
        1,
        "SINGLE",
    ))
}

} // verus!
