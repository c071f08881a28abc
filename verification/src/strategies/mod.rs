//! Trading signals and the strategies that produce them.
//!
//! Each strategy is a pure function of a market, the order books it reads, and (for the
//! hour strategy) the UTC hour; fetching the books is left to the caller.

pub mod hour_bias;
pub mod momentum_cascade;
pub mod pair_arb;
pub mod scalp_spread;
pub mod tick_momentum;
pub mod volume_sniper;

use vstd::prelude::*;
use crate::data::gamma::Market;

verus! {

/// Which momentum-cascade conditions held.
pub struct CascadeChecks {
    pub bid_imbalance: bool,
    pub price_has_room: bool,
    pub tight_spread: bool,
    pub low_vol_momentum: bool,
    pub down_expensive: bool,
}

/// The figures behind a signal, one variant per strategy.
pub enum Rationale {
    VolumeSniper { volume: i64, expected_wr: i64, samples: u32 },
    HourBias { hour: u32, up_prob: i64, edge: i64 },
    MomentumCascade { checks: CascadeChecks, conditions_met: u32 },
    PairArb { up_ask: i64, down_ask: i64, combined_ask: i64, profit_per_share: i64, net_profit: i64 },
    ScalpSpread { buy_price: i64, sell_price: i64, profit_per_share: i64, spread: i64 },
    TickMomentum { imbalance_ratio: i128 },
}

/// A proposed entry.
pub struct Signal {
    pub strategy: String,
    pub coin: String,
    pub direction: String,
    pub token_id: String,
    pub market_id: String,
    /// Limit price in micro-dollars.
    pub entry_price: i64,
    /// Estimated win probability in millionths.
    pub confidence: i64,
    /// `"maker"` (resting limit order) or `"taker"` (fill-or-kill).
    pub order_type: String,
    pub rationale: Rationale,
    pub agreement_count: u32,
    pub conviction_tier: String,
    pub seconds_remaining: i64,
}

/// Assembles a signal for `market` from its parts.
pub fn make_signal(
    strategy: &str,
    coin: &str,
    direction: &str,
    token_id: &String,
    market: &Market,
    entry_price: i64,
    confidence: i64,
    order_type: &str,
    rationale: Rationale,
    agreement_count: u32,
    conviction_tier: &str,
) -> (s: Signal)
    ensures
        s.strategy@ == strategy@,
        s.coin@ == coin@,
        s.direction@ == direction@,
        s.token_id@ == token_id@,
        s.market_id@ == market.market_id@,
        s.entry_price == entry_price,
        s.confidence == confidence,
        s.order_type@ == order_type@,
        s.rationale == rationale,
        s.agreement_count == agreement_count,
        s.conviction_tier@ == conviction_tier@,
        s.seconds_remaining == market.seconds_remaining,
{
    Signal {
        strategy: String::from_str(strategy),
        coin: String::from_str(coin),
        direction: String::from_str(direction),
        token_id: token_id.clone(),
        market_id: market.market_id.clone(),
        entry_price,
        confidence,
        order_type: String::from_str(order_type),
        rationale,
        agreement_count,
        conviction_tier: String::from_str(conviction_tier),
        seconds_remaining: market.seconds_remaining,
    }
}

} // verus!
