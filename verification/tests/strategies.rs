use polybot_rust::data::clob::Orderbook;
use polybot_rust::data::gamma::Market;
use polybot_rust::strategies::{hour_bias, momentum_cascade, pair_arb, scalp_spread, tick_momentum,
    volume_sniper, Rationale};

fn market(coin: &str, seconds: i64, volume: i64) -> Market {
    Market {
        market_id: "m1".to_string(),
        condition_id: "m1".to_string(),
        question: "q".to_string(),
        coin: coin.to_string(),
        timeframe: 5,
        up_token_id: "up".to_string(),
        down_token_id: "down".to_string(),
        seconds_remaining: seconds,
        volume,
        end_time: String::new(),
    }
}

fn book(bid: i64, ask: i64, bid_depth: i128, ask_depth: i128) -> Orderbook {
    Orderbook {
        token_id: "t".to_string(),
        best_bid: bid,
        best_ask: ask,
        mid_price: (bid + ask) / 2,
        spread: ask - bid,
        bid_depth,
        ask_depth,
    }
}

#[test]
fn volume_sniper_buys_up_on_quiet_btc() {
    let m = market("BTC", 200, 30_000_000);
    let b = book(480_000, 500_000, 5_000_000, 5_000_000);
    let s = volume_sniper::analyze(&m, Some(&b)).unwrap();
    assert_eq!(s.strategy, "btc_volume_sniper");
    assert_eq!(s.coin, "BTC");
    assert_eq!(s.direction, "UP");
    assert_eq!(s.token_id, "up");
    assert_eq!(s.entry_price, 490_000);
    assert_eq!(s.confidence, 849_000);
    assert_eq!(s.order_type, "maker");
    assert_eq!(s.conviction_tier, "SINGLE");
    assert_eq!(s.agreement_count, 1);
    assert_eq!(s.seconds_remaining, 200);
    assert!(matches!(s.rationale, Rationale::VolumeSniper { volume: 30_000_000, expected_wr: 869_000, samples: 2647 }));
}

#[test]
fn volume_sniper_tiers_and_filters() {
    let b = book(480_000, 500_000, 5_000_000, 5_000_000);
    let s = volume_sniper::analyze(&market("BTC", 200, 100_000_000), Some(&b)).unwrap();
    assert_eq!(s.confidence, 779_000);
    let s = volume_sniper::analyze(&market("BTC", 200, 500_000_000), Some(&b)).unwrap();
    assert_eq!(s.confidence, 530_000);
    assert!(volume_sniper::analyze(&market("BTC", 200, 1_500_000_000), Some(&b)).is_none());
    assert!(volume_sniper::analyze(&market("ETH", 200, 30_000_000), Some(&b)).is_none());
    assert!(volume_sniper::analyze(&market("BTC", 29, 30_000_000), Some(&b)).is_none());
    assert!(volume_sniper::analyze(&market("BTC", 40, 30_000_000), Some(&b)).is_none());
    assert!(volume_sniper::analyze(&market("BTC", 200, 30_000_000), None).is_none());
    let pricey = book(730_000, 740_000, 5_000_000, 5_000_000);
    assert!(volume_sniper::analyze(&market("BTC", 200, 30_000_000), Some(&pricey)).is_none());
    let wide = book(470_000, 500_000, 5_000_000, 5_000_000);
    assert!(volume_sniper::analyze(&market("BTC", 200, 30_000_000), Some(&wide)).is_none());
}

#[test]
fn volume_sniper_limit_price_floor() {
    let b = book(500_000, 505_000, 1, 1);
    let s = volume_sniper::analyze(&market("BTC", 200, 1_000_000), Some(&b)).unwrap();
    assert_eq!(s.entry_price, 505_000);
}

#[test]
fn hour_bias_up_hours() {
    let m = market("BTC", 200, 0);
    let b = book(490_000, 500_000, 1, 1);
    let s = hour_bias::analyze(&m, 15, Some(&b), None).unwrap();
    assert_eq!(s.direction, "UP");
    assert_eq!(s.token_id, "up");
    assert_eq!(s.confidence, 560_000);
    assert_eq!(s.entry_price, 490_000);
    assert_eq!(s.conviction_tier, "MEDIUM");
    assert!(matches!(s.rationale, Rationale::HourBias { hour: 15, up_prob: 580_000, edge: 80_000 }));
    let s = hour_bias::analyze(&m, 13, Some(&b), None).unwrap();
    assert_eq!(s.confidence, 530_000);
    assert_eq!(s.conviction_tier, "SINGLE");
    assert!(hour_bias::analyze(&m, 8, Some(&b), Some(&b)).is_none());
    assert!(hour_bias::analyze(&m, 0, Some(&b), Some(&b)).is_none());
    assert!(hour_bias::analyze(&m, 15, None, Some(&b)).is_none());
    assert!(hour_bias::analyze(&market("BTC", 59, 0), 15, Some(&b), None).is_none());
    assert!(hour_bias::analyze(&market("SOL", 200, 0), 15, Some(&b), None).is_none());
    assert_eq!(hour_bias::favoured_side(14), Some(true));
    assert_eq!(hour_bias::favoured_side(5), None);
}

#[test]
fn hour_bias_skips_priced_in_books() {
    let m = market("BTC", 200, 0);
    assert!(hour_bias::analyze(&m, 15, Some(&book(660_000, 670_000, 1, 1)), None).is_none());
    assert!(hour_bias::analyze(&m, 15, Some(&book(470_000, 500_000, 1, 1)), None).is_none());
}

#[test]
fn momentum_cascade_counts_conditions() {
    let m = market("BTC", 200, 50_000_000);
    let up = book(395_000, 405_000, 50_000_000, 20_000_000);
    let down = book(590_000, 600_000, 1, 1);
    let s = momentum_cascade::analyze(&m, Some(&up), Some(&down)).unwrap();
    assert_eq!(s.agreement_count, 4);
    assert_eq!(s.confidence, 780_000);
    assert_eq!(s.conviction_tier, "HIGH");
    assert_eq!(s.entry_price, 395_000);
    assert_eq!(s.direction, "UP");
    match s.rationale {
        Rationale::MomentumCascade { checks, conditions_met } => {
            assert_eq!(conditions_met, 4);
            assert!(checks.bid_imbalance && checks.price_has_room && !checks.tight_spread);
            assert!(checks.low_vol_momentum && checks.down_expensive);
        },
        _ => panic!("wrong rationale"),
    }
    let cheap_down = book(490_000, 500_000, 1, 1);
    let s = momentum_cascade::analyze(&m, Some(&up), Some(&cheap_down)).unwrap();
    assert_eq!(s.agreement_count, 3);
    assert_eq!(s.confidence, 720_000);
    assert_eq!(s.conviction_tier, "MEDIUM");
    let quiet = market("BTC", 200, 0);
    assert!(momentum_cascade::analyze(&quiet, Some(&up), Some(&cheap_down)).is_none());
    assert!(momentum_cascade::analyze(&m, Some(&up), None).is_none());
    assert!(momentum_cascade::analyze(&market("BTC", 50, 50_000_000), Some(&up), Some(&down)).is_none());
}

#[test]
fn pair_arb_needs_net_profit() {
    let m = market("ETH", 100, 0);
    let up = book(440_000, 450_000, 0, 3_000_000);
    let down = book(490_000, 500_000, 0, 3_000_000);
    let s = pair_arb::analyze(&m, Some(&up), Some(&down)).unwrap();
    assert_eq!(s.strategy, "pair_arb");
    assert_eq!(s.coin, "ETH");
    assert_eq!(s.direction, "UP");
    assert_eq!(s.token_id, "up");
    assert_eq!(s.entry_price, 450_000);
    assert_eq!(s.confidence, 950_000);
    assert_eq!(s.order_type, "taker");
    assert_eq!(s.conviction_tier, "MAXIMUM");
    assert!(matches!(s.rationale, Rationale::PairArb { combined_ask: 950_000, profit_per_share: 50_000, net_profit: 34_375, .. }));
    let s = pair_arb::analyze(&m, Some(&down), Some(&up)).unwrap();
    assert_eq!(s.direction, "DOWN");
    assert_eq!(s.token_id, "down");
    let thin = book(440_000, 480_000, 0, 3_000_000);
    assert!(pair_arb::analyze(&m, Some(&thin), Some(&down)).is_none());
    let shallow = book(440_000, 450_000, 0, 1_000_000);
    assert!(pair_arb::analyze(&m, Some(&shallow), Some(&down)).is_none());
    assert!(pair_arb::analyze(&market("ETH", 59, 0), Some(&up), Some(&down)).is_none());
}

#[test]
fn scalp_spread_inside_the_spread() {
    let m = market("BTC", 200, 0);
    let b = book(450_000, 500_000, 3_000_000, 3_000_000);
    let s = scalp_spread::analyze(&m, Some(&b)).unwrap();
    assert_eq!(s.entry_price, 460_000);
    assert_eq!(s.confidence, 750_000);
    assert!(matches!(s.rationale, Rationale::ScalpSpread { buy_price: 460_000, sell_price: 490_000, profit_per_share: 30_000, spread: 50_000 }));
    let wide = book(300_000, 500_000, 3_000_000, 3_000_000);
    assert_eq!(scalp_spread::analyze(&m, Some(&wide)).unwrap().confidence, 800_000);
    assert!(scalp_spread::analyze(&m, Some(&book(480_000, 500_000, 3_000_000, 3_000_000))).is_none());
    assert!(scalp_spread::analyze(&m, Some(&book(450_000, 500_000, 1_000_000, 3_000_000))).is_none());
    assert!(scalp_spread::analyze(&market("BTC", 100, 0), Some(&b)).is_none());
}

#[test]
fn tick_momentum_follows_imbalance() {
    let m = market("BTC", 100, 20_000_000);
    let up = book(500_000, 505_000, 40_000_000, 10_000_000);
    let s = tick_momentum::analyze(&m, Some(&up), None).unwrap();
    assert_eq!(s.direction, "UP");
    assert_eq!(s.confidence, 650_000);
    assert_eq!(s.entry_price, 505_000);
    assert!(matches!(s.rationale, Rationale::TickMomentum { imbalance_ratio: 4_000_000 }));
    let sellers = book(500_000, 505_000, 2_000_000, 10_000_000);
    let down = book(480_000, 490_000, 1, 1);
    let s = tick_momentum::analyze(&m, Some(&sellers), Some(&down)).unwrap();
    assert_eq!(s.direction, "DOWN");
    assert_eq!(s.token_id, "down");
    assert_eq!(s.confidence, 700_000);
    assert_eq!(s.entry_price, 490_000);
    assert!(tick_momentum::analyze(&m, Some(&sellers), None).is_none());
    let thin_asks = book(500_000, 505_000, 0, 5_000);
    assert_eq!(tick_momentum::analyze(&m, Some(&thin_asks), None).unwrap().confidence, 780_000);
    let balanced = book(500_000, 505_000, 10_000_000, 10_000_000);
    assert!(tick_momentum::analyze(&m, Some(&balanced), None).is_none());
    assert!(tick_momentum::analyze(&market("BTC", 100, 5_000_000), Some(&up), None).is_none());
}

#[test]
fn tick_momentum_negative_bid_depth() {
    let m = market("BTC", 100, 20_000_000);
    let sellers = book(500_000, 505_000, -1_000_000, 10_000_000);
    let down = book(480_000, 490_000, 1, 1);
    let s = tick_momentum::analyze(&m, Some(&sellers), Some(&down)).unwrap();
    assert_eq!(s.direction, "DOWN");
    assert_eq!(s.confidence, -50_000);
    let empty_bids = book(500_000, 505_000, 0, 10_000_000);
    assert_eq!(tick_momentum::analyze(&m, Some(&empty_bids), Some(&down)).unwrap().confidence, 780_000);
}
