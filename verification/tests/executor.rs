use std::time::Instant;
use polybot_rust::config::Config;
use polybot_rust::data::clob::ClobClient;
use polybot_rust::strategies::{Rationale, Signal};
use polybot_rust::trading::executor::{compute_sl, compute_tp, Executor, Position};
use polybot_rust::trading::risk::RiskManager;

fn clob() -> ClobClient {
    ClobClient::new(&Config {
        trading_mode: "paper".to_string(),
        private_key: String::new(),
        proxy_wallet: String::new(),
        signature_type: 3,
        api_key: None,
        api_secret: None,
        passphrase: None,
        enabled_coins: vec![],
        enabled_timeframes: vec![],
        starting_balance: 0,
        min_order_size: 1_000_000,
        clob_url: String::new(),
        gamma_url: String::new(),
        chain_id: 137,
    })
}

fn signal(market: &str, strategy: &str, order_type: &str, seconds: i64, confidence: i64) -> Signal {
    Signal {
        strategy: strategy.to_string(),
        coin: "BTC".to_string(),
        direction: "UP".to_string(),
        token_id: "up".to_string(),
        market_id: market.to_string(),
        entry_price: 490_000,
        confidence,
        order_type: order_type.to_string(),
        rationale: Rationale::TickMomentum { imbalance_ratio: 0 },
        agreement_count: 1,
        conviction_tier: "SINGLE".to_string(),
        seconds_remaining: seconds,
    }
}

fn position(id: &str, market: &str, direction: &str, entry: i64, shares: i128) -> Position {
    Position {
        id: id.to_string(),
        coin: "BTC".to_string(),
        direction: direction.to_string(),
        token_id: "up".to_string(),
        market_id: market.to_string(),
        strategy: "s".to_string(),
        entry_price: entry,
        current_price: entry,
        shares,
        size_pusd: 5_000_000,
        tp_pct: 300_000,
        sl_pct: 150_000,
        pnl_pct: 0,
        peak_pnl_pct: 0,
        opened_at: Instant::now(),
        market_close_time: 200,
    }
}

#[test]
fn exit_levels_by_confidence() {
    assert_eq!(compute_tp(850_000), 300_000);
    assert_eq!(compute_sl(850_000), 150_000);
    assert_eq!(compute_tp(800_000), 180_000);
    assert_eq!(compute_sl(800_000), 90_000);
    assert_eq!(compute_tp(700_000), 120_000);
    assert_eq!(compute_sl(700_000), 60_000);
    for c in [0, 749_999, 750_000, 849_999, 850_000, 2_000_000] {
        assert_eq!(compute_tp(c), 2 * compute_sl(c));
    }
}

#[test]
fn opens_a_resting_position() {
    let mut ex = Executor::new();
    let risk = RiskManager::new(100_000_000);
    let s = signal("m1", "btc_volume_sniper", "maker", 200, 850_000);
    let p = ex.open_position(&s, &clob(), &risk, Instant::now(), 171).ok().unwrap().unwrap();
    assert_eq!(p.id, "paper-ab");
    assert_eq!(p.entry_price, 490_000);
    assert_eq!(p.current_price, 490_000);
    assert_eq!(p.size_pusd, 8_333_333);
    assert_eq!(p.shares, 17_006_802);
    assert_eq!(p.tp_pct, 300_000);
    assert_eq!(p.sl_pct, 150_000);
    assert_eq!(p.market_close_time, 200);
    assert_eq!(ex.open_positions.len(), 1);
    assert_eq!(ex.open_positions[0].id, "paper-ab");
}

#[test]
fn one_position_per_market() {
    let mut ex = Executor::new();
    let risk = RiskManager::new(100_000_000);
    let c = clob();
    assert!(ex.open_position(&signal("m1", "a", "maker", 200, 850_000), &c, &risk, Instant::now(), 1).ok().unwrap().is_some());
    assert!(ex.open_position(&signal("m1", "b", "taker", 200, 850_000), &c, &risk, Instant::now(), 2).ok().unwrap().is_none());
    assert!(ex.open_position(&signal("m2", "b", "taker", 50, 850_000), &c, &risk, Instant::now(), 2).ok().unwrap().is_some());
    assert_eq!(ex.open_positions.len(), 2);
    assert_eq!(ex.open_positions[1].entry_price, 490_000);
}

#[test]
fn same_order_id_replaces_the_position() {
    let mut ex = Executor::new();
    let risk = RiskManager::new(100_000_000);
    let c = clob();
    ex.open_position(&signal("m1", "a", "maker", 200, 850_000), &c, &risk, Instant::now(), 7).ok().unwrap();
    ex.open_position(&signal("m2", "a", "maker", 200, 850_000), &c, &risk, Instant::now(), 7).ok().unwrap();
    assert_eq!(ex.open_positions.len(), 1);
    assert_eq!(ex.open_positions[0].market_id, "m2");
}

#[test]
fn small_bets_and_refused_orders_open_nothing() {
    let mut ex = Executor::new();
    let c = clob();
    let poor = RiskManager::new(1_000_000);
    assert!(ex.open_position(&signal("m1", "a", "maker", 200, 850_000), &c, &poor, Instant::now(), 1).ok().unwrap().is_none());
    let small = RiskManager::new(2_000_000);
    assert!(ex.open_position(&signal("m1", "a", "maker", 200, 850_000), &c, &small, Instant::now(), 1).is_err());
    assert!(ex.open_positions.is_empty());
}

#[test]
fn repeated_signal_is_skipped() {
    let mut ex = Executor::new();
    let risk = RiskManager::new(100_000_000);
    let c = clob();
    let s = signal("m1", "a", "maker", 200, 850_000);
    assert!(ex.execute_signal(&s, &c, &risk).ok().unwrap().is_some());
    ex.open_positions.clear();
    assert!(ex.execute_signal(&s, &c, &risk).ok().unwrap().is_none());
    assert!(ex.open_positions.is_empty());
    assert!(ex.execute_signal(&signal("m1", "b", "maker", 200, 850_000), &c, &risk).ok().unwrap().is_some());
}

#[test]
fn prices_update_profit_and_peak() {
    let mut p = position("p", "m", "UP", 500_000, 10_000_000);
    p.update_price(650_000);
    assert_eq!(p.current_price, 650_000);
    assert_eq!(p.pnl_pct, 300_000);
    assert_eq!(p.peak_pnl_pct, 300_000);
    p.update_price(550_000);
    assert_eq!(p.pnl_pct, 100_000);
    assert_eq!(p.peak_pnl_pct, 300_000);
    let mut d = position("d", "m", "DOWN", 500_000, 10_000_000);
    d.update_price(400_000);
    assert_eq!(d.pnl_pct, 200_000);
    d.update_price(600_000);
    assert_eq!(d.pnl_pct, -200_000);
    assert_eq!(d.peak_pnl_pct, 200_000);
}

#[test]
fn exit_reasons() {
    let mut p = position("p", "m", "UP", 500_000, 10_000_000);
    assert_eq!(p.exit_reason(0), None);
    assert_eq!(p.exit_reason(330), None);
    assert_eq!(p.exit_reason(331), Some("timeout".to_string()));
    p.update_price(650_000);
    assert_eq!(p.exit_reason(0), Some("profit_take (30.0%)".to_string()));
    p.update_price(424_000);
    assert_eq!(p.exit_reason(0), Some("stop_loss (-15.2%)".to_string()));
    assert_eq!(p.should_exit(), Some("stop_loss (-15.2%)".to_string()));
}

#[test]
fn closing_sells_exiting_positions() {
    let mut ex = Executor::new();
    let c = clob();
    let mut win = position("a", "m1", "UP", 500_000, 10_000_000);
    win.update_price(700_000);
    let hold = position("b", "m2", "UP", 500_000, 10_000_000);
    let mut stuck = position("c", "m3", "UP", 500_000, 1_000_000);
    stuck.update_price(200_000);
    let old = position("d", "m4", "UP", 500_000, 10_000_000);
    ex.open_positions = vec![win, hold, stuck, old];
    ex.close_exits(&c, &vec![0, 0, 0, 400]);
    let ids: Vec<String> = ex.open_positions.iter().map(|p| p.id.clone()).collect();
    assert_eq!(ids, vec!["b".to_string(), "c".to_string()]);
    ex.monitor_positions(&c);
    assert_eq!(ex.open_positions.len(), 2);
}

#[test]
fn repeat_window_is_fifteen_seconds() {
    let mut ex = Executor::new();
    let risk = RiskManager::new(100_000_000);
    let c = clob();
    let s = signal("m1", "a", "maker", 200, 850_000);
    let now = Instant::now();
    assert!(ex.act_on_signal(&s, &c, &risk, Some(14), now, 7).ok().unwrap().is_none());
    assert!(ex.open_positions.is_empty());
    let opened = ex.act_on_signal(&s, &c, &risk, Some(15), now, 7).ok().unwrap().unwrap();
    assert_eq!(opened.opened_at, now);
    assert_eq!(ex.open_positions.len(), 1);
    ex.open_positions.clear();
    assert!(ex.act_on_signal(&s, &c, &risk, None, now, 8).ok().unwrap().is_some());
}

#[test]
fn negative_entry_price_profit() {
    let mut p = position("p", "m", "UP", -500_000, 10_000_000);
    p.update_price(-400_000);
    assert_eq!(p.pnl_pct, -200_000);
    assert_eq!(p.peak_pnl_pct, 0);
}

#[test]
fn new_executor_has_no_signal_on_record() {
    let mut ex = Executor::new();
    let risk = RiskManager::new(10_000_000);
    let c = clob();
    let mut s = signal("m1", "s", "taker", 200, 600_000);
    s.entry_price = 500_000;
    let p = ex.execute_signal(&s, &c, &risk).ok().unwrap().unwrap();
    assert_eq!(p.entry_price, 500_000);
    assert_eq!(p.shares, 2_000_000);
    assert_eq!(p.size_pusd, 1_000_000);
    assert_eq!(p.tp_pct, 120_000);
    assert_eq!(p.sl_pct, 60_000);
    assert_eq!(ex.open_positions.len(), 1);
    assert!(ex.dedup.recorded_at(&"BTC_UP_m1_s".to_string()).is_some());
    assert!(ex.dedup.recorded_at(&"BTC_UP_m2_s".to_string()).is_none());
}

#[test]
fn opened_instants_follow_the_positions() {
    let mut ex = Executor::new();
    let a = position("a", "m1", "UP", 500_000, 10_000_000);
    let b = position("b", "m2", "UP", 500_000, 10_000_000);
    let (ta, tb) = (a.opened_at, b.opened_at);
    ex.open_positions.push(a);
    ex.open_positions.push(b);
    assert_eq!(ex.opened_instants(), vec![ta, tb]);
}

#[test]
fn price_update_over_the_whole_range() {
    let mut p = position("p", "m", "UP", 1, 10_000_000);
    p.update_price(i64::MAX);
    assert_eq!(p.pnl_pct, (i64::MAX as i128 - 1) * 1_000_000);
    assert_eq!(p.peak_pnl_pct, p.pnl_pct);
    p.update_price(i64::MIN);
    assert_eq!(p.pnl_pct, (i64::MIN as i128 - 1) * 1_000_000);
    assert_eq!(p.peak_pnl_pct, (i64::MAX as i128 - 1) * 1_000_000);
}
