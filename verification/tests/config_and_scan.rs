use polybot_rust::config::{parse_coins, parse_signature_type, parse_starting_balance, parse_timeframes, Settings,
    split_commas, Config};
use polybot_rust::text::trim;
use polybot_rust::data::clob::Orderbook;
use polybot_rust::scan::{cadence_sleep_ms, needs_desert_check, passes_desert_check, refresh_due};
use polybot_rust::strategies::{Rationale, Signal};
use polybot_rust::trading::guards::VolatilityDesertGuard;

fn config(mode: &str) -> Config {
    Config {
        trading_mode: mode.to_string(),
        private_key: String::new(),
        proxy_wallet: String::new(),
        signature_type: 3,
        api_key: None,
        api_secret: None,
        passphrase: None,
        enabled_coins: vec!["BTC".to_string()],
        enabled_timeframes: vec![5],
        starting_balance: 5_000_000,
        min_order_size: 1_000_000,
        clob_url: String::new(),
        gamma_url: String::new(),
        chain_id: 137,
    }
}

fn signal(strategy: &str, confidence: i64, entry: i64) -> Signal {
    Signal {
        strategy: strategy.to_string(),
        coin: "BTC".to_string(),
        direction: "UP".to_string(),
        token_id: "up".to_string(),
        market_id: "m".to_string(),
        entry_price: entry,
        confidence,
        order_type: "maker".to_string(),
        rationale: Rationale::TickMomentum { imbalance_ratio: 0 },
        agreement_count: 1,
        conviction_tier: "SINGLE".to_string(),
        seconds_remaining: 200,
    }
}

fn book(spread: i64) -> Orderbook {
    Orderbook {
        token_id: "up".to_string(),
        best_bid: 500_000 - spread,
        best_ask: 500_000,
        mid_price: 500_000 - spread / 2,
        spread,
        bid_depth: 0,
        ask_depth: 0,
    }
}

#[test]
fn live_mode() {
    assert!(config("live").is_live());
    assert!(!config("paper").is_live());
    assert!(!config("LIVE").is_live());
}

#[test]
fn market_refresh_schedule() {
    assert!(refresh_due(5, false));
    assert!(!refresh_due(4, false));
    assert!(refresh_due(0, true));
}

#[test]
fn scan_cadence() {
    assert_eq!(cadence_sleep_ms(30), 70);
    assert_eq!(cadence_sleep_ms(100), 0);
    assert_eq!(cadence_sleep_ms(150), 0);
}

#[test]
fn desert_check_spares_pair_arb() {
    let mut g = VolatilityDesertGuard::new();
    assert!(!needs_desert_check(&signal("pair_arb", 950_000, 450_000)));
    assert!(passes_desert_check(&mut g, &signal("pair_arb", 0, 450_000), Some(&book(400_000))));
    assert!(passes_desert_check(&mut g, &signal("scalp_spread", 0, 450_000), None));
    assert_eq!(g.trades_allowed + g.trades_skipped, 0);
    assert!(passes_desert_check(&mut g, &signal("btc_volume_sniper", 849_000, 500_000), Some(&book(20_000))));
    assert!(!passes_desert_check(&mut g, &signal("scalp_spread", 500_000, 100_000), Some(&book(100_000))));
    assert_eq!(g.trades_allowed, 1);
    assert_eq!(g.trades_skipped, 1);
}

#[test]
fn reads_coin_and_timeframe_settings() {
    assert_eq!(parse_coins("btc, eth ,Sol"), vec!["BTC".to_string(), "ETH".to_string(), "SOL".to_string()]);
    assert_eq!(parse_coins("BTC"), vec!["BTC".to_string()]);
    assert_eq!(parse_coins(""), vec!["".to_string()]);
    assert_eq!(parse_timeframes("5, 15,x, +60,,4294967296"), vec![5, 15, 60]);
    assert_eq!(parse_timeframes("5"), vec![5]);
    assert_eq!(parse_signature_type("3"), 3);
    assert_eq!(parse_signature_type("1"), 1);
    assert_eq!(parse_signature_type("256"), 3);
    assert_eq!(parse_signature_type(" 1"), 3);
    assert_eq!(parse_starting_balance("5.0"), 5_000_000);
    assert_eq!(parse_starting_balance("12.5"), 12_500_000);
    assert_eq!(parse_starting_balance("lots"), 5_000_000);
    assert_eq!(split_commas("a,,b,"), vec!["a", "", "b", ""]);
}

#[test]
fn trims_unicode_whitespace() {
    assert_eq!(trim("  BTC \t"), "BTC");
    assert_eq!(trim("\u{3000}eth\u{a0}"), "eth");
    assert_eq!(trim("   "), "");
    assert_eq!(trim("a b"), "a b");
}

fn no_settings() -> Settings {
    Settings {
        trading_mode: None,
        private_key: None,
        proxy_wallet: None,
        signature_type: None,
        api_key: None,
        api_secret: None,
        passphrase: None,
        enabled_coins: None,
        enabled_timeframes: None,
        starting_balance: None,
    }
}

#[test]
fn settings_defaults() {
    let c = Config::from_settings(no_settings());
    assert_eq!(c.trading_mode, "paper");
    assert_eq!(c.private_key, "");
    assert_eq!(c.signature_type, 3);
    assert_eq!(c.api_key, None);
    assert_eq!(c.enabled_coins, vec!["BTC".to_string()]);
    assert_eq!(c.enabled_timeframes, vec![5]);
    assert_eq!(c.starting_balance, 5_000_000);
    assert_eq!(c.min_order_size, 1_000_000);
    assert_eq!(c.clob_url, "https://clob-v2.polymarket.com");
    assert_eq!(c.gamma_url, "https://gamma-api.polymarket.com");
    assert_eq!(c.chain_id, 137);
    assert!(!c.is_live());
}

#[test]
fn settings_given() {
    let mut s = no_settings();
    s.trading_mode = Some("live".to_string());
    s.signature_type = Some("1".to_string());
    s.enabled_coins = Some("eth, sol".to_string());
    s.enabled_timeframes = Some("15,x".to_string());
    s.starting_balance = Some("12.5".to_string());
    s.api_key = Some("k".to_string());
    let c = Config::from_settings(s);
    assert!(c.is_live());
    assert_eq!(c.signature_type, 1);
    assert_eq!(c.enabled_coins, vec!["ETH".to_string(), "SOL".to_string()]);
    assert_eq!(c.enabled_timeframes, vec![15]);
    assert_eq!(c.starting_balance, 12_500_000);
    assert_eq!(c.api_key, Some("k".to_string()));
}
