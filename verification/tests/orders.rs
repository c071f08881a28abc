use polybot_rust::config::Config;
use polybot_rust::data::clob::{ClobClient, ClobError};

fn config() -> Config {
    Config {
        trading_mode: "paper".to_string(),
        private_key: String::new(),
        proxy_wallet: String::new(),
        signature_type: 3,
        api_key: None,
        api_secret: None,
        passphrase: None,
        enabled_coins: vec!["BTC".to_string()],
        enabled_timeframes: vec![5],
        starting_balance: 5_000_000,
        min_order_size: 1_000_000,
        clob_url: "https://clob.example".to_string(),
        gamma_url: "https://gamma.example".to_string(),
        chain_id: 137,
    }
}

#[test]
fn fast_order_fills_at_clamped_price() {
    let c = ClobClient::new(&config());
    let r = c.fast_order_with_id("tok", "BUY", 5_000_000, 500_000, 255).ok().unwrap();
    assert_eq!(r.order_id, "paper-ff");
    assert_eq!(r.status, "MATCHED");
    assert_eq!(r.price, 500_000);
    assert_eq!(r.size, 10_000_000);
    assert_eq!(r.side, "BUY");
    assert_eq!(r.order_type, "FOK");
    let r = c.fast_order_with_id("tok", "BUY", 5_000_000, 1_500_000, 1).ok().unwrap();
    assert_eq!(r.price, 990_000);
    let r = c.fast_order_with_id("tok", "SELL", 5_000_000, 0, 1).ok().unwrap();
    assert_eq!(r.price, 10_000);
    assert_eq!(r.size, 500_000_000);
}

#[test]
fn fast_order_refuses_tiny_budget() {
    let c = ClobClient::new(&config());
    match c.fast_order_with_id("tok", "BUY", 500_000, 500_000, 1) {
        Err(ClobError::BudgetTooLow { size_pusd, fok_cost, gtc_min_cost }) => {
            assert_eq!(size_pusd, 500_000);
            assert_eq!(fok_cost, 1_000_000);
            assert_eq!(gtc_min_cost, 2_450_000);
        },
        _ => panic!("expected a refusal"),
    }
    match c.fast_order_with_id("tok", "SELL", 900_000, 500_000, 1) {
        Err(ClobError::BudgetTooLow { gtc_min_cost, .. }) => assert_eq!(gtc_min_cost, 2_550_000),
        _ => panic!("expected a refusal"),
    }
    assert!(c.fast_order_with_id("tok", "BUY", 950_000, 500_000, 1).is_ok());
}

#[test]
fn place_fast_order_uses_a_paper_id() {
    let c = ClobClient::new(&config());
    let r = c.place_fast_order("tok", "BUY", 5_000_000, 500_000).ok().unwrap();
    assert!(r.order_id.starts_with("paper-"));
    assert!(r.order_id.len() > 6);
}

#[test]
fn limit_order_needs_five_shares() {
    let c = ClobClient::new(&config());
    let r = c.limit_order_with_id("tok", "BUY", 400_000, 2_000_000, 16).ok().unwrap();
    assert_eq!(r.order_id, "paper-10");
    assert_eq!(r.status, "LIVE");
    assert_eq!(r.order_type, "GTC");
    assert_eq!(r.price, 400_000);
    assert_eq!(r.size, 5_000_000);
    assert!(matches!(c.limit_order_with_id("tok", "BUY", 400_000, 1_900_000, 1),
        Err(ClobError::TooFewShares { size_pusd: 1_900_000, price: 400_000 })));
    assert!(matches!(c.place_limit_order("tok", "BUY", 0, 1_900_000),
        Err(ClobError::InvalidPrice { price: 0 })));
    let big = c.place_limit_order("tok", "BUY", 1, 1_000_000_000_000).ok().unwrap();
    assert_eq!(big.size, 1_000_000_000_000_000_000);
    let biggest = c.place_limit_order("tok", "BUY", 1, 1_000_000_000_000_000).ok().unwrap();
    assert_eq!(biggest.size, 1_000_000_000_000_000_000_000);
}

#[test]
fn sell_raises_price_to_the_minimum() {
    let c = ClobClient::new(&config());
    let r = c.sell_with_id("tok", 10_000_000, 50_000, 3).ok().unwrap();
    assert_eq!(r.price, 100_000);
    assert_eq!(r.size, 10_000_000);
    assert_eq!(r.side, "SELL");
    assert_eq!(r.order_type, "FOK");
    let r = c.sell_with_id("tok", 3_000_000, 300_000, 3).ok().unwrap();
    assert_eq!(r.price, 333_334);
    assert!(r.price as i128 * r.size as i128 >= 1_000_000_000_000);
    let r = c.sell_with_id("tok", 5_000_000, 500_000, 3).ok().unwrap();
    assert_eq!(r.price, 500_000);
    assert!(matches!(c.place_sell("tok", 1_000_000, 500_000),
        Err(ClobError::Unsellable { shares: 1_000_000, price: 500_000 })));
}

#[test]
fn limit_order_at_negative_price() {
    let c = ClobClient::new(&config());
    assert!(matches!(c.limit_order_with_id("tok", "BUY", -400_000, 2_000_000, 1),
        Err(ClobError::TooFewShares { size_pusd: 2_000_000, price: -400_000 })));
    let r = c.limit_order_with_id("tok", "BUY", -400_000, -2_000_000, 2).ok().unwrap();
    assert_eq!(r.price, -400_000);
    assert_eq!(r.size, 5_000_000);
    assert!(matches!(c.limit_order_with_id("tok", "BUY", 0, -1, 3),
        Err(ClobError::TooFewShares { .. })));
}
