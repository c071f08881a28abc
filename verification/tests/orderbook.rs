use polybot_rust::data::clob::{BookLevel, Orderbook};

fn level(price: &str, size: &str) -> BookLevel {
    BookLevel { price: Some(price.to_string()), size: Some(size.to_string()) }
}

#[test]
fn summarises_a_book() {
    let bids = vec![level("0.48", "100"), level("0.47", "50")];
    let asks = vec![level("0.52", "80")];
    let b = Orderbook::from_levels("tok", &bids, &asks);
    assert_eq!(b.token_id, "tok");
    assert_eq!(b.best_bid, 480_000);
    assert_eq!(b.best_ask, 520_000);
    assert_eq!(b.mid_price, 500_000);
    assert_eq!(b.spread, 40_000);
    assert_eq!(b.bid_depth, 71_500_000);
    assert_eq!(b.ask_depth, 41_600_000);
}

#[test]
fn empty_book_uses_default_prices() {
    let b = Orderbook::from_levels("tok", &vec![], &vec![]);
    assert_eq!(b.best_bid, 10_000);
    assert_eq!(b.best_ask, 990_000);
    assert_eq!(b.mid_price, 500_000);
    assert_eq!(b.spread, 980_000);
    assert_eq!(b.bid_depth, 0);
    assert_eq!(b.ask_depth, 0);
}

#[test]
fn unreadable_levels_are_skipped_in_depth() {
    let bids = vec![
        BookLevel { price: Some("x".to_string()), size: Some("10".to_string()) },
        level("0.40", "10"),
        BookLevel { price: Some("0.30".to_string()), size: None },
    ];
    let b = Orderbook::from_levels("tok", &bids, &vec![level("0.60", "1")]);
    assert_eq!(b.best_bid, 10_000);
    assert_eq!(b.bid_depth, 4_000_000);
    assert_eq!(b.ask_depth, 600_000);
}

#[test]
fn depth_counts_only_ten_levels() {
    let asks: Vec<BookLevel> = (0..11).map(|_| level("0.50", "2")).collect();
    let b = Orderbook::from_levels("tok", &vec![], &asks);
    assert_eq!(b.ask_depth, 10_000_000);
}

#[test]
fn negative_levels_read_as_written() {
    let bids = vec![level("-0.25", "4"), level("0.5", "-2")];
    let asks = vec![level("2e-1", "1E1")];
    let b = Orderbook::from_levels("tok", &bids, &asks);
    assert_eq!(b.best_bid, -250_000);
    assert_eq!(b.best_ask, 200_000);
    assert_eq!(b.mid_price, -25_000);
    assert_eq!(b.spread, 450_000);
    assert_eq!(b.bid_depth, -2_000_000);
    assert_eq!(b.ask_depth, 2_000_000);
}

#[test]
fn large_levels_are_read_and_summed() {
    let bids = vec![level("2000000000", "1000000"), level("1e12", "3")];
    let asks = vec![level("3999999999999.5", "2")];
    let b = Orderbook::from_levels("tok", &bids, &asks);
    assert_eq!(b.best_bid, 2_000_000_000_000_000);
    assert_eq!(b.best_ask, 3_999_999_999_999_500_000);
    assert_eq!(b.bid_depth, 2_003_000_000_000_000_000_000);
    assert_eq!(b.ask_depth, 7_999_999_999_999_000_000);
    assert_eq!(b.spread, 3_999_999_999_999_500_000 - 2_000_000_000_000_000);
    let beyond = Orderbook::from_levels("tok", &vec![level("4e12", "1")], &vec![]);
    assert_eq!(beyond.best_bid, 10_000);
    assert_eq!(beyond.bid_depth, 0);
}
