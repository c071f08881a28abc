use polybot_rust::trading::risk::{tier, RiskManager};

#[test]
fn tiers_follow_balance() {
    assert_eq!(RiskManager::new(0).get_tier().name, "SURVIVAL");
    assert_eq!(RiskManager::new(4_999_999).get_tier().name, "SURVIVAL");
    assert_eq!(RiskManager::new(5_000_000).get_tier().name, "SEED");
    assert_eq!(RiskManager::new(15_000_000).get_tier().name, "COMFORT");
    assert_eq!(RiskManager::new(50_000_000).get_tier().name, "AGGRESSIVE");
    assert_eq!(RiskManager::new(200_000_000).get_tier().name, "FULL_SEND");
    assert_eq!(RiskManager::new(-1).get_tier().name, "SURVIVAL");
    let t = tier(4);
    assert_eq!(t.max_balance, i64::MAX);
    assert_eq!(t.max_positions, 20);
}

#[test]
fn bet_size_scales_with_confidence() {
    assert_eq!(RiskManager::new(5_000_000).calculate_size(700_000), 1_000_000);
    let rm = RiskManager::new(100_000_000);
    assert_eq!(rm.calculate_size(800_000), 7_777_777);
    assert_eq!(rm.calculate_size(850_000), 8_333_333);
    assert_eq!(rm.calculate_size(550_000), 5_000_000);
    assert_eq!(rm.calculate_size(100_000), 5_000_000);
    assert!(rm.calculate_size(600_000) <= rm.calculate_size(900_000));
}

#[test]
fn bet_size_never_above_half_balance() {
    assert_eq!(RiskManager::new(1_000_000).calculate_size(900_000), 500_000);
    assert_eq!(RiskManager::new(2_000_000).calculate_size(900_000), 1_000_000);
    let rm = RiskManager::new(1_000_000_000);
    assert_eq!(rm.calculate_size(1_000_000_000_000), 500_000_000);
    assert_eq!(RiskManager::new(-3).calculate_size(900_000), -1);
}

#[test]
fn entry_bar_per_tier() {
    let rm = RiskManager::new(5_000_000);
    assert!(rm.can_trade(600_000, 2));
    assert!(!rm.can_trade(600_000, 1));
    assert!(!rm.can_trade(599_999, 2));
    assert!(!RiskManager::new(900_000).can_trade(900_000, 5));
    let mut full = RiskManager::new(20_000_000);
    full.open_positions = 6;
    assert!(!full.can_trade(900_000, 1));
    full.open_positions = 5;
    assert!(full.can_trade(900_000, 1));
}

#[test]
fn drawdown_from_peak() {
    let mut rm = RiskManager::new(10_000_000);
    assert_eq!(rm.drawdown_pct(), 0);
    rm.balance = 7_000_000;
    assert_eq!(rm.drawdown_pct(), 300_000);
    rm.balance = 0;
    assert_eq!(rm.drawdown_pct(), 1_000_000);
    rm.peak_balance = 0;
    assert_eq!(rm.drawdown_pct(), 0);
}
