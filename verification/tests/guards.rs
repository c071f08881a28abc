use polybot_rust::trading::guards::{DePegGuard, DriftReconciler, VolatilityDesertGuard};

#[test]
fn depeg_trips_and_resets() {
    let mut g = DePegGuard::new();
    assert!(g.can_trade());
    assert_eq!(g.max_divergence_pct, 1_500);
    g.update(100_000_000_000, 100_200_000_000);
    assert!(!g.can_trade());
    assert!(g.is_halted);
    assert_eq!(g.halt_reason, "Oracle de-peg: 0.200% divergence (max=0.150%)");
    g.update(100_000_000_000, 100_300_000_000);
    assert_eq!(g.halt_reason, "Oracle de-peg: 0.200% divergence (max=0.150%)");
    assert_eq!(g.binance_price, 100_000_000_000);
    assert_eq!(g.coinbase_price, 100_300_000_000);
    g.update(100_000_000_000, 100_010_000_000);
    assert!(g.can_trade());
    assert_eq!(g.halt_reason, "");
}

#[test]
fn depeg_ignores_missing_prices() {
    let mut g = DePegGuard::new();
    g.update(100_000_000_000, 120_000_000_000);
    assert!(g.is_halted);
    g.update(0, 100_000_000_000);
    assert!(g.is_halted);
    assert_eq!(g.binance_price, 0);
    let mut h = DePegGuard::new();
    h.update(-5, 7);
    assert!(h.can_trade());
}

#[test]
fn desert_guard_counts_decisions() {
    let mut g = VolatilityDesertGuard::new();
    assert_eq!(g.skip_ratio(), 0);
    assert!(g.should_enter(20_000, 869_000, 500_000));
    assert_eq!(g.trades_allowed, 1);
    assert!(!g.should_enter(100_000, 500_000, 100_000));
    assert_eq!(g.trades_skipped, 1);
    assert_eq!(g.skip_ratio(), 500_000);
    assert!(!g.should_enter(0, 0, 500_000));
    assert_eq!(g.skip_ratio(), 666_666);
}

#[test]
fn desert_guard_edge_boundary() {
    let mut g = VolatilityDesertGuard::new();
    assert!(g.should_enter(0, 1_000_000, 66_667));
    assert!(!g.should_enter(0, 1_000_000, 66_666));
}

#[test]
fn drift_schedule() {
    let mut d = DriftReconciler::new();
    assert_eq!(d.sync_interval_secs, 15);
    assert!(!d.sync_due(14));
    assert!(d.sync_due(15));
    assert!(!d.should_sync());
    d.mark_synced();
    d.record_mismatch();
    d.record_mismatch();
    assert_eq!(d.mismatches_found, 2);
    d.sync_interval_secs = 0;
    assert!(d.should_sync());
}

#[test]
fn drift_mark_synced_at_stores_the_instant() {
    let mut d = DriftReconciler::new();
    let at = std::time::Instant::now();
    d.record_mismatch();
    d.mark_synced_at(at);
    assert_eq!(d.last_sync, at);
    assert_eq!(d.sync_interval_secs, 15);
    assert_eq!(d.mismatches_found, 1);
    d.mark_synced();
    assert!(d.last_sync >= at);
    assert_eq!(d.mismatches_found, 1);
}

#[test]
fn depeg_negative_threshold_halts_on_known_prices() {
    let mut g = DePegGuard::new();
    g.max_divergence_pct = -1_500;
    g.update(0, 100_000_000_000);
    assert!(g.can_trade());
    g.update(100_000_000_000, 100_000_000_000);
    assert!(g.is_halted);
    assert_eq!(g.halt_reason, "Oracle de-peg: 0.000% divergence (max=-0.150%)");
}

#[test]
fn drift_new_at_records_the_instant() {
    let now = std::time::Instant::now();
    let mut d = DriftReconciler::new_at(now);
    assert_eq!(d.last_sync, now);
    assert_eq!(d.sync_interval_secs, 15);
    assert_eq!(d.mismatches_found, 0);
    d.record_mismatch();
    assert_eq!(d.last_sync, now);
}

#[test]
fn desert_guard_takes_any_amounts() {
    let mut g = VolatilityDesertGuard::new();
    // entry * (46 * wr - 16) far beyond i128 before the comparison
    assert!(g.should_enter(0, i64::MAX, i64::MAX));
    assert!(!g.should_enter(i64::MAX, 0, i64::MAX));
    assert!(!g.should_enter(0, 0, 0));
    assert!(g.should_enter(i64::MIN, 0, 0));
    assert!(!g.should_enter(0, i64::MAX, i64::MIN));
    assert_eq!(g.trades_allowed, 2);
    assert_eq!(g.trades_skipped, 3);
}

#[test]
fn depeg_extreme_prices() {
    let mut g = DePegGuard::new();
    g.update(i64::MAX, i64::MAX);
    assert!(g.can_trade());
    g.update(i64::MAX, 1);
    assert!(g.is_halted);
    assert_eq!(g.halt_reason, "Oracle de-peg: 200.000% divergence (max=0.150%)");
    g.max_divergence_pct = i64::MIN;
    g.update(1, 2);
    assert!(g.is_halted);
}
