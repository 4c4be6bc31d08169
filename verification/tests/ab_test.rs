use betterbot::base::scalar::Scalar;
use betterbot::vault::ab_test::{ABTestConfig, ABTestTracker, ModelVariant};

fn scalar(x: f64) -> Scalar {
    if x.is_nan() {
        Scalar::Undefined
    } else {
        let b = x.to_bits() as i64;
        Scalar::Rank(if b < 0 { i64::MIN.wrapping_sub(b) } else { b })
    }
}

fn number(s: Scalar) -> f64 {
    match s {
        Scalar::Undefined => f64::NAN,
        Scalar::Rank(a) => {
            if a < 0 {
                -f64::from_bits((-a) as u64)
            } else {
                f64::from_bits(a as u64)
            }
        }
    }
}

/// How many of the draws, each a part of 32767, lie below a probability.
fn draws_below(p: f64) -> u64 {
    (0..32768u64).filter(|d| (*d as f64) / 32767.0 < p).count() as u64
}

fn config(enabled: bool, p: f64) -> ABTestConfig {
    ABTestConfig { enabled, rnjd_probability: scalar(p), rnjd_draws: draws_below(p) }
}

fn record(tracker: &mut ABTestTracker, variant: ModelVariant, pnl: f64) {
    let so_far = number(tracker.pnl_of(variant)) + pnl;
    tracker.record_result(variant, scalar(so_far));
}

#[test]
fn test_disabled_returns_rnjd() {
    let mut tracker = ABTestTracker::new(config(false, 0.5));
    let variant = tracker.get_variant("test-market");
    assert_eq!(variant, ModelVariant::RnjdEnhanced);
    assert_eq!(tracker.peek_variant("test-market"), None);
}

#[test]
fn test_consistent_assignment() {
    let mut tracker = ABTestTracker::new(config(true, 0.5));
    let v1 = tracker.get_variant("test-market");
    let v2 = tracker.get_variant("test-market");
    let v3 = tracker.get_variant("test-market");
    assert_eq!(v1, v2);
    assert_eq!(v2, v3);
}

#[test]
fn test_record_result() {
    let mut tracker = ABTestTracker::new(ABTestConfig::default());
    record(&mut tracker, ModelVariant::Legacy, 10.0);
    record(&mut tracker, ModelVariant::Legacy, -5.0);
    record(&mut tracker, ModelVariant::RnjdEnhanced, 15.0);
    let summary = tracker.summary();
    assert_eq!(summary.legacy_trades, 2);
    assert!((number(summary.legacy_pnl) - 5.0).abs() < 0.01);
    assert_eq!(summary.rnjd_trades, 1);
    assert!((number(summary.rnjd_pnl) - 15.0).abs() < 0.01);
}

#[test]
fn test_distribution() {
    let mut tracker = ABTestTracker::new(config(true, 0.5));
    let mut rnjd_count = 0;
    let mut legacy_count = 0;
    for i in 0..100 {
        match tracker.get_variant(&format!("market-{}", i)) {
            ModelVariant::RnjdEnhanced => rnjd_count += 1,
            ModelVariant::Legacy => legacy_count += 1,
        }
    }
    assert!(rnjd_count >= 30 && rnjd_count <= 70);
    assert!(legacy_count >= 30 && legacy_count <= 70);
}

#[test]
fn test_summary() {
    let mut tracker = ABTestTracker::new(config(true, 0.5));
    tracker.get_variant("market-a");
    tracker.get_variant("market-b");
    record(&mut tracker, ModelVariant::RnjdEnhanced, 100.0);
    let summary = tracker.summary();
    assert!(summary.enabled);
    assert_eq!(summary.market_assignments.len(), 2);
}

#[test]
fn the_first_draw_is_the_generator_s_own() {
    let state = 42u64.wrapping_mul(1103515245).wrapping_add(12345);
    let draw = (state >> 16) & 0x7FFF;
    let mut above = ABTestTracker::new(ABTestConfig { rnjd_draws: draw + 1, ..config(true, 0.5) });
    assert_eq!(above.get_variant("m"), ModelVariant::RnjdEnhanced);
    let mut below = ABTestTracker::new(ABTestConfig { rnjd_draws: draw, ..config(true, 0.5) });
    assert_eq!(below.get_variant("m"), ModelVariant::Legacy);
    assert_eq!(ABTestConfig::default().rnjd_draws, draws_below(0.5));
}

#[test]
fn another_probability_forgets_the_assignments() {
    let mut tracker = ABTestTracker::new(config(true, 0.5));
    tracker.get_variant("m");
    tracker.update_config(config(true, 0.5005), scalar(0.0005));
    assert!(tracker.peek_variant("m").is_some());
    tracker.update_config(config(true, 0.6), scalar(0.0995));
    assert_eq!(tracker.peek_variant("m"), None);
    assert_eq!(tracker.config().rnjd_probability, scalar(0.6));
}

#[test]
fn clearing_forgets_figures_and_assignments() {
    let mut tracker = ABTestTracker::new(config(true, 0.5));
    let v = tracker.get_variant("m");
    record(&mut tracker, ModelVariant::Legacy, 3.0);
    tracker.reset_stats();
    assert_eq!(tracker.summary().legacy_trades, 0);
    assert_eq!(tracker.pnl_of(ModelVariant::Legacy), scalar(0.0));
    assert_eq!(tracker.peek_variant("m"), Some(v));
    tracker.clear();
    assert_eq!(tracker.peek_variant("m"), None);
    assert_eq!(ModelVariant::Legacy.name(), "legacy");
    assert_eq!(ModelVariant::RnjdEnhanced.name(), "rnjd");
}
