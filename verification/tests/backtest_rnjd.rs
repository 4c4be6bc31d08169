use betterbot::base::scalar::Scalar;
use betterbot::vault::backtest_rnjd::{BacktestCollector, BacktestRecord};

fn scalar(x: f64) -> Scalar {
    if x.is_nan() {
        Scalar::Undefined
    } else {
        let b = x.to_bits() as i64;
        Scalar::Rank(if b < 0 { i64::MIN.wrapping_sub(b) } else { b })
    }
}

fn number(s: Scalar) -> f64 {
    match s {
        Scalar::Undefined => f64::NAN,
        Scalar::Rank(a) => {
            if a < 0 {
                -f64::from_bits((-a) as u64)
            } else {
                f64::from_bits(a as u64)
            }
        }
    }
}

fn record(i: i64, slug: &str) -> BacktestRecord {
    BacktestRecord {
        timestamp: 1700000000 + i,
        market_slug: slug.to_string(),
        p_start: scalar(100.0),
        p_now: scalar(101.0),
        market_mid: scalar(0.5),
        sigma_price: scalar(0.2),
        t_rem_secs: scalar(600.0),
        p_up_old: scalar(0.5),
        p_up_rnjd: scalar(0.5),
        sigma_b: scalar(2.0),
        drift_correction: scalar(0.0),
        jump_regime: false,
        kelly_old: scalar(100.0),
        kelly_rnjd: scalar(100.0),
        resolved: false,
        outcome_up: None,
    }
}

/// The mean squared distance of a prediction and what came.
fn brier(collector: &BacktestCollector, of: fn(&BacktestRecord) -> Scalar) -> f64 {
    let mut sum = 0.0;
    let mut n = 0.0;
    for r in collector.records() {
        if r.resolved {
            if let Some(up) = r.outcome_up {
                let outcome = if up { 1.0 } else { 0.0 };
                sum += (number(of(r)) - outcome).powi(2);
                n += 1.0;
            }
        }
    }
    sum / n
}

#[test]
fn test_collector_basic() {
    let mut collector = BacktestCollector::new(100);
    assert!(collector.is_empty());
    collector.add_record(BacktestRecord {
        timestamp: 1700000000,
        market_slug: "btc-updown-15m-test".to_string(),
        p_start: scalar(50000.0),
        p_now: scalar(50100.0),
        market_mid: scalar(0.52),
        sigma_price: scalar(0.20),
        t_rem_secs: scalar(600.0),
        p_up_old: scalar(0.55),
        p_up_rnjd: scalar(0.54),
        sigma_b: scalar(2.0),
        drift_correction: scalar(0.001),
        jump_regime: false,
        kelly_old: scalar(100.0),
        kelly_rnjd: scalar(95.0),
        resolved: false,
        outcome_up: None,
    });
    assert_eq!(collector.len(), 1);
}

#[test]
fn test_collector_max_records() {
    let mut collector = BacktestCollector::new(3);
    for i in 0..5 {
        collector.add_record(record(i, &format!("test-{}", i)));
    }
    assert_eq!(collector.len(), 3);
    assert_eq!(collector.records()[0].market_slug, "test-2");
}

#[test]
fn test_resolve_market() {
    let mut collector = BacktestCollector::new(100);
    collector.add_record(BacktestRecord {
        market_mid: scalar(0.55),
        p_up_old: scalar(0.6),
        p_up_rnjd: scalar(0.58),
        drift_correction: scalar(0.001),
        kelly_rnjd: scalar(95.0),
        ..record(0, "btc-updown-15m-test")
    });
    collector.resolve_market("btc-updown-15m-test", true);
    let record = collector.records().back().unwrap();
    assert!(record.resolved);
    assert_eq!(record.outcome_up, Some(true));
}

#[test]
fn test_calculate_metrics() {
    let mut collector = BacktestCollector::new(100);
    for i in 0..10 {
        let outcome_up = i % 2 == 0;
        collector.add_record(BacktestRecord {
            p_up_old: if i % 4 < 2 { scalar(0.6) } else { scalar(0.4) },
            p_up_rnjd: if outcome_up { scalar(0.6) } else { scalar(0.4) },
            drift_correction: scalar(0.001),
            jump_regime: i == 5,
            kelly_rnjd: scalar(90.0),
            resolved: true,
            outcome_up: Some(outcome_up),
            ..record(i, &format!("test-{}", i))
        });
    }
    let metrics = collector.calculate_metrics();
    assert_eq!(metrics.total_resolved, 10);
    let n = metrics.total_resolved as f64;
    let rnjd_accuracy = metrics.rnjd_correct as f64 / n;
    let old_accuracy = metrics.old_correct as f64 / n;
    assert!(rnjd_accuracy >= old_accuracy);
    assert!(brier(&collector, |r| r.p_up_rnjd) <= brier(&collector, |r| r.p_up_old) + 0.01);
    assert_eq!(metrics.jump_regime_skips, 1);
    assert_eq!(metrics.rnjd_correct, 10);
    assert_eq!(metrics.old_correct, 5);
}

#[test]
fn an_outcome_is_not_taken_back() {
    let mut collector = BacktestCollector::new(10);
    collector.add_record(record(0, "a"));
    collector.add_record(record(1, "b"));
    collector.resolve_market("a", true);
    collector.resolve_market("a", false);
    assert_eq!(collector.records()[0].outcome_up, Some(true));
    assert_eq!(collector.records()[1].outcome_up, None);
    assert_eq!(collector.calculate_metrics().total_resolved, 1);
}

#[test]
fn the_newest_records_come_first() {
    let mut collector = BacktestCollector::new(10);
    for i in 0..4 {
        collector.add_record(record(i, "m"));
    }
    let recent = collector.recent_records(2);
    assert_eq!(recent.len(), 2);
    assert_eq!(recent[0].timestamp, 1700000003);
    assert_eq!(recent[1].timestamp, 1700000002);
    collector.clear();
    assert!(collector.is_empty());
    assert_eq!(collector.calculate_metrics().total_resolved, 0);
}
