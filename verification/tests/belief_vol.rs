use betterbot::base::scalar::Scalar;
use betterbot::vault::belief_vol::{
    jumps_among, BeliefVolConfig, BeliefVolEstimate, BeliefVolTracker, JumpDetectionResult, LogOddsIncrement, Recorded, ScoredMove,
};

fn scalar(x: f64) -> Scalar {
    if x.is_nan() {
        Scalar::Undefined
    } else {
        let b = x.to_bits() as i64;
        Scalar::Rank(if b < 0 { i64::MIN.wrapping_sub(b) } else { b })
    }
}

fn number(s: Scalar) -> f64 {
    match s {
        Scalar::Undefined => f64::NAN,
        Scalar::Rank(a) => {
            if a < 0 {
                -f64::from_bits((-a) as u64)
            } else {
                f64::from_bits(a as u64)
            }
        }
    }
}

const YEAR: f64 = 365.25 * 24.0 * 3600.0;

fn logit(p: f64) -> f64 {
    let p = p.clamp(0.0001, 0.9999);
    (p / (1.0 - p)).ln()
}

fn sigmoid(x: f64) -> f64 {
    1.0 / (1.0 + (-x).exp())
}

fn config(min_samples: usize) -> BeliefVolConfig {
    BeliefVolConfig { min_samples, ..Default::default() }
}

/// Records an observation and brings the estimate of its market up to date.
fn observe(tracker: &mut BeliefVolTracker, slug: &str, p: f64, ts: i64) -> Recorded {
    let p = p.clamp(0.0001, 0.9999);
    let before = match tracker.last_increment(slug) {
        Some(last) => logit(sigmoid(number(last.x_after))),
        None => logit(p),
    };
    let recorded = tracker.record_observation(slug, scalar(logit(p)), scalar(before), ts);
    if recorded == Recorded::Appended {
        let key = slug.to_lowercase();
        let count = tracker.sample_count(&key);
        let mut moves = tracker.recent_moves(slug, i64::MAX, ts);
        moves.truncate(count);
        let alpha = number(tracker.config().ema_alpha);
        let mut var: Option<f64> = None;
        for m in moves.iter().rev() {
            let dx = number(m.x_after) - number(m.x_before);
            let sq = (dx * dx) / (m.dt_secs as f64 / YEAR);
            var = Some(match var {
                Some(v) => alpha * sq + (1.0 - alpha) * v,
                None => sq,
            });
        }
        if let Some(v) = var {
            let sigma = v.sqrt().max(0.01);
            let confidence = (count as f64 / tracker.config().min_samples as f64).min(1.0);
            tracker.update_estimate(&key, scalar(sigma), scalar(confidence), ts);
        }
    }
    recorded
}

fn realized(tracker: &BeliefVolTracker, slug: &str, window: i64, now: i64) -> Option<f64> {
    let moves = tracker.recent_moves(slug, window, now);
    let mut sum_sq = 0.0;
    let mut total_dt = 0.0;
    for m in &moves {
        let dx = number(m.x_after) - number(m.x_before);
        sum_sq += dx * dx;
        total_dt += m.dt_secs as f64;
    }
    let vol = (sum_sq * (YEAR / total_dt)).sqrt();
    tracker.realized_vol_window(slug, window, now, scalar(vol)).map(number)
}

fn jump(tracker: &BeliefVolTracker, slug: &str, threshold: f64) -> Option<JumpDetectionResult> {
    let (expected, z, dx) = match tracker.last_move(slug) {
        Some((m, e)) => {
            let dx = number(m.x_after) - number(m.x_before);
            let expected = number(e.sigma_b) * (m.dt_secs as f64 / YEAR).sqrt();
            (expected, dx.abs() / expected, dx)
        }
        None => (1.0, 0.0, 0.0),
    };
    tracker.detect_recent_jump(slug, scalar(threshold), scalar(expected), scalar(z), scalar(dx))
}

fn scored(tracker: &BeliefVolTracker, slug: &str, window: i64, now: i64) -> Vec<ScoredMove> {
    let sigma_b = tracker.get_estimate(&slug.to_lowercase()).map_or(f64::NAN, |e| number(e.sigma_b));
    tracker
        .recent_moves(slug, window, now)
        .into_iter()
        .map(|m| {
            let expected = sigma_b * (m.dt_secs as f64 / YEAR).sqrt();
            let z = (number(m.x_after) - number(m.x_before)).abs() / expected;
            ScoredMove { m, expected_std: scalar(expected), z_score: scalar(z) }
        })
        .collect()
}

fn jumps(tracker: &BeliefVolTracker, slug: &str, window: i64, now: i64, threshold: f64) -> usize {
    let moves = scored(tracker, slug, window, now);
    tracker.count_recent_jumps(slug, window, now, &moves, scalar(threshold))
}

fn average_sigma(tracker: &BeliefVolTracker) -> f64 {
    let all = tracker.export_estimates();
    if all.is_empty() {
        number(tracker.config().prior_sigma_b)
    } else {
        all.iter().map(|(_, e)| number(e.sigma_b)).sum::<f64>() / all.len() as f64
    }
}

#[test]
fn test_belief_vol_estimate_default() {
    let est = BeliefVolEstimate::default();
    assert_eq!(est.sample_count, 0);
    assert_eq!(number(est.confidence), 0.0);
}

#[test]
fn test_belief_vol_config_default() {
    let cfg = BeliefVolConfig::default();
    assert_eq!(cfg.min_samples, 30);
    assert!((number(cfg.ema_alpha) - 0.1).abs() < 1e-10);
    assert_eq!(cfg.max_age_secs, 3600);
    assert!((number(cfg.prior_sigma_b) - 2.0).abs() < 1e-10);
}

#[test]
fn test_tracker_new() {
    let tracker = BeliefVolTracker::new(BeliefVolConfig::default());
    assert_eq!(tracker.market_count(), 0);
}

#[test]
fn test_tracker_with_max_history() {
    let tracker = BeliefVolTracker::new(BeliefVolConfig::default()).with_max_history(500);
    assert_eq!(tracker.max_history(), 500);
}

#[test]
fn test_tracker_get_sigma_b_prior() {
    let config = BeliefVolConfig { prior_sigma_b: scalar(3.0), ..Default::default() };
    let tracker = BeliefVolTracker::new(config);
    assert!((number(tracker.get_sigma_b("test-market")) - 3.0).abs() < 1e-10);
}

#[test]
fn test_tracker_has_reliable_estimate_empty() {
    let tracker = BeliefVolTracker::new(BeliefVolConfig::default());
    assert!(!tracker.has_reliable_estimate("test-market"));
}

#[test]
fn test_tracker_get_estimate_none() {
    let tracker = BeliefVolTracker::new(BeliefVolConfig::default());
    assert!(tracker.get_estimate("nonexistent").is_none());
}

#[test]
fn test_record_observation_basic() {
    let mut tracker = BeliefVolTracker::new(BeliefVolConfig::default());
    let slug = "btc-updown-15m-test";
    let mut ts = 1700000000i64;
    for i in 0..50 {
        let p = 0.5 + 0.05 * ((i as f64 * 0.5).sin());
        observe(&mut tracker, slug, p, ts);
        ts += 10;
    }
    assert_eq!(tracker.market_count(), 1);
    let estimate = tracker.get_estimate(slug);
    assert!(estimate.is_some() || tracker.market_count() == 1);
    assert_eq!(tracker.sample_count(slug), 49);
}

#[test]
fn test_record_observation_case_insensitive() {
    let mut tracker = BeliefVolTracker::new(BeliefVolConfig::default());
    observe(&mut tracker, "TEST-Market", 0.5, 1000);
    observe(&mut tracker, "test-market", 0.6, 1010);
    assert_eq!(tracker.market_count(), 1);
    assert_eq!(tracker.sample_count("test-market"), 1);
}

#[test]
fn test_record_observation_skip_small_dt() {
    let mut tracker = BeliefVolTracker::new(BeliefVolConfig::default());
    assert_eq!(observe(&mut tracker, "test", 0.5, 1000), Recorded::First);
    assert_eq!(observe(&mut tracker, "test", 0.6, 1000), Recorded::Skipped);
    assert_eq!(tracker.market_count(), 1);
}

#[test]
fn test_record_observation_skip_large_dt() {
    let mut tracker = BeliefVolTracker::new(BeliefVolConfig::default());
    observe(&mut tracker, "test", 0.5, 1000);
    assert_eq!(observe(&mut tracker, "test", 0.6, 1000 + 7200), Recorded::Skipped);
    assert_eq!(tracker.market_count(), 1);
}

#[test]
fn test_record_observation_max_history() {
    let mut tracker = BeliefVolTracker::new(BeliefVolConfig::default()).with_max_history(10);
    let mut ts = 1000i64;
    for i in 0..20 {
        let p = 0.5 + 0.1 * ((i as f64 * 0.3).sin());
        observe(&mut tracker, "test", p, ts);
        ts += 10;
    }
    assert_eq!(tracker.market_count(), 1);
    assert_eq!(tracker.recent_moves("test", i64::MAX, ts).len(), 10);
}

#[test]
fn test_update_estimate_constant_p() {
    let mut tracker = BeliefVolTracker::new(config(10));
    let slug = "constant-test";
    let mut ts = 1000i64;
    for _ in 0..50 {
        observe(&mut tracker, slug, 0.5, ts);
        ts += 10;
    }
    let estimate = tracker.get_estimate(slug);
    assert!(estimate.is_some());
    assert!(number(estimate.unwrap().sigma_b) <= 0.02);
}

#[test]
fn test_update_estimate_alternating_p() {
    let mut tracker = BeliefVolTracker::new(config(10));
    let slug = "alternating-test";
    let mut ts = 1000i64;
    for i in 0..50 {
        let p = if i % 2 == 0 { 0.4 } else { 0.6 };
        observe(&mut tracker, slug, p, ts);
        ts += 10;
    }
    let estimate = tracker.get_estimate(slug);
    assert!(estimate.is_some());
    assert!(number(estimate.unwrap().sigma_b) > 0.1);
}

#[test]
fn test_update_estimate_larger_moves_higher_vol() {
    let mut tracker_small = BeliefVolTracker::new(config(10));
    let mut ts = 1000i64;
    for i in 0..50 {
        let p = if i % 2 == 0 { 0.48 } else { 0.52 };
        observe(&mut tracker_small, "small", p, ts);
        ts += 10;
    }
    let mut tracker_large = BeliefVolTracker::new(config(10));
    ts = 1000;
    for i in 0..50 {
        let p = if i % 2 == 0 { 0.3 } else { 0.7 };
        observe(&mut tracker_large, "large", p, ts);
        ts += 10;
    }
    let sigma_small = number(tracker_small.get_estimate("small").unwrap().sigma_b);
    let sigma_large = number(tracker_large.get_estimate("large").unwrap().sigma_b);
    assert!(sigma_large > sigma_small);
}

#[test]
fn test_update_estimate_confidence_increases() {
    let mut tracker = BeliefVolTracker::new(config(30));
    let slug = "confidence-test";
    let mut ts = 1000i64;
    let confidence = |t: &BeliefVolTracker| t.get_estimate(slug).map(|e| number(e.confidence)).unwrap_or(0.0);
    for i in 0..10 {
        observe(&mut tracker, slug, 0.5 + 0.05 * ((i as f64 * 0.5).sin()), ts);
        ts += 10;
    }
    let conf_10 = confidence(&tracker);
    for i in 10..30 {
        observe(&mut tracker, slug, 0.5 + 0.05 * ((i as f64 * 0.5).sin()), ts);
        ts += 10;
    }
    let conf_30 = confidence(&tracker);
    for i in 30..50 {
        observe(&mut tracker, slug, 0.5 + 0.05 * ((i as f64 * 0.5).sin()), ts);
        ts += 10;
    }
    let conf_50 = confidence(&tracker);
    assert!(conf_30 > conf_10);
    assert!(conf_30 >= 0.9);
    assert!((conf_50 - 1.0).abs() < 0.01);
}

#[test]
fn test_has_reliable_estimate_with_data() {
    let mut tracker = BeliefVolTracker::new(config(20));
    let slug = "reliable-test";
    let mut ts = 1000i64;
    for i in 0..10 {
        observe(&mut tracker, slug, 0.5 + 0.05 * ((i as f64 * 0.5).sin()), ts);
        ts += 10;
    }
    assert!(!tracker.has_reliable_estimate(slug));
    for i in 10..30 {
        observe(&mut tracker, slug, 0.5 + 0.05 * ((i as f64 * 0.5).sin()), ts);
        ts += 10;
    }
    assert!(tracker.has_reliable_estimate(slug));
}

#[test]
fn test_realized_vol_window_none_insufficient_data() {
    let mut tracker = BeliefVolTracker::new(BeliefVolConfig::default());
    observe(&mut tracker, "test", 0.5, 1000);
    observe(&mut tracker, "test", 0.6, 1010);
    observe(&mut tracker, "test", 0.5, 1020);
    assert!(realized(&tracker, "test", 3600, 1030).is_none());
}

#[test]
fn test_realized_vol_window_basic() {
    let mut tracker = BeliefVolTracker::new(BeliefVolConfig::default());
    let slug = "window-test";
    let mut ts = 1000i64;
    for i in 0..20 {
        let p = if i % 2 == 0 { 0.45 } else { 0.55 };
        observe(&mut tracker, slug, p, ts);
        ts += 10;
    }
    let vol = realized(&tracker, slug, 3600, ts);
    assert!(vol.is_some());
    let v = vol.unwrap();
    assert!(v > 0.0);
    assert!(v.is_finite());
}

#[test]
fn test_realized_vol_window_respects_cutoff() {
    let mut tracker = BeliefVolTracker::new(BeliefVolConfig::default());
    let slug = "cutoff-test";
    for i in 0..10 {
        let p = if i % 2 == 0 { 0.3 } else { 0.7 };
        observe(&mut tracker, slug, p, 1000 + i * 10);
    }
    for i in 0..10 {
        let p = 0.5 + 0.01 * ((i as f64 * 0.5).sin());
        observe(&mut tracker, slug, p, 2000 + i * 10);
    }
    let vol_recent = realized(&tracker, slug, 500, 2100).unwrap();
    assert!(vol_recent.is_finite() && vol_recent > 0.0);
    let vol_all = realized(&tracker, slug, 2000, 2100).unwrap();
    assert!(vol_all > vol_recent);
}

#[test]
fn test_realized_vol_vs_ema_same_order_of_magnitude() {
    let config = BeliefVolConfig { min_samples: 10, ema_alpha: scalar(0.1), ..Default::default() };
    let mut tracker = BeliefVolTracker::new(config);
    let slug = "compare-test";
    let mut ts = 1000i64;
    for i in 0..100 {
        let p = if i % 2 == 0 { 0.4 } else { 0.6 };
        observe(&mut tracker, slug, p, ts);
        ts += 10;
    }
    let ema_sigma = tracker.get_estimate(slug).map(|e| number(e.sigma_b)).unwrap_or(0.0);
    let realized_sigma = realized(&tracker, slug, 2000, ts).unwrap_or(0.0);
    assert!(ema_sigma > 0.0);
    assert!(realized_sigma > 0.0);
    let ratio = ema_sigma / realized_sigma;
    assert!(ratio > 0.1 && ratio < 10.0);
}

#[test]
fn test_realized_vol_window_case_insensitive() {
    let mut tracker = BeliefVolTracker::new(BeliefVolConfig::default());
    let mut ts = 1000i64;
    for i in 0..10 {
        let p = if i % 2 == 0 { 0.45 } else { 0.55 };
        observe(&mut tracker, "TEST-Market", p, ts);
        ts += 10;
    }
    assert!(realized(&tracker, "test-market", 3600, ts).is_some());
}

#[test]
fn test_detect_recent_jump_no_data() {
    let tracker = BeliefVolTracker::new(BeliefVolConfig::default());
    assert!(jump(&tracker, "nonexistent", 3.0).is_none());
}

#[test]
fn test_detect_recent_jump_small_move() {
    let mut tracker = BeliefVolTracker::new(config(5));
    let slug = "small-move";
    let mut ts = 1000i64;
    for i in 0..20 {
        let p = 0.5 + 0.05 * ((i as f64 * 0.5).sin());
        observe(&mut tracker, slug, p, ts);
        ts += 10;
    }
    observe(&mut tracker, slug, 0.51, ts);
    let result = jump(&tracker, slug, 3.0);
    assert!(result.is_some());
    let r = result.unwrap();
    assert!(!r.is_jump);
    assert!(number(r.z_score) < 3.0);
    assert_eq!(number(r.jump_size), 0.0);
}

#[test]
fn test_detect_recent_jump_large_move() {
    let mut tracker = BeliefVolTracker::new(config(5));
    let slug = "large-move";
    let mut ts = 1000i64;
    for _ in 0..30 {
        observe(&mut tracker, slug, 0.50, ts);
        ts += 10;
    }
    observe(&mut tracker, slug, 0.90, ts);
    let result = jump(&tracker, slug, 3.0);
    assert!(result.is_some());
    assert!(number(result.unwrap().z_score) > 1.0);
}

#[test]
fn test_detect_recent_jump_threshold_sensitivity() {
    let mut tracker = BeliefVolTracker::new(config(5));
    let slug = "threshold-test";
    let mut ts = 1000i64;
    for i in 0..20 {
        let p = 0.5 + 0.02 * ((i as f64 * 0.3).sin());
        observe(&mut tracker, slug, p, ts);
        ts += 10;
    }
    observe(&mut tracker, slug, 0.6, ts);
    let r_low = jump(&tracker, slug, 1.0).unwrap();
    let r_high = jump(&tracker, slug, 10.0).unwrap();
    assert!((number(r_low.z_score) - number(r_high.z_score)).abs() < 1e-10);
    assert_eq!(number(r_low.threshold_used), 1.0);
    assert_eq!(number(r_high.threshold_used), 10.0);
}

#[test]
fn test_count_recent_jumps_empty() {
    let tracker = BeliefVolTracker::new(BeliefVolConfig::default());
    assert_eq!(jumps(&tracker, "nonexistent", 3600, 5000, 3.0), 0);
}

#[test]
fn test_count_recent_jumps_with_synthetic_jumps() {
    let mut tracker = BeliefVolTracker::new(config(5));
    let slug = "jump-count-test";
    let mut ts = 1000i64;
    for _ in 0..20 {
        observe(&mut tracker, slug, 0.50, ts);
        ts += 10;
    }
    for p in [0.80, 0.50, 0.50, 0.85] {
        observe(&mut tracker, slug, p, ts);
        ts += 10;
    }
    let count_low = jumps(&tracker, slug, 1000, ts, 0.5);
    let count_high = jumps(&tracker, slug, 1000, ts, 5.0);
    assert!(count_low >= count_high);
}

#[test]
fn test_count_recent_jumps_window_cutoff() {
    let mut tracker = BeliefVolTracker::new(config(5));
    let slug = "window-cutoff";
    let mut ts = 1000i64;
    for _ in 0..10 {
        observe(&mut tracker, slug, 0.50, ts);
        ts += 10;
    }
    observe(&mut tracker, slug, 0.90, ts);
    ts = 5000;
    for _ in 0..10 {
        observe(&mut tracker, slug, 0.50, ts);
        ts += 10;
    }
    let count_recent = jumps(&tracker, slug, 200, ts, 3.0);
    let count_all = jumps(&tracker, slug, 5000, ts, 3.0);
    assert!(count_all >= count_recent);
}

#[test]
fn test_export_estimates_empty() {
    let tracker = BeliefVolTracker::new(BeliefVolConfig::default());
    assert!(tracker.export_estimates().is_empty());
}

#[test]
fn test_export_import_roundtrip() {
    let mut tracker = BeliefVolTracker::new(config(5));
    let mut ts = 1000i64;
    for i in 0..20 {
        let p = 0.5 + 0.05 * ((i as f64 * 0.5).sin());
        observe(&mut tracker, "market-a", p, ts);
        observe(&mut tracker, "market-b", p * 0.9, ts);
        ts += 10;
    }
    let exported = tracker.export_estimates();
    assert_eq!(exported.len(), 2);
    let mut tracker2 = BeliefVolTracker::new(config(5));
    tracker2.import_estimates(&exported);
    let est_a1 = tracker.get_estimate("market-a").unwrap();
    let est_a2 = tracker2.get_estimate("market-a").unwrap();
    assert!((number(est_a1.sigma_b) - number(est_a2.sigma_b)).abs() < 1e-10);
    assert_eq!(est_a1.sample_count, est_a2.sample_count);
}

#[test]
fn test_import_estimates_case_insensitive() {
    let mut tracker = BeliefVolTracker::new(BeliefVolConfig::default());
    let estimates = vec![(
        "UPPER-CASE".to_string(),
        BeliefVolEstimate {
            sigma_b: scalar(1.5),
            sample_count: 50,
            last_updated: 1000,
            confidence: scalar(1.0),
        },
    )];
    tracker.import_estimates(&estimates);
    let est = tracker.get_estimate("upper-case");
    assert!(est.is_some());
    assert!((number(est.unwrap().sigma_b) - 1.5).abs() < 1e-10);
}

#[test]
fn test_summary_empty() {
    let tracker = BeliefVolTracker::new(BeliefVolConfig::default());
    let summary = tracker.summary();
    assert_eq!(summary.markets_tracked, 0);
    assert_eq!(summary.reliable_estimates, 0);
    assert!((average_sigma(&tracker) - 2.0).abs() < 1e-10);
}

#[test]
fn test_summary_with_data() {
    let mut tracker = BeliefVolTracker::new(config(10));
    let mut ts = 1000i64;
    for i in 0..30 {
        let p = 0.5 + 0.05 * ((i as f64 * 0.5).sin());
        observe(&mut tracker, "market-a", p, ts);
        if i < 5 {
            observe(&mut tracker, "market-b", p, ts);
        }
        ts += 10;
    }
    let summary = tracker.summary();
    assert_eq!(summary.markets_tracked, 2);
    assert!(summary.reliable_estimates >= 1);
    assert!(average_sigma(&tracker) > 0.0);
}

#[test]
fn test_15m_session_simulation() {
    let mut tracker = BeliefVolTracker::new(BeliefVolConfig::default());
    let slug = "btc-updown-15m-test";
    let mut ts = 1700000000i64;
    let mut p = 0.50f64;
    let mut rng_seed = 42u64;
    for _ in 0..100 {
        rng_seed = rng_seed.wrapping_mul(1103515245).wrapping_add(12345);
        let rand_unit = (rng_seed % 1000) as f64 / 1000.0;
        let x = logit(p);
        let dx = (rand_unit - 0.5) * 0.1;
        p = sigmoid(x + dx);
        observe(&mut tracker, slug, p, ts);
        ts += 9;
    }
    assert!(tracker.has_reliable_estimate(slug));
    let sigma_b = number(tracker.get_sigma_b(slug));
    assert!(sigma_b > 0.0);
    assert!(sigma_b < 100.0);
    assert!(realized(&tracker, slug, 600, ts).is_some());
    let summary = tracker.summary();
    assert_eq!(summary.markets_tracked, 1);
    assert_eq!(summary.reliable_estimates, 1);
}

#[test]
fn test_multi_market_simulation() {
    let mut tracker = BeliefVolTracker::new(config(20));
    let markets = ["btc-updown", "eth-updown", "sol-updown"];
    let mut ts = 1700000000i64;
    for _ in 0..50 {
        for (i, market) in markets.iter().enumerate() {
            let base_vol = 0.02 + (i as f64 * 0.01);
            let p = 0.5 + base_vol * ((ts as f64 * 0.001 + i as f64).sin());
            observe(&mut tracker, market, p, ts);
        }
        ts += 10;
    }
    assert_eq!(tracker.market_count(), 3);
    assert_eq!(tracker.summary().markets_tracked, 3);
    for m in markets {
        assert!(number(tracker.get_sigma_b(m)) > 0.0);
    }
}

#[test]
fn a_lower_threshold_finds_more_jumps() {
    let m = LogOddsIncrement { timestamp: 1, x_before: scalar(0.0), x_after: scalar(1.0), dt_secs: 1 };
    let at = |z: f64| ScoredMove { m, expected_std: scalar(1.0), z_score: scalar(z) };
    let still = ScoredMove { expected_std: scalar(0.0), ..at(9.0) };
    let z = vec![at(0.5), at(2.0), at(4.0), at(f64::NAN), still, at(5.0)];
    let moves = vec![m, m, m, m, m, LogOddsIncrement { timestamp: 2, ..m }];
    assert_eq!(jumps_among(&moves, &z, scalar(3.0)), 1);
    assert_eq!(jumps_among(&moves, &z, scalar(1.0)), 2);
    assert_eq!(jumps_among(&moves, &z, scalar(0.1)), 3);
}

#[test]
fn a_longer_window_holds_more_moves() {
    let mut tracker = BeliefVolTracker::new(BeliefVolConfig::default());
    for i in 0..10 {
        observe(&mut tracker, "m", 0.5 + 0.01 * (i % 2) as f64, 1000 + 10 * i);
    }
    assert_eq!(tracker.recent_moves("m", 30, 1090).len(), 4);
    assert_eq!(tracker.recent_moves("M", 60, 1090).len(), 7);
    assert_eq!(tracker.recent_moves("m", 1000, 1090).len(), 9);
}

#[test]
fn a_longer_window_loses_no_jump() {
    let mut tracker = BeliefVolTracker::new(config(5));
    let mut ts = 1000i64;
    for p in [0.5, 0.5, 0.8, 0.5, 0.5, 0.9, 0.5] {
        observe(&mut tracker, "wide", p, ts);
        ts += 10;
    }
    for (short, long) in [(0, 20), (20, 40), (40, 1000)] {
        assert!(jumps(&tracker, "wide", long, ts, 0.5) >= jumps(&tracker, "wide", short, ts, 1.0));
    }
    assert!(jumps(&tracker, "WIDE", 1000, ts, 0.1) > 0);
}
