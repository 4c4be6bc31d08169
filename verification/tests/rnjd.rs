use betterbot::base::scalar::Scalar;
use betterbot::vault::belief_vol::{BeliefVolConfig, BeliefVolEstimate, BeliefVolTracker};
use betterbot::vault::rnjd::{
    blend_sigma_b, enhanced_model, estimate_p_up_enhanced, estimate_p_up_rnjd, hold_chance, price_vol_to_belief_vol,
    JumpRegimeDetector, RnjdEstimate, RnjdParams,
};
use statrs::distribution::{ContinuousCDF, Normal};

fn scalar(x: f64) -> Scalar {
    if x.is_nan() {
        Scalar::Undefined
    } else {
        let b = x.to_bits() as i64;
        Scalar::Rank(if b < 0 { i64::MIN.wrapping_sub(b) } else { b })
    }
}

fn number(s: Scalar) -> f64 {
    match s {
        Scalar::Undefined => f64::NAN,
        Scalar::Rank(a) => {
            if a < 0 {
                -f64::from_bits((-a) as u64)
            } else {
                f64::from_bits(a as u64)
            }
        }
    }
}

fn logit(p: f64) -> f64 {
    let p = p.clamp(0.0001, 0.9999);
    (p / (1.0 - p)).ln()
}

fn sigmoid(x: f64) -> f64 {
    1.0 / (1.0 + (-x).exp())
}

fn drift(p: f64, params: &RnjdParams) -> f64 {
    let p = p.clamp(0.001, 0.999);
    let diffusion = -0.5 * number(params.sigma_b).powi(2) * (1.0 - 2.0 * p);
    let lambda = number(params.lambda);
    if lambda > 0.0 {
        diffusion - lambda * number(params.mu_j) * (p * (1.0 - p))
    } else {
        diffusion
    }
}

fn estimate(start: f64, now: f64, market_p: f64, sigma: f64, t: f64, params: &RnjdParams) -> Option<RnjdEstimate> {
    let market_p = market_p.clamp(0.01, 0.99);
    let t_years = t / (365.25 * 24.0 * 3600.0);
    let std_dev = sigma * t_years.sqrt();
    let z = (now / start).ln() / std_dev;
    let raw = Normal::new(0.0, 1.0).unwrap().cdf(z);
    let correction = drift(market_p, params) * t_years;
    let p_up = sigmoid(logit(number(hold_chance(scalar(raw)))) + correction);
    let confidence = (-t / 900.0).exp() * (4.0 * market_p * (1.0 - market_p));
    let computed = RnjdEstimate {
        p_up: scalar(p_up),
        drift_correction: scalar(correction),
        p_up_raw: scalar(raw),
        confidence: scalar(confidence),
        jump_regime: true,
    };
    estimate_p_up_rnjd(scalar(start), scalar(now), scalar(sigma), scalar(t), scalar(std_dev), computed)
}

fn belief_vol(sigma_price: f64, market_p: f64) -> f64 {
    let p = market_p.clamp(0.05, 0.95);
    let sensitivity = p * (1.0 - p);
    number(price_vol_to_belief_vol(
        scalar(sensitivity),
        scalar(sigma_price * 10.0),
        scalar(sigma_price / sensitivity),
    ))
}

fn blend(known: Option<f64>, price: f64, weight: f64) -> f64 {
    let blended = known.map(|t| weight * t + (1.0 - weight) * price).unwrap_or(0.0);
    number(blend_sigma_b(known.is_some(), scalar(blended), scalar(price)))
}

fn enhanced(now: f64, tracker: Option<&BeliefVolTracker>, slug: &str, jumps: usize) -> Option<RnjdEstimate> {
    let derived = belief_vol(0.20, 0.5);
    let known = tracker.map(|t| number(t.get_sigma_b(slug)));
    let blended = blend(known, derived, 0.7);
    let (params, regime) = enhanced_model(tracker, slug, scalar(blended), scalar(derived), jumps);
    let base = estimate(100.0, now, 0.5, 0.20, 600.0, &params);
    let reduced = base.map(|e| number(e.confidence) * 0.7).unwrap_or(0.0);
    estimate_p_up_enhanced(base, regime, scalar(reduced))
}

#[test]
fn test_estimate_p_up_rnjd_basic() {
    let e = estimate(100.0, 100.0, 0.5, 0.20, 600.0, &RnjdParams::default()).unwrap();
    assert!((number(e.p_up) - 0.5).abs() < 0.1);
    assert!(!e.jump_regime);
}

#[test]
fn test_estimate_p_up_rnjd_price_up() {
    let e = estimate(100.0, 101.0, 0.5, 0.20, 600.0, &RnjdParams::default()).unwrap();
    assert!(number(e.p_up) > 0.5);
}

#[test]
fn test_estimate_p_up_rnjd_price_down() {
    let e = estimate(100.0, 99.0, 0.5, 0.20, 600.0, &RnjdParams::default()).unwrap();
    assert!(number(e.p_up) < 0.5);
}

#[test]
fn test_estimate_p_up_rnjd_invalid_inputs() {
    let params = RnjdParams::default();
    assert!(estimate(0.0, 100.0, 0.5, 0.20, 600.0, &params).is_none());
    assert!(estimate(-1.0, 100.0, 0.5, 0.20, 600.0, &params).is_none());
    assert!(estimate(100.0, 100.0, 0.5, 0.0, 600.0, &params).is_none());
    assert!(estimate(100.0, 100.0, 0.5, -0.1, 600.0, &params).is_none());
    assert!(estimate(100.0, 100.0, 0.5, 0.20, 0.0, &params).is_none());
    assert!(estimate(100.0, 100.0, 0.5, 0.20, -1.0, &params).is_none());
}

#[test]
fn test_estimate_p_up_rnjd_drift_correction() {
    let params = RnjdParams { sigma_b: scalar(3.0), ..Default::default() };
    let e = estimate(100.0, 100.0, 0.2, 0.20, 600.0, &params).unwrap();
    assert!(number(e.drift_correction).abs() > 0.0);
}

#[test]
fn test_price_to_belief_vol_at_half() {
    assert!((belief_vol(0.20, 0.5) - 0.80).abs() < 0.01);
}

#[test]
fn test_price_to_belief_vol_extreme() {
    assert!(belief_vol(0.20, 0.1) > belief_vol(0.20, 0.5));
}

#[test]
fn test_price_to_belief_vol_capped() {
    assert!(belief_vol(10.0, 0.5) <= 50.0);
    assert_eq!(belief_vol(100.0, 0.5), 50.0);
}

#[test]
fn test_blend_sigma_b() {
    let expected = 0.7 * 2.0 + 0.3 * 4.0;
    assert!((blend(Some(2.0), 4.0, 0.7) - expected).abs() < 0.01);
    assert!((blend(None, 4.0, 0.7) - 4.0).abs() < 0.01);
}

#[test]
fn test_jump_regime_detector_default() {
    let detector = JumpRegimeDetector::default();
    assert_eq!(detector.jump_count_threshold, 2);
    assert_eq!(detector.window_secs, 300);
    assert_eq!(number(detector.z_threshold), 3.0);
    assert_eq!(detector.cooldown_secs, 60);
}

#[test]
fn test_jump_regime_high_count() {
    let detector = JumpRegimeDetector::default();
    assert!(!detector.is_jump_regime(1, None, 1000));
    assert!(detector.is_jump_regime(2, None, 1000));
    assert!(detector.is_jump_regime(5, None, 1000));
}

#[test]
fn test_jump_regime_cooldown() {
    let detector = JumpRegimeDetector { cooldown_secs: 60, ..Default::default() };
    assert!(detector.is_jump_regime(0, Some(950), 1000));
    assert!(!detector.is_jump_regime(0, Some(900), 1000));
}

#[test]
fn test_jump_regime_edge_multiplier() {
    let detector = JumpRegimeDetector::default();
    assert!((number(detector.edge_multiplier(false)) - 1.0).abs() < 0.01);
    assert!((number(detector.edge_multiplier(true)) - 0.5).abs() < 0.01);
}

#[test]
fn test_estimate_p_up_enhanced_no_tracker() {
    let e = enhanced(101.0, None, "btc-updown-15m", 0).unwrap();
    assert!(number(e.p_up) > 0.5);
    assert!(!e.jump_regime);
}

#[test]
fn test_estimate_p_up_enhanced_with_tracker() {
    let mut tracker = BeliefVolTracker::new(BeliefVolConfig { min_samples: 5, ..Default::default() });
    let mut ts = 1700000000i64;
    for i in 0..20 {
        let p = 0.5 + 0.05 * ((i as f64 * 0.5).sin());
        let x = scalar(logit(p));
        tracker.record_observation("btc-updown-15m", x, x, ts);
        ts += 10;
    }
    tracker.update_estimate("btc-updown-15m", scalar(50.0), scalar(1.0), ts);
    let e = enhanced(101.0, Some(&tracker), "btc-updown-15m", 0).unwrap();
    assert!(number(e.p_up) > 0.5);
}

#[test]
fn test_estimate_confidence_decay() {
    let params = RnjdParams::default();
    let est_short = estimate(100.0, 100.0, 0.5, 0.20, 60.0, &params).unwrap();
    let est_long = estimate(100.0, 100.0, 0.5, 0.20, 900.0, &params).unwrap();
    assert!(number(est_short.confidence) > number(est_long.confidence));
}

#[test]
fn a_tracked_volatility_is_blended_in() {
    let mut tracker = BeliefVolTracker::new(BeliefVolConfig { min_samples: 5, ..Default::default() });
    let known = BeliefVolEstimate {
        sigma_b: scalar(2.0),
        sample_count: 9,
        last_updated: 0,
        confidence: scalar(1.0),
    };
    tracker.import_estimates(&vec![("M".to_string(), known)]);
    let (params, regime) = enhanced_model(Some(&tracker), "m", scalar(2.6), scalar(4.0), 2);
    assert_eq!(params.sigma_b, scalar(2.6));
    assert_eq!(number(params.lambda), 10.0);
    assert!(regime);
    let (params, regime) = enhanced_model(Some(&tracker), "other", scalar(2.6), scalar(4.0), 1);
    assert_eq!(params.sigma_b, scalar(4.0));
    assert_eq!(number(params.lambda), 0.0);
    assert!(!regime);
}

#[test]
fn a_regime_lowers_the_confidence() {
    let base = estimate(100.0, 101.0, 0.5, 0.20, 600.0, &RnjdParams::default());
    let e = estimate_p_up_enhanced(base, true, scalar(0.3)).unwrap();
    assert!(e.jump_regime);
    assert_eq!(e.confidence, scalar(0.3));
    assert!(estimate_p_up_enhanced(None, true, scalar(0.3)).is_none());
}

#[test]
fn estimates_are_held_between_their_bounds() {
    let high = estimate(100.0, 500.0, 0.5, 0.20, 1.0, &RnjdParams::default()).unwrap();
    assert_eq!(number(high.p_up_raw), 0.999);
    assert!(number(high.p_up) <= 0.999);
    assert_eq!(number(high.confidence), 0.95);
    let low = estimate(100.0, 20.0, 0.99, 0.20, 9000.0, &RnjdParams::default()).unwrap();
    assert_eq!(number(low.p_up_raw), 0.001);
    assert!(number(low.p_up) >= 0.001);
    assert_eq!(number(low.confidence), 0.1);
}
