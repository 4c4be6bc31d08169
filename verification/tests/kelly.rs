use betterbot::base::scalar::Scalar;
use betterbot::vault::kelly::{
    calculate_kelly_position, capped_fraction, full_fraction, kelly_for_signal, kelly_with_belief_vol,
    vol_multiplier, KellyNumbers, KellyParams, KellyResult, KellySkip,
};

fn scalar(x: f64) -> Scalar {
    if x.is_nan() {
        Scalar::Undefined
    } else {
        let b = x.to_bits() as i64;
        Scalar::Rank(if b < 0 { i64::MIN.wrapping_sub(b) } else { b })
    }
}

fn number(s: Scalar) -> f64 {
    match s {
        Scalar::Undefined => f64::NAN,
        Scalar::Rank(a) => {
            if a < 0 {
                -f64::from_bits((-a) as u64)
            } else {
                f64::from_bits(a as u64)
            }
        }
    }
}

fn params(bankroll: f64, min: f64) -> KellyParams {
    KellyParams {
        bankroll: scalar(bankroll),
        kelly_fraction: scalar(0.25),
        max_position_pct: scalar(0.10),
        min_position_usd: scalar(min),
    }
}

fn numbers(confidence: f64, price: f64, p: &KellyParams) -> KellyNumbers {
    let odds = (1.0 / price) - 1.0;
    let raw = (confidence * odds - (1.0 - confidence)) / odds;
    let full = full_fraction(scalar(raw));
    let capped = capped_fraction(scalar(number(full) * number(p.kelly_fraction)), p);
    KellyNumbers {
        edge: scalar(confidence - price),
        full_kelly: full,
        capped_fraction: capped,
        position_usd: scalar(number(p.bankroll) * number(capped)),
    }
}

fn position(confidence: f64, price: f64, p: &KellyParams) -> KellyResult {
    calculate_kelly_position(scalar(confidence), scalar(price), &numbers(confidence, price, p), p)
}

fn with_vol(confidence: f64, price: f64, sigma_b: f64, t_years: f64, p: &KellyParams) -> KellyResult {
    let base = position(confidence, price, p);
    let at = price.clamp(0.01, 0.99);
    let expected = sigma_b * t_years.sqrt() * (at * (1.0 - at));
    let ratio = number(base.edge) / (expected + 0.001);
    let factor = vol_multiplier(scalar(ratio), scalar(0.5 + 0.25 * ratio));
    let m = number(factor);
    let size = scalar(number(base.position_size_usd) * m);
    let fraction = scalar(number(base.actual_fraction) * m);
    kelly_with_belief_vol(base, factor, size, fraction, p)
}

fn quarter_hour() -> f64 {
    15.0 / (365.25 * 24.0 * 60.0)
}

#[test]
fn test_kelly_with_edge() {
    let result = position(0.60, 0.50, &params(10000.0, 1.0));
    assert!(result.should_trade);
    assert!(number(result.edge) > 0.0);
    assert!(number(result.position_size_usd) > 0.0);
}

#[test]
fn test_kelly_no_edge() {
    let result = position(0.40, 0.50, &KellyParams::default());
    assert!(!result.should_trade);
    assert!(number(result.edge) < 0.0);
    assert_eq!(result.skip_reason, Some(KellySkip::NoEdge { confidence: scalar(0.40), market_price: scalar(0.50) }));
}

#[test]
fn test_kelly_high_confidence() {
    let p = params(10000.0, 1.0);
    let result = position(0.90, 0.50, &p);
    assert!(result.should_trade);
    assert!(number(result.position_size_usd) <= number(p.bankroll) * number(p.max_position_pct));
    assert_eq!(number(result.position_size_usd), 1000.0);
}

#[test]
fn test_vol_adjusted_kelly_reduces_position() {
    let p = params(10000.0, 1.0);
    let low_vol = with_vol(0.60, 0.50, 1.0, quarter_hour(), &p);
    let high_vol = with_vol(0.60, 0.50, 10.0, quarter_hour(), &p);
    assert!(number(high_vol.position_size_usd) <= number(low_vol.position_size_usd));
}

#[test]
fn test_vol_adjusted_kelly_preserves_no_edge() {
    let result = with_vol(0.40, 0.50, 2.0, quarter_hour(), &params(10000.0, 1.0));
    assert!(!result.should_trade);
    assert!(number(result.edge) < 0.0);
}

#[test]
fn test_vol_adjusted_kelly_can_skip_trade() {
    let p = params(1000.0, 10.0);
    let result = with_vol(0.52, 0.50, 20.0, quarter_hour(), &p);
    if number(result.position_size_usd) < number(p.min_position_usd) {
        assert!(!result.should_trade);
        assert!(result.skip_reason.is_some());
    }
}

#[test]
fn test_vol_adjusted_kelly_full_position_large_edge() {
    let p = params(10000.0, 1.0);
    let result_vol = with_vol(0.80, 0.50, 2.0, quarter_hour(), &p);
    let result_std = position(0.80, 0.50, &p);
    assert!(result_vol.should_trade);
    assert!(number(result_vol.position_size_usd) >= number(result_std.position_size_usd) * 0.5);
}

#[test]
fn test_vol_adjusted_kelly_edge_safety_ratio() {
    let p = params(10000.0, 1.0);
    let low_sigma = with_vol(0.60, 0.50, 0.5, quarter_hour(), &p);
    let med_sigma = with_vol(0.60, 0.50, 5.0, quarter_hour(), &p);
    let high_sigma = with_vol(0.60, 0.50, 20.0, quarter_hour(), &p);
    assert!(number(low_sigma.position_size_usd) >= number(med_sigma.position_size_usd));
    assert!(number(med_sigma.position_size_usd) >= number(high_sigma.position_size_usd));
}

#[test]
fn each_refusal_has_its_reason() {
    let p = params(1000.0, 1.0);
    assert_eq!(position(1.0, 0.5, &p).skip_reason, Some(KellySkip::InvalidConfidence));
    assert_eq!(position(0.0, 0.5, &p).skip_reason, Some(KellySkip::InvalidConfidence));
    assert_eq!(position(0.5, 1.0, &p).skip_reason, Some(KellySkip::InvalidPrice));
    assert_eq!(position(0.5, 0.0, &p).skip_reason, Some(KellySkip::InvalidPrice));
    let small = position(0.501, 0.5, &p);
    let amount = numbers(0.501, 0.5, &p).position_usd;
    let below = KellySkip::BelowMinimum { position_usd: amount, min_position_usd: scalar(1.0) };
    assert_eq!(small.skip_reason, Some(below));
    assert_eq!(small.position_size_usd, scalar(0.0));
    assert!(number(small.full_kelly_fraction) > 0.0);
    let base = position(0.6, 0.5, &p);
    let cut = kelly_with_belief_vol(base, scalar(0.1), scalar(0.5), scalar(0.0005), &p);
    let cut_down = KellySkip::BelowMinimumForVolatility { position_usd: scalar(0.5), multiplier: scalar(0.1) };
    assert_eq!(cut.skip_reason, Some(cut_down));
    assert_eq!(cut.position_size_usd, scalar(0.5));
    assert_eq!(cut.edge, base.edge);
}

#[test]
fn a_signal_is_staked_within_a_tenth() {
    let p = params(500.0, 1.0);
    let n = numbers(0.9, 0.5, &p);
    let r = kelly_for_signal(scalar(0.9), scalar(0.5), &n, scalar(500.0), scalar(0.25));
    assert!(r.should_trade);
    assert_eq!(number(r.position_size_usd), 50.0);
}

#[test]
fn the_factor_of_volatility_has_three_parts() {
    assert_eq!(vol_multiplier(scalar(0.05), scalar(9.0)), scalar(0.1));
    assert_eq!(vol_multiplier(scalar(0.4), scalar(9.0)), scalar(0.4));
    assert_eq!(vol_multiplier(scalar(1.0), scalar(0.75)), scalar(0.75));
    assert_eq!(vol_multiplier(scalar(2.0), scalar(9.0)), scalar(1.0));
    assert_eq!(vol_multiplier(scalar(0.9), scalar(9.0)), scalar(0.75));
}

#[test]
fn more_volatility_stakes_no_more() {
    let p = params(10000.0, 1.0);
    let mut last = number(position(0.55, 0.50, &p).position_size_usd);
    for sigma in [0.0, 10.0, 20.0, 30.0, 36.0, 37.0, 40.0, 50.0, 100.0, 1000.0] {
        let size = number(with_vol(0.55, 0.50, sigma, quarter_hour(), &p).position_size_usd);
        assert!(size <= last);
        last = size;
    }
}
