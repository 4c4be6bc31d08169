use betterbot::base::scalar::Scalar;
use betterbot::models::{MarketSignal, SignalDetails, SignalType};
use betterbot::signals::correlator::{
    sort_signals, CompositeNumbers, CorrelatorConfig, Found, PatternNumbers, PatternType, SignalCorrelator,
};

fn scalar(x: f64) -> Scalar {
    if x.is_nan() {
        Scalar::Undefined
    } else {
        let b = x.to_bits() as i64;
        Scalar::Rank(if b < 0 { i64::MIN.wrapping_sub(b) } else { b })
    }
}

fn number(s: Scalar) -> f64 {
    match s {
        Scalar::Undefined => f64::NAN,
        Scalar::Rank(a) => {
            if a < 0 {
                -f64::from_bits((-a) as u64)
            } else {
                f64::from_bits(a as u64)
            }
        }
    }
}

fn create_test_signal(market: &str, id: &str, signal_type: SignalType, confidence: f64) -> MarketSignal {
    MarketSignal {
        id: id.to_string(),
        signal_type,
        market_slug: market.to_string(),
        confidence: scalar(confidence),
        risk_level: "medium".to_string(),
        details: SignalDetails {
            market_id: format!("{}-id", market),
            market_title: format!("Test signal for {}", market),
            current_price: scalar(0.5),
            volume_24h: scalar(1000.0),
            liquidity: scalar(5000.0),
            recommended_action: "HOLD".to_string(),
            expiry_time: None,
            observed_timestamp: None,
            signal_family: None,
            calibration_version: None,
            guardrail_flags: None,
            recommended_size: None,
        },
        detected_at: "2025-11-16T12:00:00+00:00".to_string(),
        source: "test".to_string(),
    }
}

fn whale(address: &str, size: f64, score: f64) -> SignalType {
    SignalType::WhaleFollowing {
        whale_address: address.to_string(),
        position_size: scalar(size),
        confidence_score: scalar(score),
    }
}

fn arbitrage(spread: f64) -> SignalType {
    SignalType::CrossPlatformArbitrage {
        polymarket_price: scalar(0.52),
        kalshi_price: Some(scalar(0.47)),
        spread_pct: scalar(spread),
    }
}

fn mean(values: &Vec<Scalar>) -> f64 {
    values.iter().map(|v| number(*v)).sum::<f64>() / values.len() as f64
}

fn figures(weighed: f64, expected_return: f64) -> CompositeNumbers {
    let held = weighed.min(0.99);
    CompositeNumbers {
        weighed: scalar(weighed),
        risk_score: scalar(1.0 - held),
        confidence_text: format!("{:.1}", held * 100.0),
        return_text: format!("{:.2}", expected_return * 100.0),
    }
}

fn aligned(signals: &Vec<MarketSignal>) -> CompositeNumbers {
    let s = sort_signals(signals);
    figures(
        mean(&s.whale_confidences) * 0.6 + mean(&s.arbitrage_confidences) * 0.4,
        number(s.greatest_spread),
    )
}

fn agreed(signals: &Vec<MarketSignal>) -> CompositeNumbers {
    let s = sort_signals(signals);
    let boost = ((s.whale_ids.len().max(1) - 1) as f64 * 0.05).min(0.15);
    figures(mean(&s.whale_confidences) + boost, 0.05)
}

fn found() -> Found {
    Found { millis: 1700000000123, stamp: "2023-11-14T22:13:20+00:00".to_string() }
}

fn correlator() -> SignalCorrelator {
    SignalCorrelator::new(CorrelatorConfig::default())
}

#[test]
fn test_composite_confidence_calculation() {
    let signals = vec![
        create_test_signal("test-market", "a", whale("0x123", 1000.0, 0.80), 0.80),
        create_test_signal("test-market", "b", whale("0x456", 1500.0, 0.85), 0.85),
    ];
    let sum: f64 = signals.iter().map(|s| number(s.confidence)).sum();
    let boost = ((signals.len() - 1) as f64 * 0.03).min(0.15);
    let raised = sum / signals.len() as f64 + boost;
    let confidence = number(correlator().calculate_composite_confidence(&signals, scalar(raised)));
    assert!(confidence > 0.84 && confidence < 0.87);
}

#[test]
fn test_pattern_detection_whale_arbitrage() {
    let signals = vec![
        create_test_signal("test-market", "a", whale("0x123", 5000.0, 0.85), 0.85),
        create_test_signal("test-market", "b", arbitrage(0.05), 0.75),
    ];
    let composite =
        correlator().detect_whale_arbitrage_alignment("test-market", &signals, &aligned(&signals), &found());
    assert!(composite.is_some());
    let comp = composite.unwrap();
    assert!(matches!(comp.pattern_type, PatternType::WhaleArbitrageAlignment));
    assert!(number(comp.composite_confidence) > 0.75);
    assert_eq!(comp.component_signals.len(), 2);
    assert_eq!(comp.id, "composite_1700000000123");
    assert_eq!(comp.expected_return, scalar(0.05));
    assert_eq!(
        comp.description,
        "STRONG SIGNAL: 1 whale trades + 1 arbitrage opportunities aligned on 'test-market' \
         (confidence: 81.0%, expected return: 5.00%)"
    );
}

#[test]
fn test_pattern_detection_multi_whale() {
    let signals = vec![
        create_test_signal("test-market", "a", whale("0x111", 3000.0, 0.80), 0.80),
        create_test_signal("test-market", "b", whale("0x222", 4000.0, 0.85), 0.85),
        create_test_signal("test-market", "c", whale("0x333", 2500.0, 0.82), 0.82),
    ];
    let composite =
        correlator().detect_multi_whale_consensus("test-market", &signals, &agreed(&signals), &found());
    assert!(composite.is_some());
    let comp = composite.unwrap();
    assert!(matches!(comp.pattern_type, PatternType::MultiWhaleConsensus));
    assert!(number(comp.composite_confidence) > 0.85);
    assert_eq!(comp.component_signals.len(), 3);
    assert_eq!(comp.correlation_score, scalar(0.90));
}

#[test]
fn too_few_signals_make_no_pattern() {
    let one = vec![create_test_signal("m", "a", whale("0x1", 1.0, 0.8), 0.8)];
    let c = correlator();
    assert!(c.detect_multi_whale_consensus("m", &one, &figures(0.8, 0.05), &found()).is_none());
    assert!(c.detect_whale_arbitrage_alignment("m", &one, &figures(0.8, 0.05), &found()).is_none());
    assert!(c.detect_volume_spike("m", &one, &figures(0.8, 0.05), &found()).is_none());
    assert_eq!(c.calculate_composite_confidence(&vec![], scalar(0.7)), scalar(0.0));
}

#[test]
fn the_greatest_spread_is_what_is_expected() {
    let signals = vec![
        create_test_signal("m", "a", arbitrage(0.02), 0.7),
        create_test_signal("m", "b", arbitrage(0.07), 0.7),
        create_test_signal("m", "c", arbitrage(0.05), 0.7),
    ];
    assert_eq!(sort_signals(&signals).greatest_spread, scalar(0.07));
}

#[test]
fn confidence_is_capped() {
    let signals = vec![create_test_signal("m", "a", whale("0x1", 1.0, 0.8), 0.99)];
    assert_eq!(correlator().calculate_composite_confidence(&signals, scalar(1.2)), scalar(0.99));
}

#[test]
fn signals_are_grouped_by_market() {
    let groups = correlator().analyze_correlations(vec![
        create_test_signal("m", "a", arbitrage(0.02), 0.7),
        create_test_signal("n", "b", arbitrage(0.02), 0.7),
        create_test_signal("m", "c", arbitrage(0.02), 0.7),
    ]);
    assert_eq!(groups.len(), 2);
    let m = groups.get("m").unwrap();
    assert_eq!(m.len(), 2);
    assert_eq!(m[0].id, "a");
    assert_eq!(m[1].id, "c");
    assert_eq!(groups.get("n").unwrap()[0].id, "b");
}

#[test]
fn patterns_on_a_market_come_in_order() {
    let mut signals = vec![
        create_test_signal("m", "w1", whale("0x1", 1.0, 0.8), 0.8),
        create_test_signal("m", "w2", whale("0x2", 1.0, 0.8), 0.8),
        create_test_signal("m", "a", arbitrage(0.02), 0.7),
    ];
    let n = PatternNumbers { alignment: aligned(&signals), consensus: agreed(&signals), spike: figures(0.7, 0.03) };
    let all = correlator().analyze_market("m", &signals, &n, &found());
    assert_eq!(all.len(), 2);
    assert!(matches!(all[0].pattern_type, PatternType::WhaleArbitrageAlignment));
    assert!(matches!(all[1].pattern_type, PatternType::MultiWhaleConsensus));
    let first = correlator().find_aligned_signals("m", &signals, &n, &found()).unwrap();
    assert!(matches!(first.pattern_type, PatternType::WhaleArbitrageAlignment));
    signals.truncate(1);
    assert!(correlator().find_aligned_signals("m", &signals, &n, &found()).is_none());
}
