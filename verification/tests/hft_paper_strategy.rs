use betterbot::base::scalar::Scalar;
use betterbot::vault::execution::{OrderAck, OrderSide, TimeInForce};
use betterbot::vault::fast15m_reactive::{PriceUpdateEvent, Quotes};
use betterbot::vault::hft_paper_strategy::{
    choose_outcome, FeedReading, HftPaperMetrics, HftPaperStrategy, HftPaperStrategyConfig, HftPaperTrade, HftReady,
    MarketMid,
};
use betterbot::vault::kelly::KellyResult;
use betterbot::vault::rnjd::RnjdEstimate;

fn scalar(x: f64) -> Scalar {
    if x.is_nan() {
        Scalar::Undefined
    } else {
        let b = x.to_bits() as i64;
        Scalar::Rank(if b < 0 { i64::MIN.wrapping_sub(b) } else { b })
    }
}

fn number(s: Scalar) -> f64 {
    match s {
        Scalar::Undefined => f64::NAN,
        Scalar::Rank(a) => {
            if a < 0 {
                -f64::from_bits((-a) as u64)
            } else {
                f64::from_bits(a as u64)
            }
        }
    }
}

fn trade(id: &str) -> HftPaperTrade {
    HftPaperTrade {
        id: id.to_string(),
        timestamp: 1,
        asset: "BTC".to_string(),
        market_slug: "m".to_string(),
        side: "BUY".to_string(),
        outcome: "Up".to_string(),
        price: scalar(0.5),
        notional_usd: scalar(10.0),
        shares: scalar(20.0),
        fees_usd: scalar(0.0),
        p_estimate: scalar(0.6),
        edge: scalar(0.1),
        sigma_b: scalar(2.0),
        jump_regime: false,
        rnjd_confidence: scalar(0.8),
        t2t_us: 10,
    }
}

#[test]
fn test_config_defaults() {
    let cfg = HftPaperStrategyConfig::default();
    assert!(number(cfg.min_edge) >= 0.01);
    assert!(number(cfg.kelly_fraction) <= 0.05);
    assert!(number(cfg.max_position_pct) <= 0.01);
    assert!(number(cfg.max_position_usd) <= 200.0);
}

#[test]
fn test_metrics_new() {
    let metrics = HftPaperMetrics::new();
    assert_eq!(metrics.counters.price_updates, 0);
    assert_eq!(metrics.counters.trades_executed, 0);
}

#[test]
fn test_metrics_summary() {
    let mut metrics = HftPaperMetrics::new();
    metrics.counters.price_updates = 100;
    metrics.counters.evaluations = 50;
    metrics.counters.trades_executed = 5;
    let summary = metrics.summary();
    assert_eq!(summary.price_updates, 100);
    assert_eq!(summary.evaluations, 50);
    assert_eq!(summary.trades_executed, 5);
}

#[test]
fn a_trade_is_counted_and_kept() {
    let mut metrics = HftPaperMetrics::new();
    metrics.record_trade(trade("a"));
    metrics.record_trade(trade("b"));
    assert_eq!(metrics.counters.trades_executed, 2);
    assert_eq!(metrics.recent_trades.len(), 2);
    assert_eq!(metrics.recent_trades[1].id, "b");
}

#[test]
fn an_unknown_symbol_is_counted_and_ignored() {
    let mut s = HftPaperStrategy::new(HftPaperStrategyConfig::default());
    let event = PriceUpdateEvent { symbol: "DOGEUSDT".to_string(), mid: scalar(1.0), received_at_ns: 0 };
    assert!(s.on_price_update(&event, 1_700_000_400).is_none());
    assert_eq!(s.metrics().counters.price_updates, 1);
    assert_eq!(s.metrics().counters.evaluations, 0);
}

fn bitcoin(mid: f64) -> PriceUpdateEvent {
    PriceUpdateEvent { symbol: "BTCUSDT".to_string(), mid: scalar(mid), received_at_ns: 0 }
}

fn quotes(p_up: f64, ask_up: f64, ask_down: f64) -> Quotes {
    Quotes {
        ask_up: Some(scalar(ask_up)),
        ask_down: Some(scalar(ask_down)),
        edge_up: scalar(p_up - ask_up),
        edge_down: scalar(1.0 - p_up - ask_down),
        p_up: scalar(p_up),
        p_down: scalar(1.0 - p_up),
    }
}

fn estimate(p_up: f64, confidence: f64) -> RnjdEstimate {
    RnjdEstimate {
        p_up: scalar(p_up),
        drift_correction: scalar(0.0),
        p_up_raw: scalar(p_up),
        confidence: scalar(confidence),
        jump_regime: false,
    }
}

fn stake(size: f64) -> KellyResult {
    KellyResult {
        edge: scalar(0.1),
        full_kelly_fraction: scalar(0.2),
        actual_fraction: scalar(0.01),
        position_size_usd: scalar(size),
        should_trade: true,
        skip_reason: None,
    }
}

const NOW: i64 = 1_700_000_400;

#[test]
fn a_price_leads_to_a_trade_and_a_pause() {
    let mut s = HftPaperStrategy::new(HftPaperStrategyConfig::default());
    let attempt = s.on_price_update(&bitcoin(60_000.0), NOW).unwrap();
    assert_eq!(attempt.start_ts, 1_700_000_100);
    assert_eq!(attempt.t_rem, 600);
    assert_eq!(attempt.slug, "btc-updown-15m-1700000100");
    let reading = FeedReading {
        near_start: None,
        around_start: Some(scalar(59_900.0)),
        latest: Some(scalar(60_000.0)),
        sigma: Some(scalar(0.0001)),
    };
    let attempt = match s.on_feed(attempt, reading) {
        HftReady::Lookup { attempt, p_start, .. } => {
            assert_eq!(p_start, scalar(59_900.0));
            attempt
        }
        _ => panic!("the tokens are not known yet"),
    };
    assert!(!s.on_tokens(&attempt, "", "down"));
    assert!(s.on_tokens(&attempt, "up", "down"));
    assert!(s.on_books(&attempt, None, None).is_none());
    assert_eq!(s.metrics().counters.skipped_no_book, 1);
    let mid = s.on_books(&attempt, Some(scalar(0.5)), None);
    assert_eq!(mid, Some(MarketMid::Up(scalar(0.5))));
    let q = quotes(0.8, 0.5, 0.5);
    assert!(s.on_estimate(&attempt, Some(estimate(0.8, 0.0)), &q, 0, scalar(0.2)).is_none());
    assert_eq!(s.metrics().counters.skipped_low_confidence, 1);
    let choice = s.on_estimate(&attempt, Some(estimate(0.8, 0.9)), &q, 0, scalar(0.2)).unwrap();
    assert!(choice.pick.up);
    assert!(s.kelly_params(scalar(0.0)).is_none());
    let params = s.kelly_params(scalar(10_000.0)).unwrap();
    assert_eq!(params.bankroll, scalar(10_000.0));
    let order = s.on_sizing(&attempt, &choice, &stake(1_000_000.0), scalar(20.0), "up", "down").unwrap();
    assert_eq!(order.client_order_id.len(), 36);
    assert_eq!(order.notional_usdc, scalar(20.0));
    assert_eq!(order.side, OrderSide::Buy);
    assert_eq!(order.tif, TimeInForce::Ioc);
    assert_eq!(order.outcome, Some("Up".to_string()));
    let ack = OrderAck {
        order_id: "o1".to_string(),
        filled_price: scalar(0.5),
        filled_notional_usdc: scalar(20.0),
        fees_usdc: scalar(0.1),
        filled_at: NOW,
        slippage_bps: scalar(0.0),
        latency_ms: 0,
    };
    let t = s.on_fill(&attempt, &choice, &ack, scalar(40.0), scalar(2.0), 77);
    assert_eq!(t.id, "o1");
    assert_eq!(t.t2t_us, 77);
    assert_eq!(s.metrics().counters.trades_executed, 1);
    assert!(s.on_price_update(&bitcoin(60_001.0), NOW + 1).is_none());
    assert_eq!(s.metrics().counters.skipped_cooldown, 1);
}

#[test]
fn an_edge_is_needed_and_a_wider_one_while_beliefs_jump() {
    let mut s = HftPaperStrategy::new(HftPaperStrategyConfig::default());
    let attempt = s.on_price_update(&bitcoin(1.0), NOW).unwrap();
    assert!(choose_outcome(&quotes(0.5, 0.6, 0.6)).is_none());
    assert!(s.on_estimate(&attempt, Some(estimate(0.5, 0.9)), &quotes(0.5, 0.6, 0.6), 0, scalar(0.2)).is_none());
    assert_eq!(s.metrics().counters.skipped_no_edge, 1);
    let many = s.config.jump_count_threshold;
    assert!(s.on_estimate(&attempt, Some(estimate(0.6, 0.9)), &quotes(0.6, 0.5, 0.5), many, scalar(0.2)).is_none());
    assert_eq!(s.metrics().counters.skipped_jump_regime, 1);
}

#[test]
fn late_prices_are_passed_over() {
    let mut s = HftPaperStrategy::new(HftPaperStrategyConfig::default());
    assert!(s.on_price_update(&bitcoin(1.0), 1_700_000_100 + 899).is_none());
    assert_eq!(s.metrics().counters.skipped_window, 1);
    s.shutdown();
    assert!(s.stopping);
}
