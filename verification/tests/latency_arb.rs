use betterbot::base::scalar::Scalar;
use betterbot::vault::book_access::{Order, OrderBook};
use betterbot::vault::execution::{OrderSide, TimeInForce};
use betterbot::vault::kelly::{KellyNumbers, KellyResult};
use betterbot::vault::latency_arb::{
    compute_effective_edge, compute_position_size, execute_decision, execute_single_leg, first_leg, spread_bps_of, touch_of, EdgeNumbers,
    DelayPercentiles, DriverShift, EdgeSkip, EffectiveEdge, EvaluationNumbers, ExposureAfter, ExposureError, ExposureTracker, Headroom, LatencyArbConfig,
    LatencyArbEngine, LatencyStats, MicrostructureState, NoActionReason, PairNumbers, ProbabilityDriver,
    ProbabilityEstimate, SizeError, TradeDecision, TwoLegArb,
};

fn scalar(x: f64) -> Scalar {
    if x.is_nan() {
        Scalar::Undefined
    } else {
        let b = x.to_bits() as i64;
        Scalar::Rank(if b < 0 { i64::MIN.wrapping_sub(b) } else { b })
    }
}

fn number(s: Scalar) -> f64 {
    match s {
        Scalar::Undefined => f64::NAN,
        Scalar::Rank(a) => {
            if a < 0 {
                -f64::from_bits((-a) as u64)
            } else {
                f64::from_bits(a as u64)
            }
        }
    }
}

fn stats() -> LatencyStats {
    LatencyStats {
        p50_us: 10_000,
        p90_us: 50_000,
        p95_us: 100_000,
        p99_us: 200_000,
        sample_count: 1000,
        baseline_p95_us: 100_000,
        congestion_ratio: scalar(1.0),
    }
}

fn fill(s: &LatencyStats, max_us: u64) -> f64 {
    let ratio = s.p95_us as f64 / max_us as f64;
    let chance = LatencyStats::within_bounds(scalar(1.0 - ratio.sqrt()));
    let penalized = number(chance) * number(s.congestion_penalty());
    number(s.fill_probability(max_us, scalar(penalized)))
}

fn bias(m: &MicrostructureState) -> f64 {
    let t = m.bias_terms();
    let mut bias = number(t.taker_imbalance) * 0.4;
    if let Some((b, a)) = t.depths {
        bias += (number(b) - number(a)) / (number(b) + number(a)) * 0.3;
    }
    if let Some((lifts, hits, total)) = t.aggression {
        bias += (lifts as f64 - hits as f64) / total as f64 * 0.3;
    }
    number(m.directional_bias(scalar(bias)))
}

fn room(e: &ExposureTracker, market: &str, topic: &str, cfg: &LatencyArbConfig) -> Headroom {
    let bankroll = number(e.bankroll);
    Headroom {
        market: scalar(bankroll * number(cfg.max_position_pct_per_market) - number(e.market_exposure(market))),
        topic: scalar(bankroll * number(cfg.max_position_pct_per_topic) - number(e.topic_exposure(topic))),
        total: scalar(bankroll * number(cfg.max_total_exposure_pct) - number(e.total_exposure)),
    }
}

fn add(e: &mut ExposureTracker, market: &str, topic: &str, amount: f64) {
    let after = ExposureAfter {
        market: scalar(number(e.market_exposure(market)) + amount),
        topic: scalar(number(e.topic_exposure(topic)) + amount),
        total: scalar(number(e.total_exposure) + amount),
    };
    e.add_exposure(market, topic, &after);
}

fn book() -> OrderBook {
    OrderBook {
        bids: vec![Order { price: scalar(0.49), size: scalar(1000.0) }],
        asks: vec![Order { price: scalar(0.51), size: scalar(1000.0) }],
    }
}

fn edge_numbers(e: &ProbabilityEstimate, b: &OrderBook, s: &LatencyStats, cfg: &LatencyArbConfig) -> EdgeNumbers {
    let raw = number(e.private_prob) - number(e.market_prob);
    let (bid, ask) = touch_of(b);
    let spread = number(ask) - number(bid);
    let mid = (number(bid) + number(ask)) / 2.0;
    let slippage = spread * number(cfg.slippage_buffer_frac);
    let chance = fill(s, cfg.max_tail_latency_us);
    EdgeNumbers {
        raw_edge: scalar(raw),
        spread_bps: spread_bps_of(scalar(mid), scalar(spread / mid * 10_000.0)),
        top_liquidity: scalar(b.asks.first().map(|o| number(o.price) * number(o.size)).unwrap_or(0.0)),
        expected_slippage: scalar(slippage),
        fill_probability: scalar(chance),
        effective_edge: scalar((raw.abs() - number(cfg.fee_rate_taker) - slippage) * chance),
    }
}

#[test]
fn test_microstructure_directional_bias() {
    let mut micro = MicrostructureState::default();
    micro.taker_imbalance = scalar(0.3);
    micro.bid_depth_ratio = scalar(1.2);
    micro.ask_depth_ratio = scalar(0.8);
    micro.lift_count = 5;
    micro.hit_count = 1;
    let bias = bias(&micro);
    assert!(bias > 0.0);
    assert!(bias < 1.0);
}

#[test]
fn test_fill_probability_from_latency() {
    let stats = stats();
    let fill_prob = fill(&stats, 500_000);
    assert!(fill_prob > 0.5);
    assert!(fill_prob < 1.0);
    let degraded = LatencyStats { p95_us: 400_000, congestion_ratio: scalar(4.0), ..stats };
    assert!(fill(&degraded, 500_000) < fill_prob);
}

#[test]
fn test_effective_edge_computation() {
    let mut estimate = ProbabilityEstimate::new("test-market", "token-yes", "token-no");
    estimate.private_prob = scalar(0.60);
    estimate.market_prob = scalar(0.50);
    let cfg = LatencyArbConfig::default();
    let edge = compute_effective_edge(&edge_numbers(&estimate, &book(), &stats(), &cfg), &stats(), &cfg);
    assert!(number(edge.raw_edge) > 0.0);
    assert!(number(edge.effective_edge) < number(edge.raw_edge));
}

#[test]
fn test_exposure_limits() {
    let mut exposure = ExposureTracker::new(scalar(10_000.0));
    let cfg = LatencyArbConfig::default();
    let allowed = exposure.can_add_exposure(scalar(100.0), &room(&exposure, "market-1", "crypto", &cfg));
    assert!(allowed.is_ok());
    add(&mut exposure, "market-1", "crypto", 100.0);
    let allowed2 = exposure.can_add_exposure(scalar(50.0), &room(&exposure, "market-1", "crypto", &cfg));
    assert!(allowed2.is_ok());
    add(&mut exposure, "market-1", "crypto", 90.0);
    let limit_check = exposure
        .can_add_exposure(scalar(100.0), &room(&exposure, "market-1", "crypto", &cfg))
        .unwrap();
    assert!((number(limit_check) - 10.0).abs() < 1e-9);
}

#[test]
fn each_limit_has_its_error() {
    let e = ExposureTracker::new(scalar(100.0));
    let full = |m: f64, t: f64, a: f64| Headroom { market: scalar(m), topic: scalar(t), total: scalar(a) };
    assert_eq!(e.can_add_exposure(scalar(1.0), &full(0.0, 1.0, 1.0)), Err(ExposureError::Market));
    assert_eq!(e.can_add_exposure(scalar(1.0), &full(1.0, 0.0, 1.0)), Err(ExposureError::Topic));
    assert_eq!(e.can_add_exposure(scalar(1.0), &full(1.0, 1.0, 0.0)), Err(ExposureError::Total));
    assert_eq!(e.can_add_exposure(scalar(5.0), &full(4.0, 3.0, 2.0)), Ok(scalar(2.0)));
    assert_eq!(ExposureError::Market.message(), "Market exposure limit reached");
}

#[test]
fn each_obstacle_has_its_reason() {
    let mut estimate = ProbabilityEstimate::new("m", "y", "n");
    estimate.private_prob = scalar(0.60);
    estimate.market_prob = scalar(0.50);
    let cfg = LatencyArbConfig::default();
    let wide = OrderBook {
        bids: vec![Order { price: scalar(0.10), size: scalar(1000.0) }],
        asks: vec![Order { price: scalar(0.90), size: scalar(1000.0) }],
    };
    let r = compute_effective_edge(&edge_numbers(&estimate, &wide, &stats(), &cfg), &stats(), &cfg);
    assert!(matches!(r.skip_reason, Some(EdgeSkip::WideSpread { .. })));
    let thin = OrderBook {
        bids: vec![Order { price: scalar(0.4999), size: scalar(1.0) }],
        asks: vec![Order { price: scalar(0.5001), size: scalar(1.0) }],
    };
    let r = compute_effective_edge(&edge_numbers(&estimate, &thin, &stats(), &cfg), &stats(), &cfg);
    assert!(matches!(r.skip_reason, Some(EdgeSkip::ThinTop { .. })));
    assert!(!r.tradeable);
    let slow = LatencyStats { congestion_ratio: scalar(100.0), ..stats() };
    let near = OrderBook {
        bids: vec![Order { price: scalar(0.4999), size: scalar(10000.0) }],
        asks: vec![Order { price: scalar(0.5001), size: scalar(10000.0) }],
    };
    let r = compute_effective_edge(&edge_numbers(&estimate, &near, &slow, &cfg), &slow, &cfg);
    assert!(matches!(r.skip_reason, Some(EdgeSkip::Degraded { .. })));
    estimate.private_prob = scalar(0.5001);
    let r = compute_effective_edge(&edge_numbers(&estimate, &near, &stats(), &cfg), &stats(), &cfg);
    assert!(matches!(r.skip_reason, Some(EdgeSkip::BelowMinimum { .. })));
}

#[test]
fn congestion_lowers_the_chance_of_a_fill() {
    let calm = stats();
    let busy = LatencyStats { congestion_ratio: scalar(1.3), ..calm };
    let jammed = LatencyStats { congestion_ratio: scalar(1.6), ..calm };
    assert_eq!(number(calm.congestion_penalty()), 1.0);
    assert_eq!(number(busy.congestion_penalty()), 0.9);
    assert_eq!(number(jammed.congestion_penalty()), 0.8);
    let unknown = LatencyStats { sample_count: 9, ..calm };
    assert_eq!(unknown.fill_probability(500_000, scalar(0.9)), scalar(0.5));
    assert_eq!(calm.fill_probability(100_000, scalar(0.9)), scalar(0.1));
    assert!(!LatencyStats { baseline_p95_us: 0, ..jammed }.is_degraded(scalar(1.0)));
    assert!(jammed.is_degraded(scalar(1.5)));
}

#[test]
fn an_estimate_stays_inside_its_bounds() {
    let mut e = ProbabilityEstimate::new("m", "y", "n");
    let driver = ProbabilityDriver::ExternalSignal { source: "s".to_string(), implied_prob: scalar(2.0) };
    e.update(driver, scalar(2.0), 5);
    assert!(number(e.private_prob) < 1.0);
    assert_eq!(e.updated_at, 5);
    assert_eq!(e.active_drivers.len(), 1);
}

#[test]
fn a_market_that_is_unknown_is_not_traded() {
    let engine = LatencyArbEngine::new(LatencyArbConfig::default(), scalar(1000.0));
    assert_eq!(engine.diagnostics_summary(scalar(0.0)).total_decisions, 0);
    assert!(engine.markets.get("m").is_none());
    assert!(!matches!(NoActionReason::NotRegistered, NoActionReason::Cooldown { .. }));
    let mut engine = engine;
    engine.register_market("m", "y", "n", "crypto");
    assert_eq!(engine.markets.get("m").unwrap().topic, "crypto");
    engine.update_baseline(70);
    assert_eq!(engine.baseline_latency_p95, 70);
}

fn clip(token: &str) -> TradeDecision {
    TradeDecision::AggressiveClip {
        token_id: token.to_string(),
        side: OrderSide::Buy,
        price: scalar(0.5),
        size_usd: scalar(25.0),
        timeout_ms: 500,
    }
}

#[test]
fn a_leg_becomes_an_order() {
    let (order, timeout_ms) = execute_single_leg(&clip("t")).unwrap();
    assert_eq!(order.client_order_id.len(), 36);
    assert_eq!(order.token_id, "t");
    assert_eq!(order.tif, TimeInForce::Ioc);
    assert_eq!(order.notional_usdc, scalar(25.0));
    assert_eq!(timeout_ms, 500);
    let passive = TradeDecision::PassiveOrder {
        token_id: "t".to_string(),
        side: OrderSide::Sell,
        price: scalar(0.5),
        size_usd: scalar(25.0),
        timeout_ms: 9,
    };
    assert_eq!(execute_single_leg(&passive).unwrap().0.tif, TimeInForce::Gtc);
    assert!(execute_single_leg(&TradeDecision::NoAction { reason: NoActionReason::NotRegistered }).is_none());
}

#[test]
fn a_second_leg_follows_a_fill_or_a_true_arbitrage() {
    let pair = |sure: bool| TradeDecision::TwoLegArbitrage {
        leg1: Box::new(clip("a")),
        leg2: Box::new(clip("b")),
        is_true_arb: sure,
    };
    let token = |d: &TradeDecision| execute_single_leg(d).map(|o| o.0.token_id);
    assert_eq!(token(first_leg(&pair(true))), Some("a".to_string()));
    assert_eq!(execute_decision(&pair(true), false).and_then(token), Some("b".to_string()));
    assert_eq!(execute_decision(&pair(false), true).and_then(token), Some("b".to_string()));
    assert!(execute_decision(&pair(false), false).is_none());
    assert!(execute_decision(&clip("a"), true).is_none());
}

#[test]
fn both_outcomes_are_bought_where_that_is_cheap() {
    let cfg = LatencyArbConfig::default();
    let cheap = |cost: f64| PairNumbers {
        total_cost: scalar(cost),
        cost_limit: scalar(1.0 - number(cfg.fee_rate_taker) * 2.0),
        gross_profit_pct: scalar((1.0 - cost) * 100.0),
        fill_prob: scalar(0.9),
        combined_fill_prob: scalar(0.81),
    };
    let arb = TwoLegArb::from_yes_no_markets(&book(), &book(), "y", "n", &cheap(0.9), &cfg).unwrap();
    assert_eq!(arb.leg1_token, "y");
    assert_eq!(arb.leg2_token, "n");
    assert_eq!(arb.leg1_price, scalar(0.51));
    assert!(TwoLegArb::from_yes_no_markets(&book(), &book(), "y", "n", &cheap(1.02), &cfg).is_none());
    let empty = OrderBook { bids: vec![], asks: vec![] };
    assert!(TwoLegArb::from_yes_no_markets(&empty, &book(), "y", "n", &cheap(0.5), &cfg).is_none());
}

fn evaluation(engine: &LatencyArbEngine, b: &OrderBook) -> EvaluationNumbers {
    let cfg = &engine.config;
    let e = &engine.markets.get("m").unwrap().estimate;
    let q = number(e.market_prob);
    EvaluationNumbers {
        edge: edge_numbers(e, b, &stats(), cfg),
        upper: scalar(q + 0.02),
        lower: scalar(q - 0.02),
        kelly: KellyNumbers {
            edge: scalar(number(e.private_prob) - q),
            full_kelly: scalar(0.2),
            capped_fraction: scalar(0.02),
            position_usd: scalar(20.0),
        },
        scaled: scalar(15.0),
        room: room(&engine.exposure, "m", "crypto", cfg),
        doubled_min_edge: scalar(number(cfg.min_effective_edge) * 2.0),
    }
}

#[test]
fn a_decision_needs_confirming_drivers_and_is_written_down() {
    let mut engine = LatencyArbEngine::new(LatencyArbConfig::default(), scalar(1000.0));
    engine.config.min_confirming_drivers = 1;
    let near = OrderBook {
        bids: vec![Order { price: scalar(0.4999), size: scalar(10000.0) }],
        asks: vec![Order { price: scalar(0.5001), size: scalar(10000.0) }],
    };
    engine.register_market("m", "y", "n", "crypto");
    engine.register_market("other", "y", "n", "crypto");
    let driver = ProbabilityDriver::RelatedMarket { market_slug: "other".to_string(), implied_delta: scalar(0.2) };
    engine.update_market_prob("m", scalar(0.5), driver, scalar(0.7), 5);
    let n = evaluation(&engine, &near);
    let d = engine.evaluate_market("m", &near, &stats(), &n, 1_000_000);
    assert!(matches!(d, TradeDecision::NoAction { reason: NoActionReason::Unconfirmed { drivers: 1, needed: 1, .. } }));
    let driver = ProbabilityDriver::ExternalSignal { source: "s".to_string(), implied_prob: scalar(0.7) };
    engine.update_market_prob("m", scalar(0.5), driver, scalar(0.7), 6);
    let n = evaluation(&engine, &near);
    let d = engine.evaluate_market("m", &near, &stats(), &n, 1_000_000);
    match &d {
        TradeDecision::AggressiveClip { token_id, price, .. } => {
            assert_eq!(token_id, "y");
            assert_eq!(*price, scalar(0.5001));
        }
        _ => panic!("the edge is wide"),
    }
    let unknown = engine.evaluate_market("unknown", &near, &stats(), &n, 1_000_000);
    assert!(matches!(unknown, TradeDecision::NoAction { reason: NoActionReason::NotRegistered }));
    engine.record_execution("m", &d, "", Some(scalar(0.5001)), scalar(0.2), scalar(0.5), &stats(), 1_000_000);
    assert_eq!(engine.diagnostics.total_decisions, 1);
    assert_eq!(engine.diagnostics.total_fills, 1);
    assert_eq!(engine.diagnostics.history[0].decision, "AggressiveClip");
    let d = engine.evaluate_market("m", &near, &stats(), &n, 1_000_001);
    assert!(matches!(d, TradeDecision::NoAction { reason: NoActionReason::Cooldown { .. } }));
    let refused = TradeDecision::NoAction { reason: NoActionReason::NotRegistered };
    engine.record_execution("m", &refused, "Market not registered", None, scalar(0.0), scalar(0.5), &stats(), 7);
    assert_eq!(engine.diagnostics.history[1].decision, "NoAction: Market not registered");
    assert_eq!(engine.diagnostics.total_fills, 1);
}

#[test]
fn drivers_move_an_estimate_in_their_own_ways() {
    let d = ProbabilityDriver::CrossMarketConsistency { implied_prob: scalar(0.6), confidence: scalar(0.3) };
    assert_eq!(d.shift_of(), DriverShift::Toward { target: scalar(0.6), confidence: scalar(0.3) });
    let d = ProbabilityDriver::RelatedMarket { market_slug: "m".to_string(), implied_delta: scalar(0.1) };
    assert_eq!(d.shift_of(), DriverShift::By { delta: scalar(0.1), confidence: scalar(0.5) });
    let d = ProbabilityDriver::ExternalSignal { source: "s".to_string(), implied_prob: scalar(0.6) };
    assert_eq!(d.shift_of(), DriverShift::Toward { target: scalar(0.6), confidence: scalar(0.7) });
    let d = ProbabilityDriver::Microstructure { bias: scalar(0.2), signal_count: 2 };
    assert_eq!(d.shift_of(), DriverShift::Lean { bias: scalar(0.2), signal_count: 2 });
}

#[test]
fn exposure_is_taken_back_down_to_zero() {
    let mut e = ExposureTracker::new(scalar(1000.0));
    add(&mut e, "m", "crypto", 30.0);
    let after = ExposureAfter { market: scalar(-10.0), topic: scalar(-10.0), total: scalar(-10.0) };
    e.remove_exposure("m", "crypto", &after);
    assert_eq!(e.market_exposure("m"), scalar(0.0));
    assert_eq!(e.topic_exposure("crypto"), scalar(0.0));
    assert_eq!(e.total_exposure, scalar(0.0));
    e.remove_exposure("unknown", "crypto", &after);
    assert!(e.per_market.get("unknown").is_none());
}

#[test]
fn delays_are_measured_against_a_baseline() {
    let mut engine = LatencyArbEngine::new(LatencyArbConfig::default(), scalar(1000.0));
    let delays = DelayPercentiles { p50_us: 1, p90_us: 2, p95_us: 3, p99_us: 4, count: 600 };
    assert_eq!(engine.latency_stats(&delays, scalar(9.0)).congestion_ratio, scalar(1.0));
    engine.update_baseline(0);
    assert_eq!(engine.baseline_latency_p95, 0);
    engine.update_baseline(2);
    let s = engine.latency_stats(&delays, scalar(1.5));
    assert_eq!(s.congestion_ratio, scalar(1.5));
    assert_eq!(s.baseline_p95_us, 2);
    assert!(LatencyArbEngine::baseline_due(600));
    assert!(!LatencyArbEngine::baseline_due(601));
}

#[test]
fn the_flow_of_orders_drives_an_estimate() {
    let mut engine = LatencyArbEngine::new(LatencyArbConfig::default(), scalar(1000.0));
    engine.register_market("m", "y", "n", "crypto");
    let calm = MicrostructureState::default();
    let quiet = MicrostructureState { bid_depth_ratio: scalar(1.0), ask_depth_ratio: scalar(1.0), ..calm };
    let zero = scalar(0.0);
    assert_eq!(engine.update_microstructure("m", quiet, zero, zero, zero, scalar(0.5), 5), None);
    assert_eq!(engine.markets.get("m").unwrap().estimate.active_drivers.len(), 0);
    let busy = MicrostructureState { lift_count: 4, ..quiet };
    let leans = engine.update_microstructure("m", busy, zero, zero, scalar(0.3), scalar(0.53), 6);
    assert_eq!(leans, Some((1, 0)));
    let e = &engine.markets.get("m").unwrap().estimate;
    assert_eq!(e.active_drivers.len(), 1);
    assert_eq!(e.private_prob, scalar(0.53));
    assert_eq!(engine.update_microstructure("unknown", busy, zero, zero, zero, zero, 6), None);
}

#[test]
fn a_position_stays_within_what_the_limits_leave() {
    let cfg = LatencyArbConfig { min_clip_usd: scalar(5.0), max_clip_usd: scalar(100.0), ..Default::default() };
    let edge = EffectiveEdge {
        raw_edge: scalar(0.1),
        fee_cost: scalar(0.0),
        expected_slippage: scalar(0.0),
        fill_probability: scalar(1.0),
        effective_edge: scalar(0.1),
        tradeable: true,
        skip_reason: None,
    };
    let kelly = KellyResult {
        position_size_usd: scalar(500.0),
        full_kelly_fraction: scalar(0.5),
        actual_fraction: scalar(0.05),
        edge: scalar(0.1),
        should_trade: true,
        skip_reason: None,
    };
    let e = ExposureTracker::new(scalar(10_000.0));
    let size = |scaled: f64, market: f64, edge: &EffectiveEdge, kelly: &KellyResult| {
        let room = Headroom { market: scalar(market), topic: scalar(1000.0), total: scalar(1000.0) };
        compute_position_size(edge, kelly, scalar(scaled), &e, &room, &cfg)
    };
    assert_eq!(size(500.0, 1000.0, &edge, &kelly), Ok(scalar(100.0)));
    assert_eq!(size(50.0, 20.0, &edge, &kelly), Ok(scalar(20.0)));
    assert_eq!(size(50.0, 5.0, &edge, &kelly), Ok(scalar(5.0)));
    let low = SizeError::BelowMinimum { size: scalar(1.0), minimum: scalar(5.0) };
    assert_eq!(size(50.0, 1.0, &edge, &kelly), Err(low));
    assert_eq!(size(1.0, 50.0, &edge, &kelly), Err(low));
    assert_eq!(size(50.0, 0.0, &edge, &kelly), Err(SizeError::Exposure(ExposureError::Market)));
    let closed = EffectiveEdge { tradeable: false, ..edge };
    assert_eq!(size(50.0, 50.0, &closed, &kelly), Err(SizeError::NotTradeable(None)));
    let idle = KellyResult { should_trade: false, ..kelly };
    assert_eq!(size(50.0, 50.0, &edge, &idle), Err(SizeError::NoStake(None)));
}
