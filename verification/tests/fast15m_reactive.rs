use betterbot::base::scalar::Scalar;
use betterbot::base::settings::Environment;
use betterbot::vault::fast15m_reactive::{
    Booked, Estimated, Fast15mLatencyRegistry, LatencyHistogram, Opening, Pick, PriceReading,
    PriceUpdateEvent, Quotes, ReactiveFast15mConfig, ReactiveFast15mEngine, Sized, Sizing, Tokens,
    SpanStages, TradeSpan,
};
use betterbot::vault::updown15m::UpDownAsset;

fn scalar(x: f64) -> Scalar {
    if x.is_nan() {
        Scalar::Undefined
    } else {
        let b = x.to_bits() as i64;
        Scalar::Rank(if b < 0 { i64::MIN.wrapping_sub(b) } else { b })
    }
}

fn number(s: Scalar) -> f64 {
    match s {
        Scalar::Undefined => f64::NAN,
        Scalar::Rank(a) => {
            if a < 0 {
                -f64::from_bits((-a) as u64)
            } else {
                f64::from_bits(a as u64)
            }
        }
    }
}

const START: i64 = 1_735_699_500;

fn price(symbol: &str) -> PriceUpdateEvent {
    PriceUpdateEvent { symbol: symbol.to_string(), mid: scalar(100.0), received_at_ns: 1_000 }
}

fn quotes(ask_up: Option<f64>, ask_down: Option<f64>, p_up: f64) -> Quotes {
    Quotes {
        ask_up: ask_up.map(scalar),
        ask_down: ask_down.map(scalar),
        edge_up: scalar(p_up - ask_up.unwrap_or(0.0)),
        edge_down: scalar(1.0 - p_up - ask_down.unwrap_or(0.0)),
        p_up: scalar(p_up),
        p_down: scalar(1.0 - p_up),
    }
}

#[test]
fn spans_have_fresh_identifiers() {
    let a = TradeSpan::new("m", "btc", 5);
    let b = TradeSpan::new("m", "btc", 5);
    assert_eq!(a.span_id.len(), 36);
    assert_ne!(a.span_id, b.span_id);
    assert_eq!(a.price_received_ns, 5);
}

#[test]
fn latencies_are_worked_out_once() {
    let mut s = TradeSpan::with_id("id".to_string(), "m", "btc", 1_000);
    s.evaluation_start_ns = 3_000;
    s.gamma_lookup_done_ns = 10_000;
    s.book_fetch_done_ns = 9_000;
    s.finalize();
    assert_eq!(s.latency_to_eval_us, 2);
    assert_eq!(s.latency_gamma_us, 7);
    assert_eq!(s.latency_book_us, 0);
    assert_eq!(s.latency_total_us, 9);
    s.finalize();
    assert_eq!(s.latency_total_us, 9);
    s.traded = true;
    s.ledger_updated_ns = 51_000;
    s.finalize();
    assert_eq!(s.latency_total_us, 50);
}

#[test]
fn a_span_tells_its_stages() {
    let mut s = TradeSpan::with_id("id".to_string(), "m", "btc", 1_000);
    s.evaluation_start_ns = 3_000;
    s.gamma_lookup_done_ns = 10_999;
    s.book_fetch_done_ns = 12_000;
    s.kelly_done_ns = 13_000;
    s.order_submitted_ns = 12_000;
    s.order_acked_ns = 40_000;
    s.ledger_updated_ns = 51_000;
    s.traded = true;
    s.finalize();
    let stages = SpanStages {
        signal_compute_us: 7,
        risk_check_us: 1,
        order_build_us: 0,
        wire_send_us: 28,
        total_us: 50,
    };
    assert_eq!(s.stages(), stages);
}

#[test]
fn percentiles_of_a_histogram() {
    let mut h = LatencyHistogram::new();
    assert_eq!((h.count(), h.p50(), h.max()), (0, 0, 0));
    for i in 1..=100u64 {
        h.record(i);
    }
    assert_eq!((h.count(), h.sum_us(), h.min(), h.max()), (100, 5050, 1, 100));
    assert_eq!(h.p50(), 50);
    assert_eq!(h.p95(), 100);
    assert_eq!(h.p99(), 100);
    assert_eq!(h.p999(), 100);
    assert_eq!(h.percentile(20), 20);
    assert_eq!(h.percentile(21), 50);
    assert_eq!(number(h.mean(scalar(50.5))), 50.5);
    h.record(30_000_000);
    assert_eq!(h.max(), 30_000_000);
    assert_eq!(h.p50(), 100);
}

#[test]
fn registry_counts_spans() {
    let mut r = Fast15mLatencyRegistry::new();
    for (i, reason) in ["no_edge", "cooldown", "no_tokens", "no_asks"].iter().enumerate() {
        let mut s = TradeSpan::with_id(i.to_string(), "m", "btc", 0);
        s.skip_reason = Some(reason.to_string());
        s.gamma_cache_hit = i == 0;
        r.record_span(s);
    }
    let mut s = TradeSpan::with_id("t".to_string(), "m", "btc", 1_000);
    s.traded = true;
    s.ledger_updated_ns = 51_000;
    s.finalize();
    r.record_span(s);
    let sum = r.summary();
    assert_eq!((sum.evaluations, sum.trades_executed), (5, 1));
    assert_eq!((sum.gamma_cache_hits, sum.gamma_cache_misses), (1, 4));
    assert_eq!((sum.t2t_count, sum.t2t_sum_us), (1, 50));
    assert_eq!((r.trades_skipped_no_edge, r.trades_skipped_cooldown), (1, 1));
    assert_eq!(r.recent_spans.len(), 5);
    for i in 0..120 {
        r.record_span(TradeSpan::with_id(i.to_string(), "m", "btc", 0));
    }
    assert_eq!(r.recent_spans.len(), 100);
    assert_eq!(r.recent_spans[99].span_id, "119");
}

#[test]
fn reactive_settings() {
    let cfg = ReactiveFast15mConfig::default();
    assert_eq!(number(cfg.min_edge), 0.01);
    assert_eq!(number(cfg.kelly_fraction), 0.05);
    assert_eq!(number(cfg.shrink_to_half), 0.35);
    assert_eq!(number(cfg.edge_change_threshold), 0.005);
    let mut env = Environment::new();
    env.set("REACTIVE_FAST15M_COOLDOWN_SEC", "5", None);
    env.set("REACTIVE_FAST15M_MIN_EDGE", "0", Some(scalar(0.0)));
    let cfg = ReactiveFast15mConfig::from_env(&env);
    assert_eq!(cfg.cooldown_sec, 5);
    assert_eq!(number(cfg.min_edge), 0.01);
}

#[test]
fn better_outcome_is_picked() {
    let up = quotes(Some(0.5), Some(0.55), 0.6).pick().unwrap();
    assert!(up.up);
    assert_eq!(number(up.price), 0.5);
    assert!(!quotes(Some(0.7), Some(0.35), 0.6).pick().unwrap().up);
    assert!(!quotes(None, Some(0.9), 0.6).pick().unwrap().up);
    assert!(quotes(None, None, 0.6).pick().is_none());
}

#[test]
fn prices_open_attempts() {
    let mut e = ReactiveFast15mEngine::new(ReactiveFast15mConfig::default());
    assert!(matches!(e.on_price_update(&price("DOGEUSDT"), START), Opening::Ignored));
    assert!(matches!(e.on_price_update(&price("BTCUSDT"), START + 841), Opening::Ignored));
    match e.on_price_update(&price("BTCUSDT"), START + 840) {
        Opening::Open(t) => {
            assert_eq!(t.start_ts, START);
            assert_eq!((t.t_rem, t.t_elapsed), (60, 840));
            assert_eq!(t.span.span_id.len(), 36);
            assert_eq!(t.span.market_slug, "btc-updown-15m-1735699500");
        }
        other => panic!("{:?}", other),
    }
}

#[test]
fn an_attempt_from_price_to_ledger() {
    let mut e = ReactiveFast15mEngine::new(ReactiveFast15mConfig::default());
    let attempt = match e.on_price_update(&price("ETHUSDT"), START + 100) {
        Opening::Open(t) => t,
        other => panic!("{:?}", other),
    };
    let reading = PriceReading::Estimate { p_up: scalar(0.6), edge: scalar(0.1), edge_change: scalar(0.1) };
    let attempt = match e.on_estimate(attempt, reading, 5_000) {
        Estimated::Lookup(t) => t,
        other => panic!("{:?}", other),
    };
    assert_eq!(number(e.asset_state(UpDownAsset::Eth).last_p_up), 0.6);
    let (attempt, up, down) = match e.on_tokens(attempt, "u".to_string(), "d".to_string(), 6_000) {
        Tokens::Ready(t, u, d) => (t, u, d),
        other => panic!("{:?}", other),
    };
    let (attempt, token, pick) = match e.on_books(attempt, up, down, quotes(Some(0.5), Some(0.55), 0.6), 7_000, 8_000) {
        Booked::Size(t, token, pick) => (t, token, pick),
        other => panic!("{:?}", other),
    };
    assert_eq!(token, "u");
    let sizing = Sizing { bankroll: scalar(100.0), should_trade: true, position_size_usd: scalar(1.0) };
    let (attempt, order) = match e.on_sizing(attempt, token, pick, sizing, 9_000, 10_000) {
        Sized::Submit(t, o) => (t, o),
        other => panic!("{:?}", other),
    };
    assert_eq!(order.client_order_id.len(), 36);
    assert_eq!(order.outcome.as_deref(), Some("Up"));
    let span = e.on_booked(attempt, 11_000, 12_000);
    assert!(span.traded);
    assert_eq!(span.latency_total_us, 11);
    assert_eq!(e.asset_state(UpDownAsset::Eth).last_trade_ts, START + 100);
    match e.on_price_update(&price("ETHUSDT"), START + 129) {
        Opening::Closed(s) => assert_eq!(s.skip_reason.as_deref(), Some("cooldown")),
        other => panic!("{:?}", other),
    }
    assert!(matches!(e.on_price_update(&price("BTCUSDT"), START + 129), Opening::Open(_)));
    assert!(matches!(e.on_price_update(&price("ETHUSDT"), START + 130), Opening::Open(_)));
}

#[test]
fn attempts_close_with_a_reason() {
    let mut e = ReactiveFast15mEngine::new(ReactiveFast15mConfig::default());
    for (reading, reason) in [
        (PriceReading::NoStartPrice, "no_start_price"),
        (PriceReading::NoSigma, "no_sigma"),
        (PriceReading::NoEstimate, "p_up_calc_failed"),
    ] {
        let attempt = match e.on_price_update(&price("SOLUSDT"), START) {
            Opening::Open(t) => t,
            other => panic!("{:?}", other),
        };
        match e.on_estimate(attempt, reading, 2_000) {
            Estimated::Closed(s) => assert_eq!(s.skip_reason.as_deref(), Some(reason)),
            other => panic!("{:?}", other),
        }
    }
    let open = |e: &mut ReactiveFast15mEngine| match e.on_price_update(&price("SOLUSDT"), START) {
        Opening::Open(t) => t,
        other => panic!("{:?}", other),
    };
    let t = open(&mut e);
    match e.on_tokens(t, String::new(), "d".to_string(), 3_000) {
        Tokens::Closed(s) => assert_eq!(s.skip_reason.as_deref(), Some("no_tokens")),
        other => panic!("{:?}", other),
    }
    let t = open(&mut e);
    match e.on_books(t, "u".to_string(), "d".to_string(), quotes(None, None, 0.6), 4_000, 5_000) {
        Booked::Closed(s) => assert_eq!(s.skip_reason.as_deref(), Some("no_asks")),
        other => panic!("{:?}", other),
    }
    let t = open(&mut e);
    match e.on_books(t, "u".to_string(), "d".to_string(), quotes(Some(0.6), Some(0.45), 0.6), 4_000, 5_000) {
        Booked::Closed(s) => assert_eq!(s.skip_reason.as_deref(), Some("no_edge")),
        other => panic!("{:?}", other),
    }
    let pick = Pick { up: true, price: scalar(0.5), confidence: scalar(0.6), edge: scalar(0.1) };
    let t = open(&mut e);
    let broke = Sizing { bankroll: scalar(0.0), should_trade: true, position_size_usd: scalar(1.0) };
    match e.on_sizing(t, "u".to_string(), pick, broke, 6_000, 7_000) {
        Sized::Closed(s) => assert_eq!(s.skip_reason.as_deref(), Some("no_bankroll")),
        other => panic!("{:?}", other),
    }
    let t = open(&mut e);
    let small = Sizing { bankroll: scalar(1.0), should_trade: false, position_size_usd: scalar(0.0) };
    match e.on_sizing(t, "u".to_string(), pick, small, 6_000, 7_000) {
        Sized::Closed(s) => assert_eq!(s.skip_reason.as_deref(), Some("kelly_skip")),
        other => panic!("{:?}", other),
    }
}
