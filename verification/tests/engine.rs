use betterbot::base::scalar::Scalar;
use betterbot::base::settings::Environment;
use betterbot::models::{MarketSignal, SignalDetails, SignalType};
use betterbot::vault::book_access::{Order, OrderBook};
use betterbot::vault::engine::{
    assets_of_tick, best_bid_ask_spread_top_usd, best_level, choose_updown, counts_for_nav, mark_of,
    market_at, market_mid, nav_figures, nav_snapshot_secs, periodic_snapshot, snapshot_bucket,
    snapshot_text, spread_bps_to_price, updown_estimate, updown_inputs, updown_order, updown_params,
    updown_time_left, Executor, LongOff, Mark, UpDownLoop, UpDownReading, UpDownTokens, VaultEngine,
    VaultEngineConfig,
};
use betterbot::vault::execution::{OrderAck, OrderSide, TimeInForce};
use betterbot::vault::fast15m_reactive::Quotes;
use betterbot::vault::kelly::KellyResult;
use betterbot::vault::llm::{parse_decision_dsl, LlmCallOutput, LlmUsage, ParsedDecisionDsl};
use betterbot::vault::long_decision::{
    agreed_chance, agreed_size, decision_text, dispersion_penalty, effective_price, entry_order,
    exit_order, gate_quote, long_record_model_call, on_entry_filled, on_exit_filled, on_scout,
    on_scout_edge, on_votes, open_case, panel_models, plan_exit, shares_to_sell, slippage_of,
    stake_params, tally, tokens_of_call, within_horizon, LongCase, ModelAnswer, PricedBelief, Scouted,
    TopQuote, Voted,
};
use betterbot::vault::long_engine::{
    long_system_prompt, long_user_prompt, parse_expiry_ts, utc_day_start, GammaMarketLookup,
    LongEngineState, PromptFigures,
};
use betterbot::vault::long_evaluation::{
    begin_evaluation, long_can_spend_calls, long_spend_after_call, AfterPrice, AfterScout, AfterVotes, PanelMeans,
    Polling, PriceFigures,
};
use betterbot::vault::rnjd::RnjdEstimate;
use betterbot::vault::updown15m::UpDownAsset;
use betterbot::vault::updown_evaluation::{open_updown, Opened, UpDownEdges, UpDownPair};

fn scalar(x: f64) -> Scalar {
    if x.is_nan() {
        Scalar::Undefined
    } else {
        let b = x.to_bits() as i64;
        Scalar::Rank(if b < 0 { i64::MIN.wrapping_sub(b) } else { b })
    }
}

fn number(s: Scalar) -> f64 {
    match s {
        Scalar::Undefined => f64::NAN,
        Scalar::Rank(a) => {
            if a < 0 {
                -f64::from_bits((-a) as u64)
            } else {
                f64::from_bits(a as u64)
            }
        }
    }
}

fn named(text: &str) -> String {
    uuid::Uuid::new_v5(&uuid::Uuid::NAMESPACE_URL, text.as_bytes()).to_string()
}

fn level(price: f64, size: f64) -> Order {
    Order { price: scalar(price), size: scalar(size) }
}

fn entry_signal(id: &str, slug: &str, wallet: &str, label: &str, usd: f64, outcome: &str) -> MarketSignal {
    MarketSignal {
        id: id.to_string(),
        signal_type: SignalType::TrackedWalletEntry {
            wallet_address: wallet.to_string(),
            wallet_label: label.to_string(),
            position_value_usd: scalar(usd),
            order_count: 1,
            token_label: Some(outcome.to_string()),
        },
        market_slug: slug.to_string(),
        confidence: scalar(0.8),
        risk_level: "low".to_string(),
        details: SignalDetails {
            market_id: "m".to_string(),
            market_title: "Will it rain?".to_string(),
            current_price: scalar(0.4),
            volume_24h: scalar(1000.0),
            liquidity: scalar(5000.0),
            recommended_action: "BUY".to_string(),
            expiry_time: None,
            observed_timestamp: None,
            signal_family: None,
            calibration_version: None,
            guardrail_flags: None,
            recommended_size: None,
        },
        detected_at: "2025-01-01T00:00:00Z".to_string(),
        source: "dome".to_string(),
    }
}

fn listing(expiry: Option<&str>) -> GammaMarketLookup {
    GammaMarketLookup {
        question: Some("Will it rain?".to_string()),
        description: Some("Rain in town.".to_string()),
        outcomes: vec!["Yes".to_string(), "No".to_string()],
        clob_token_ids: vec!["t0".to_string(), "t1".to_string()],
        end_date_iso: expiry.map(|e| e.to_string()),
    }
}

fn answer(text: &str, p: Option<f64>, size: Option<f64>) -> ParsedDecisionDsl {
    match parse_decision_dsl(text) {
        Ok(lines) => lines.with_numbers(p.map(scalar), size.map(scalar)),
        Err(e) => panic!("{}", e.message()),
    }
}

fn a_case() -> LongCase {
    let signal = entry_signal("s1", "Rain", "0xabc", "insider", 500.0, "Yes");
    open_case("Rain", &signal, listing(Some("2025-01-02T00:00:00Z")), 1_735_700_000).unwrap()
}

fn a_belief(edge: f64) -> PricedBelief {
    PricedBelief {
        p_true: scalar(0.7),
        bid: Some(scalar(0.38)),
        ask: scalar(0.4),
        p_eff: scalar(0.42),
        edge: scalar(edge),
    }
}

fn an_ack(price: f64, notional: f64) -> OrderAck {
    OrderAck {
        order_id: "o1".to_string(),
        filled_notional_usdc: scalar(notional),
        filled_price: scalar(price),
        filled_at: 1_735_700_003,
        fees_usdc: scalar(0.0),
        slippage_bps: scalar(0.0),
        latency_ms: 3,
    }
}

#[test]
fn engine_defaults_and_settings() {
    let cfg = VaultEngineConfig::default();
    assert!(!cfg.enabled);
    assert!(cfg.paper);
    assert_eq!(cfg.updown_poll_ms, 2000);
    assert_eq!(number(cfg.updown_min_edge), 0.01);
    assert_eq!(number(cfg.max_drawdown_pct), 0.3);
    assert_eq!(number(cfg.long_dispersion_max), 0.12);
    assert_eq!(cfg.long_models.len(), 4);

    let mut env = Environment::new();
    env.set("VAULT_ENGINE_ENABLED", "true", None);
    env.set("VAULT_ENGINE_PAPER", "false", None);
    env.set("VAULT_LLM_MODELS", "a/b, ,c/d", None);
    env.set("VAULT_LLM_MAX_SPREAD_BPS", "-1", Some(scalar(-1.0)));
    env.set("VAULT_LLM_MAX_CALLS_PER_DAY", "7", Some(scalar(7.0)));
    let read = VaultEngineConfig::from_env(&env);
    assert!(read.enabled);
    assert!(!read.paper);
    assert_eq!(read.long_models, vec!["a/b".to_string(), "c/d".to_string()]);
    assert_eq!(number(read.long_max_spread_bps), 500.0);
    assert_eq!(read.long_max_calls_per_day, 7);
}

#[test]
fn engine_spawns_as_asked() {
    assert!(VaultEngine::spawn(VaultEngineConfig::default(), true, true).is_none());
    let mut cfg = VaultEngineConfig::default();
    cfg.enabled = true;
    let (_, plan) = VaultEngine::spawn(cfg, true, true).unwrap();
    assert!(matches!(plan.executor, Executor::Paper));
    assert!(matches!(plan.long_off, Some(LongOff::NotEnabled)));

    let mut cfg = VaultEngineConfig::default();
    cfg.enabled = true;
    cfg.paper = false;
    cfg.long_enabled = true;
    let (_, plan) = VaultEngine::spawn(cfg, false, false).unwrap();
    assert!(matches!(plan.executor, Executor::Paper));
    assert!(plan.fell_back);
    assert!(matches!(plan.long_off, Some(LongOff::NoKey)));

    let mut cfg = VaultEngineConfig::default();
    cfg.enabled = true;
    cfg.paper = false;
    cfg.long_enabled = true;
    let (engine, plan) = VaultEngine::spawn(cfg, true, true).unwrap();
    assert!(matches!(plan.executor, Executor::Live));
    assert!(!plan.fell_back);
    assert!(plan.long_off.is_none());
    assert!(!engine.updown.halted);

    let mut cfg = VaultEngineConfig::default();
    cfg.enabled = true;
    cfg.long_enabled = true;
    cfg.long_models = vec!["only".to_string()];
    let (_, plan) = VaultEngine::spawn(cfg, true, true).unwrap();
    assert!(matches!(plan.long_off, Some(LongOff::TooFewModels)));
}

#[test]
fn best_levels_of_an_unsorted_book() {
    let book = OrderBook {
        bids: vec![level(0.3, 10.0), level(0.35, 5.0), level(0.2, 1.0)],
        asks: vec![level(0.5, 2.0), level(0.4, 7.0)],
    };
    let tops = best_bid_ask_spread_top_usd(&book);
    assert_eq!(number(tops.bid.unwrap().price), 0.35);
    assert_eq!(number(tops.ask.unwrap().price), 0.4);
    assert_eq!(number(tops.ask.unwrap().size), 7.0);
    let (b, a) = tops.spread_of.unwrap();
    assert_eq!((number(b), number(a)), (0.35, 0.4));
    assert!(best_level(&Vec::new(), true).is_none());
    assert!(best_bid_ask_spread_top_usd(&OrderBook { bids: vec![level(0.0, 1.0)], asks: vec![level(0.4, 1.0)] })
        .spread_of
        .is_none());
}

#[test]
fn spreads_turn_into_prices() {
    assert_eq!(number(spread_bps_to_price(scalar(100.0), scalar(0.5), scalar(0.005))), 0.005);
    assert_eq!(number(spread_bps_to_price(scalar(f64::NAN), scalar(0.5), scalar(f64::NAN))), 0.0);
}

#[test]
fn snapshots_of_a_period_share_a_name() {
    assert_eq!(nav_snapshot_secs(&Environment::new()), 60);
    assert_eq!(snapshot_bucket(125, 60), 120);
    assert_eq!(snapshot_text(120, 60), "betterbot:navsnap:120:60");
    let figures = nav_figures(scalar(-1.0), scalar(2.0), scalar(3.0), scalar(4.0), scalar(0.5));
    assert_eq!(number(figures.nav_usdc), 0.0);
    assert_eq!(number(figures.nav_per_share), 0.5);
    let a = periodic_snapshot(125, 60, figures);
    let b = periodic_snapshot(179, 60, figures);
    let c = periodic_snapshot(180, 60, figures);
    assert_eq!(a.id, named("betterbot:navsnap:120:60"));
    assert_eq!(a.id, b.id);
    assert_ne!(a.id, c.id);
    assert_eq!(a.ts, 120);
    assert_eq!(a.source, "periodic");
    let none = nav_figures(scalar(9.0), scalar(9.0), scalar(0.0), scalar(0.0), scalar(f64::NAN));
    assert_eq!(number(none.nav_per_share), 1.0);
}

#[test]
fn shares_are_marked_by_what_is_known() {
    let (b, a, paid) = (scalar(0.4), scalar(0.5), scalar(0.3));
    assert_eq!(mark_of(Some((Some(b), Some(a))), paid), Mark::Between { bid: b, ask: a });
    assert_eq!(mark_of(Some((Some(b), None)), paid), Mark::At(b));
    assert_eq!(mark_of(Some((None, Some(a))), paid), Mark::At(a));
    assert_eq!(mark_of(Some((None, None)), paid), Mark::At(paid));
    assert_eq!(mark_of(None, paid), Mark::At(paid));
    assert!(counts_for_nav(scalar(1.0), scalar(0.5)));
    assert!(!counts_for_nav(scalar(0.0), scalar(0.5)));
    assert!(!counts_for_nav(scalar(1.0), scalar(f64::INFINITY)));
}

#[test]
fn quarter_hour_markets() {
    assert_eq!(assets_of_tick().len(), 4);
    let (m, slug) = market_at(UpDownAsset::Btc, 1_735_700_123);
    assert_eq!(m.start_ts, 1_735_699_500);
    assert_eq!(m.end_ts, 1_735_700_400);
    assert_eq!(slug, "btc-updown-15m-1735699500");
    assert_eq!(updown_time_left(&m, 1_735_700_386), None);
    assert_eq!(updown_time_left(&m, 1_735_700_385), Some(15));
}

#[test]
fn halt_is_for_good() {
    let mut l = UpDownLoop::new();
    assert!(l.begin_tick(scalar(0.1), scalar(0.3)));
    assert!(!l.begin_tick(scalar(0.3), scalar(0.3)));
    assert!(!l.begin_tick(scalar(0.0), scalar(0.3)));
}

#[test]
fn traded_markets_cool_down() {
    let mut l = UpDownLoop::new();
    assert!(matches!(l.tokens_of("m", 100, 30), UpDownTokens::Lookup));
    assert!(!l.learn_tokens("m", "up", ""));
    assert!(matches!(l.tokens_of("m", 100, 30), UpDownTokens::Lookup));
    assert!(l.learn_tokens("m", "up", "down"));
    match l.tokens_of("m", 100, 30) {
        UpDownTokens::Known(u, d) => assert_eq!((u.as_str(), d.as_str()), ("up", "down")),
        other => panic!("{:?}", other),
    }
    l.on_traded("m", 100);
    assert!(matches!(l.tokens_of("m", 129, 30), UpDownTokens::Cooling));
    assert!(matches!(l.tokens_of("m", 130, 30), UpDownTokens::Known(_, _)));
}

#[test]
fn updown_evaluation() {
    let mut reading = UpDownReading {
        p_now: Some(scalar(101.0)),
        p_start: Some(scalar(100.0)),
        sigma: Some(scalar(0.001)),
        oracle_lags: false,
    };
    assert!(updown_inputs(&reading).is_some());
    reading.oracle_lags = true;
    assert!(updown_inputs(&reading).is_none());
    reading.oracle_lags = false;
    reading.sigma = None;
    assert!(updown_inputs(&reading).is_none());

    assert!(updown_estimate(None, None).is_none());
    let plain = updown_estimate(None, Some(scalar(0.6))).unwrap();
    assert_eq!(number(plain.confidence), 0.5);
    assert!(!plain.jump_regime);
    let _ = market_mid(None, None);

    let q = Quotes {
        ask_up: Some(scalar(0.55)),
        ask_down: Some(scalar(0.47)),
        edge_up: scalar(0.015),
        edge_down: scalar(-0.04),
        p_up: scalar(0.565),
        p_down: scalar(0.435),
    };
    let pick = choose_updown(&q, false, scalar(0.01), scalar(0.02)).unwrap();
    assert!(pick.up);
    assert!(choose_updown(&q, true, scalar(0.01), scalar(0.02)).is_none());

    let cfg = VaultEngineConfig::default();
    assert!(updown_params(&cfg, scalar(0.0)).is_none());
    let params = updown_params(&cfg, scalar(50.0)).unwrap();
    assert_eq!(number(params.kelly_fraction), 0.05);
    let mut kelly = KellyResult {
        position_size_usd: scalar(1.5),
        full_kelly_fraction: scalar(0.1),
        actual_fraction: scalar(0.01),
        edge: scalar(0.015),
        should_trade: true,
        skip_reason: None,
    };
    let order = updown_order(&pick, &kelly, "slug", "up", "down").unwrap();
    assert_eq!(order.client_order_id.len(), 36);
    assert_eq!(order.token_id, "up");
    assert_eq!(order.outcome.as_deref(), Some("Up"));
    assert_eq!(number(order.notional_usdc), 1.5);
    assert!(matches!(order.tif, TimeInForce::Ioc));
    kelly.should_trade = false;
    assert!(updown_order(&pick, &kelly, "slug", "up", "down").is_none());
}

#[test]
fn days_start_at_midnight() {
    assert_eq!(utc_day_start(0), 0);
    assert_eq!(utc_day_start(86_399), 0);
    assert_eq!(utc_day_start(86_400), 86_400);
    assert_eq!(utc_day_start(1_735_700_123), 1_735_689_600);
    assert_eq!(utc_day_start(-1), -86_400);
    assert_eq!(utc_day_start(i64::MAX), 0);
    assert_eq!(utc_day_start(i64::MIN), 0);
    assert_eq!(utc_day_start(8_210_266_876_799), 8_210_266_790_400);
    assert_eq!(utc_day_start(8_210_266_876_800), 0);
    assert_eq!(utc_day_start(-8_334_601_228_800), -8_334_601_228_800);
    assert_eq!(utc_day_start(-8_334_601_228_801), 0);
}

#[test]
fn budgets_of_a_day() {
    let mut cfg = VaultEngineConfig::default();
    cfg.long_max_calls_per_day = 3;
    cfg.long_max_calls_per_market_per_day = 2;
    cfg.long_max_tokens_per_day = 100;
    let mut s = LongEngineState::new();
    s.reset_day_if_needed(1_735_700_123);
    assert_eq!(s.budget_day_start_ts, 1_735_689_600);
    s.upsert_market_signal(entry_signal("s", "Rain", "0x", "x", 1.0, "Yes"), 1_735_700_123);
    assert!(s.can_spend_calls("RAIN", 2, &cfg));
    assert!(!s.can_spend_calls("RAIN", 3, &cfg));
    assert!(s.can_spend_calls("other", 3, &cfg));
    s.spend_call("rain", 40, &cfg);
    s.spend_call("rain", 40, &cfg);
    assert!(!s.can_spend_calls("rain", 1, &cfg));
    assert!(s.can_spend_calls("other", 1, &cfg));
    assert!(!s.can_spend_calls("other", 2, &cfg));
    s.spend_call("other", 40, &cfg);
    assert_eq!(s.tokens_today, 100);
    assert!(!s.can_spend_calls("other", 0, &cfg));
    s.reset_day_if_needed(1_735_700_124);
    assert_eq!(s.calls_today, 3);
    s.reset_day_if_needed(1_735_776_000);
    assert_eq!((s.calls_today, s.tokens_today), (0, 0));
    assert!(s.can_spend_calls("rain", 2, &cfg));
}

#[test]
fn wallets_that_hurry_or_hedge_are_not_followed() {
    let mut s = LongEngineState::new();
    assert!(!s.record_wallet_activity("", "m", 100, "Yes", 60, 2));
    assert!(s.record_wallet_activity("0xA", "M", 100, "Yes", 60, 2));
    assert!(s.record_wallet_activity("0xa", "m", 110, " yes ", 60, 2));
    assert!(!s.record_wallet_activity("0xa", "m", 120, "Yes", 60, 2));
    assert!(s.record_wallet_activity("0xa", "m", 175, "Yes", 60, 2));
    assert!(!s.record_wallet_activity("0xa", "m", 240, "Yes", 0, 0));
    let mut t = LongEngineState::new();
    assert!(t.record_wallet_activity("0xb", "m", 100, "", 60, 9));
    assert!(t.record_wallet_activity("0xb", "m", 101, "Yes", 60, 9));
    assert!(!t.record_wallet_activity("0xb", "m", 102, "No", 60, 9));
}

#[test]
fn candidates_are_taken_once() {
    let cfg = VaultEngineConfig::default();
    let mut s = LongEngineState::new();
    s.upsert_market_signal(entry_signal("s1", "A", "0x", "x", 1.0, "Yes"), 1000);
    s.upsert_market_signal(entry_signal("s2", "b", "0x", "x", 1.0, "Yes"), 1000);
    let due = s.take_due_candidates(1000, &cfg);
    assert_eq!(due.len(), 2);
    assert_eq!(due[0].0, "a");
    assert_eq!(due[0].1.id, "s1");
    assert!(s.take_due_candidates(5000, &cfg).is_empty());
    s.upsert_market_signal(entry_signal("s3", "a", "0x", "x", 1.0, "Yes"), 1010);
    assert!(s.take_due_candidates(1059, &cfg).is_empty());
    assert_eq!(s.take_due_candidates(1060, &cfg).len(), 1);
    s.note_trade("A", 1060);
    s.upsert_market_signal(entry_signal("s4", "a", "0x", "x", 1.0, "Yes"), 1100);
    assert!(s.take_due_candidates(1359, &cfg).is_empty());
    assert_eq!(s.take_due_candidates(1360, &cfg).len(), 1);
}

#[test]
fn signals_worth_noting() {
    let cfg = VaultEngineConfig::default();
    let mut s = LongEngineState::new();
    assert!(s.ingest_long_signal(entry_signal("s", "m", " 0xA ", "Insider", 50.0, "Yes"), &cfg, 1000));
    assert!(!s.ingest_long_signal(entry_signal("s", "m", "0xB", "Insider", 49.0, "Yes"), &cfg, 1000));
    assert!(!s.ingest_long_signal(entry_signal("s", "m", "0xB", "HFT desk", 50.0, "Yes"), &cfg, 1000));
    assert!(!s.ingest_long_signal(entry_signal("s", "m", "0xB", "high_frequency", 50.0, "Yes"), &cfg, 1000));
    assert!(!s.ingest_long_signal(entry_signal("s", "m", "", "Insider", 50.0, "Yes"), &cfg, 1000));
    assert!(!s.ingest_long_signal(entry_signal("s", "m", "0xB", " ", 50.0, "Yes"), &cfg, 1000));
    let mut other = entry_signal("s", "m", "0xB", "Insider", 50.0, "Yes");
    other.signal_type = SignalType::WhaleCluster { cluster_count: 3 };
    assert!(!s.ingest_long_signal(other, &cfg, 1000));
    assert_eq!(s.take_due_candidates(1000, &cfg).len(), 1);
}

#[test]
fn ends_of_markets() {
    let a = Some("2025-01-02T00:00:00Z".to_string());
    let b = Some("2025-01-03T01:00:00+01:00".to_string());
    let bad = Some("tomorrow".to_string());
    assert_eq!(parse_expiry_ts(&a, &b), Some(1_735_776_000));
    assert_eq!(parse_expiry_ts(&bad, &b), Some(1_735_862_400));
    assert_eq!(parse_expiry_ts(&None, &bad), None);
}

#[test]
fn prompts_name_the_market() {
    assert!(long_system_prompt().starts_with("You are a conservative trading decision module."));
    let signal = entry_signal("s", "rain", "0xabc", "insider", 500.0, "Yes");
    let figures = PromptFigures {
        tte_days: "1.00".to_string(),
        current_price: "0.4000".to_string(),
        liquidity: "5000".to_string(),
        volume_24h: "1000".to_string(),
        position_value_usd: "500".to_string(),
    };
    let prompt = long_user_prompt(&signal, &listing(None), 1_735_776_000, &figures);
    assert_eq!(
        prompt,
        "market_slug=rain\nmarket_title=Will it rain?\nquestion=Will it rain?\ndescription=Rain in town.\nexpiry_ts=1735776000\ntte_days=1.00\n\noutcomes:\n0: Yes\n1: No\n\nmarket_snapshot: current_price=0.4000 liquidity=5000 volume_24h=1000\n\nsignal: wallet_label=insider position_value_usd=500 order_count=1 token_label=Yes \n\nReturn DSL now."
    );
}

#[test]
fn cases_are_opened_on_two_outcomes_and_a_minute() {
    let case = a_case();
    assert_eq!(decision_text("rain", "s1", 1_735_700_000), "betterbot:llm:rain:s1:28928333");
    assert_eq!(case.decision_id, named("betterbot:llm:rain:s1:28928333"));
    assert_eq!(case.tte_sec, 76_000);
    let signal = entry_signal("s1", "Rain", "0xabc", "insider", 500.0, "Yes");
    assert!(open_case("Rain", &signal, listing(None), 1).is_none());
    assert!(open_case("Rain", &signal, listing(Some("2025-01-02T00:00:00Z")), 1_735_775_940).is_none());
    assert!(open_case("Rain", &signal, listing(Some("2025-01-02T00:00:00Z")), 1_735_775_939).is_some());
    let mut three = listing(Some("2025-01-02T00:00:00Z"));
    three.outcomes.push("Maybe".to_string());
    assert!(open_case("Rain", &signal, three, 1).is_none());
    let cfg = VaultEngineConfig::default();
    assert!(within_horizon(&cfg, scalar(240.0)));
    assert!(!within_horizon(&cfg, scalar(240.5)));
}

#[test]
fn scout_decides_whether_the_panel_is_asked() {
    let case = a_case();
    assert!(matches!(on_scout(&case, "m", &None), Scouted::Nothing));
    match on_scout(&case, "m", &Some(answer("ACTION=HOLD\nRATIONALE_HASH=abc", None, None))) {
        Scouted::Hold(r) => {
            assert_eq!(r.action, "HOLD");
            assert_eq!(r.decision_id, case.decision_id);
            assert_eq!(r.consensus_models.as_deref(), Some("m"));
            assert_eq!(r.rationale_hash.as_deref(), Some("abc"));
            assert!(r.edge.is_none());
        }
        other => panic!("{:?}", other),
    }
    let buy = answer("ACTION=BUY\nOUTCOME_INDEX=1\nP_TRUE=0.7", Some(0.7), None);
    match on_scout(&case, "m", &Some(buy)) {
        Scouted::Price { outcome_i, p_true, token_id } => {
            assert_eq!(outcome_i, 1);
            assert_eq!(number(p_true), 0.7);
            assert_eq!(token_id, "t1");
        }
        other => panic!("{:?}", other),
    }
    let vague = answer("ACTION=BUY\nOUTCOME_INDEX=1", None, None);
    assert!(matches!(on_scout(&case, "m", &Some(vague)), Scouted::Nothing));

    let cfg = VaultEngineConfig::default();
    let scout = answer("ACTION=BUY\nOUTCOME_INDEX=0\nP_TRUE=0.7", Some(0.7), None);
    assert!(on_scout_edge(&case, "m", &scout, 0, &a_belief(0.02), &cfg).is_none());
    let held = on_scout_edge(&case, "m", &scout, 0, &a_belief(0.019), &cfg).unwrap();
    assert_eq!(held.action, "HOLD");
    assert_eq!(number(held.edge.unwrap()), 0.019);
    assert_eq!(held.outcome_text.as_deref(), Some("Yes"));
}

#[test]
fn quotes_have_to_be_good_enough() {
    let cfg = VaultEngineConfig::default();
    let good = TopQuote {
        bid: Some(scalar(0.38)),
        ask: Some(scalar(0.4)),
        spread_bps: Some(scalar(500.0)),
        top_usd: Some(scalar(250.0)),
    };
    let (ask, spread) = gate_quote(&good, &cfg).unwrap();
    assert_eq!((number(ask), number(spread)), (0.4, 500.0));
    assert!(gate_quote(&TopQuote { ask: None, ..good }, &cfg).is_none());
    assert!(gate_quote(&TopQuote { spread_bps: None, ..good }, &cfg).is_none());
    assert!(gate_quote(&TopQuote { spread_bps: Some(scalar(501.0)), ..good }, &cfg).is_none());
    assert!(gate_quote(&TopQuote { top_usd: Some(scalar(249.0)), ..good }, &cfg).is_none());
    assert!(gate_quote(&TopQuote { top_usd: None, ..good }, &cfg).is_none());
    assert_eq!(number(slippage_of(scalar(0.004), &cfg)), 0.01);
    assert_eq!(number(slippage_of(scalar(0.02), &cfg)), 0.02);
    assert_eq!(number(effective_price(scalar(1.2))), 0.9999);
    assert_eq!(number(effective_price(scalar(0.0))), 0.0001);
    assert_eq!(number(effective_price(scalar(0.42))), 0.42);
}

fn vote(model: &str, text: Option<(&str, f64)>) -> ModelAnswer {
    ModelAnswer { model: model.to_string(), answer: text.map(|(t, p)| answer(t, Some(p), Some(0.5))) }
}

#[test]
fn three_votes_make_an_agreement() {
    let case = a_case();
    let cfg = VaultEngineConfig::default();
    assert_eq!(panel_models(&cfg), cfg.long_models[1..4].to_vec());
    let scout = answer("ACTION=BUY\nOUTCOME_INDEX=0\nP_TRUE=0.7\nFLAGS=thin", Some(0.7), Some(0.8));
    let yes = "ACTION=BUY\nOUTCOME_INDEX=0\nP_TRUE=0.7";
    let no = "ACTION=BUY\nOUTCOME_INDEX=1\nP_TRUE=0.6";
    let answers = vec![vote("a", Some((yes, 0.7))), vote("b", Some((no, 0.6))), vote("c", Some((yes, 0.75))), vote("d", Some((yes, 0.8)))];
    assert_eq!(tally(&answers, &case.outcomes), (3, 1));
    match on_votes(&case, &scout, 0, &a_belief(0.1), &answers) {
        Voted::Agreed(g) => {
            assert_eq!(g.win_i, 0);
            assert_eq!(g.win_votes, 3);
            assert_eq!(g.models, vec!["a".to_string(), "c".to_string(), "d".to_string()]);
            let ps: Vec<f64> = g.p_list.iter().map(|p| number(*p)).collect();
            assert_eq!(ps, vec![0.7, 0.75, 0.8]);
            assert_eq!(number(agreed_chance(&g, scalar(0.75), scalar(0.7))), 0.75);
            assert_eq!(number(agreed_size(&g, scalar(0.5), Some(scalar(0.8)))), 0.5);
        }
        other => panic!("{:?}", other),
    }
    let split = vec![vote("a", Some((yes, 0.7))), vote("b", Some((no, 0.6))), vote("c", None), vote("d", Some((yes, 0.7)))];
    match on_votes(&case, &scout, 0, &a_belief(0.1), &split) {
        Voted::Hold(r) => {
            assert_eq!(r.action, "HOLD");
            assert_eq!(r.decision_id, case.decision_id);
        }
        other => panic!("{:?}", other),
    }
    assert_eq!(number(dispersion_penalty(scalar(0.12), scalar(0.0))), 0.0);
}

#[test]
fn entries_are_sized_and_named() {
    let case = a_case();
    let cfg = VaultEngineConfig::default();
    assert!(stake_params(&cfg, scalar(0.01), scalar(1000.0)).is_none());
    assert!(stake_params(&cfg, scalar(0.05), scalar(1000.0)).is_some());
    let kelly = KellyResult {
        position_size_usd: scalar(400.0),
        full_kelly_fraction: scalar(0.5),
        actual_fraction: scalar(0.01),
        edge: scalar(0.05),
        should_trade: true,
        skip_reason: None,
    };
    let order = entry_order(&case, 1, scalar(0.4), &kelly, scalar(400.0), scalar(1000.0), &cfg).unwrap();
    assert_eq!(number(order.notional_usdc), 250.0);
    assert_eq!(order.token_id, "t1");
    assert_eq!(order.outcome.as_deref(), Some("No"));
    assert_eq!(
        order.client_order_id,
        named(&format!("betterbot:entry:{}:t1:{}", case.decision_id, 1_735_700_000i64 / 30))
    );
    assert!(entry_order(&case, 1, scalar(0.4), &kelly, scalar(4.9), scalar(1000.0), &cfg).is_none());
    assert!(entry_order(&case, 1, scalar(0.4), &kelly, scalar(400.0), scalar(4.0), &cfg).is_none());

    let scout = answer("ACTION=BUY\nOUTCOME_INDEX=1\nP_TRUE=0.7", Some(0.7), Some(0.8));
    let yes = "ACTION=BUY\nOUTCOME_INDEX=1\nP_TRUE=0.7";
    let answers = vec![vote("a", Some((yes, 0.7))), vote("b", Some((yes, 0.7))), vote("c", Some((yes, 0.7)))];
    let g = match on_votes(&case, &scout, 1, &a_belief(0.1), &answers) {
        Voted::Agreed(g) => g,
        other => panic!("{:?}", other),
    };
    let mut s = LongEngineState::new();
    s.upsert_market_signal(entry_signal("s1", "Rain", "0x", "x", 1.0, "Yes"), case.now);
    let (activity, record) = on_entry_filled(
        &case,
        &mut s,
        &scout,
        &g,
        &order,
        &an_ack(0.4, 250.0),
        scalar(625.0),
        &a_belief(0.1),
        scalar(0.5),
    );
    assert_eq!(activity.token_id.as_deref(), Some("t1"));
    assert_eq!(activity.decision_id.as_deref(), Some(case.decision_id.as_str()));
    assert_eq!(record.action, "BUY");
    assert_eq!(record.outcome_index, Some(1));
    assert_eq!(record.consensus_models.as_deref(), Some("a,b,c"));
    assert_eq!(s.markets.get("rain").unwrap().last_trade_at, case.now);
}

#[test]
fn bands_are_sold_off_once() {
    let cfg = VaultEngineConfig::default();
    let mut s = LongEngineState::new();
    assert!(plan_exit(&s, "t", scalar(10.0), Some(scalar(0.89)), &cfg).is_none());
    assert!(plan_exit(&s, "t", scalar(0.0), Some(scalar(0.99)), &cfg).is_none());
    assert!(plan_exit(&s, "t", scalar(10.0), None, &cfg).is_none());
    let (band, frac) = plan_exit(&s, "t", scalar(10.0), Some(scalar(0.9)), &cfg).unwrap();
    assert_eq!((band, number(frac)), (1, 0.5));
    let order = exit_order("t", "Yes", 1, scalar(0.9), scalar(45.0), 1_735_700_000, &cfg).unwrap();
    assert!(matches!(order.side, OrderSide::Sell));
    assert_eq!(order.client_order_id, named(&format!("betterbot:exit:t:1:{}", 1_735_700_000i64 / 30)));
    let activity = on_exit_filled(&mut s, "t", "Yes", 1, &an_ack(0.9, 45.0), scalar(50.0), &Some("rain".to_string()), &None);
    assert_eq!(activity.side.as_deref(), Some("SELL"));
    assert!(plan_exit(&s, "t", scalar(10.0), Some(scalar(0.94)), &cfg).is_none());
    let (band, frac) = plan_exit(&s, "t", scalar(10.0), Some(scalar(0.95)), &cfg).unwrap();
    assert_eq!((band, number(frac)), (2, 0.9));
    assert!(exit_order("t", "Yes", 1, scalar(0.9), scalar(4.0), 1, &cfg).is_none());
    assert_eq!(number(shares_to_sell(scalar(-1.0))), 0.0);
}

#[test]
fn model_calls_are_written_down() {
    let call = LlmCallOutput {
        model: "m".to_string(),
        content: "ACTION=HOLD".to_string(),
        usage: LlmUsage { prompt_tokens: Some(10), completion_tokens: Some(5), total_tokens: Some(15) },
        latency_ms: 42,
    };
    assert_eq!(tokens_of_call(&None), 0);
    let call = Some(call);
    assert_eq!(tokens_of_call(&call), 15);
    let parsed = Some(answer("ACTION=BUY\nOUTCOME_INDEX=0\nFLAGS=a,b\nUNCERTAINTY=LOW", Some(0.7), Some(0.4)));
    let r = long_record_model_call("d", "m", 7, &call, &parsed, &None);
    assert!(r.parsed_ok);
    assert_eq!(r.id.len(), 36);
    assert_eq!(r.action.as_deref(), Some("BUY"));
    assert_eq!(r.total_tokens, Some(15));
    assert_eq!(r.latency_ms, Some(42));
    assert_eq!(r.uncertainty.as_deref(), Some("LOW"));
    assert_eq!(r.raw_dsl.as_deref(), Some("ACTION=HOLD"));
    let r = long_record_model_call("d", "m", 7, &None, &None, &Some("timed out".to_string()));
    assert!(!r.parsed_ok);
    assert_eq!(r.error.as_deref(), Some("timed out"));
    assert!(r.action.is_none());
}

fn good_quote() -> TopQuote {
    TopQuote {
        bid: Some(scalar(0.38)),
        ask: Some(scalar(0.4)),
        spread_bps: Some(scalar(500.0)),
        top_usd: Some(scalar(250.0)),
    }
}

fn polled(s: &mut LongEngineState, cfg: &VaultEngineConfig) -> Polling {
    let scouting = begin_evaluation(a_case(), scalar(1.0), s, cfg, 1_735_700_000).unwrap();
    assert_eq!(scouting.scout_model, cfg.long_models[0]);
    let buy = answer("ACTION=BUY\nOUTCOME_INDEX=1\nP_TRUE=0.7\nFLAGS=thin", Some(0.7), None);
    let pricing = match scouting.on_answer(Some(buy)) {
        AfterScout::Price(p) => p,
        other => panic!("{:?}", other),
    };
    assert_eq!(pricing.token(), "t1");
    let figures = PriceFigures { costs: scalar(0.43), edge: scalar(0.27) };
    match pricing.on_quote(&good_quote(), &figures, s, cfg, 1_735_700_000) {
        AfterPrice::Ask(p) => p,
        other => panic!("{:?}", other),
    }
}

#[test]
fn an_entry_is_earned_step_by_step() {
    let cfg = VaultEngineConfig::default();
    let mut s = LongEngineState::new();
    s.upsert_market_signal(entry_signal("s1", "Rain", "0x", "x", 1.0, "Yes"), 1_735_700_000);
    let mut polling = polled(&mut s, &cfg);
    let yes = "ACTION=BUY\nOUTCOME_INDEX=1\nP_TRUE=0.8";
    for k in 1..4 {
        assert_eq!(polling.next_model(&cfg), Some(&cfg.long_models[k]));
        let vote = if k == 2 { None } else { Some(answer(yes, Some(0.8), Some(0.6))) };
        polling.on_answer(vote, &cfg);
    }
    assert!(polling.next_model(&cfg).is_none());
    let weighing = match polling.on_votes(&cfg) {
        AfterVotes::Price(w) => w,
        other => panic!("{:?}", other),
    };
    assert_eq!(weighing.agreed.win_votes, 3);
    assert_eq!(weighing.token(), "t1");
    let means = PanelMeans { chance: scalar(0.75), size: scalar(0.6) };
    assert_eq!(number(weighing.chance(&means)), 0.75);
    let figures = PriceFigures { costs: scalar(0.43), edge: scalar(0.32) };
    let staking = weighing.on_quote(&means, &good_quote(), &figures, scalar(1000.0), &cfg).unwrap();
    assert_eq!(number(staking.belief.p_true), 0.75);
    assert_eq!(number(staking.belief.p_eff), 0.43);
    assert_eq!(number(staking.size_mult), 0.6);
    assert_eq!(number(staking.params.bankroll), 1000.0);
    let kelly = KellyResult {
        position_size_usd: scalar(40.0),
        full_kelly_fraction: scalar(0.5),
        actual_fraction: scalar(0.04),
        edge: scalar(0.32),
        should_trade: true,
        skip_reason: None,
    };
    let entering = staking.on_stake(&kelly, scalar(24.0), &cfg).unwrap();
    assert_eq!(entering.order.token_id, "t1");
    assert_eq!(number(entering.order.price), 0.4);
    assert_eq!(number(entering.order.notional_usdc), 24.0);
    let (activity, record) = entering.on_filled(&an_ack(0.4, 24.0), scalar(60.0), &mut s, &cfg);
    assert_eq!(activity.strategy.as_deref(), Some("LONG"));
    assert_eq!(record.action, "BUY");
    assert_eq!(record.flags.as_deref(), Some("thin"));
    let agreed = [&cfg.long_models[0], &cfg.long_models[1], &cfg.long_models[3]].map(|m| m.as_str()).join(",");
    assert_eq!(record.consensus_models, Some(agreed));
    assert_eq!(s.markets.get("rain").unwrap().last_trade_at, 1_735_700_000);
}

#[test]
fn an_evaluation_stops_where_a_step_fails() {
    let cfg = VaultEngineConfig::default();
    let mut s = LongEngineState::new();
    assert!(begin_evaluation(a_case(), scalar(240.5), &mut s, &cfg, 1_735_700_000).is_none());

    let mut tight = VaultEngineConfig::default();
    tight.long_max_calls_per_day = 0;
    assert!(begin_evaluation(a_case(), scalar(1.0), &mut s, &tight, 1_735_700_000).is_none());

    let scouting = begin_evaluation(a_case(), scalar(1.0), &mut s, &cfg, 1_735_700_000).unwrap();
    assert!(matches!(scouting.on_answer(None), AfterScout::Stop));
    let scouting = begin_evaluation(a_case(), scalar(1.0), &mut s, &cfg, 1_735_700_000).unwrap();
    assert!(matches!(scouting.on_answer(Some(answer("ACTION=HOLD", None, None))), AfterScout::Hold(_)));

    let buy = "ACTION=BUY\nOUTCOME_INDEX=0\nP_TRUE=0.7";
    let price = |quote: TopQuote, edge: f64, cfg: &VaultEngineConfig, s: &mut LongEngineState| {
        let scouting = begin_evaluation(a_case(), scalar(1.0), s, cfg, 1_735_700_000).unwrap();
        match scouting.on_answer(Some(answer(buy, Some(0.7), None))) {
            AfterScout::Price(p) => {
                p.on_quote(&quote, &PriceFigures { costs: scalar(0.43), edge: scalar(edge) }, s, cfg, 1_735_700_000)
            }
            other => panic!("{:?}", other),
        }
    };
    assert!(matches!(price(TopQuote { ask: None, ..good_quote() }, 0.27, &cfg, &mut s), AfterPrice::Stop));
    match price(good_quote(), 0.019, &cfg, &mut s) {
        AfterPrice::Hold(r) => assert_eq!(r.outcome_text.as_deref(), Some("Yes")),
        other => panic!("{:?}", other),
    }
    tight.long_max_calls_per_day = 2;
    assert!(matches!(price(good_quote(), 0.27, &tight, &mut s), AfterPrice::Stop));

    let mut polling = polled(&mut s, &cfg);
    for _ in 1..4 {
        polling.on_answer(None, &cfg);
    }
    match polling.on_votes(&cfg) {
        AfterVotes::Hold(r) => assert_eq!(number(r.edge.unwrap()), 0.27),
        other => panic!("{:?}", other),
    }
}

#[test]
fn calls_that_had_room_keep_the_budgets() {
    let mut cfg = VaultEngineConfig::default();
    cfg.long_max_calls_per_day = 3;
    cfg.long_max_tokens_per_day = 100;
    let mut s = LongEngineState::new();
    let now = 1_735_700_000;
    assert!(long_can_spend_calls(&mut s, "rain", 3, &cfg, now));
    for _ in 0..3 {
        long_spend_after_call(&mut s, "rain", &None, &cfg, now);
    }
    assert_eq!(s.calls_today, 3);
    assert!(!long_can_spend_calls(&mut s, "rain", 1, &cfg, now));
    assert!(long_can_spend_calls(&mut s, "rain", 1, &cfg, now + 86_400));
    assert_eq!(s.calls_today, 0);
}

#[test]
fn a_wallet_is_followed_while_its_entries_are_few_and_one_sided() {
    let mut cfg = VaultEngineConfig::default();
    cfg.long_wallet_max_trades_per_window = 2;
    cfg.long_wallet_window_sec = 100;
    let mut s = LongEngineState::new();
    let entry = |outcome: &str| entry_signal("s", "m", "0xA", "Insider", 50.0, outcome);
    assert!(s.ingest_long_signal(entry("Yes"), &cfg, 1000));
    assert!(s.ingest_long_signal(entry(" YES "), &cfg, 1010));
    assert!(!s.ingest_long_signal(entry("Yes"), &cfg, 1020));
    assert!(!s.ingest_long_signal(entry("Yes"), &cfg, 1110));
    assert!(s.ingest_long_signal(entry("yes"), &cfg, 1211));
    assert!(!s.ingest_long_signal(entry("No"), &cfg, 1212));
    let elsewhere = entry_signal("s", "n", "0xA", "Insider", 50.0, "No");
    assert!(s.ingest_long_signal(elsewhere, &cfg, 1212));
}

fn tick_pair(l: &mut UpDownLoop, cfg: &VaultEngineConfig, now: i64) -> UpDownPair {
    match open_updown(l, UpDownAsset::Btc, now, cfg) {
        Opened::Lookup(m) => {
            assert_eq!(m.slug, "btc-updown-15m-1735699500");
            m.on_tokens(l, "up".to_string(), "down".to_string()).unwrap()
        }
        Opened::Known(p) => p,
        Opened::Cooling => panic!("nothing was traded"),
    }
}

#[test]
fn a_quarter_hour_order_is_earned_step_by_step() {
    let cfg = VaultEngineConfig::default();
    let mut l = UpDownLoop::new();
    let now = 1_735_700_123;
    match open_updown(&l, UpDownAsset::Btc, now, &cfg) {
        Opened::Lookup(m) => assert!(m.on_tokens(&mut l, "up".to_string(), String::new()).is_none()),
        other => panic!("{:?}", other),
    }
    assert!(tick_pair(&mut l, &cfg, now).at(1_735_700_386).is_none());
    let reading = UpDownReading {
        p_now: Some(scalar(101.0)),
        p_start: Some(scalar(100.0)),
        sigma: Some(scalar(0.001)),
        oracle_lags: false,
    };
    let lagging = UpDownReading { oracle_lags: true, ..reading };
    assert!(tick_pair(&mut l, &cfg, now).at(now).unwrap().on_reading(&lagging).is_none());
    let pricing = tick_pair(&mut l, &cfg, now).at(now).unwrap().on_reading(&reading).unwrap();
    assert_eq!(pricing.t_rem, 277);
    assert_eq!(number(pricing.p_now), 101.0);
    let judging = pricing.on_asks(Some(scalar(0.47)), Some(scalar(0.55)));
    let estimate = RnjdEstimate {
        p_up: scalar(0.435),
        drift_correction: scalar(0.0),
        p_up_raw: scalar(0.435),
        confidence: scalar(0.5),
        jump_regime: false,
    };
    let quoting = judging.on_estimates(Some(estimate), None).unwrap();
    let edges = UpDownEdges {
        p_up: scalar(0.435),
        p_down: scalar(0.565),
        edge_up: scalar(-0.035),
        edge_down: scalar(0.015),
        doubled_min_edge: scalar(0.02),
    };
    let staking = quoting.on_edges(&edges, scalar(50.0), &cfg).unwrap();
    assert!(!staking.pick.up);
    assert_eq!(number(staking.params.bankroll), 50.0);
    let kelly = KellyResult {
        position_size_usd: scalar(1.5),
        full_kelly_fraction: scalar(0.1),
        actual_fraction: scalar(0.01),
        edge: scalar(0.015),
        should_trade: true,
        skip_reason: None,
    };
    let entering = staking.on_stake(&kelly).unwrap();
    assert_eq!(entering.order.token_id, "down");
    assert_eq!(number(entering.order.price), 0.55);
    assert_eq!(entering.order.outcome.as_deref(), Some("Down"));
    entering.on_filled(&mut l);
    assert!(matches!(open_updown(&l, UpDownAsset::Btc, now + 1, &cfg), Opened::Cooling));
}

#[test]
fn jumps_ask_for_twice_the_edge() {
    let cfg = VaultEngineConfig::default();
    let mut l = UpDownLoop::new();
    let now = 1_735_700_123;
    let reading = UpDownReading {
        p_now: Some(scalar(101.0)),
        p_start: Some(scalar(100.0)),
        sigma: Some(scalar(0.001)),
        oracle_lags: false,
    };
    let edges = UpDownEdges {
        p_up: scalar(0.565),
        p_down: scalar(0.435),
        edge_up: scalar(0.015),
        edge_down: scalar(-0.035),
        doubled_min_edge: scalar(0.02),
    };
    for jump_regime in [false, true] {
        let pricing = tick_pair(&mut l, &cfg, now).at(now).unwrap().on_reading(&reading).unwrap();
        let estimate = RnjdEstimate {
            p_up: scalar(0.565),
            drift_correction: scalar(0.0),
            p_up_raw: scalar(0.565),
            confidence: scalar(0.5),
            jump_regime,
        };
        let judging = pricing.on_asks(Some(scalar(0.55)), Some(scalar(0.47)));
        let quoting = judging.on_estimates(Some(estimate), None).unwrap();
        assert_eq!(quoting.on_edges(&edges, scalar(50.0), &cfg).is_some(), !jump_regime);
    }
    let pricing = tick_pair(&mut l, &cfg, now).at(now).unwrap().on_reading(&reading).unwrap();
    assert!(pricing.on_asks(None, None).on_estimates(None, None).is_none());
}
