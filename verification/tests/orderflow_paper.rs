use betterbot::base::scalar::Scalar;
use betterbot::base::settings::Environment;
use betterbot::base::table::Table;
use betterbot::vault::book_access::{
    BookCaches, BookLookupResult, CacheMissReason, HftBookCache, Order, OrderBook, PolymarketMarketWsCache,
};
use betterbot::vault::execution::{OrderSide, PaperExecutionConfig};
use betterbot::vault::orderflow_paper::{
    compute_imbalance, is_partial, levels_near, FlowMove, GammaMarket, OrderflowPaperConfig,
    OrderflowPaperEngine, TokenInfo, TradeFigures, UniverseScan,
};
use betterbot::vault::paper_ledger::VaultPaperLedger;
use std::sync::Arc;

fn scalar(x: f64) -> Scalar {
    if x.is_nan() {
        Scalar::Undefined
    } else {
        let b = x.to_bits() as i64;
        Scalar::Rank(if b < 0 { i64::MIN.wrapping_sub(b) } else { b })
    }
}

fn number(s: Scalar) -> f64 {
    match s {
        Scalar::Undefined => f64::NAN,
        Scalar::Rank(a) => {
            if a < 0 {
                -f64::from_bits((-a) as u64)
            } else {
                f64::from_bits(a as u64)
            }
        }
    }
}

fn level(price: f64, size: f64) -> Order {
    Order { price: scalar(price), size: scalar(size) }
}

fn market(slug: &str, liquidity: f64, tokens: &[&str]) -> GammaMarket {
    GammaMarket {
        slug: slug.to_string(),
        closed: false,
        active: true,
        liquidity: Some(scalar(liquidity)),
        volume: Some(scalar(5000.0)),
        clob_token_ids: tokens.iter().map(|t| t.to_string()).collect(),
        outcomes: tokens.iter().enumerate().map(|(i, _)| format!("o{}", i)).collect(),
    }
}

fn engine() -> OrderflowPaperEngine {
    let mut tokens = Table::new();
    tokens.insert(
        "t".to_string(),
        TokenInfo { token_id: "t".to_string(), market_slug: "m".to_string(), outcome: "Yes".to_string() },
    );
    OrderflowPaperEngine::new(OrderflowPaperConfig::default(), PaperExecutionConfig::default(), tokens)
}

fn older(book: Option<OrderBook>) -> BookCaches {
    let mut fresh = Table::new();
    if let Some(b) = book {
        fresh.insert("t".to_string(), Arc::new(b));
    }
    BookCaches { hft: None, legacy: PolymarketMarketWsCache { max_stale_ms: 1200, fresh } }
}

#[test]
fn flow_settings() {
    let cfg = OrderflowPaperConfig::default();
    assert_eq!(number(cfg.min_imbalance), 0.18);
    assert_eq!(number(cfg.max_trade_pct_cash), 0.0025);
    assert_eq!(cfg.cooldown_ms, 7500);
    let mut env = Environment::new();
    env.set("ORDERFLOW_PAPER_MIN_IMBALANCE", "1.5", Some(scalar(1.5)));
    env.set("ORDERFLOW_PAPER_COOLDOWN_MS", "10", None);
    env.set("ORDERFLOW_PAPER_MAX_MARKETS", "12", None);
    let cfg = OrderflowPaperConfig::from_env(&env);
    assert_eq!(number(cfg.min_imbalance), 0.18);
    assert_eq!(cfg.cooldown_ms, 7500);
    assert_eq!(cfg.max_markets, 12);
    env.set("PAPER_FEE_RATE", "0.25", Some(scalar(0.25)));
    let e = OrderflowPaperEngine::new(cfg, PaperExecutionConfig::from_env(&env), Table::new());
    assert_eq!(e.adapter.config.fee_rate, scalar(0.25));
    assert_eq!(e.staleness.max_stale_ms, 1200);
    assert_eq!(e.staleness.hard_stale_ms, 4800);
}

#[test]
fn near_levels_make_the_imbalance() {
    let book = OrderBook {
        bids: vec![level(0.5, 10.0), level(0.49, 5.0), level(0.4, 90.0)],
        asks: vec![level(0.51, 3.0), level(0.6, 90.0)],
    };
    let (bids, asks) = levels_near(&book, scalar(0.49), scalar(0.52));
    assert_eq!(bids.len(), 2);
    assert_eq!(asks.len(), 1);
    let b: f64 = bids.iter().map(|o| number(o.price) * number(o.size)).sum();
    let a: f64 = asks.iter().map(|o| number(o.price) * number(o.size)).sum();
    let imbalance = compute_imbalance(scalar(b + a), scalar((b - a) / (b + a))).unwrap();
    assert!((number(imbalance) - (7.45 - 1.53) / (7.45 + 1.53)).abs() < 1e-12);
    assert!(compute_imbalance(scalar(0.0), scalar(f64::NAN)).is_none());
}

#[test]
fn books_without_a_market_are_passed_over() {
    let mut e = engine();
    let good = OrderBook { bids: vec![level(0.5, 1.0)], asks: vec![level(0.52, 1.0)] };
    let (c, renew) = e.handle_update("t", &older(Some(good)));
    assert!(c.is_some());
    assert!(!renew);
    let (c, _) = e.handle_update("unknown", &older(None));
    assert!(c.is_none());
    let (c, _) = e.handle_update("t", &older(None));
    assert!(c.is_none());
    let crossed = OrderBook { bids: vec![level(0.52, 1.0)], asks: vec![level(0.52, 1.0)] };
    let (c, _) = e.handle_update("t", &older(Some(crossed)));
    assert!(c.is_none());
    let s = e.metrics.summary();
    assert_eq!((s.updates, s.evaluations, s.skipped_no_book), (4, 1, 2));

    let mut answers = Table::new();
    answers.insert(
        "t".to_string(),
        BookLookupResult::Miss { reason: CacheMissReason::Stale, last_age_ms: Some(4801) },
    );
    let newer = BookCaches {
        hft: Some(HftBookCache { max_stale_ms: 1200, answers }),
        legacy: PolymarketMarketWsCache { max_stale_ms: 1200, fresh: Table::new() },
    };
    let (c, renew) = e.handle_update("t", &newer);
    assert!(c.is_none());
    assert!(renew);
}

#[test]
fn figures_decide_whether_the_ledger_is_asked() {
    let mut e = engine();
    assert!(!e.on_figures("t", scalar(201.0), Some(scalar(0.5)), 0));
    assert!(!e.on_figures("t", scalar(200.0), Some(scalar(-0.17)), 0));
    assert!(!e.on_figures("t", scalar(200.0), None, 0));
    assert!(e.on_figures("t", scalar(200.0), Some(scalar(-0.18)), 0));
    e.on_traded("t", 1_000_000);
    assert!(!e.on_figures("t", scalar(200.0), Some(scalar(0.5)), 7_500_000_000));
    assert!(e.on_figures("t", scalar(200.0), Some(scalar(0.5)), 7_501_000_000));
    let s = e.metrics.summary();
    assert_eq!((s.skipped_spread, s.skipped_imbalance, s.skipped_cooldown, s.trades), (1, 2, 1, 1));
}

#[test]
fn imbalances_lead_to_bounded_trades() {
    let mut e = engine();
    let f = TradeFigures {
        position_shares: scalar(0.0),
        ask_top_usd: scalar(30.0),
        bid_top_usd: scalar(30.0),
        max_by_cash: scalar(20.0),
        position_value: scalar(0.0),
    };
    match e.decide(scalar(0.3), scalar(0.5), scalar(0.52), &f) {
        FlowMove::Trade { side, price, notional } => {
            assert!(matches!(side, OrderSide::Buy));
            assert_eq!((number(price), number(notional)), (0.52, 20.0));
        }
        other => panic!("{:?}", other),
    }
    assert!(matches!(e.decide(scalar(-0.3), scalar(0.5), scalar(0.52), &f), FlowMove::Nothing));
    let held = TradeFigures { position_shares: scalar(8.0), position_value: scalar(4.0), ..f };
    assert!(matches!(e.decide(scalar(0.3), scalar(0.5), scalar(0.52), &held), FlowMove::Nothing));
    assert!(matches!(e.decide(scalar(-0.3), scalar(0.5), scalar(0.52), &held), FlowMove::TooThin));
    let thin = TradeFigures { ask_top_usd: scalar(24.0), ..f };
    assert!(e.on_ledger("t", scalar(0.3), scalar(0.5), scalar(0.52), &thin).is_none());
    assert_eq!(e.metrics.summary().skipped_liquidity, 1);
    let order = e.on_ledger("t", scalar(0.3), scalar(0.5), scalar(0.52), &f).unwrap();
    assert_eq!(order.client_order_id.len(), 36);
    assert_eq!(order.market_slug.as_deref(), Some("m"));
    assert_eq!(order.outcome.as_deref(), Some("Yes"));
    assert!(is_partial(scalar(19.0), &order));
    assert!(!is_partial(scalar(20.0), &order));
}

#[test]
fn refusals_and_drops_are_counted() {
    let mut e = engine();
    let mut ledger = VaultPaperLedger::new(scalar(100.0));
    e.on_reject(&mut ledger);
    e.on_failure();
    e.on_queue_full();
    let s = e.metrics.summary();
    assert_eq!((s.errors, s.queue_drops, ledger.reject_count), (2, 1, 1));
}

#[test]
fn universe_is_the_most_liquid_markets() {
    let mut cfg = OrderflowPaperConfig::default();
    cfg.gamma_page_size = 50;
    cfg.max_markets = 2;
    let mut scan = UniverseScan::new();
    let mut closed = market("closed", 9000.0, &["x"]);
    closed.closed = true;
    assert!(!closed.is_eligible(&cfg));
    let mut odd = market("odd", 9000.0, &["x", "y"]);
    odd.outcomes.pop();
    assert!(!odd.is_eligible(&cfg));
    assert!(!market("poor", 499.0, &["x"]).is_eligible(&cfg));
    let page = vec![
        market("a", 600.0, &["a0", "a1"]),
        closed,
        market("b", 900.0, &[" b0 ", ""]),
        market("c", 700.0, &["b0", "c1"]),
    ];
    let more = scan.take_page(&cfg, page);
    assert!(!more);
    let (tokens, ids) = scan.universe(&cfg);
    assert_eq!(ids, vec!["b0".to_string(), "c1".to_string()]);
    assert_eq!(tokens.get("b0").unwrap().market_slug, "b");
    assert_eq!(tokens.get("c1").unwrap().outcome, "o1");
}
