use betterbot::base::scalar::Scalar;
use betterbot::models::{MarketSignal, SignalDetails, SignalType};
use betterbot::signals::db_storage::{
    backfill_search_index_step, backtest_order, chunk_end, column_flag, context_query, context_search_fields,
    cursor_after, cursor_before, cursor_clause, decision_limit, decision_market, ensure_search_warm, extract_quoted_market_title, flag_column,
    get_search_index_status, get_vault_llm_usage_today, is_high_confidence, metadata_value, model_record_query,
    normalized_market_title_for_search, order_keys, placeholders, search_query, search_row, updown_slug,
    wallet_key, warm_limit, window_asset, window_limit, BackfillStep, IndexCounts, SignalCursor, WARM_LIMIT,
};
use betterbot::signals::enrichment::{
    assemble_context, at_least_one, best_ask, best_bid, compute_sharpe, compute_wallet_pnl_metrics, extract_pnl_deltas, latest_pnl, find_pnl_at_time, get_cached_value,
    on_gamma, plan_job, pnl_cutoffs, process_job, wallet_pnl_metrics, sharpe_window, summarize_activity, summarize_books,
    summarize_orders, truncate_json_array, ActivityItem, BooksPage, DerivedNumbers, EnrichmentJob, GammaReply,
    JobAnswers, JsonText, MarketNext, MarketPriceSnapshot, OrdersPage, PeriodFigures, PnlDelta, PnlEntry, PnlFigures, PnlInputs, Remembered,
    RestOrder, Span,
};

fn scalar(x: f64) -> Scalar {
    if x.is_nan() {
        Scalar::Undefined
    } else {
        let b = x.to_bits() as i64;
        Scalar::Rank(if b < 0 { i64::MIN.wrapping_sub(b) } else { b })
    }
}

fn number(s: Scalar) -> f64 {
    match s {
        Scalar::Undefined => f64::NAN,
        Scalar::Rank(a) => {
            if a < 0 {
                -f64::from_bits((-a) as u64)
            } else {
                f64::from_bits(a as u64)
            }
        }
    }
}

fn create_test_signal(id: &str, title: &str, t: SignalType) -> MarketSignal {
    MarketSignal {
        id: id.to_string(),
        signal_type: t,
        market_slug: "test-market".to_string(),
        confidence: scalar(0.85),
        risk_level: "medium".to_string(),
        details: SignalDetails {
            market_id: "test_market_id".to_string(),
            market_title: title.to_string(),
            current_price: scalar(0.55),
            volume_24h: scalar(10000.0),
            liquidity: scalar(50000.0),
            recommended_action: "BUY".to_string(),
            expiry_time: Some("2025-12-31T23:59:59Z".to_string()),
            observed_timestamp: None,
            signal_family: None,
            calibration_version: None,
            guardrail_flags: None,
            recommended_size: None,
        },
        detected_at: "2025-11-16T12:00:00Z".to_string(),
        source: "test".to_string(),
    }
}

fn wallet_entry() -> SignalType {
    SignalType::TrackedWalletEntry {
        wallet_address: "0x1".to_string(),
        wallet_label: "whale".to_string(),
        position_value_usd: scalar(10.0),
        order_count: 1,
        token_label: Some("Yes".to_string()),
    }
}

#[test]
fn a_title_is_found_in_a_headline() {
    assert_eq!(
        extract_quoted_market_title(" TRACKED WALLET ENTRY: buy ON 'Will it rain?' by 0x1 "),
        Some("Will it rain?".to_string())
    );
    assert_eq!(extract_quoted_market_title("x on \"Quoted\" y"), Some("Quoted".to_string()));
    assert_eq!(extract_quoted_market_title("x on '  ' y on \"Q\""), Some("Q".to_string()));
    assert_eq!(extract_quoted_market_title("x on 'open"), None);
    assert_eq!(extract_quoted_market_title(""), None);
    let headline = create_test_signal("a", "Insider Entry: buy on 'Rain' by 0x1", wallet_entry());
    assert_eq!(normalized_market_title_for_search(&headline), Some("Rain".to_string()));
    let plain = create_test_signal("a", " Insider Entry on 'Rain' ", SignalType::WhaleCluster { cluster_count: 3 });
    assert_eq!(normalized_market_title_for_search(&plain), Some("Insider Entry on 'Rain'".to_string()));
    let other = create_test_signal("a", "Play on 'Words'", wallet_entry());
    assert_eq!(normalized_market_title_for_search(&other), Some("Play on 'Words'".to_string()));
    assert_eq!(normalized_market_title_for_search(&create_test_signal("a", "  ", wallet_entry())), None);
}

#[test]
fn a_signal_has_a_row_in_the_index() {
    let row = search_row(&create_test_signal("a", "Title", wallet_entry()));
    assert_eq!(row.signal_id, "a");
    assert_eq!(row.signal_type, "TrackedWalletEntry");
    assert_eq!(row.wallet.wallet_address.as_deref(), Some("0x1"));
    assert_eq!(row.wallet.wallet_label.as_deref(), Some("whale"));
    let elite = SignalType::EliteWallet { wallet_address: "0x2".to_string() };
    let row = search_row(&create_test_signal("b", "Title", elite));
    assert_eq!(row.wallet.wallet_address.as_deref(), Some("0x2"));
    assert_eq!(row.wallet.wallet_label, None);
    let row = search_row(&create_test_signal("c", "Title", SignalType::WhaleCluster { cluster_count: 3 }));
    assert_eq!(row.wallet.wallet_address, None);
}

#[test]
fn limits_are_held() {
    assert_eq!(warm_limit(0, 5000, WARM_LIMIT), 2000);
    assert_eq!(warm_limit(0, 50, WARM_LIMIT), 50);
    assert_eq!(warm_limit(1, 50, WARM_LIMIT), 0);
    assert_eq!(ensure_search_warm(0, 10, 0), 1);
    assert_eq!(ensure_search_warm(0, 100_000, 100_000), 5000);
    assert_eq!(ensure_search_warm(0, 0, 10), 0);
    assert_eq!(decision_limit(0), 1);
    assert_eq!(decision_limit(9999), 500);
    assert_eq!(window_limit(99_999), 10_000);
    assert_eq!(decision_market("  Some-SLUG "), "some-slug");
    assert_eq!(model_record_query(" id ", 500), Some(("id".to_string(), 100)));
    assert_eq!(model_record_query("  ", 5), None);
    assert_eq!(search_query("  rain "), Some("rain".to_string()));
    assert_eq!(search_query(" "), None);
    assert!(is_high_confidence(scalar(0.7)));
    assert!(!is_high_confidence(scalar(0.6999)));
}

#[test]
fn the_index_is_filled_step_by_step() {
    let one = Some("1".to_string());
    let d = Some("2025".to_string());
    let i = Some("x".to_string());
    assert!(matches!(backfill_search_index_step(&one, &d, &i, 10), BackfillStep::Done));
    assert!(matches!(
        backfill_search_index_step(&None, &None, &i, 0),
        BackfillStep::Read(SignalCursor::Newest, 1)
    ));
    assert!(matches!(
        backfill_search_index_step(&None, &d, &None, 9999),
        BackfillStep::Read(SignalCursor::Before(x), 5000) if x == "2025"
    ));
    assert!(matches!(
        backfill_search_index_step(&Some("0".to_string()), &d, &i, 7),
        BackfillStep::Read(SignalCursor::After(x, y), 7) if x == "2025" && y == "x"
    ));
    let batch = vec![create_test_signal("a", "T", wallet_entry()), create_test_signal("b", "T", wallet_entry())];
    assert!(matches!(cursor_after(&batch), SignalCursor::After(_, id) if id == "b"));
    assert!(matches!(cursor_after(&vec![]), SignalCursor::Newest));
    assert_eq!(chunk_end(0, 1000), 900);
    assert_eq!(chunk_end(900, 1000), 1000);
    assert_eq!(placeholders(0), "");
    assert_eq!(placeholders(3), "?,?,?");
    assert!(context_query(2).ends_with("WHERE signal_id IN (?,?)"));
    assert_eq!(metadata_value(&Some(" 1 ".to_string())), one);
    assert_eq!(metadata_value(&Some("  ".to_string())), None);
}

#[test]
fn the_state_of_the_index_is_told() {
    let counts = |rows: Option<i64>, tables: i64| IndexCounts {
        total_signals: 5,
        indexed_rows: rows,
        search_tables: tables,
        done: Some("1".to_string()),
        cursor_detected_at: None,
        cursor_id: None,
    };
    let s = get_search_index_status(counts(Some(-1), 1));
    assert!(s.schema_ready && s.backfill_done);
    assert_eq!(s.indexed_rows, 0);
    assert!(!get_search_index_status(counts(None, 1)).schema_ready);
    assert!(!get_search_index_status(counts(Some(4), 0)).schema_ready);
    let u = get_vault_llm_usage_today(86_400 * 3 + 5, -4, 7, vec![]);
    assert_eq!((u.day_start_ts, u.calls_today, u.tokens_today), (86_400 * 3, 0, 7));
}

#[test]
fn orders_have_keys() {
    let own = order_keys("h", "x", "slug", 5, "BUY", "0.5");
    assert_eq!(own.order_hash, "h");
    assert!(own.replaces_legacy);
    assert_eq!(own.legacy, "api_slug_5_BUY_0.5");
    assert_eq!(order_keys(" ", "x", "slug", 5, "BUY", "0.5").order_hash, "tx_x");
    let made = order_keys("", "", "slug", 5, "BUY", "0.5");
    assert_eq!(made.order_hash, made.legacy);
    assert!(!made.replaces_legacy);
    let o = backtest_order(3, None, Some("BUY".to_string()), None, None);
    assert_eq!(o.market_slug, "");
    assert_eq!(number(o.price), 0.5);
    assert_eq!(updown_slug("BTC", 900), "btc-updown-15m-900");
    assert_eq!(column_flag(flag_column(Some(true))), Some(true));
    assert_eq!(column_flag(flag_column(Some(false))), Some(false));
    assert_eq!(column_flag(flag_column(None)), None);
    assert_eq!(window_asset(&Some("btc".to_string())).as_deref(), Some("BTC"));
    assert_eq!(wallet_key("0xAB"), "0xab");
}

fn job() -> EnrichmentJob {
    EnrichmentJob {
        signal_id: "s".to_string(),
        user: "0x1".to_string(),
        market_slug: "slug".to_string(),
        condition_id: "c".to_string(),
        token_id: "t".to_string(),
        token_label: Some(" Yes ".to_string()),
        side: "BUY".to_string(),
        price: scalar(0.5),
        shares_normalized: scalar(10.0),
        timestamp: 1700000000,
        order_hash: "h".to_string(),
        tx_hash: "x".to_string(),
        title: " Title ".to_string(),
        raw_payload_json: "{}".to_string(),
    }
}

fn failed() -> JobAnswers {
    let e = || "down".to_string();
    JobAnswers {
        market: Err(e()),
        price_entry: Err(e()),
        price_latest: Err(e()),
        market_orders: Err(e()),
        wallet_orders: Err(e()),
        orderbooks: Err(e()),
        activity: Err(e()),
        candlesticks: Err(e()),
        wallet: Err(e()),
        wallet_pnl: Err(e()),
    }
}

fn period() -> PeriodFigures {
    PeriodFigures { difference: scalar(7.0), std: scalar(1.0), ratio: scalar(2.0) }
}

fn derived() -> DerivedNumbers {
    DerivedNumbers {
        delta: scalar(0.1),
        relative_bps: scalar(2000.0),
        absolute_bps: scalar(1000.0),
        entry_value: scalar(5.0),
        average_value: scalar(3.0),
        profits: PnlInputs {
            entries: vec![],
            differences: vec![],
            figures: PnlFigures { day_7: period(), day_14: period(), day_30: period(), day_90: period() },
        },
    }
}

#[test]
fn a_job_is_planned() {
    let p = plan_job(&job());
    assert_eq!(p.market_key, "market_slug:slug");
    assert_eq!(p.wallet_key, "wallet:0x1");
    assert_eq!(p.pnl_key, "wallet_pnl_day:0x1");
    assert_eq!((p.market_ttl, p.wallet_ttl, p.pnl_ttl), (1800, 86_400, 3600));
    assert_eq!(p.market_url, "https://gamma-api.polymarket.com/markets/slug/slug");
    assert_eq!(p.market_orders, Span { from: 1699996400, to: 1700000000 });
    assert_eq!(p.books_ms, Span { from: 1699999700000, to: 1700000000000 });
}

#[test]
fn answers_are_remembered_while_they_are_fresh() {
    let m = |json: &str| Some(Remembered { json: json.to_string(), fetched_at: 100 });
    assert_eq!(get_cached_value(m("{\"a\":1}"), 200, 100), Some("{\"a\":1}".to_string()));
    assert_eq!(get_cached_value(m("{\"a\":1}"), 201, 100), None);
    assert_eq!(get_cached_value(m("null"), 150, 100), None);
    assert_eq!(get_cached_value(m("{broken"), 150, 100), None);
    assert_eq!(get_cached_value(None, 150, 100), None);
    assert!(matches!(on_gamma(GammaReply::NotFound), MarketNext::AskSecond));
    assert!(matches!(on_gamma(GammaReply::Null), MarketNext::AskSecond));
    assert!(matches!(on_gamma(GammaReply::Refused("e".to_string())), MarketNext::Failed(_)));
    assert!(matches!(on_gamma(GammaReply::Value("v".to_string())), MarketNext::Found(_)));
}

#[test]
fn every_fault_is_written_down() {
    let u = process_job(job(), failed(), &derived(), None, 9);
    assert_eq!(u.status, "failed");
    assert_eq!(u.context_version, 1);
    assert_eq!(u.context.errors.len(), 10);
    assert_eq!(u.context.errors[0], "markets: down");
    assert_eq!(u.context.errors[9], "wallet_pnl: down");
    assert!(u.error.unwrap().starts_with("markets: down | market_price_at_entry: down"));
    let some = JobAnswers { candlesticks: Ok("[]".to_string()), ..failed() };
    let u = process_job(job(), some, &derived(), Some(4), 9);
    assert_eq!(u.status, "partial");
    assert_eq!(u.context_version, 5);
    assert_eq!(u.error, None);
}

#[test]
fn answers_are_put_together() {
    let page = || OrdersPage {
        orders: (0..60)
            .map(|i| RestOrder {
                side: if i % 3 == 0 { "sell".to_string() } else { "Buy".to_string() },
                value: scalar(i as f64),
                json: format!("{}", i),
            })
            .collect(),
        total_shares: scalar(9.0),
        total_value: scalar(8.0),
    };
    let all = JobAnswers {
        market: Ok(Some("{}".to_string())),
        price_entry: Ok(MarketPriceSnapshot { price: scalar(0.5), at_time: 1 }),
        price_latest: Ok(MarketPriceSnapshot { price: scalar(0.6), at_time: 2 }),
        market_orders: Ok(page()),
        wallet_orders: Ok(page()),
        orderbooks: Ok(BooksPage {
            snapshot_count: 2,
            last_bids: vec![Some(scalar(0.4)), None, Some(scalar(0.45))],
            last_asks: vec![Some(scalar(0.6)), Some(scalar(0.55))],
            mid: scalar(0.5),
            spread: scalar(0.1),
        }),
        activity: Ok(vec![ActivityItem { side: "MERGE".to_string(), json: "1".to_string() }]),
        candlesticks: Ok("[]".to_string()),
        wallet: Ok(None),
        wallet_pnl: Ok(None),
    };
    let c = assemble_context(&job(), all, &derived(), 9);
    assert!(c.errors.is_empty());
    let flow = c.trade_history.as_ref().unwrap().market_flow_1h.unwrap();
    assert_eq!((flow.count, flow.buy_count, flow.sell_count), (60, 40, 20));
    assert_eq!(flow.max_trade_value_usd, Some(scalar(59.0)));
    match c.trade_history.as_ref().unwrap().sample_market_orders.as_ref().unwrap() {
        JsonText::Array(items) => assert_eq!(items.len(), 50),
        JsonText::Other(_) => panic!("orders are a list"),
    }
    let book = c.orderbook.unwrap();
    assert_eq!(book.best_bid, Some(scalar(0.45)));
    assert_eq!(book.best_ask, Some(scalar(0.55)));
    assert_eq!(book.spread, Some(scalar(0.1)));
    assert_eq!(c.activity.as_ref().unwrap().merge_count, 1);
    assert_eq!(c.derived.price_delta_bps, Some(scalar(2000.0)));
    assert_eq!(c.derived.trade_count_24h, Some(60));
    assert_eq!(c.derived.avg_trade_value_24h, Some(scalar(3.0)));
    let f = context_search_fields(&c.order, &None, &Some(" T ".to_string()));
    assert_eq!(f.order_title.as_deref(), Some("Title"));
    assert_eq!(f.market_question.as_deref(), Some("T"));
    assert_eq!(f.token_label.as_deref(), Some("Yes"));
    let f = context_search_fields(&c.order, &Some(" ".to_string()), &Some("T".to_string()));
    assert_eq!(f.market_question, None);
}

#[test]
fn parts_of_a_context_have_their_edges() {
    let empty = OrdersPage { orders: vec![], total_shares: scalar(0.0), total_value: scalar(0.0) };
    assert_eq!(summarize_orders(&empty).max_trade_value_usd, None);
    assert!(summarize_activity(&vec![]).sample.is_none());
    let none = BooksPage {
        snapshot_count: 0,
        last_bids: vec![],
        last_asks: vec![],
        mid: scalar(0.0),
        spread: scalar(0.0),
    };
    assert_eq!(summarize_books(&none), None);
    let one_sided = BooksPage { snapshot_count: 1, last_bids: vec![Some(scalar(0.4))], ..none };
    assert_eq!(summarize_books(&one_sided).unwrap().mid, None);
    assert_eq!(best_bid(&vec![None]), None);
    assert_eq!(best_ask(&vec![Some(scalar(0.3)), Some(scalar(0.2))]), Some(scalar(0.2)));
    match truncate_json_array(JsonText::Other("{}".to_string()), 0) {
        JsonText::Other(t) => assert_eq!(t, "{}"),
        JsonText::Array(_) => panic!("this is no list"),
    }
}

#[test]
fn profits_are_read_over_time() {
    let e = |t: Option<i64>, p: Option<f64>| PnlEntry { timestamp: t, pnl_to_date: p.map(scalar) };
    let entries = vec![e(Some(30), Some(3.0)), e(Some(10), Some(1.0)), e(Some(30), Some(9.0)), e(None, Some(5.0))];
    assert_eq!(find_pnl_at_time(&entries, 40), Some(scalar(3.0)));
    assert_eq!(find_pnl_at_time(&entries, 20), Some(scalar(1.0)));
    assert_eq!(find_pnl_at_time(&entries, 5), Some(scalar(5.0)));
    assert_eq!(find_pnl_at_time(&entries, -1), None);
    let steps = extract_pnl_deltas(&entries);
    let got: Vec<(i64, f64, f64)> = steps.iter().map(|s| (s.ts, number(s.before), number(s.after))).collect();
    assert_eq!(got, vec![(30, 1.0, 3.0), (30, 3.0, 9.0)]);
    let d = |t: i64| PnlDelta { ts: t, delta: scalar(t as f64) };
    let all = vec![d(1), d(2), d(3), d(4)];
    assert_eq!(sharpe_window(&all, 2), Some(vec![scalar(2.0), scalar(3.0), scalar(4.0)]));
    assert_eq!(sharpe_window(&all, 3), None);
    assert_eq!(compute_sharpe(scalar(0.0), scalar(1.0)), None);
    assert_eq!(compute_sharpe(scalar(f64::INFINITY), scalar(1.0)), None);
    assert_eq!(compute_sharpe(scalar(2.0), scalar(1.0)), Some(scalar(1.0)));
    assert_eq!(pnl_cutoffs(7_776_000).day_90, 0);
}

#[test]
fn earnings_are_told_for_periods_that_are_known() {
    let now: i64 = 100_000_000;
    let day: i64 = 86_400;
    let e = |ago: i64, p: f64| PnlEntry { timestamp: Some(now - ago * day), pnl_to_date: Some(scalar(p)) };
    let d = |ago: i64| PnlDelta { ts: now - ago * day, delta: scalar(1.0) };
    let f = |x: f64, std: f64| PeriodFigures { difference: scalar(x), std: scalar(std), ratio: scalar(x * 10.0) };
    let figures = PnlFigures { day_7: f(1.0, 1.0), day_14: f(2.0, 1.0), day_30: f(3.0, 0.0), day_90: f(4.0, 1.0) };
    let entries = vec![e(20, 1.0), e(10, 2.0), e(1, 3.0)];
    assert_eq!(latest_pnl(&entries), scalar(3.0));
    let deltas = vec![d(13), d(12), d(2)];
    let m = compute_wallet_pnl_metrics(&entries, &deltas, now, &figures);
    assert_eq!(m.pnl_7d, Some(scalar(1.0)));
    assert_eq!(m.pnl_14d, Some(scalar(2.0)));
    assert_eq!(m.pnl_30d, None);
    assert_eq!(m.pnl_90d, None);
    assert_eq!(m.sharpe_7d, None);
    assert_eq!(m.sharpe_14d, Some(scalar(20.0)));
    assert_eq!(m.sharpe_30d, None);
    assert_eq!(m.sharpe_90d, Some(scalar(40.0)));
    let none = compute_wallet_pnl_metrics(&vec![], &deltas, now, &figures);
    assert_eq!(none.pnl_7d, None);
    assert_eq!(none.sharpe_90d, None);
    let profits = PnlInputs { entries, differences: vec![scalar(1.0), scalar(1.0)], figures };
    let told = wallet_pnl_metrics(true, &profits, now);
    assert_eq!((told.pnl_14d, told.sharpe_14d), (Some(scalar(2.0)), None));
    assert_eq!(wallet_pnl_metrics(false, &profits, now).pnl_14d, None);
}

#[test]
fn a_service_asks_once_at_a_time_at_least() {
    assert_eq!(at_least_one(0), 1);
    assert_eq!(at_least_one(1), 1);
    assert_eq!(at_least_one(7), 7);
}

fn page(conn: &rusqlite::Connection, cursor: &SignalCursor, limit: i64) -> Vec<MarketSignal> {
    let sql = format!("SELECT id, detected_at FROM signals {}", cursor_clause(cursor));
    let mut statement = conn.prepare(&sql).unwrap();
    let mut rows = match cursor {
        SignalCursor::Newest => statement.query((limit,)),
        SignalCursor::Before(at) => statement.query((at, limit)),
        SignalCursor::After(at, id) => statement.query((at, id, limit)),
    }
    .unwrap();
    let mut told = vec![];
    while let Some(row) = rows.next().unwrap() {
        let id: String = row.get(0).unwrap();
        let mut signal = create_test_signal(&id, "T", wallet_entry());
        signal.detected_at = row.get(1).unwrap();
        told.push(signal);
    }
    told
}

fn ids(signals: &[MarketSignal]) -> Vec<&str> {
    signals.iter().map(|s| s.id.as_str()).collect()
}

#[test]
fn test_get_before_pagination() {
    let conn = rusqlite::Connection::open_in_memory().unwrap();
    conn.execute("CREATE TABLE signals (id TEXT PRIMARY KEY, detected_at TEXT NOT NULL)", ()).unwrap();
    for (id, at) in [
        ("a", "2025-11-16T12:00:00+00:00"),
        ("b", "2025-11-16T12:00:00+00:00"),
        ("c", "2025-11-16T11:59:00+00:00"),
        ("d", "2025-11-16T11:58:00+00:00"),
    ] {
        conn.execute("INSERT INTO signals (id, detected_at) VALUES (?1, ?2)", (id, at)).unwrap();
    }

    let first = page(&conn, &SignalCursor::Newest, 3);
    assert_eq!(ids(&first), vec!["a", "b", "c"]);

    let second = page(&conn, &cursor_after(&first), 3);
    assert_eq!(ids(&second), vec!["d"]);

    let tie = page(&conn, &cursor_before("2025-11-16T12:00:00+00:00", &Some("a".to_string())), 10);
    assert_eq!(ids(&tie), vec!["b", "c", "d"]);

    let older = page(&conn, &cursor_before("2025-11-16T12:00:00+00:00", &None), 10);
    assert_eq!(ids(&older), vec!["c", "d"]);
}
