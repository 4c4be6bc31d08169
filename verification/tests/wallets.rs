use betterbot::base::scalar::Scalar;
use betterbot::base::table::Table;
use betterbot::signals::copy_replay::{
    candle_key, candle_start, candles_fresh, extend_closes, parse_token_daily_closes, recent_conditions,
    redeem_price, shift_window, window_curve, Candle, CandleSeries, EquityPoint, MtmBook, MtmNumbers, Replay,
    ReplayTask,
};
use betterbot::signals::copy_trading::{
    activity_kinds, closed_tokens, copy_events, day_bucket, order_kinds, side_kind, CopyEvent, CopyTrades,
    DayAmount, Deal, DealNumbers, SideKind, WalletActivity, WalletOrder,
};
use betterbot::signals::days::{day_sums, group_by_day, DayGroup};
use betterbot::signals::follower::{
    close_price, drawable, drawn_curve, resolution_fresh, resolution_key, settle_open_position, winning_label,
    FollowerBook, MarketResolution, MarketSide, Move, MoveNumbers, Position, Settlements,
};
use betterbot::signals::wallet_analytics::{
    analytics_span, apply_daily_costs_to_curve, choose_copy_curve, compute_copy_roe_denom_usd,
    compute_copy_scale_factor, compute_curve_sharpe, compute_curve_win_rate_profit_factor, compute_roe_pct,
    compute_wallet_analytics, counted_buys, counts_for_sample, count_steps, curve_steps, daily_deltas, fill_days, finite_count,
    least_average, mtm_needed, normalize_curve_to_zero, on_cache, on_computed, sharpe_span,
    trade_notional_to_friction_costs, wallet_analytics_cache_key, winsorize_in_place, AnalyticsNumbers,
    CacheStep, CopyCurveModel, CopyMtmResult, FrictionMode, SharpeNumbers, StepKind, StepNumbers, WalletAnalytics,
    WalletAnalyticsParams,
};

fn scalar(x: f64) -> Scalar {
    if x.is_nan() {
        Scalar::Undefined
    } else {
        let b = x.to_bits() as i64;
        Scalar::Rank(if b < 0 { i64::MIN.wrapping_sub(b) } else { b })
    }
}

fn number(s: Scalar) -> f64 {
    match s {
        Scalar::Undefined => f64::NAN,
        Scalar::Rank(a) => {
            if a < 0 {
                -f64::from_bits((-a) as u64)
            } else {
                f64::from_bits(a as u64)
            }
        }
    }
}

const DAY: i64 = 86_400;

fn order(token: &str, condition: &str, side: &str, price: f64, shares: f64, at: i64) -> WalletOrder {
    WalletOrder {
        token_id: token.to_string(),
        condition_id: condition.to_string(),
        token_label: Some("Yes".to_string()),
        side: side.to_string(),
        price: scalar(price),
        shares_normalized: scalar(shares),
        timestamp: at,
    }
}

fn activity(token: &str, condition: &str, side: &str, price: f64, at: i64) -> WalletActivity {
    WalletActivity {
        token_id: token.to_string(),
        condition_id: condition.to_string(),
        side: side.to_string(),
        price: scalar(price),
        timestamp: at,
    }
}

fn point(at: i64, value: f64) -> EquityPoint {
    EquityPoint { timestamp: at, value: scalar(value) }
}

/// Follows an order with its shares as they are.
fn trade(t: &mut CopyTrades, o: &WalletOrder, start: i64) -> Deal {
    let held = number(t.held(&o.token_id));
    let scaled = number(o.shares_normalized);
    let sold = scaled.min(held);
    let n = DealNumbers {
        bought_shares: scalar(held + scaled),
        bought_value: scalar(scaled * number(o.price)),
        rest_shares: scalar(held - sold),
        sold_value: scalar(sold * number(o.price)),
    };
    t.on_order(o, side_kind(&o.side.to_uppercase()), start, scalar(scaled), &n)
}

#[test]
fn days_are_counted_towards_the_epoch() {
    assert_eq!(day_bucket(DAY - 1), 0);
    assert_eq!(day_bucket(DAY), DAY);
    assert_eq!(day_bucket(1763294400 + 5), 1763251200);
    assert_eq!(day_bucket(-1), 0);
    assert_eq!(day_bucket(-DAY - 1), -DAY);
    assert_eq!(day_bucket(day_bucket(1763294400)), day_bucket(1763294400));
}

#[test]
fn sides_are_read_in_any_case() {
    let orders = vec![order("t", "c", "buy", 0.5, 1.0, 1), order("t", "c", "Sell", 0.5, 1.0, 2)];
    assert_eq!(order_kinds(&orders), vec![SideKind::Buy, SideKind::Sell]);
    let acts = vec![activity("t", "c", "redeem", 1.0, 1), activity("t", "c", "MERGE", 1.0, 1)];
    assert_eq!(activity_kinds(&acts), vec![SideKind::Redeem, SideKind::Other]);
}

#[test]
fn events_come_in_the_order_of_time() {
    let orders = vec![
        order("t", "c", "BUY", 0.5, 1.0, 30),
        order("t", "c", "BUY", 0.5, 1.0, 10),
        order("t", "c", "BUY", 0.5, 1.0, 99),
    ];
    let acts = vec![activity("", "c", "REDEEM", 1.0, 10), activity("", "c", "MERGE", 1.0, 20)];
    let events = copy_events(&orders, &acts, &activity_kinds(&acts), 5, 50);
    assert_eq!(events, vec![CopyEvent::Order(1), CopyEvent::Redeem(0), CopyEvent::Order(0)]);
}

#[test]
fn a_follower_sells_no_more_than_it_holds() {
    let mut t = CopyTrades::new();
    assert_eq!(trade(&mut t, &order("t", "c", "SELL", 0.5, 10.0, 100), 0), Deal::Nothing);
    assert_eq!(trade(&mut t, &order("t", "c", "BUY", 0.5, 10.0, 100), 0), Deal::Buy);
    assert_eq!(t.held("t"), scalar(10.0));
    assert_eq!(trade(&mut t, &order("t", "c", "SELL", 0.6, 25.0, 200), 0), Deal::Sell(scalar(10.0)));
    assert_eq!(t.held("t"), scalar(0.0));
    assert_eq!(t.trade_count, 2);
    assert_eq!(t.buy_count, 1);
    assert_eq!(t.traded, vec![DayAmount { day: 0, amount: scalar(5.0) }, DayAmount { day: 0, amount: scalar(6.0) }]);
    assert_eq!(trade(&mut t, &order("t", "c", "BUY", 0.0, 10.0, 100), 0), Deal::Nothing);
    assert_eq!(trade(&mut t, &order("t", "c", "BUY", 0.5, 10.0, 100), 500), Deal::Buy);
    assert_eq!(t.trade_count, 2);
}

#[test]
fn a_redemption_closes_a_token_or_a_condition() {
    let mut t = CopyTrades::new();
    for (token, condition) in [("a", "x"), ("b", "x"), ("c", "y")] {
        trade(&mut t, &order(token, condition, "BUY", 0.5, 1.0, 1), 0);
    }
    assert_eq!(closed_tokens(&t.conditions, &activity("b", "x", "REDEEM", 1.0, 2)), vec!["b".to_string()]);
    t.on_redeem(&activity("b", "x", "REDEEM", 1.0, 2));
    assert_eq!(t.held("a"), scalar(1.0));
    assert_eq!(t.held("b"), scalar(0.0));
    t.on_redeem(&activity("  ", "x", "REDEEM", 1.0, 3));
    assert_eq!(t.held("a"), scalar(0.0));
    assert_eq!(t.held("c"), scalar(1.0));
}

fn mtm(realized: f64, friction: f64) -> MtmNumbers {
    MtmNumbers {
        bought_shares: scalar(10.0),
        bought_cost: scalar(5.0),
        rest_shares: scalar(4.0),
        rest_cost: scalar(2.0),
        realized_total: scalar(realized),
        friction_total: scalar(friction),
        window_friction: scalar(friction),
    }
}

#[test]
fn a_replayed_account_is_marked_to_market() {
    let mut b = MtmBook::new();
    let buy = order("t", "c", "BUY", 0.5, 10.0, 10);
    assert_eq!(b.on_order(&buy, SideKind::Buy, 0, scalar(10.0), &mtm(0.0, 0.1)), Deal::Buy);
    assert_eq!(b.holding("t"), (scalar(10.0), scalar(5.0)));
    let sell = order("t", "c", "SELL", 0.7, 6.0, 20);
    assert_eq!(b.on_order(&sell, SideKind::Sell, 0, scalar(6.0), &mtm(1.2, 0.2)), Deal::Sell(scalar(6.0)));
    assert_eq!(b.holding("t"), (scalar(4.0), scalar(2.0)));
    assert_eq!(b.realized_total, scalar(1.2));
    let mut closes: Table<Vec<DayAmount>> = Table::new();
    let last = b.marks(&closes, 0);
    assert_eq!(last.len(), 1);
    assert_eq!(last[0].price, scalar(0.7));
    extend_closes(&mut closes, "t", &vec![DayAmount { day: 0, amount: scalar(0.8) }]);
    extend_closes(&mut closes, "t", &vec![DayAmount { day: 0, amount: scalar(0.9) }]);
    assert_eq!(b.marks(&closes, 0)[0].price, scalar(0.9));
    assert_eq!(b.marks(&closes, DAY)[0].price, scalar(0.7));
    b.on_redeem(&activity("", "other", "REDEEM", 1.0, 30), scalar(9.0));
    assert_eq!(b.realized_total, scalar(1.2));
    assert_eq!(b.redeemed(&activity("", "c", "REDEEM", 1.0, 30)), vec!["t".to_string()]);
    b.on_redeem(&activity("", "c", "REDEEM", 1.0, 30), scalar(3.2));
    assert_eq!(b.realized_total, scalar(3.2));
    assert_eq!(b.holding("t"), (scalar(0.0), scalar(0.0)));
    assert!(b.marks(&closes, 0).is_empty());
    assert_eq!(b.trade_count, 2);
    assert_eq!(redeem_price(scalar(-1.0)), scalar(1.0));
    assert_eq!(redeem_price(scalar(0.3)), scalar(0.3));
}

#[test]
fn a_replay_closes_every_day() {
    let mut r = Replay::new(&vec![10, DAY + 5, DAY + 9], 0, 2 * DAY + 1).unwrap();
    let mut tasks = Vec::new();
    for _ in 0..7 {
        tasks.push(r.step());
    }
    assert_eq!(
        tasks,
        vec![
            ReplayTask::Follow(0),
            ReplayTask::CloseDay(0),
            ReplayTask::Follow(1),
            ReplayTask::Follow(2),
            ReplayTask::CloseDay(DAY),
            ReplayTask::CloseDay(2 * DAY),
            ReplayTask::Done,
        ]
    );
    assert!(Replay::new(&vec![], DAY, 0).is_none());
}

#[test]
fn candles_are_read_by_day() {
    let candle = |end: Option<i64>, ts: Option<i64>, dollars: Option<f64>, close: Option<f64>| Candle {
        end_period_ts: end,
        timestamp: ts,
        close_dollars: dollars.map(scalar),
        close: close.map(scalar),
        close_hundredth: scalar(close.unwrap_or(0.0) / 100.0),
    };
    let series = vec![
        CandleSeries {
            token_id: Some("t".to_string()),
            candles: Some(vec![
                candle(Some(DAY + 1), None, Some(0.4), None),
                candle(None, Some(2 * DAY), None, Some(55.0)),
                candle(None, Some(3 * DAY), None, Some(1.5)),
                candle(None, None, Some(0.1), None),
            ]),
        },
        CandleSeries { token_id: None, candles: Some(vec![]) },
        CandleSeries { token_id: Some("u".to_string()), candles: Some(vec![]) },
    ];
    let r = parse_token_daily_closes(&series);
    assert_eq!(r.len(), 1);
    let days = r.get("t").unwrap();
    assert_eq!(days.len(), 3);
    assert_eq!(days[0], DayAmount { day: DAY, amount: scalar(0.4) });
    assert_eq!(days[1].amount, scalar(0.55));
    assert_eq!(days[2].amount, scalar(1.5));
    assert_eq!(candle_key("c"), "candles_day_v1:c");
    assert_eq!(candle_start(200 * DAY), 0);
    assert!(candles_fresh(21_599, 0));
    assert!(!candles_fresh(21_600, 0));
}

#[test]
fn the_latest_conditions_are_priced_once() {
    let mut orders = Vec::new();
    for i in 0..60i64 {
        orders.push(order("t", &format!("c{}", i / 2), "BUY", 0.5, 1.0, i));
    }
    let c = recent_conditions(&orders, 0, 100);
    assert_eq!(c.len(), 30);
    assert_eq!(c[0], "c29");
    for i in 60..200i64 {
        orders.push(order("t", &format!("c{}", i), "BUY", 0.5, 1.0, 10));
    }
    assert_eq!(recent_conditions(&orders, 0, 100).len(), 40);
    assert!(recent_conditions(&orders, 500, 600).is_empty());
}

#[test]
fn a_window_is_counted_from_its_first_day() {
    let curve = vec![point(0, 1.0), point(DAY, 3.0), point(2 * DAY, 4.0)];
    let w = window_curve(&curve, DAY).unwrap();
    assert_eq!(w.base, scalar(3.0));
    let r = shift_window(w, &vec![scalar(0.0), scalar(1.0)]);
    assert_eq!(r, vec![point(DAY, 0.0), point(2 * DAY, 1.0)]);
    assert!(window_curve(&curve, 2 * DAY).is_none());
}

fn moved(realized: f64) -> MoveNumbers {
    MoveNumbers {
        bought_shares: scalar(2.0),
        bought_cost: scalar(1.0),
        rest_shares: scalar(1.0),
        rest_cost: scalar(0.5),
        realized: scalar(realized),
        realized_total: scalar(realized),
        friction_total: scalar(0.01),
    }
}

#[test]
fn a_fixed_amount_goes_into_each_order() {
    let mut f = FollowerBook::new();
    let buy = order("t", "c", "BUY", 0.5, 9.0, 10);
    assert_eq!(f.on_order(&buy, SideKind::Buy, 0, scalar(2.0), &moved(0.0)), Move::Buy);
    assert_eq!(f.holding("c"), (scalar(2.0), scalar(1.0)));
    assert_eq!(f.trade_count, 1);
    let sell = order("t", "c", "SELL", 1.0, 9.0, DAY + 10);
    assert_eq!(f.on_order(&sell, SideKind::Sell, 0, scalar(1.0), &moved(0.5)), Move::Sell(scalar(1.0)));
    assert_eq!(f.realized, vec![DayAmount { day: DAY, amount: scalar(0.5) }]);
    assert_eq!(f.open_positions(), vec!["c".to_string()]);
    assert!(f.on_redeem(&activity("", "c", "REDEEM", 1.0, 2 * DAY), 0, scalar(0.5), scalar(1.0)));
    assert_eq!(f.realized_total, scalar(1.0));
    assert!(!f.on_redeem(&activity("", "c", "REDEEM", 1.0, 2 * DAY), 0, scalar(0.5), scalar(9.0)));
    assert_eq!(f.realized_total, scalar(1.0));
    assert!(f.open_positions().is_empty());
}

fn resolution(winner: Option<&str>) -> MarketResolution {
    MarketResolution {
        winning_side: winner.map(|w| w.to_string()),
        side_a: Some(MarketSide { id: "1".to_string(), label: "Yes".to_string() }),
        side_b: Some(MarketSide { id: "2".to_string(), label: "No".to_string() }),
        completed_time: Some(3 * DAY + 7),
    }
}

#[test]
fn holdings_are_settled_by_the_winner() {
    let p = Position {
        shares: scalar(10.0),
        cost_usd: scalar(5.0),
        token_label: Some("YES".to_string()),
        last_price: scalar(0.5),
    };
    assert_eq!(winning_label(&resolution(Some("A"))).as_deref(), Some("Yes"));
    assert_eq!(winning_label(&resolution(Some("2"))).as_deref(), Some("No"));
    assert_eq!(winning_label(&resolution(Some("c"))), None);
    assert_eq!(winning_label(&resolution(None)), None);
    let won = settle_open_position(&p, &resolution(Some("A")), 0).unwrap();
    assert_eq!(won.price, scalar(1.0));
    assert_eq!(won.day, 3 * DAY);
    assert_eq!(settle_open_position(&p, &resolution(Some("b")), 0).unwrap().price, scalar(0.0));
    assert!(settle_open_position(&p, &resolution(None), 0).is_none());
    let unlabelled = Position { token_label: None, ..p };
    assert_eq!(settle_open_position(&unlabelled, &resolution(Some("A")), 0).unwrap().price, scalar(0.0));
    assert!(settle_open_position(&Position::default(), &resolution(Some("A")), 0).is_none());
}

#[test]
fn an_empty_curve_is_drawn_flat() {
    assert_eq!(drawable(vec![], 10, DAY + 10, scalar(2.0)), vec![point(0, 0.0), point(DAY, 2.0)]);
    assert_eq!(drawable(vec![], 10, 20, scalar(2.0)), vec![point(0, 0.0)]);
    assert_eq!(drawable(vec![point(5, 1.0)], 10, 20, scalar(2.0)), vec![point(5, 1.0)]);
}

#[test]
fn modes_and_models_are_read_in_any_case() {
    assert_eq!(FrictionMode::from_str("OPTIMISTIC"), FrictionMode::Optimistic);
    assert_eq!(FrictionMode::from_str("pessimistic"), FrictionMode::Pessimistic);
    assert_eq!(FrictionMode::from_str("anything"), FrictionMode::Base);
    assert_eq!(CopyCurveModel::from_str("MTM"), CopyCurveModel::Mtm);
    assert_eq!(CopyCurveModel::from_str(""), CopyCurveModel::Scaled);
    assert_eq!(number(FrictionMode::Optimistic.total_friction_pct()), 0.35);
    assert_eq!(number(FrictionMode::Base.total_friction_pct()), 1.0);
    assert_eq!(number(FrictionMode::Pessimistic.total_friction_pct()), 2.0);
    assert_eq!(
        wallet_analytics_cache_key("0xAbC", FrictionMode::Pessimistic, CopyCurveModel::Mtm),
        "wallet_analytics_v5:0xabc:pess:mtm"
    );
    let p = WalletAnalyticsParams::default();
    assert_eq!((p.lookback_days, p.warmup_days, p.max_orders), (90, 30, 2000));
    let span = analytics_span(200 * DAY, &p);
    assert_eq!(span.start_time, 110 * DAY);
    assert_eq!(span.fetch_start_time, 80 * DAY);
}

fn bundle(points: usize) -> CopyMtmResult {
    CopyMtmResult {
        curve: (0..points).map(|i| point(i as i64, 1.0)).collect(),
        total_friction_usd: scalar(points as f64),
        trade_count: points as u64,
        buy_count: points as u64,
    }
}

#[test]
fn the_curve_that_can_be_drawn_is_chosen() {
    let chosen = |m, s, r: Option<usize>| choose_copy_curve(m, bundle(s), r.map(bundle), 0, DAY).trade_count;
    assert_eq!(chosen(CopyCurveModel::Scaled, 3, Some(5)), 3);
    assert_eq!(chosen(CopyCurveModel::Scaled, 1, Some(5)), 5);
    assert_eq!(chosen(CopyCurveModel::Scaled, 1, None), 1);
    assert_eq!(chosen(CopyCurveModel::Mtm, 3, Some(5)), 5);
    assert_eq!(chosen(CopyCurveModel::Mtm, 3, Some(1)), 3);
    assert_eq!(choose_copy_curve(CopyCurveModel::Mtm, bundle(0), None, 0, DAY).curve.len(), 2);
    assert!(mtm_needed(CopyCurveModel::Mtm, 9));
    assert!(mtm_needed(CopyCurveModel::Scaled, 1));
    assert!(!mtm_needed(CopyCurveModel::Scaled, 2));
}

#[test]
fn purchases_that_count_set_the_scale() {
    let orders = vec![
        order("t", "c", "BUY", 0.5, 10.0, 5),
        order("t", "c", "buy", 0.5, 10.0, 15),
        order("t", "c", "SELL", 0.5, 10.0, 15),
        order("t", "c", "BUY", f64::NAN, 10.0, 15),
        order("t", "c", "BUY", 0.5, 0.0, 15),
    ];
    let kinds = order_kinds(&orders);
    assert_eq!(counted_buys(&orders, &kinds, 10), vec![1]);
    assert_eq!(compute_copy_roe_denom_usd(&orders, &kinds, 10, scalar(1.0)), Some(3));
    assert_eq!(compute_copy_roe_denom_usd(&orders, &kinds, 10, scalar(0.0)), None);
    assert_eq!(compute_copy_scale_factor(scalar(1.0), 1, scalar(0.2)), scalar(0.2));
    assert_eq!(compute_copy_scale_factor(scalar(1.0), 0, scalar(0.2)), scalar(1.0));
    assert_eq!(compute_copy_scale_factor(scalar(-1.0), 1, scalar(0.2)), scalar(1.0));
    assert_eq!(least_average(scalar(0.0)), scalar(1e-6));
}

#[test]
fn costs_reach_the_points_from_their_day_on() {
    let daily = vec![
        DayAmount { day: 0, amount: scalar(10.0) },
        DayAmount { day: DAY, amount: scalar(-1.0) },
        DayAmount { day: 2 * DAY, amount: scalar(20.0) },
    ];
    let costs =
        trade_notional_to_friction_costs(&daily, scalar(0.01), &vec![scalar(0.1), scalar(-0.01), scalar(0.2)]);
    assert_eq!(costs.len(), 2);
    assert!(trade_notional_to_friction_costs(&daily, scalar(0.0), &vec![scalar(0.0); 3]).is_empty());
    let curve = vec![point(3 * DAY, 4.0), point(5, 1.0), point(DAY + 5, 2.0)];
    let charged = apply_daily_costs_to_curve(&curve, &costs);
    let got: Vec<(i64, usize)> = charged.iter().map(|c| (c.point.timestamp, c.charged)).collect();
    assert_eq!(got, vec![(5, 1), (DAY + 5, 1), (3 * DAY, 2)]);
}

#[test]
fn a_curve_starts_at_zero() {
    let curve = vec![point(2, 5.0), point(1, 3.0)];
    assert_eq!(
        normalize_curve_to_zero(curve, &vec![scalar(0.0), scalar(2.0)]),
        vec![point(1, 0.0), point(2, 2.0)]
    );
    assert_eq!(normalize_curve_to_zero(vec![point(1, 3.0)], &vec![scalar(9.0)]), vec![point(1, 3.0)]);
    let odd = vec![point(2, 5.0), point(1, f64::INFINITY)];
    assert_eq!(
        normalize_curve_to_zero(odd, &vec![scalar(0.0), scalar(0.0)]),
        vec![point(1, f64::INFINITY), point(2, 5.0)]
    );
}

fn steps_of(values: &[f64]) -> Vec<StepKind> {
    let curve: Vec<EquityPoint> = values.iter().enumerate().map(|(i, v)| point(i as i64, *v)).collect();
    let deltas: Vec<Scalar> = values.windows(2).map(|w| scalar(w[1] - w[0])).collect();
    curve_steps(&curve, &deltas)
}

#[test]
fn steps_are_won_or_lost() {
    let steps = steps_of(&[1.0, 2.0, 2.0, 1.5, f64::NAN, 3.0, 4.0]);
    assert_eq!(
        steps,
        vec![StepKind::Win, StepKind::Flat, StepKind::Loss, StepKind::Flat, StepKind::Flat, StepKind::Win]
    );
    assert_eq!(count_steps(&steps), (2, 1));
    let n = StepNumbers {
        win_part: scalar(2.0 / 3.0),
        gross_profit: scalar(2.0),
        gross_loss: scalar(0.5),
        quotient: scalar(4.0),
    };
    assert_eq!(compute_curve_win_rate_profit_factor(&steps, &n), (Some(scalar(2.0 / 3.0)), Some(scalar(4.0))));
    let only_wins = StepNumbers { gross_loss: scalar(0.0), ..n };
    assert_eq!(compute_curve_win_rate_profit_factor(&steps, &only_wins).1, Some(scalar(999.0)));
    assert_eq!(compute_curve_win_rate_profit_factor(&vec![], &n), (None, None));
    assert_eq!(compute_roe_pct(Some(scalar(1.0)), Some(scalar(4.0)), scalar(25.0)), Some(scalar(25.0)));
    assert_eq!(compute_roe_pct(Some(scalar(1.0)), Some(scalar(0.0)), scalar(25.0)), None);
    assert_eq!(compute_roe_pct(None, Some(scalar(4.0)), scalar(25.0)), None);
}

fn amounts(parts: &[(i64, f64)]) -> Vec<DayAmount> {
    parts.iter().map(|(day, x)| DayAmount { day: *day, amount: scalar(*x) }).collect()
}

fn sums_of(parts: &[DayAmount], days: &[DayGroup]) -> Vec<Scalar> {
    days.iter().map(|g| scalar(g.places.iter().fold(0.0, |sum, i| sum + number(parts[*i].amount)))).collect()
}

#[test]
fn amounts_are_grouped_by_rising_days() {
    let parts = amounts(&[(2 * DAY, 1.0), (0, 2.0), (2 * DAY, 4.0), (DAY, 8.0), (0, 16.0), (-DAY, 32.0)]);
    let groups = group_by_day(&parts);
    let got: Vec<(i64, Vec<usize>)> = groups.iter().map(|g| (g.day, g.places.clone())).collect();
    assert_eq!(got, vec![(-DAY, vec![5]), (0, vec![1, 4]), (DAY, vec![3]), (2 * DAY, vec![0, 2])]);
    let sums = day_sums(&groups, &sums_of(&parts, &groups));
    assert_eq!(sums, amounts(&[(-DAY, 32.0), (0, 18.0), (DAY, 8.0), (2 * DAY, 5.0)]));
    assert!(group_by_day(&vec![]).is_empty());
}

#[test]
fn two_changes_of_a_day_are_added() {
    let span = sharpe_span(4, 10 * DAY, 4).unwrap();
    let curve = vec![point(DAY, 0.0), point(7 * DAY, 1.0), point(7 * DAY + 9, 3.0), point(10 * DAY, 2.0)];
    let terms = daily_deltas(&curve, &vec![scalar(1.0), scalar(2.0), scalar(-1.0)], &span);
    let days = group_by_day(&terms);
    assert_eq!(
        fill_days(&days, &sums_of(&terms, &days), &span),
        vec![scalar(0.0), scalar(3.0), scalar(0.0), scalar(0.0), scalar(-1.0)]
    );
}

#[test]
fn a_follower_is_drawn_by_its_days() {
    let days = group_by_day(&amounts(&[(3 * DAY, 1.0), (DAY, 2.0), (3 * DAY, 4.0)]));
    let equity = vec![scalar(2.0), scalar(7.0)];
    let curve = drawn_curve(&days, &equity, 0, 9 * DAY, scalar(7.0));
    assert_eq!(curve, vec![point(DAY, 2.0), point(3 * DAY, 7.0)]);
    let flat = drawn_curve(&vec![], &vec![], 10, DAY + 10, scalar(0.0));
    assert_eq!(flat, vec![point(0, 0.0), point(DAY, 0.0)]);
}

#[test]
fn settlements_are_kept_by_day() {
    let p = Position {
        shares: scalar(10.0),
        cost_usd: scalar(4.0),
        token_label: Some("Yes".to_string()),
        last_price: scalar(0.4),
    };
    let s = settle_open_position(&p, &resolution(Some("A")), 5 * DAY + 7).unwrap();
    let mut all = Settlements::new();
    all.on_settled(&s, scalar(6.0), scalar(6.0));
    all.on_settled(&s, scalar(-1.0), scalar(5.0));
    let days = all.days();
    assert_eq!(days.len(), 1);
    assert_eq!((days[0].day, days[0].places.clone()), (s.day, vec![0, 1]));
    assert_eq!(s.day % DAY, 0);
    assert_eq!(all.total, scalar(5.0));
}

#[test]
fn costs_of_a_day_are_borne_once() {
    let traded = amounts(&[(2 * DAY, 20.0), (0, 10.0), (2 * DAY, 10.0)]);
    let days = group_by_day(&traded);
    let daily = day_sums(&days, &sums_of(&traded, &days));
    let costs = trade_notional_to_friction_costs(&daily, scalar(0.01), &vec![scalar(0.1), scalar(0.3)]);
    assert_eq!(costs, amounts(&[(0, 0.1), (2 * DAY, 0.3)]));
    let charged = apply_daily_costs_to_curve(&vec![point(5 * DAY, 4.0), point(DAY, 1.0), point(-DAY, 0.0)], &costs);
    let got: Vec<(i64, usize)> = charged.iter().map(|c| (c.point.timestamp, c.charged)).collect();
    assert_eq!(got, vec![(-DAY, 0), (DAY, 1), (5 * DAY, 2)]);
}

#[test]
fn days_without_a_change_count_as_zero() {
    let span = sharpe_span(3, 10 * DAY, 4).unwrap();
    assert_eq!((span.start_day, span.end_day), (6 * DAY, 10 * DAY));
    assert!(sharpe_span(2, 10 * DAY, 4).is_none());
    let curve = vec![point(DAY, 0.0), point(7 * DAY, 1.0), point(9 * DAY + 3, 3.0)];
    let terms = daily_deltas(&curve, &vec![scalar(1.0), scalar(2.0)], &span);
    assert_eq!(terms.len(), 2);
    let days = group_by_day(&terms);
    assert_eq!(
        fill_days(&days, &sums_of(&terms, &days), &span),
        vec![scalar(0.0), scalar(1.0), scalar(0.0), scalar(2.0), scalar(0.0)]
    );
    assert_eq!(compute_curve_sharpe(3, scalar(0.5), scalar(2.0)), Some(scalar(2.0)));
    assert_eq!(compute_curve_sharpe(2, scalar(0.5), scalar(2.0)), None);
    assert_eq!(compute_curve_sharpe(3, scalar(0.0), scalar(2.0)), None);
}

#[test]
fn outliers_are_held_back() {
    let mut v: Vec<Scalar> = (0..11).map(|i| scalar(i as f64)).collect();
    v.push(scalar(f64::NAN));
    assert_eq!(finite_count(&v), 11);
    winsorize_in_place(&mut v, 1, 9);
    assert_eq!(v[0], scalar(1.0));
    assert_eq!(v[5], scalar(5.0));
    assert_eq!(v[10], scalar(9.0));
    assert_eq!(v[11], Scalar::Undefined);
    let mut few: Vec<Scalar> = (0..9).map(|i| scalar(i as f64)).collect();
    winsorize_in_place(&mut few, 1, 7);
    assert_eq!(few[0], scalar(0.0));
}

fn analytics(copy: CopyMtmResult) -> WalletAnalytics {
    let n = StepNumbers {
        win_part: scalar(1.0),
        gross_profit: scalar(1.0),
        gross_loss: scalar(0.0),
        quotient: scalar(0.0),
    };
    let numbers = AnalyticsNumbers {
        wallet_difference: scalar(2.0),
        copy_difference: scalar(1.0),
        wallet_sum: scalar(0.0),
        wallet_percent: scalar(7.0),
        copy_product: scalar(4.0),
        copy_percent: scalar(25.0),
        wallet_deltas: vec![],
        wallet_step_numbers: n,
        copy_deltas: vec![scalar(1.0); copy.curve.len().saturating_sub(1)],
        copy_step_numbers: n,
        sharpe_7d: SharpeNumbers { std: scalar(0.0), ratio: scalar(9.0) },
        sharpe_14d: SharpeNumbers { std: scalar(0.0), ratio: scalar(9.0) },
        sharpe_30d: SharpeNumbers { std: scalar(0.5), ratio: scalar(1.5) },
        sharpe_90d: SharpeNumbers { std: scalar(0.0), ratio: scalar(9.0) },
    };
    compute_wallet_analytics("0xabc", 77, &WalletAnalyticsParams::default(), vec![], copy, &numbers)
}

#[test]
fn analytics_are_put_together() {
    let a = analytics(bundle(4));
    assert_eq!(a.wallet_address, "0xabc");
    assert_eq!(a.updated_at, 77);
    assert_eq!(a.wallet_total_pnl, None);
    assert_eq!(a.wallet_roe_pct, None);
    assert_eq!(a.copy_total_pnl, Some(scalar(1.0)));
    assert_eq!(a.copy_roe_denom_usd, Some(scalar(4.0)));
    assert_eq!(a.copy_roe_pct, Some(scalar(25.0)));
    assert_eq!(a.copy_profit_factor, Some(scalar(999.0)));
    assert_eq!(a.copy_sharpe_30d, Some(scalar(1.5)));
    assert_eq!(a.copy_friction_mode.as_deref(), Some("base"));
    assert_eq!(a.copy_trade_count, Some(4));
    assert_eq!(analytics(bundle(0)).copy_roe_denom_usd, None);
}

#[test]
fn analytics_are_served_from_memory() {
    assert!(matches!(on_cache(None, false, 10), CacheStep::Compute(None)));
    assert!(matches!(on_cache(Some((Some(analytics(bundle(2))), 100)), false, 1000), CacheStep::Serve(_)));
    assert!(matches!(on_cache(Some((Some(analytics(bundle(2))), 100)), false, 1001), CacheStep::Compute(Some(_))));
    assert!(matches!(on_cache(Some((Some(analytics(bundle(2))), 100)), true, 1000), CacheStep::Compute(Some(_))));
    assert!(matches!(on_cache(Some((None, 100)), false, 100), CacheStep::Compute(None)));
    let kept = on_computed::<String>(Ok(analytics(bundle(2))), None);
    assert!(kept.remember && kept.answer.is_ok());
    assert!(!on_computed::<String>(Ok(analytics(bundle(0))), None).remember);
    let stale = on_computed(Err("down".to_string()), Some(analytics(bundle(2))));
    assert!(stale.answer.is_ok() && !stale.remember);
    assert_eq!(on_computed(Err("down".to_string()), None).answer.unwrap_err(), "down");
}

#[test]
fn resolutions_are_remembered_for_an_hour() {
    assert_eq!(resolution_key("c1"), "market_resolution_v1:c1");
    assert!(resolution_fresh(3599, 0));
    assert!(!resolution_fresh(3600, 0));
    assert_eq!(close_price(scalar(0.4)), scalar(0.4));
    assert_eq!(close_price(scalar(f64::NAN)), scalar(1.0));
    assert_eq!(close_price(scalar(f64::INFINITY)), scalar(1.0));
}

#[test]
fn orders_without_a_price_or_a_size_count_for_no_sample() {
    let mut o = order("t", "c", "BUY", 0.5, 10.0, 0);
    assert!(counts_for_sample(&o));
    o.price = scalar(0.0);
    assert!(!counts_for_sample(&o));
    o.price = scalar(0.5);
    o.shares_normalized = scalar(f64::NAN);
    assert!(!counts_for_sample(&o));
}
