use betterbot::base::scalar::Scalar;
use betterbot::base::settings::Environment;
use betterbot::vault::engine::periodic_snapshot;
use betterbot::vault::execution::{
    signing_message, BalanceReply, ClobOrderResponse, DomeExecutionAdapter, OrderError, OrderRequest, OrderSide,
    PaperExecutionAdapter, PaperExecutionConfig, PolymarketClobAdapter, PolymarketClobCredentials,
    PolymarketPosition, Simulation, TimeInForce,
};
use betterbot::vault::records::NavFigures;

fn scalar(x: f64) -> Scalar {
    if x.is_nan() {
        Scalar::Undefined
    } else {
        let b = x.to_bits() as i64;
        Scalar::Rank(if b < 0 { i64::MIN.wrapping_sub(b) } else { b })
    }
}

fn number(s: Scalar) -> f64 {
    match s {
        Scalar::Undefined => f64::NAN,
        Scalar::Rank(a) => {
            if a < 0 {
                -f64::from_bits((-a) as u64)
            } else {
                f64::from_bits(a as u64)
            }
        }
    }
}

fn order(price: f64, notional: f64, tif: TimeInForce) -> OrderRequest {
    OrderRequest {
        client_order_id: "c1".to_string(),
        token_id: "t1".to_string(),
        side: OrderSide::Buy,
        price: scalar(price),
        notional_usdc: scalar(notional),
        tif,
        market_slug: None,
        outcome: None,
    }
}

fn simulation(reject: f64, partial: f64) -> Simulation {
    Simulation {
        reject_draw: scalar(reject),
        partial_draw: scalar(partial),
        partial_ratio: scalar(0.6),
        slipped_price: scalar(0.505),
        slippage_bps: scalar(100.0),
        full_notional: scalar(100.0),
        full_fees: scalar(0.5),
        partial_notional: scalar(60.0),
        partial_fees: scalar(0.3),
    }
}

fn clob(secret: &str) -> PolymarketClobAdapter {
    PolymarketClobAdapter::new(PolymarketClobCredentials {
        api_key: "key".to_string(),
        secret: secret.to_string(),
        passphrase: "phrase".to_string(),
    })
}

#[test]
fn a_request_is_signed_under_its_secret() {
    let adapter = clob("MDEyMzQ1Njc4OWFiY2RlZjAxMjM0NTY3ODlhYmNkZWY=");
    let path = "/balance-allowance?signature_type=2";
    assert_eq!(signing_message("GET", path, "", 1700000000), "1700000000GET/balance-allowance?signature_type=2");
    assert_eq!(
        adapter.sign_request("GET", path, "", 1700000000).unwrap(),
        "BqOrWo2x15VixZGluPBs13_iQa7h7PjH6AfIpRFshuA="
    );
}

#[test]
fn each_alphabet_of_a_secret_is_read() {
    let expected = "MuEyE5I9EslYfPpfuGci0ApDgu-Vy_fWqJHqc2hRabk=";
    for secret in ["-__-AQI=", "-__-AQI", "+//+AQI="] {
        assert_eq!(clob(secret).sign_request("POST", "/order", "{}", 5).unwrap(), expected);
    }
    assert!(matches!(clob("?").sign_request("GET", "/", "", 1), Err(OrderError::BadSecret)));
}

#[test]
fn headers_carry_the_signature() {
    let h = clob("-__-AQI=").auth_headers("POST", "/order", "{}", 5, Some("0xabc".to_string())).unwrap();
    let names: Vec<&str> = h.iter().map(|(k, _)| k.as_str()).collect();
    assert_eq!(
        names,
        vec!["POLY_ADDRESS", "POLY_API_KEY", "POLY_SIGNATURE", "POLY_TIMESTAMP", "POLY_PASSPHRASE"]
    );
    assert_eq!(h[0].1, "0xabc");
    assert_eq!(h[2].1, "MuEyE5I9EslYfPpfuGci0ApDgu-Vy_fWqJHqc2hRabk=");
    assert_eq!(h[3].1, "5");
    assert!(clob("?").auth_headers("GET", "/", "", 1, None).is_err());
}

#[test]
fn a_latency_lies_between_base_and_jitter() {
    let adapter = PaperExecutionAdapter::new(PaperExecutionConfig::default());
    for _ in 0..50 {
        let l = adapter.latency_ms();
        assert!(l >= 150 && l <= 350);
    }
    assert_eq!(adapter.latency_with(7), 157);
}

#[test]
fn paper_orders_are_filled_or_refused() {
    let adapter = PaperExecutionAdapter::new(PaperExecutionConfig::default());
    let ack = adapter.place_order(&order(0.5, 100.0, TimeInForce::Gtc), &simulation(0.5, 0.9), 150, 7).unwrap();
    assert_eq!(ack.order_id, "paper:c1");
    assert_eq!(ack.filled_notional_usdc, scalar(100.0));
    assert_eq!(ack.filled_price, scalar(0.505));
    assert_eq!(ack.filled_at, 7);
    let part = adapter.place_order(&order(0.5, 100.0, TimeInForce::Gtc), &simulation(0.5, 0.1), 150, 7).unwrap();
    assert_eq!(part.filled_notional_usdc, scalar(60.0));
    assert_eq!(part.fees_usdc, scalar(0.3));
    let refused = |o: &OrderRequest, s: &Simulation| adapter.place_order(o, s, 1, 1).unwrap_err();
    assert!(matches!(refused(&order(1.0, 1.0, TimeInForce::Gtc), &simulation(0.5, 0.9)), OrderError::InvalidPrice));
    assert!(matches!(refused(&order(0.5, 0.0, TimeInForce::Gtc), &simulation(0.5, 0.9)), OrderError::InvalidNotional));
    assert!(matches!(refused(&order(0.5, 1.0, TimeInForce::Gtc), &simulation(0.01, 0.9)), OrderError::Rejected));
    assert!(matches!(refused(&order(0.5, 1.0, TimeInForce::Fok), &simulation(0.5, 0.1)), OrderError::NotFullyFilled));
}

#[test]
fn the_router_takes_no_orders() {
    let mut env = Environment::new();
    assert!(DomeExecutionAdapter::from_env(&env).is_none());
    env.set("DOME_ROUTER_URL", "http://router", None);
    env.set("DOME_API_KEY", "k", None);
    let router = DomeExecutionAdapter::from_env(&env).unwrap();
    assert_eq!(router.api_key, "k");
    assert!(matches!(router.place_order(&order(0.5, 1.0, TimeInForce::Gtc)), Err(OrderError::NotConfigured)));
    env.set("DOME_ROUTER_API_KEY", " ", None);
    assert!(DomeExecutionAdapter::from_env(&env).is_none());
}

#[test]
fn credentials_are_needed_whole() {
    let mut env = Environment::new();
    env.set("POLYMARKET_CLOB_API_KEY", "a", None);
    env.set("POLYMARKET_CLOB_SECRET", "b", None);
    assert!(PolymarketClobCredentials::from_env(&env).is_none());
    env.set("POLYMARKET_CLOB_PASSPHRASE", "c", None);
    let c = PolymarketClobCredentials::from_env(&env).unwrap();
    assert_eq!(c.secret, "b");
}

#[test]
fn answers_of_the_venue_are_read() {
    let a = clob("-__-AQI=");
    let reply = |n: Option<f64>, m: Option<f64>, w: Option<f64>| BalanceReply {
        number: n.map(scalar),
        millionths: m.map(scalar),
        whole: w.map(scalar),
    };
    assert_eq!(a.balance_of(&reply(Some(1.0), Some(2.0), None)), scalar(1.0));
    assert_eq!(a.balance_of(&reply(None, Some(2.0), Some(3.0))), scalar(2.0));
    assert_eq!(a.balance_of(&reply(None, None, Some(3.0))), scalar(3.0));
    assert_eq!(a.balance_of(&reply(None, None, None)), scalar(0.0));
    assert!(!a.positions_worth_reading(true, "[]"));
    assert!(!a.positions_worth_reading(true, ""));
    assert!(!a.positions_worth_reading(false, "[1]"));
    assert!(a.positions_worth_reading(true, "[1]"));
    let (path, url) = a.positions_urls("0xabc");
    assert_eq!(path, "/positions?address=0xabc");
    assert_eq!(url, "https://data-api.polymarket.com/positions?user=0xabc");
    let p = PolymarketPosition {
        token_id: "t".to_string(),
        size: scalar(10.0),
        avg_price: scalar(0.4),
        market_slug: None,
        outcome: None,
        current_price: None,
    };
    assert_eq!(p.mark(), scalar(0.4));
    let info = a.account_info(None, Some(vec![p]), scalar(4.0), scalar(4.0), 9);
    assert_eq!(info.balance_usdc, scalar(0.0));
    assert_eq!(info.positions.len(), 1);
    assert_eq!(info.fetched_at, 9);
    assert!(a.account_info(Some(scalar(2.0)), None, scalar(0.0), scalar(2.0), 9).positions.is_empty());
}

#[test]
fn a_refused_order_tells_why() {
    let a = clob("-__-AQI=");
    let resp = ClobOrderResponse {
        order_id: None,
        error_msg: Some("not enough balance".to_string()),
        filled_size: None,
        avg_price: None,
    };
    let e = a.place_order(&order(0.5, 10.0, TimeInForce::Gtc), &resp, scalar(10.0), scalar(0.0), 5, 6);
    assert!(e.is_err());
    assert!(e.unwrap_err().message().len() > 0);
    let payload = a.order_payload(&order(0.5, 10.0, TimeInForce::Ioc), "0.5".to_string(), "20".to_string()).unwrap();
    assert_eq!(payload.side, "BUY");
    assert_eq!(number(order(0.5, 1.0, TimeInForce::Gtc).price), 0.5);
}

#[test]
fn a_fill_is_what_is_reported_or_else_everything() {
    let a = clob("-__-AQI=");
    let silent = ClobOrderResponse { order_id: None, error_msg: None, filled_size: None, avg_price: None };
    let o = order(0.5, 10.0, TimeInForce::Gtc);
    assert_eq!(a.fill_of(&o, scalar(20.0), &silent), (scalar(20.0), scalar(0.5)));
    let told = ClobOrderResponse { filled_size: Some(scalar(7.0)), avg_price: Some(scalar(0.4)), ..silent };
    assert_eq!(a.fill_of(&o, scalar(20.0), &told), (scalar(7.0), scalar(0.4)));
}

#[test]
fn a_period_is_named_by_its_bucket() {
    let figures = NavFigures {
        nav_usdc: scalar(1.0),
        cash_usdc: scalar(1.0),
        positions_value_usdc: scalar(0.0),
        total_shares: scalar(1.0),
        nav_per_share: scalar(1.0),
    };
    let a = periodic_snapshot(1700000025, 60, figures);
    let b = periodic_snapshot(1700000039, 60, figures);
    let c = periodic_snapshot(1700000041, 60, figures);
    assert_eq!(a.ts, 1699999980);
    assert_eq!(a.id, b.id);
    assert_ne!(a.id, c.id);
    let name = format!("betterbot:navsnap:{}:60", a.ts);
    assert_eq!(a.id, uuid::Uuid::new_v5(&uuid::Uuid::NAMESPACE_URL, name.as_bytes()).to_string());
    assert_eq!(a.source, "periodic");
}
