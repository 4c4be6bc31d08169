use betterbot::base::scalar::Scalar;
use betterbot::models::{MarketSignal, SignalDetails, SignalType};
use betterbot::signals::detector::{
    confidence_of, DeviationNumbers, DomeOrder, EventFigures, EventNumbers, OrderNumbers, PolymarketEvent, PolymarketMarket,
    SignalDetector,
};
use betterbot::signals::quality::{
    is_corroborated, is_stale, is_stale_at, metric_for_signal, Instant, SignalQualityGate, StatNumbers,
};
use betterbot::signals::storage::SignalStorage;
use betterbot::signals::updown_history::{worth_keeping, UpDown15mHistory, WindowPrices, WindowStep};

fn scalar(x: f64) -> Scalar {
    if x.is_nan() {
        Scalar::Undefined
    } else {
        let b = x.to_bits() as i64;
        Scalar::Rank(if b < 0 { i64::MIN.wrapping_sub(b) } else { b })
    }
}

fn number(s: Scalar) -> f64 {
    match s {
        Scalar::Undefined => f64::NAN,
        Scalar::Rank(a) => {
            if a < 0 {
                -f64::from_bits((-a) as u64)
            } else {
                f64::from_bits(a as u64)
            }
        }
    }
}

fn signal(id: &str, market: &str, source: &str, at: &str, t: SignalType) -> MarketSignal {
    MarketSignal {
        id: id.to_string(),
        signal_type: t,
        market_slug: market.to_string(),
        confidence: scalar(0.85),
        risk_level: "medium".to_string(),
        details: SignalDetails {
            market_id: "i".to_string(),
            market_title: "Test Market".to_string(),
            current_price: scalar(0.55),
            volume_24h: scalar(10000.0),
            liquidity: scalar(50000.0),
            recommended_action: "BUY".to_string(),
            expiry_time: None,
            observed_timestamp: None,
            signal_family: None,
            calibration_version: None,
            guardrail_flags: None,
            recommended_size: None,
        },
        detected_at: at.to_string(),
        source: source.to_string(),
    }
}

fn deviation(pct: f64) -> SignalType {
    SignalType::PriceDeviation { market_price: scalar(0.55), fair_value: scalar(0.50), deviation_pct: scalar(pct) }
}

fn stats(std_dev: f64, threshold: f64) -> StatNumbers {
    StatNumbers {
        std_dev: scalar(std_dev),
        threshold: scalar(threshold),
        mean_after: scalar(1.0),
        m2_after: scalar(1.0),
    }
}

#[test]
fn a_signal_grows_stale() {
    let s = signal("a", "m", "x", "2025-11-16T12:00:00+00:00", deviation(10.0));
    let cutoff: i128 = 60_000_000_000;
    assert!(!is_stale(&s, &Instant { secs: 1763294460, nanos: 0 }, cutoff));
    assert!(is_stale(&s, &Instant { secs: 1763294461, nanos: 0 }, cutoff));
    let east = signal("a", "m", "x", "2025-11-16T14:00:00+02:00", deviation(10.0));
    assert!(!is_stale(&east, &Instant { secs: 1763294460, nanos: 0 }, cutoff));
    let at = Instant { secs: 10, nanos: 500_000_000 };
    assert!(!is_stale_at(Some(at), &Instant { secs: 11, nanos: 0 }, 500_000_000));
    assert!(is_stale_at(Some(at), &Instant { secs: 11, nanos: 1 }, 500_000_000));
}

#[test]
fn a_second_source_corroborates() {
    let one = signal("a", "m", "x", "2025-11-16T12:00:00Z", deviation(10.0));
    let other = signal("b", "m", "y", "2025-11-16T12:00:00Z", deviation(10.0));
    let again = signal("c", "m", "x", "2025-11-16T12:00:00Z", deviation(10.0));
    assert!(!is_corroborated(&vec![one.copy(), again.copy()], "m"));
    assert!(is_corroborated(&vec![one.copy(), other.copy()], "m"));
    assert!(!is_corroborated(&vec![one, other], "n"));
    assert_eq!(metric_for_signal(&again).unwrap().1, scalar(10.0));
    let cluster = signal("d", "m", "x", "", SignalType::EliteWallet { wallet_address: "w".to_string() });
    assert!(metric_for_signal(&cluster).is_none());
}

#[test]
fn outliers_pass_only_when_confirmed() {
    let mut gate = SignalQualityGate::new(60, 0, scalar(3.0));
    let s = signal("a", "m", "x", "2025-11-16T12:00:00Z", deviation(10.0));
    let now = Instant { secs: 1763294410, nanos: 0 };
    let (name, _) = metric_for_signal(&s).unwrap();
    for _ in 0..40 {
        assert!(gate.filter(&vec![s.copy()], 0, &now, &stats(1.0, 100.0)));
    }
    assert_eq!(gate.stats_of(name).count, 40);
    assert!(!gate.judge(&s, true, true, &stats(1.0, 100.0)));
    let far = StatNumbers { std_dev: scalar(1.0), threshold: scalar(0.5), ..stats(1.0, 0.5) };
    let kept = gate.judge(&s, false, true, &far);
    assert!(kept);
    let other = signal("b", "m", "y", "2025-11-16T12:00:00Z", deviation(10.0));
    let apart = signal("c", "n", "y", "2025-11-16T12:00:00Z", deviation(10.0));
    assert!(!gate.filter(&vec![s.copy(), apart], 0, &now, &far));
    assert!(gate.filter(&vec![s.copy(), other], 0, &now, &far));
}

#[test]
fn the_newest_signals_are_kept() {
    let mut storage = SignalStorage::new();
    for i in 0..3 {
        storage.store(signal(&format!("s{}", i), "m", "x", "", deviation(1.0)));
    }
    assert_eq!(storage.len(), 3);
    let recent = storage.get_recent(2);
    assert_eq!(recent.len(), 2);
    assert_eq!(recent[0].id, "s2");
    assert_eq!(recent[1].id, "s1");
    storage.clear();
    assert_eq!(storage.len(), 0);
}

#[test]
fn windows_start_and_roll() {
    let mut h = UpDown15mHistory::new();
    assert!(matches!(h.tick("BTC", 1700000100), WindowStep::Start { .. }));
    assert!(matches!(h.tick("BTC", 1700000200), WindowStep::Stay));
    assert!(matches!(h.tick("ETH", 1700000200), WindowStep::Start { .. }));
    match h.tick("BTC", 1700001000) {
        WindowStep::Roll { start, end } => {
            assert_eq!(start % 900, 0);
            assert_eq!(end - start, 900);
        }
        _ => panic!("the window has ended"),
    }
    let none = WindowPrices {
        chainlink_start: false,
        chainlink_end: false,
        binance_start: false,
        binance_end: false,
    };
    assert!(!worth_keeping(&none));
    assert!(worth_keeping(&WindowPrices { binance_start: true, binance_end: true, ..none }));
}

fn event() -> PolymarketEvent {
    PolymarketEvent {
        id: "e".to_string(),
        slug: "e-slug".to_string(),
        title: "Event".to_string(),
        end_date_iso: Some("2025-11-16T14:00:00Z".to_string()),
        volume: Some(scalar(100000.0)),
        liquidity: Some(scalar(50000.0)),
        markets: vec![PolymarketMarket {
            id: "m1".to_string(),
            question: "Q".to_string(),
            outcome_prices: vec![scalar(0.6), scalar(0.5)],
            volume: Some(scalar(1000.0)),
            liquidity: Some(scalar(1000.0)),
        }],
    }
}

#[test]
fn an_event_gives_the_signals_that_it_warrants() {
    let d = SignalDetector::new();
    let devs = vec![DeviationNumbers {
        sum: scalar(1.1),
        deviation: scalar(0.1),
        fair_value: scalar(0.5),
        deviation_pct: scalar(10.0),
        confidence: scalar(0.8),
    }];
    let n = EventNumbers {
        hours_to_expiry: scalar(2.0),
        volume_spike: scalar(2.0),
        expiry_confidence: scalar(0.9),
        volume_ratio: scalar(2.0),
        volume_confidence: scalar(0.7),
    };
    let found = d.detect_price_deviation(&event(), &devs, "now").unwrap();
    assert!(matches!(found.signal_type, SignalType::PriceDeviation { .. }));
    assert_eq!(found.market_slug, "e-slug");
    let near = d.detect_expiry_edge(&event(), &n, 1763294400, "now");
    assert!(near.is_some());
    let over = d.detect_expiry_edge(&event(), &n, 1763294400 + 7201, "now");
    assert!(over.is_none());
    let one = d.detect_event(&event(), &devs, &n, 1763294400, "now");
    assert_eq!(one.len(), 2);
    let quiet = PolymarketEvent { id: "q".to_string(), end_date_iso: None, markets: vec![], ..event() };
    let figures = vec![
        EventFigures { devs: vec![], event: n },
        EventFigures { devs, event: EventNumbers { volume_ratio: scalar(6.0), ..n } },
    ];
    let all = d.detect_all(&vec![quiet, event()], &figures, 1763294400, "now");
    let ids: Vec<&str> = all.iter().map(|s| s.id.as_str()).collect();
    assert_eq!(ids, vec!["dev_m1", "exp_e", "vol_e"]);
}

fn entry(side: &str) -> DomeOrder {
    DomeOrder {
        token_id: "t".to_string(),
        token_label: Some("Yes".to_string()),
        side: side.to_string(),
        market_slug: "m".to_string(),
        title: "T".to_string(),
        price: scalar(0.4),
        timestamp: 1700000000,
        order_hash: Some("h".to_string()),
        tx_hash: None,
    }
}

#[test]
fn every_order_of_a_wallet_is_an_entry() {
    let d = SignalDetector::new();
    let n = OrderNumbers { position_value: scalar(100.0), raised_confidence: scalar(0.9) };
    let orders = vec![entry("buy"), entry("SELL")];
    let all = d.detect_trader_entry(&orders, "0xabcdef0123", "insider", &vec![n, n], "now");
    assert_eq!(all.len(), 2);
    let (buy, sell) = (&all[0], &all[1]);
    assert_ne!(buy.details.recommended_action, sell.details.recommended_action);
    assert!(sell.details.recommended_action.contains("SELL") || buy.details.recommended_action.contains("BUY"));
    match &buy.signal_type {
        SignalType::TrackedWalletEntry { wallet_address, wallet_label, token_label, .. } => {
            assert_eq!(wallet_address, "0xabcdef0123");
            assert_eq!(wallet_label, "insider");
            assert_eq!(token_label.as_deref(), Some("Yes"));
        }
        _ => panic!("an entry is about a wallet"),
    }
    assert!(number(confidence_of("insider")) > 0.0);
}
