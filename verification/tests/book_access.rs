use betterbot::base::scalar::Scalar;
use betterbot::base::table::Table;
use betterbot::vault::book_access::{
    best_ask_cached, best_ask_hft, cached_calls, hft_calls, best_bid_cached, best_bid_hft, bid_ask_spread_cached, bid_ask_spread_hft,
    get_book_auto, get_book_cached, get_book_cached_detailed, get_book_hft, mid_price_cached,
    spread_bps_cached, BookCaches, BookLookupResult, BookResult, CacheCall, CacheMissReason, HftBookCache, Order,
    OrderBook, PolymarketMarketWsCache, SkipReason, StalenessConfig,
};
use betterbot::vault::engine::{best_ask_cached_hft, best_bid_cached_hft};
use std::sync::Arc;

fn scalar(x: f64) -> Scalar {
    if x.is_nan() {
        Scalar::Undefined
    } else {
        let b = x.to_bits() as i64;
        Scalar::Rank(if b < 0 { i64::MIN.wrapping_sub(b) } else { b })
    }
}

fn number(s: Scalar) -> f64 {
    match s {
        Scalar::Undefined => f64::NAN,
        Scalar::Rank(a) => {
            if a < 0 {
                -f64::from_bits((-a) as u64)
            } else {
                f64::from_bits(a as u64)
            }
        }
    }
}

fn book(bid: f64, ask: f64) -> OrderBook {
    OrderBook {
        bids: vec![Order { price: scalar(bid), size: scalar(100.0) }],
        asks: vec![Order { price: scalar(ask), size: scalar(50.0) }],
    }
}

fn older(token: &str, b: OrderBook) -> PolymarketMarketWsCache {
    let mut fresh = Table::new();
    fresh.insert(token.to_string(), Arc::new(b));
    PolymarketMarketWsCache { max_stale_ms: 1500, fresh }
}

fn newer(token: &str, answer: BookLookupResult) -> HftBookCache {
    let mut answers = Table::new();
    answers.insert(token.to_string(), answer);
    HftBookCache { max_stale_ms: 1500, answers }
}

fn miss(reason: CacheMissReason, last_age_ms: Option<u64>) -> HftBookCache {
    newer("t", BookLookupResult::Miss { reason, last_age_ms })
}

#[test]
fn test_staleness_configs() {
    let lat_arb = StalenessConfig::latency_arb();
    assert!(lat_arb.max_stale_ms < 500);
    let slow = StalenessConfig::slow();
    assert!(slow.max_stale_ms > 10_000);
    let fast15m = StalenessConfig::fast15m();
    assert!(fast15m.max_stale_ms >= 1000);
    assert!(fast15m.max_stale_ms <= 2000);
}

#[test]
fn a_cached_book_gives_its_best_prices() {
    let cache = older("t", book(0.48, 0.52));
    let c = StalenessConfig::default();
    assert_eq!(best_bid_cached(&cache, "t", &c), Some(scalar(0.48)));
    assert_eq!(best_ask_cached(&cache, "t", &c), Some(scalar(0.52)));
    assert_eq!(best_ask_cached(&cache, "u", &c), None);
    assert_eq!(mid_price_cached(&cache, "t", &c, scalar(0.5)), Some(scalar(0.5)));
    assert_eq!(spread_bps_cached(&cache, "t", &c, scalar(800.0)), Some(scalar(800.0)));
    let top = bid_ask_spread_cached(&cache, "t", &c);
    assert_eq!(top.bid, Some(scalar(0.48)));
    assert_eq!(top.ask, Some(scalar(0.52)));
    assert!(bid_ask_spread_cached(&cache, "u", &c).bid.is_none());
    assert!(get_book_cached(&cache, "t", &c).is_some());
}

#[test]
fn a_book_without_a_side_has_no_middle() {
    let c = StalenessConfig::default();
    let mut b = book(0.48, 0.52);
    b.bids.clear();
    let cache = older("t", b);
    assert_eq!(mid_price_cached(&cache, "t", &c, scalar(0.5)), None);
    let worthless = older("t", book(0.0, 0.52));
    assert_eq!(spread_bps_cached(&worthless, "t", &c, scalar(1.0)), None);
    assert_eq!(mid_price_cached(&worthless, "t", &c, scalar(0.26)), Some(scalar(0.26)));
}

#[test]
fn a_missing_book_is_skipped_with_a_reason() {
    let c = StalenessConfig::default();
    let cache = older("t", book(0.48, 0.52));
    match get_book_cached_detailed(&cache, "u", &c) {
        BookResult::Skip { token_id, .. } => assert_eq!(token_id, "u"),
        BookResult::Available { .. } => panic!("there is no such book"),
    }
    assert!(matches!(get_book_cached_detailed(&cache, "t", &c), BookResult::Available { .. }));
}

#[test]
fn reasons_are_told_as_reasons_to_skip() {
    assert!(matches!(SkipReason::from(CacheMissReason::NotSubscribed), SkipReason::NotSubscribed));
    assert!(matches!(SkipReason::from(CacheMissReason::NotReady), SkipReason::NotReady));
    assert!(matches!(SkipReason::from(CacheMissReason::Stale), SkipReason::Stale));
    assert!(matches!(SkipReason::from(CacheMissReason::NeverSeen), SkipReason::NeverSeen));
    assert!(matches!(SkipReason::from(CacheMissReason::BookCrossed), SkipReason::InvalidState));
}

#[test]
fn a_looser_limit_renews_less() {
    let strict = StalenessConfig { max_stale_ms: 1500, hard_stale_ms: 500 };
    let loose = StalenessConfig { max_stale_ms: 1500, hard_stale_ms: 5000 };
    let cache = miss(CacheMissReason::Stale, Some(1000));
    assert!(get_book_hft(&cache, "t", &strict).1);
    assert!(!get_book_hft(&cache, "t", &loose).1);
}

#[test]
fn the_newer_cache_goes_first() {
    let c = StalenessConfig::default();
    let hit = newer("t", BookLookupResult::Hit { book: Arc::new(book(0.40, 0.60)), age_ms: 3 });
    assert_eq!(best_bid_hft(&hit, "t", &c), Some(scalar(0.40)));
    assert_eq!(best_ask_hft(&hit, "t", &c), Some(scalar(0.60)));
    assert_eq!(bid_ask_spread_hft(&hit, "t", &c).ask, Some(scalar(0.60)));
    let both = BookCaches { hft: Some(hit), legacy: older("t", book(0.48, 0.52)) };
    let (found, _) = get_book_auto(&both, "t", &c);
    assert_eq!(found.unwrap().best_bid(), Some(scalar(0.40)));
    let only = BookCaches { hft: None, legacy: older("t", book(0.48, 0.52)) };
    let (found, renew) = get_book_auto(&only, "t", &c);
    assert_eq!(number(found.unwrap().best_bid().unwrap()), 0.48);
    assert!(!renew);
}

#[test]
fn pushed_books_alone_answer_a_tick() {
    let cache = older("t", book(0.48, 0.52));
    assert_eq!(best_ask_cached_hft(&cache, "t", 1500), Some(scalar(0.52)));
    assert_eq!(best_bid_cached_hft(&cache, "t", 1500), Some(scalar(0.48)));
    assert_eq!(best_ask_cached_hft(&cache, "u", 1500), None);
    assert_eq!(best_bid_cached_hft(&cache, "u", 1500), None);
    assert_eq!(StalenessConfig::long_strategy().max_stale_ms, 5000);
    assert_eq!(StalenessConfig::long_strategy().hard_stale_ms, 30_000);
}

#[test]
fn a_cache_is_asked_within_the_greatest_age() {
    let c = StalenessConfig { max_stale_ms: 300, hard_stale_ms: 1000 };
    match cached_calls("t", &c).as_slice() {
        [CacheCall::Subscribe(a), CacheCall::OlderBook(b, age)] => {
            assert_eq!((a.as_str(), b.as_str(), *age), ("t", "t", 300));
        }
        other => panic!("{:?}", other),
    }
    match hft_calls("t", &c).as_slice() {
        [CacheCall::Subscribe(a), CacheCall::NewerBook(b, age)] => {
            assert_eq!((a.as_str(), b.as_str(), *age), ("t", "t", 300));
        }
        other => panic!("{:?}", other),
    }
    let cache = older("t", book(0.48, 0.52));
    assert!(get_book_cached(&cache, "t", &c).is_none());
    let wider = StalenessConfig { max_stale_ms: 1500, hard_stale_ms: 9 };
    assert!(get_book_cached(&cache, "t", &wider).is_some());
}
