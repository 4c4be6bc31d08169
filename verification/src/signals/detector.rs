//! Signals in listings and in the orders of wallets.
use crate::base::clock::{parse_rfc3339, rfc3339_instant};
use crate::base::ranks::{
    R_0_02,
    R_0_05,
    R_0_6,
    R_0_8,
    R_0_84,
    R_0_85,
    R_0_86,
    R_0_87,
    R_0_88,
    R_0_9,
    R_0_95,
    R_5,
    R_50000,
};
use crate::base::scalar::{Scalar, HALF_RANK, ONE_RANK};
use crate::base::text::{
    decimal,
    decimal_i64,
    joined,
    occurs_at,
    same,
    starts_with,
    to_upper,
    uppercase,
};
use crate::models::{MarketSignal, SignalDetails, SignalType};
use crate::vault::records::{text_copy, text_view};
use vstd::prelude::*;

verus! {

/// A market of an event.
#[derive(Debug)]
pub struct PolymarketMarket {
    pub id: String,
    pub question: String,
    pub outcome_prices: Vec<Scalar>,
    pub volume: Option<Scalar>,
    pub liquidity: Option<Scalar>,
}

/// An event with its markets.
#[derive(Debug)]
pub struct PolymarketEvent {
    pub id: String,
    pub slug: String,
    pub title: String,
    pub end_date_iso: Option<String>,
    pub volume: Option<Scalar>,
    pub liquidity: Option<Scalar>,
    pub markets: Vec<PolymarketMarket>,
}

/// The figures of a market with two prices: their sum; how far it lies from one; one less
/// the second price; that distance in percent; and four fifths with the distance, of which
/// a tenth counts at most.
#[derive(Clone, Copy, Debug, PartialEq, Eq, Structural)]
pub struct DeviationNumbers {
    pub sum: Scalar,
    pub deviation: Scalar,
    pub fair_value: Scalar,
    pub deviation_pct: Scalar,
    pub confidence: Scalar,
}

/// The figures of an event: the hours until it ends; its volume by a hundred thousand; the
/// confidence that follows from the hours; its volume by its liquidity; and the confidence
/// that follows from that.
#[derive(Clone, Copy, Debug, PartialEq, Eq, Structural)]
pub struct EventNumbers {
    pub hours_to_expiry: Scalar,
    pub volume_spike: Scalar,
    pub expiry_confidence: Scalar,
    pub volume_ratio: Scalar,
    pub volume_confidence: Scalar,
}

/// The figures of an event and of each of its markets.
#[derive(Debug)]
pub struct EventFigures {
    pub devs: Vec<DeviationNumbers>,
    pub event: EventNumbers,
}

/// A figure that counts as zero where it is missing.
pub open spec fn or_zero(x: Option<Scalar>) -> Scalar {
    match x {
        Some(s) => s,
        None => Scalar::Rank(0),
    }
}

fn value_or_zero(x: Option<Scalar>) -> (r: Scalar)
    ensures
        r == or_zero(x),
{
    match x {
        Some(s) => s,
        None => Scalar::Rank(0),
    }
}

/// What is said of a signal beside its market.
pub open spec fn plain_details(d: SignalDetails) -> bool {
    &&& d.observed_timestamp is None
    &&& d.signal_family is None
    &&& d.calibration_version is None
    &&& d.guardrail_flags is None
    &&& d.recommended_size is None
}

fn details(
    market_id: &str,
    market_title: &str,
    current_price: Scalar,
    volume_24h: Scalar,
    liquidity: Scalar,
    recommended_action: &str,
    expiry_time: Option<String>,
) -> (r: SignalDetails)
    ensures
        r.market_id@ == market_id@,
        r.market_title@ == market_title@,
        r.current_price == current_price,
        r.volume_24h == volume_24h,
        r.liquidity == liquidity,
        r.recommended_action@ == recommended_action@,
        r.expiry_time == expiry_time,
        plain_details(r),
{
    SignalDetails {
        market_id: market_id.to_owned(),
        market_title: market_title.to_owned(),
        current_price,
        volume_24h,
        liquidity,
        recommended_action: recommended_action.to_owned(),
        expiry_time,
        observed_timestamp: None,
        signal_family: None,
        calibration_version: None,
        guardrail_flags: None,
        recommended_size: None,
    }
}

/// Whether the prices of a market lie off: there are two of them, and their sum is more
/// than two hundredths from one.
pub open spec fn lies_off(m: PolymarketMarket, n: DeviationNumbers) -> bool {
    m.outcome_prices.len() >= 2 && Scalar::Rank(R_0_02).spec_lt(n.deviation)
}

/// The first market from `i` on whose prices lie off.
pub open spec fn first_off(markets: Seq<PolymarketMarket>, n: Seq<DeviationNumbers>, i: int) -> Option<int>
    decreases markets.len() - i,
{
    if i < 0 || i >= markets.len() {
        None
    } else if lies_off(markets[i], n[i]) {
        Some(i)
    } else {
        first_off(markets, n, i + 1)
    }
}

/// The signal of a market whose prices lie off.
pub open spec fn is_deviation_signal(
    s: MarketSignal,
    event: PolymarketEvent,
    m: PolymarketMarket,
    n: DeviationNumbers,
    stamp: Seq<char>,
) -> bool {
    &&& s.id@ == "dev_"@ + m.id@
    &&& s.signal_type == (SignalType::PriceDeviation {
        market_price: m.outcome_prices[0],
        fair_value: n.fair_value,
        deviation_pct: n.deviation_pct,
    })
    &&& s.market_slug@ == event.slug@
    &&& s.confidence == n.confidence
    &&& s.risk_level@ == if Scalar::Rank(R_0_05).spec_lt(n.deviation) {
        "low"@
    } else {
        "medium"@
    }
    &&& s.details.market_id@ == m.id@
    &&& s.details.market_title@ == m.question@
    &&& s.details.current_price == m.outcome_prices[0]
    &&& s.details.volume_24h == or_zero(m.volume)
    &&& s.details.liquidity == or_zero(m.liquidity)
    &&& s.details.recommended_action@ == if n.sum.spec_lt(Scalar::Rank(ONE_RANK)) {
        "BUY_BOTH"@
    } else {
        "SELL_BOTH"@
    }
    &&& s.details.expiry_time == event.end_date_iso
    &&& plain_details(s.details)
    &&& s.detected_at@ == stamp
    &&& s.source@ == "detector"@
}

/// Whether an event ends soon and is busy: in less than two days, with a volume of more
/// than a hundred thousand.
pub open spec fn ends_busy(secs_left: Option<int>, n: EventNumbers) -> bool {
    &&& secs_left matches Some(s) && 0 < s < 172_800
    &&& Scalar::Rank(ONE_RANK).spec_lt(n.volume_spike)
}

/// The seconds until an event ends, where its time can be read.
pub open spec fn secs_left(end: Option<Seq<char>>, now: int) -> Option<int> {
    match end {
        Some(t) => match rfc3339_instant(t) {
            Some(i) => Some(i.0 - now),
            None => None,
        },
        None => None,
    }
}

/// The signal of an event that ends soon.
pub open spec fn is_expiry_signal(s: MarketSignal, event: PolymarketEvent, left: int, n: EventNumbers, stamp: Seq<char>) -> bool {
    &&& s.id@ == "exp_"@ + event.id@
    &&& s.signal_type == (SignalType::MarketExpiryEdge {
        hours_to_expiry: n.hours_to_expiry,
        volume_spike: n.volume_spike,
    })
    &&& s.market_slug@ == event.slug@
    &&& s.confidence == n.expiry_confidence.spec_min(Scalar::Rank(R_0_9))
    &&& s.risk_level@ == if left < 43_200 {
        "high"@
    } else {
        "medium"@
    }
    &&& s.details.market_id@ == event.id@
    &&& s.details.market_title@ == event.title@
    &&& s.details.current_price == Scalar::Rank(0)
    &&& s.details.volume_24h == or_zero(event.volume)
    &&& s.details.liquidity == or_zero(event.liquidity)
    &&& s.details.recommended_action@ == "MONITOR"@
    &&& s.details.expiry_time == event.end_date_iso
    &&& plain_details(s.details)
    &&& s.detected_at@ == stamp
    &&& s.source@ == "detector"@
}

/// Whether an event has a volume of more than five times its liquidity.
pub open spec fn is_rush(event: PolymarketEvent, n: EventNumbers) -> bool {
    &&& Scalar::Rank(0).spec_lt(or_zero(event.volume))
    &&& Scalar::Rank(0).spec_lt(or_zero(event.liquidity))
    &&& Scalar::Rank(R_5).spec_lt(n.volume_ratio)
}

/// The signal of an event with a rush.
pub open spec fn is_volume_signal(s: MarketSignal, event: PolymarketEvent, n: EventNumbers, stamp: Seq<char>) -> bool {
    &&& s.id@ == "vol_"@ + event.id@
    &&& s.signal_type == (SignalType::PriceDeviation {
        market_price: Scalar::Rank(HALF_RANK),
        fair_value: Scalar::Rank(HALF_RANK),
        deviation_pct: n.volume_ratio,
    })
    &&& s.market_slug@ == event.slug@
    &&& s.confidence == n.volume_confidence.spec_min(Scalar::Rank(R_0_95))
    &&& s.risk_level@ == "medium"@
    &&& s.details.market_id@ == event.id@
    &&& s.details.market_title@ == event.title@
    &&& s.details.current_price == Scalar::Rank(HALF_RANK)
    &&& s.details.volume_24h == or_zero(event.volume)
    &&& s.details.liquidity == or_zero(event.liquidity)
    &&& s.details.recommended_action@ == "ANALYZE"@
    &&& s.details.expiry_time == event.end_date_iso
    &&& plain_details(s.details)
    &&& s.detected_at@ == stamp
    &&& s.source@ == "detector"@
}

/// An order of a wallet.
#[derive(Debug)]
pub struct DomeOrder {
    pub token_id: String,
    pub token_label: Option<String>,
    pub side: String,
    pub market_slug: String,
    pub title: String,
    pub price: Scalar,
    pub timestamp: i64,
    pub order_hash: Option<String>,
    pub tx_hash: Option<String>,
}

/// The figures of an order: what it is worth, and the confidence in the wallet raised by a
/// bonus for the size.
#[derive(Clone, Copy, Debug, PartialEq, Eq, Structural)]
pub struct OrderNumbers {
    pub position_value: Scalar,
    pub raised_confidence: Scalar,
}

/// The confidence in a wallet by its label.
pub open spec fn base_confidence(label: Seq<char>) -> Scalar {
    if label == "insider_politics"@ {
        Scalar::Rank(R_0_9)
    } else if label == "insider_finance"@ {
        Scalar::Rank(R_0_88)
    } else if label == "insider_tech"@ {
        Scalar::Rank(R_0_87)
    } else if label == "insider_crypto"@ {
        Scalar::Rank(R_0_86)
    } else if label == "insider_sports"@ {
        Scalar::Rank(R_0_85)
    } else if label == "insider_entertainment"@ {
        Scalar::Rank(R_0_84)
    } else if label == "high_frequency_test"@ {
        Scalar::Rank(HALF_RANK)
    } else {
        Scalar::Rank(R_0_8)
    }
}

/// Looks up the confidence in a wallet.
pub fn confidence_of(label: &str) -> (r: Scalar)
    ensures
        r == base_confidence(label@),
{
    if same(label, "insider_politics") {
        Scalar::Rank(R_0_9)
    } else if same(label, "insider_finance") {
        Scalar::Rank(R_0_88)
    } else if same(label, "insider_tech") {
        Scalar::Rank(R_0_87)
    } else if same(label, "insider_crypto") {
        Scalar::Rank(R_0_86)
    } else if same(label, "insider_sports") {
        Scalar::Rank(R_0_85)
    } else if same(label, "insider_entertainment") {
        Scalar::Rank(R_0_84)
    } else if same(label, "high_frequency_test") {
        Scalar::Rank(HALF_RANK)
    } else {
        Scalar::Rank(R_0_8)
    }
}

/// The risk of following a wallet into a position.
pub open spec fn risk_of(label: Seq<char>, position_value: Scalar) -> Seq<char> {
    if label == "high_frequency_test"@ {
        "high"@
    } else if Scalar::Rank(R_50000).spec_lt(position_value) {
        "low"@
    } else if occurs_at(label, "insider_"@, 0) {
        "low"@
    } else {
        "medium"@
    }
}

/// What tells an order apart: its hash, else the hash of its transaction, else the wallet
/// and the time.
pub open spec fn stable_id(order: DomeOrder, wallet: Seq<char>) -> Seq<char> {
    match (order.order_hash, order.tx_hash) {
        (Some(h), _) => h@,
        (None, Some(h)) => h@,
        (None, None) => wallet + "_"@ + decimal(order.timestamp as int),
    }
}

fn stable_text(order: &DomeOrder, wallet: &str) -> (r: String)
    ensures
        r@ == stable_id(*order, wallet@),
{
    match (&order.order_hash, &order.tx_hash) {
        (Some(h), _) => h.clone(),
        (None, Some(h)) => h.clone(),
        (None, None) => {
            let head = joined(wallet, "_");
            joined(head.as_str(), decimal_i64(order.timestamp).as_str())
        },
    }
}

/// The signal of an order; `sells` says whether it sells.
pub open spec fn is_entry_signal(
    s: MarketSignal,
    order: DomeOrder,
    wallet: Seq<char>,
    label: Seq<char>,
    sells: bool,
    n: OrderNumbers,
    stamp: Seq<char>,
) -> bool {
    &&& s.id@ == "dome_order_"@ + stable_id(order, wallet)
    &&& s.signal_type matches SignalType::TrackedWalletEntry {
        wallet_address,
        wallet_label,
        position_value_usd,
        order_count,
        token_label,
    }
    &&& wallet_address@ == wallet
    &&& wallet_label@ == label
    &&& position_value_usd == n.position_value
    &&& order_count == 1
    &&& token_label == order.token_label
    &&& s.market_slug@ == order.market_slug@
    &&& s.confidence == n.raised_confidence.spec_min(Scalar::Rank(R_0_95))
    &&& s.risk_level@ == risk_of(label, n.position_value)
    &&& s.details.market_id@ == order.token_id@
    &&& s.details.market_title@ == order.title@
    &&& s.details.current_price == order.price
    &&& s.details.volume_24h == n.position_value
    &&& s.details.liquidity == Scalar::Rank(0)
    &&& s.details.recommended_action@ == if sells {
        "FOLLOW_SELL"@
    } else {
        "FOLLOW_BUY"@
    }
    &&& s.details.expiry_time is None
    &&& plain_details(s.details)
    &&& s.detected_at@ == stamp
    &&& s.source@ == "dome"@
}

/// The orders among the first `k` that are worth at least one.
pub open spec fn worth_following(n: Seq<OrderNumbers>, k: nat) -> Seq<int>
    decreases k,
{
    if k == 0 {
        Seq::empty()
    } else {
        let before = worth_following(n, (k - 1) as nat);
        if n[k - 1].position_value.spec_lt(Scalar::Rank(ONE_RANK)) {
            before
        } else {
            before.push(k - 1)
        }
    }
}

/// Whether an order sells.
pub open spec fn sells(order: DomeOrder) -> bool {
    uppercase(order.side@) == "SELL"@
}

/// The signals of an event.
pub open spec fn are_event_signals(
    s: Seq<MarketSignal>,
    event: PolymarketEvent,
    devs: Seq<DeviationNumbers>,
    n: EventNumbers,
    now: int,
    stamp: Seq<char>,
) -> bool {
    let off = first_off(event.markets@, devs, 0);
    let left = secs_left(text_view(event.end_date_iso), now);
    let a: int = if off is Some {
        1
    } else {
        0
    };
    let b: int = if ends_busy(left, n) {
        1
    } else {
        0
    };
    let c: int = if is_rush(event, n) {
        1
    } else {
        0
    };
    &&& s.len() == a + b + c
    &&& off is Some ==> is_deviation_signal(s[0], event, event.markets[off->0], devs[off->0], stamp)
    &&& ends_busy(left, n) ==> is_expiry_signal(s[a], event, left->0, n, stamp)
    &&& is_rush(event, n) ==> is_volume_signal(s[a + b], event, n, stamp)
}

/// Lists one after the other.
pub open spec fn in_a_row(parts: Seq<Seq<MarketSignal>>) -> Seq<MarketSignal>
    decreases parts.len(),
{
    if parts.len() == 0 {
        Seq::empty()
    } else {
        in_a_row(parts.drop_last()) + parts.last()
    }
}

/// The signals of each event.
pub open spec fn are_parts(
    parts: Seq<Seq<MarketSignal>>,
    events: Seq<PolymarketEvent>,
    figures: Seq<EventFigures>,
    now: int,
    stamp: Seq<char>,
) -> bool {
    &&& parts.len() == events.len()
    &&& forall|i: int|
        #![trigger parts[i]]
        0 <= i < parts.len() ==> are_event_signals(
            parts[i],
            events[i],
            figures[i].devs@,
            figures[i].event,
            now,
            stamp,
        )
}

/// The detector.
pub struct SignalDetector {
    pub confidence_threshold: Scalar,
}

impl SignalDetector {
    pub fn new() -> (r: SignalDetector)
        ensures
            r.confidence_threshold == Scalar::Rank(R_0_6),
    {
        SignalDetector { confidence_threshold: Scalar::Rank(R_0_6) }
    }

    /// The signals of all events, in the order of the events.
    pub fn detect_all(
        &self,
        events: &Vec<PolymarketEvent>,
        figures: &Vec<EventFigures>,
        now: i64,
        stamp: &str,
    ) -> (r: Vec<MarketSignal>)
        requires
            figures.len() == events.len(),
            forall|i: int|
                #![trigger figures[i]]
                0 <= i < events.len() ==> figures[i].devs.len() == events[i].markets.len(),
        ensures
            exists|parts: Seq<Seq<MarketSignal>>| #[trigger]
                are_parts(parts, events@, figures@, now as int, stamp@) && r@ == in_a_row(parts),
    {
        let mut all: Vec<MarketSignal> = Vec::new();
        let ghost mut parts: Seq<Seq<MarketSignal>> = Seq::empty();
        let mut i: usize = 0;
        while i < events.len()
            invariant
                i <= events.len(),
                figures.len() == events.len(),
                forall|j: int|
                    #![trigger figures[j]]
                    0 <= j < events.len() ==> figures[j].devs.len() == events[j].markets.len(),
                are_parts(
                    parts,
                    events@.take(i as int),
                    figures@.take(i as int),
                    now as int,
                    stamp@,
                ),
                all@ == in_a_row(parts),
            decreases events.len() - i,
        {
            let mut found = self.detect_event(&events[i], &figures[i].devs, &figures[i].event, now, stamp);
            proof {
                let grown = parts.push(found@);
                assert(grown.drop_last() =~= parts);
                assert forall|j: int| #![trigger grown[j]] 0 <= j < grown.len() implies are_event_signals(
                    grown[j],
                    events@.take(i as int + 1)[j],
                    figures@.take(i as int + 1)[j].devs@,
                    figures@.take(i as int + 1)[j].event,
                    now as int,
                    stamp@,
                ) by {
                    if j < i {
                        assert(grown[j] == parts[j]);
                        assert(events@.take(i as int)[j] == events[j]);
                        assert(figures@.take(i as int)[j] == figures[j]);
                    }
                }
                parts = grown;
            }
            all.append(&mut found);
            i = i + 1;
        }
        proof {
            assert(events@.take(i as int) =~= events@);
            assert(figures@.take(i as int) =~= figures@);
        }
        all
    }

    /// The signals of an event: its first market whose prices lie off, its end, and its
    /// volume.
    pub fn detect_event(
        &self,
        event: &PolymarketEvent,
        devs: &Vec<DeviationNumbers>,
        n: &EventNumbers,
        now: i64,
        stamp: &str,
    ) -> (r: Vec<MarketSignal>)
        requires
            devs.len() == event.markets.len(),
        ensures
            are_event_signals(r@, *event, devs@, *n, now as int, stamp@),
    {
        let mut signals: Vec<MarketSignal> = Vec::new();
        match self.detect_price_deviation(event, devs, stamp) {
            Some(s) => {
                signals.push(s);
            },
            None => {},
        }
        match self.detect_expiry_edge(event, n, now, stamp) {
            Some(s) => {
                signals.push(s);
            },
            None => {},
        }
        match self.detect_volume_spike(event, n, stamp) {
            Some(s) => {
                signals.push(s);
            },
            None => {},
        }
        signals
    }

    /// The signal of the first market whose prices lie off.
    pub fn detect_price_deviation(&self, event: &PolymarketEvent, devs: &Vec<DeviationNumbers>, stamp: &str) -> (r:
        Option<MarketSignal>)
        requires
            devs.len() == event.markets.len(),
        ensures
            match first_off(event.markets@, devs@, 0) {
                None => r is None,
                Some(i) => r matches Some(s) && is_deviation_signal(
                    s,
                    *event,
                    event.markets[i],
                    devs[i],
                    stamp@,
                ),
            },
    {
        let mut i: usize = 0;
        while i < event.markets.len()
            invariant
                i <= event.markets.len(),
                devs.len() == event.markets.len(),
                first_off(event.markets@, devs@, 0) == first_off(event.markets@, devs@, i as int),
            decreases event.markets.len() - i,
        {
            let m = &event.markets[i];
            let n = &devs[i];
            if m.outcome_prices.len() >= 2 && Scalar::Rank(R_0_02).lt(n.deviation) {
                let yes = m.outcome_prices[0];
                let risk = if Scalar::Rank(R_0_05).lt(n.deviation) {
                    "low"
                } else {
                    "medium"
                };
                let action = if n.sum.lt(Scalar::Rank(ONE_RANK)) {
                    "BUY_BOTH"
                } else {
                    "SELL_BOTH"
                };
                return Some(
                    MarketSignal {
                        id: joined("dev_", m.id.as_str()),
                        signal_type: SignalType::PriceDeviation {
                            market_price: yes,
                            fair_value: n.fair_value,
                            deviation_pct: n.deviation_pct,
                        },
                        market_slug: event.slug.clone(),
                        confidence: n.confidence,
                        risk_level: risk.to_owned(),
                        details: details(
                            m.id.as_str(),
                            m.question.as_str(),
                            yes,
                            value_or_zero(m.volume),
                            value_or_zero(m.liquidity),
                            action,
                            text_copy(&event.end_date_iso),
                        ),
                        detected_at: stamp.to_owned(),
                        source: "detector".to_owned(),
                    },
                );
            }
            i = i + 1;
        }
        None
    }

    /// The signal of an event that ends soon.
    pub fn detect_expiry_edge(&self, event: &PolymarketEvent, n: &EventNumbers, now: i64, stamp: &str) -> (r:
        Option<MarketSignal>)
        ensures
            ({
                let left = secs_left(text_view(event.end_date_iso), now as int);
                &&& r is Some <==> ends_busy(left, *n)
                &&& r matches Some(s) ==> is_expiry_signal(s, *event, left->0, *n, stamp@)
            }),
    {
        let end = match &event.end_date_iso {
            Some(t) => parse_rfc3339(t.as_str()),
            None => None,
        };
        match end {
            Some((expiry, _)) => {
                let left: i128 = (expiry as i128) - (now as i128);
                self.expiry_signal(event, left, n, stamp)
            },
            None => None,
        }
    }

    /// The signal of an event that ends in so many seconds.
    pub fn expiry_signal(&self, event: &PolymarketEvent, left: i128, n: &EventNumbers, stamp: &str) -> (r:
        Option<MarketSignal>)
        ensures
            r is Some <==> ends_busy(Some(left as int), *n),
            r matches Some(s) ==> is_expiry_signal(s, *event, left as int, *n, stamp@),
    {
        if !(left > 0 && left < 172_800) {
            return None;
        }
        if !Scalar::Rank(ONE_RANK).lt(n.volume_spike) {
            return None;
        }
        let risk = if left < 43_200 {
            "high"
        } else {
            "medium"
        };
        Some(
            MarketSignal {
                id: joined("exp_", event.id.as_str()),
                signal_type: SignalType::MarketExpiryEdge {
                    hours_to_expiry: n.hours_to_expiry,
                    volume_spike: n.volume_spike,
                },
                market_slug: event.slug.clone(),
                confidence: n.expiry_confidence.min(Scalar::Rank(R_0_9)),
                risk_level: risk.to_owned(),
                details: details(
                    event.id.as_str(),
                    event.title.as_str(),
                    Scalar::Rank(0),
                    value_or_zero(event.volume),
                    value_or_zero(event.liquidity),
                    "MONITOR",
                    text_copy(&event.end_date_iso),
                ),
                detected_at: stamp.to_owned(),
                source: "detector".to_owned(),
            },
        )
    }

    /// The signal of an event with a rush.
    pub fn detect_volume_spike(&self, event: &PolymarketEvent, n: &EventNumbers, stamp: &str) -> (r: Option<
        MarketSignal,
    >)
        ensures
            r is Some <==> is_rush(*event, *n),
            r matches Some(s) ==> is_volume_signal(s, *event, *n, stamp@),
    {
        let volume = value_or_zero(event.volume);
        let liquidity = value_or_zero(event.liquidity);
        if !(Scalar::Rank(0).lt(volume) && Scalar::Rank(0).lt(liquidity)) {
            return None;
        }
        if !Scalar::Rank(R_5).lt(n.volume_ratio) {
            return None;
        }
        Some(
            MarketSignal {
                id: joined("vol_", event.id.as_str()),
                signal_type: SignalType::PriceDeviation {
                    market_price: Scalar::Rank(HALF_RANK),
                    fair_value: Scalar::Rank(HALF_RANK),
                    deviation_pct: n.volume_ratio,
                },
                market_slug: event.slug.clone(),
                confidence: n.volume_confidence.min(Scalar::Rank(R_0_95)),
                risk_level: "medium".to_owned(),
                details: details(
                    event.id.as_str(),
                    event.title.as_str(),
                    Scalar::Rank(HALF_RANK),
                    volume,
                    liquidity,
                    "ANALYZE",
                    text_copy(&event.end_date_iso),
                ),
                detected_at: stamp.to_owned(),
                source: "detector".to_owned(),
            },
        )
    }

    /// The signals of the orders of a wallet that are worth at least one.
    pub fn detect_trader_entry(
        &self,
        orders: &Vec<DomeOrder>,
        wallet_address: &str,
        wallet_label: &str,
        n: &Vec<OrderNumbers>,
        stamp: &str,
    ) -> (r: Vec<MarketSignal>)
        requires
            n.len() == orders.len(),
        ensures
            ({
                let picked = worth_following(n@, orders@.len());
                &&& r.len() == picked.len()
                &&& forall|i: int|
                    #![trigger r[i]]
                    0 <= i < r.len() ==> is_entry_signal(
                        r[i],
                        orders[picked[i]],
                        wallet_address@,
                        wallet_label@,
                        sells(orders[picked[i]]),
                        n[picked[i]],
                        stamp@,
                    )
            }),
    {
        let mut signals: Vec<MarketSignal> = Vec::new();
        let mut i: usize = 0;
        while i < orders.len()
            invariant
                i <= orders.len(),
                n.len() == orders.len(),
                signals.len() == worth_following(n@, i as nat).len(),
                forall|j: int|
                    #![trigger signals[j]]
                    0 <= j < signals.len() ==> is_entry_signal(
                        signals[j],
                        orders[worth_following(n@, i as nat)[j]],
                        wallet_address@,
                        wallet_label@,
                        sells(orders[worth_following(n@, i as nat)[j]]),
                        n[worth_following(n@, i as nat)[j]],
                        stamp@,
                    ),
            decreases orders.len() - i,
        {
            let order = &orders[i];
            if !n[i].position_value.lt(Scalar::Rank(ONE_RANK)) {
                let upper = to_upper(order.side.as_str());
                let is_sale = same(upper.as_str(), "SELL");
                let s = self.entry_signal(order, wallet_address, wallet_label, is_sale, &n[i], stamp);
                signals.push(s);
            }
            i = i + 1;
        }
        signals
    }

    /// The signal of an order of which it is known whether it sells.
    pub fn entry_signal(
        &self,
        order: &DomeOrder,
        wallet_address: &str,
        wallet_label: &str,
        is_sale: bool,
        n: &OrderNumbers,
        stamp: &str,
    ) -> (r: MarketSignal)
        ensures
            is_entry_signal(r, *order, wallet_address@, wallet_label@, is_sale, *n, stamp@),
    {
        let risk = if same(wallet_label, "high_frequency_test") {
            "high"
        } else if Scalar::Rank(R_50000).lt(n.position_value) {
            "low"
        } else if starts_with(wallet_label, "insider_") {
            "low"
        } else {
            "medium"
        };
        let action = if is_sale {
            "FOLLOW_SELL"
        } else {
            "FOLLOW_BUY"
        };
        let id = stable_text(order, wallet_address);
        MarketSignal {
            id: joined("dome_order_", id.as_str()),
            signal_type: SignalType::TrackedWalletEntry {
                wallet_address: wallet_address.to_owned(),
                wallet_label: wallet_label.to_owned(),
                position_value_usd: n.position_value,
                order_count: 1,
                token_label: text_copy(&order.token_label),
            },
            market_slug: order.market_slug.clone(),
            confidence: n.raised_confidence.min(Scalar::Rank(R_0_95)),
            risk_level: risk.to_owned(),
            details: details(
                order.token_id.as_str(),
                order.title.as_str(),
                order.price,
                n.position_value,
                Scalar::Rank(0),
                action,
                None,
            ),
            detected_at: stamp.to_owned(),
            source: "dome".to_owned(),
        }
    }
}

/// No order that is worth one or more is missed, and none that is worth less is followed;
/// the signals keep the order of the orders.
pub proof fn law_no_entry_is_missed(n: Seq<OrderNumbers>, k: nat)
    requires
        k <= n.len(),
    ensures
        forall|i: int|
            #![trigger n[i]]
            0 <= i < k ==> (worth_following(n, k).contains(i) <==> !n[i].position_value.spec_lt(
                Scalar::Rank(ONE_RANK),
            )),
        forall|a: int, b: int|
            #![trigger worth_following(n, k)[a], worth_following(n, k)[b]]
            0 <= a < b < worth_following(n, k).len() ==> worth_following(n, k)[a] < worth_following(
                n,
                k,
            )[b],
        forall|a: int|
            #![trigger worth_following(n, k)[a]]
            0 <= a < worth_following(n, k).len() ==> 0 <= worth_following(n, k)[a] < k,
    decreases k,
{
    if k > 0 {
        let before = worth_following(n, (k - 1) as nat);
        let after = worth_following(n, k);
        law_no_entry_is_missed(n, (k - 1) as nat);
        assert forall|i: int| #![trigger n[i]] 0 <= i < k implies (after.contains(i)
            <==> !n[i].position_value.spec_lt(Scalar::Rank(ONE_RANK))) by {
            if after.len() > before.len() {
                assert(after[before.len() as int] == k - 1);
                if i < k - 1 {
                    if before.contains(i) {
                        let w = choose|w: int| 0 <= w < before.len() && before[w] == i;
                        assert(after[w] == i);
                    }
                    if after.contains(i) {
                        let w = choose|w: int| 0 <= w < after.len() && after[w] == i;
                        assert(before[w] == i);
                    }
                }
            } else {
                assert(after == before);
                if i == k - 1 && after.contains(i) {
                    let w = choose|w: int| 0 <= w < before.len() && before[w] == i;
                    assert(before[w] < k - 1);
                }
            }
        }
    }
}

/// Prices that sum to less than one are to be bought and prices that sum to one or more to
/// be sold; what is told is told of the first market of two prices that lies more than two
/// hundredths off, and where one does, something is told. More than five hundredths off is
/// little risk.
pub proof fn law_cheap_pairs_are_bought(
    det: SignalDetector,
    event: PolymarketEvent,
    devs: Vec<DeviationNumbers>,
    stamp: &str,
    r: Option<MarketSignal>,
    k: int,
)
    requires
        devs.len() == event.markets.len(),
        call_ensures(SignalDetector::detect_price_deviation, (&det, &event, &devs, stamp), r),
        0 <= k < devs.len(),
    ensures
        event.markets[k].outcome_prices.len() >= 2 && Scalar::Rank(R_0_02).spec_lt(devs[k].deviation) ==> r is Some,
        r matches Some(s) ==> exists|i: int|
            #![trigger event.markets[i]]
            0 <= i < devs.len() && event.markets[i].outcome_prices.len() >= 2 && Scalar::Rank(R_0_02).spec_lt(
                devs[i].deviation,
            ) && s.details.market_id@ == event.markets[i].id@ && s.details.current_price
                == event.markets[i].outcome_prices[0] && s.confidence == devs[i].confidence && (devs[i].sum.spec_lt(
                Scalar::Rank(ONE_RANK),
            ) ==> s.details.recommended_action@ == "BUY_BOTH"@) && (Scalar::Rank(ONE_RANK).spec_le(devs[i].sum)
                ==> s.details.recommended_action@ == "SELL_BOTH"@) && (Scalar::Rank(R_0_05).spec_lt(devs[i].deviation)
                ==> s.risk_level@ == "low"@) && (devs[i].deviation.spec_le(Scalar::Rank(R_0_05)) ==> s.risk_level@
                == "medium"@) && s.market_slug@ == event.slug@ && s.id@ == "dev_"@ + event.markets[i].id@
                && forall|j: int|
                #![trigger event.markets[j]]
                0 <= j < i ==> event.markets[j].outcome_prices.len() < 2 || !Scalar::Rank(R_0_02).spec_lt(
                    devs[j].deviation,
                ),
{
    lemma_first_off(event.markets@, devs@, 0);
    match first_off(event.markets@, devs@, 0) {
        Some(i) => {
            let m = event.markets[i];
        },
        None => {
            assert(!lies_off(event.markets@[k], devs@[k]));
        },
    }
}

proof fn lemma_first_off(markets: Seq<PolymarketMarket>, n: Seq<DeviationNumbers>, from: int)
    requires
        0 <= from <= markets.len(),
        n.len() == markets.len(),
    ensures
        match first_off(markets, n, from) {
            Some(i) => from <= i < markets.len() && lies_off(markets[i], n[i]) && forall|j: int|
                #![trigger markets[j]]
                from <= j < i ==> !lies_off(markets[j], n[j]),
            None => forall|j: int| #![trigger markets[j]] from <= j < markets.len() ==> !lies_off(markets[j], n[j]),
        },
    decreases markets.len() - from,
{
    if from < markets.len() && !lies_off(markets[from], n[from]) {
        lemma_first_off(markets, n, from + 1);
    }
}

/// An event that ends in less than two days and is busy is told of once it has not ended;
/// it is a high risk in the last half day, and only to be watched.
pub proof fn law_busy_ends_are_told(
    det: SignalDetector,
    event: PolymarketEvent,
    left: i128,
    n: EventNumbers,
    stamp: &str,
    r: Option<MarketSignal>,
)
    requires
        n.expiry_confidence is Rank,
        call_ensures(SignalDetector::expiry_signal, (&det, &event, left, &n, stamp), r),
    ensures
        r is Some <==> 0 < left < 2 * 86_400 && Scalar::Rank(ONE_RANK).spec_lt(n.volume_spike),
        r matches Some(s) ==> {
            &&& left < 43_200 <==> s.risk_level@ == "high"@
            &&& left >= 43_200 ==> s.risk_level@ == "medium"@
            &&& s.details.recommended_action@ == "MONITOR"@
            &&& s.confidence.spec_le(Scalar::Rank(R_0_9)) && s.confidence.spec_le(n.expiry_confidence)
            &&& n.expiry_confidence.spec_le(Scalar::Rank(R_0_9)) ==> s.confidence == n.expiry_confidence
            &&& s.signal_type is MarketExpiryEdge && s.market_slug@ == event.slug@ && s.id@ == "exp_"@ + event.id@
        },
{
    reveal_strlit("high");
    reveal_strlit("medium");
    assert("high"@.len() != "medium"@.len());
}

/// An event of more than five times as much volume as liquidity is told of, where it has
/// both; it is to be looked into.
pub proof fn law_rushes_are_told(
    det: SignalDetector,
    event: PolymarketEvent,
    n: EventNumbers,
    stamp: &str,
    r: Option<MarketSignal>,
)
    requires
        n.volume_confidence is Rank,
        call_ensures(SignalDetector::detect_volume_spike, (&det, &event, &n, stamp), r),
    ensures
        event.volume is None || event.liquidity is None ==> r is None,
        event.volume is Some && event.liquidity is Some ==> (r is Some <==> Scalar::Rank(0).spec_lt(event.volume->0)
            && Scalar::Rank(0).spec_lt(event.liquidity->0) && Scalar::Rank(R_5).spec_lt(n.volume_ratio)),
        r matches Some(s) ==> {
            &&& s.details.recommended_action@ == "ANALYZE"@
            &&& s.confidence.spec_le(Scalar::Rank(R_0_95)) && s.confidence.spec_le(n.volume_confidence)
            &&& n.volume_confidence.spec_le(Scalar::Rank(R_0_95)) ==> s.confidence == n.volume_confidence
            &&& s.id@ == "vol_"@ + event.id@ && s.market_slug@ == event.slug@
            &&& Some(s.details.volume_24h) == event.volume && Some(s.details.liquidity) == event.liquidity
        },
{
}

/// An entry of a wallet is followed the way it went: a sale is a sale and everything else a
/// purchase; it is told of the wallet, the market and the price of the order, under what
/// tells the order apart, and with at most ninety-five hundredths of confidence.
pub proof fn law_entry_is_followed_the_way_it_went(
    det: SignalDetector,
    order: DomeOrder,
    wallet: &str,
    label: &str,
    is_sale: bool,
    n: OrderNumbers,
    stamp: &str,
    s: MarketSignal,
)
    requires
        n.raised_confidence is Rank,
        call_ensures(SignalDetector::entry_signal, (&det, &order, wallet, label, is_sale, &n, stamp), s),
    ensures
        is_sale ==> s.details.recommended_action@ == "FOLLOW_SELL"@,
        !is_sale ==> s.details.recommended_action@ == "FOLLOW_BUY"@,
        s.signal_type is TrackedWalletEntry,
        s.signal_type->TrackedWalletEntry_wallet_address@ == wallet@,
        s.signal_type->position_value_usd == n.position_value,
        s.signal_type->TrackedWalletEntry_token_label == order.token_label,
        s.market_slug@ == order.market_slug@,
        s.details.current_price == order.price,
        s.details.market_id@ == order.token_id@,
        s.confidence.spec_le(Scalar::Rank(R_0_95)) && s.confidence.spec_le(n.raised_confidence),
        n.raised_confidence.spec_le(Scalar::Rank(R_0_95)) ==> s.confidence == n.raised_confidence,
        order.order_hash is Some ==> s.id@ == "dome_order_"@ + order.order_hash->0@,
        order.order_hash is None && order.tx_hash is Some ==> s.id@ == "dome_order_"@ + order.tx_hash->0@,
        order.order_hash is None && order.tx_hash is None ==> s.id@ == "dome_order_"@ + (wallet@ + "_"@ + decimal(
            order.timestamp as int,
        )),
        label@ == "high_frequency_test"@ ==> s.risk_level@ == "high"@,
        label@ != "high_frequency_test"@ && Scalar::Rank(R_50000).spec_lt(n.position_value) ==> s.risk_level@
            == "low"@,
        label@ != "high_frequency_test"@ && n.position_value.spec_le(Scalar::Rank(R_50000)) ==> s.risk_level@ == (
        if "insider_"@.is_prefix_of(label@) {
            "low"@
        } else {
            "medium"@
        }),
{
    assert("insider_"@.is_prefix_of(label@) <==> occurs_at(label@, "insider_"@, 0)) by {
        let p = "insider_"@;
        if p.is_prefix_of(label@) {
            assert(label@.subrange(0, p.len() as int) =~= p);
        }
    }
}

/// Each order worth one or more is told of, in its order, and the way it went; no other is.
pub proof fn law_every_entry_is_told(
    det: SignalDetector,
    orders: Vec<DomeOrder>,
    wallet: &str,
    label: &str,
    n: Vec<OrderNumbers>,
    stamp: &str,
    r: Vec<MarketSignal>,
    k: int,
)
    requires
        n.len() == orders.len(),
        call_ensures(SignalDetector::detect_trader_entry, (&det, &orders, wallet, label, &n, stamp), r),
        0 <= k < orders.len(),
        Scalar::Rank(ONE_RANK).spec_le(n[k].position_value),
    ensures
        exists|i: int|
            0 <= i < r.len() && (#[trigger] r[i]).market_slug@ == orders[k].market_slug@ && r[i].details.current_price
                == orders[k].price && r[i].details.volume_24h == n[k].position_value && (
            r[i].details.recommended_action@ == "FOLLOW_SELL"@ <==> uppercase(orders[k].side@) == "SELL"@) && (
            r[i].details.recommended_action@ == "FOLLOW_BUY"@ <==> uppercase(orders[k].side@) != "SELL"@),
        r.len() <= orders.len(),
{
    reveal_strlit("FOLLOW_SELL");
    reveal_strlit("FOLLOW_BUY");
    assert("FOLLOW_SELL"@.len() != "FOLLOW_BUY"@.len());
    let picked = worth_following(n@, orders@.len());
    law_no_entry_is_missed(n@, orders@.len());
    assert(picked.contains(k));
    let i = choose|i: int| 0 <= i < picked.len() && picked[i] == k;
    assert(r[i].details.current_price == orders[k].price);
    lemma_few_followed(n@, orders@.len());
}

proof fn lemma_few_followed(n: Seq<OrderNumbers>, k: nat)
    ensures
        worth_following(n, k).len() <= k,
    decreases k,
{
    if k > 0 {
        lemma_few_followed(n, (k - 1) as nat);
    }
}

/// An order worth less than one is not told of: there are no more signals than orders worth
/// one or more.
pub proof fn law_small_orders_are_not_told(
    det: SignalDetector,
    orders: Vec<DomeOrder>,
    wallet: &str,
    label: &str,
    n: Vec<OrderNumbers>,
    stamp: &str,
    r: Vec<MarketSignal>,
)
    requires
        n.len() == orders.len(),
        call_ensures(SignalDetector::detect_trader_entry, (&det, &orders, wallet, label, &n, stamp), r),
    ensures
        forall|i: int|
            0 <= i < r.len() ==> !(#[trigger] r[i]).details.volume_24h.spec_lt(Scalar::Rank(ONE_RANK)),
        (forall|k: int| #![trigger n[k]] 0 <= k < n.len() ==> n[k].position_value.spec_lt(Scalar::Rank(ONE_RANK)))
            ==> r.len() == 0,
{
    let picked = worth_following(n@, orders@.len());
    law_no_entry_is_missed(n@, orders@.len());
    assert forall|i: int| 0 <= i < r.len() implies !(#[trigger] r[i]).details.volume_24h.spec_lt(
        Scalar::Rank(ONE_RANK),
    ) by {
        let k = picked[i];
        assert(picked.contains(k));
        assert(!n@[k].position_value.spec_lt(Scalar::Rank(ONE_RANK)));
    }
    if r.len() > 0 {
        let k = picked[0];
        assert(picked.contains(k));
        assert(!n@[k].position_value.spec_lt(Scalar::Rank(ONE_RANK)));
        assert(n[k] == n@[k]);
    }
}

/// The confidence in a wallet goes by its label: the closer to power the more, the least in
/// a wallet that only tests, and four fifths in any other.
pub proof fn law_confidence_goes_by_label(label: &str, r: Scalar)
    requires
        call_ensures(confidence_of, (label,), r),
    ensures
        label@ == "insider_politics"@ ==> r == Scalar::Rank(R_0_9),
        label@ == "insider_finance"@ ==> r == Scalar::Rank(R_0_88),
        label@ == "insider_tech"@ ==> r == Scalar::Rank(R_0_87),
        label@ == "insider_crypto"@ ==> r == Scalar::Rank(R_0_86),
        label@ == "insider_sports"@ ==> r == Scalar::Rank(R_0_85),
        label@ == "insider_entertainment"@ ==> r == Scalar::Rank(R_0_84),
        label@ == "high_frequency_test"@ ==> r == Scalar::Rank(HALF_RANK),
        label@ != "insider_politics"@ && label@ != "insider_finance"@ && label@ != "insider_tech"@ && label@
            != "insider_crypto"@ && label@ != "insider_sports"@ && label@ != "insider_entertainment"@ && label@
            != "high_frequency_test"@ ==> r == Scalar::Rank(R_0_8),
        Scalar::Rank(HALF_RANK).spec_le(r) && r.spec_le(Scalar::Rank(R_0_9)),
{
    reveal_strlit("insider_politics");
    reveal_strlit("insider_finance");
    reveal_strlit("insider_tech");
    reveal_strlit("insider_crypto");
    reveal_strlit("insider_sports");
    reveal_strlit("insider_entertainment");
    reveal_strlit("high_frequency_test");
    assert("insider_politics"@[8] == 'p' && "insider_finance"@[8] == 'f' && "insider_tech"@[8] == 't');
    assert("insider_crypto"@[8] == 'c' && "insider_sports"@[8] == 's' && "insider_entertainment"@[8] == 'e');
    assert("high_frequency_test"@[0] == 'h' && "insider_tech"@[0] == 'i' && "insider_crypto"@[0] == 'i');
    assert("insider_politics"@[0] == 'i' && "insider_finance"@[0] == 'i' && "insider_sports"@[0] == 'i'
        && "insider_entertainment"@[0] == 'i');
}

/// What an event tells is what its prices, its end and its volume tell, in this order.
pub proof fn law_event_tells_all_it_has(
    det: SignalDetector,
    event: PolymarketEvent,
    devs: Vec<DeviationNumbers>,
    n: EventNumbers,
    now: i64,
    stamp: &str,
    all: Vec<MarketSignal>,
    price: Option<MarketSignal>,
    end: Option<MarketSignal>,
    volume: Option<MarketSignal>,
)
    requires
        devs.len() == event.markets.len(),
        call_ensures(SignalDetector::detect_event, (&det, &event, &devs, &n, now, stamp), all),
        call_ensures(SignalDetector::detect_price_deviation, (&det, &event, &devs, stamp), price),
        call_ensures(SignalDetector::detect_expiry_edge, (&det, &event, &n, now, stamp), end),
        call_ensures(SignalDetector::detect_volume_spike, (&det, &event, &n, stamp), volume),
    ensures
        ({
            let a = if price is Some { 1int } else { 0 };
            let b = if end is Some { 1int } else { 0 };
            let c = if volume is Some { 1int } else { 0 };
            &&& all.len() == a + b + c
            &&& price is Some ==> all[0].id@ == price->0.id@ && all[0].details.recommended_action@
                == price->0.details.recommended_action@
            &&& end is Some ==> all[a].id@ == end->0.id@
            &&& volume is Some ==> all[a + b].id@ == volume->0.id@
        }),
{
    lemma_first_off(event.markets@, devs@, 0);
}

/// All events are looked at, one after the other: those of one more event stand behind the
/// others, and are what the event tells by itself.
pub proof fn law_events_are_told_in_turn(
    det: SignalDetector,
    events: Vec<PolymarketEvent>,
    figures: Vec<EventFigures>,
    now: i64,
    stamp: &str,
    all: Vec<MarketSignal>,
    last: Vec<MarketSignal>,
    i: int,
)
    requires
        events.len() > 0,
        figures.len() == events.len(),
        figures@.last().devs.len() == events@.last().markets.len(),
        call_ensures(SignalDetector::detect_all, (&det, &events, &figures, now, stamp), all),
        call_ensures(
            SignalDetector::detect_event,
            (&det, &events@.last(), &figures@.last().devs, &figures@.last().event, now, stamp),
            last,
        ),
        0 <= i < last.len(),
    ensures
        all.len() >= last.len(),
        all[all.len() - last.len() + i].id@ == last[i].id@,
        all[all.len() - last.len() + i].details.recommended_action@ == last[i].details.recommended_action@,
{
    let parts = choose|parts: Seq<Seq<MarketSignal>>| #[trigger]
        are_parts(parts, events@, figures@, now as int, stamp@) && all@ == in_a_row(parts);
    let tail = parts.last();
    assert(parts[parts.len() - 1] == tail);
    assert(all@ == in_a_row(parts.drop_last()) + tail);
    lemma_first_off(events@.last().markets@, figures@.last().devs@, 0);
    assert(tail.len() == last.len());
    assert(all@[all.len() - last.len() + i] == tail[i]);
}

/// A detector asks for six tenths of confidence.
pub proof fn law_detector_asks_for_confidence(d: SignalDetector)
    requires
        call_ensures(SignalDetector::new, (), d),
    ensures
        d.confidence_threshold == Scalar::Rank(R_0_6),
{
}

} // verus!
