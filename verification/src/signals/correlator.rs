//! Signals that confirm each other.
use crate::base::ranks::{
    R_0_03,
    R_0_05,
    R_0_6,
    R_0_7,
    R_0_75,
    R_0_85,
    R_0_9,
    R_0_95,
    R_0_99,
};
use crate::base::scalar::Scalar;
use crate::base::table::Table;
use crate::base::text::{decimal, decimal_i64, decimal_u64, joined, views};
use crate::models::{MarketSignal, SignalType};
use vstd::prelude::*;

verus! {

/// How signals confirm each other.
#[derive(Debug)]
pub enum PatternType {
    WhaleArbitrageAlignment,
    MultiWhaleConsensus,
    HistoricalRepeat,
    VolumeSpike,
    Custom(String),
}

/// Signals that confirm each other, taken together.
#[derive(Debug)]
pub struct CompositeSignal {
    pub id: String,
    pub market_slug: String,
    /// The identifiers of the signals.
    pub component_signals: Vec<String>,
    pub composite_confidence: Scalar,
    pub correlation_score: Scalar,
    pub pattern_type: PatternType,
    pub expected_return: Scalar,
    pub risk_score: Scalar,
    pub detected_at: String,
    pub description: String,
}

/// How signals are searched.
#[derive(Clone, Copy, Debug, PartialEq, Eq, Structural)]
pub struct CorrelatorConfig {
    pub min_correlation: Scalar,
    pub lookback_hours: i64,
    pub min_signals: usize,
}

impl Default for CorrelatorConfig {
    fn default() -> (r: CorrelatorConfig)
        ensures
            r == (CorrelatorConfig {
                min_correlation: Scalar::Rank(R_0_6),
                lookback_hours: 24,
                min_signals: 2,
            }),
    {
        CorrelatorConfig {
            min_correlation: Scalar::Rank(R_0_6),
            lookback_hours: 24,
            min_signals: 2,
        }
    }
}

/// Whether a signal tells of a large wallet.
pub open spec fn of_whale(s: MarketSignal) -> bool {
    s.signal_type is WhaleFollowing || s.signal_type is EliteWallet || s.signal_type is InsiderWallet
        || s.signal_type is TrackedWalletEntry
}

/// Whether a signal tells of prices that differ between venues.
pub open spec fn of_arbitrage(s: MarketSignal) -> bool {
    s.signal_type is CrossPlatformArbitrage
}

fn is_of_whale(s: &MarketSignal) -> (r: bool)
    ensures
        r == of_whale(*s),
{
    match &s.signal_type {
        SignalType::WhaleFollowing { .. } => true,
        SignalType::EliteWallet { .. } => true,
        SignalType::InsiderWallet { .. } => true,
        SignalType::TrackedWalletEntry { .. } => true,
        _ => false,
    }
}

/// The spread of a signal that tells of prices on two venues.
pub open spec fn spread_of(s: MarketSignal) -> Scalar {
    match s.signal_type {
        SignalType::CrossPlatformArbitrage { polymarket_price, kalshi_price, spread_pct } => spread_pct,
        _ => Scalar::Rank(0),
    }
}

/// The signals that tell of large wallets, and those that tell of prices on two venues.
pub open spec fn whales(signals: Seq<MarketSignal>) -> Seq<MarketSignal> {
    signals.filter(|s: MarketSignal| of_whale(s))
}

pub open spec fn arbitrages(signals: Seq<MarketSignal>) -> Seq<MarketSignal> {
    signals.filter(|s: MarketSignal| of_arbitrage(s))
}

/// The identifiers of signals.
pub open spec fn ids_of(signals: Seq<MarketSignal>) -> Seq<Seq<char>> {
    signals.map_values(|s: MarketSignal| s.id@)
}

/// The greatest spread, zero where there is none.
pub open spec fn greatest_spread(arbs: Seq<MarketSignal>) -> Scalar
    decreases arbs.len(),
{
    if arbs.len() == 0 {
        Scalar::Rank(0)
    } else if arbs.len() == 1 {
        spread_of(arbs[0])
    } else {
        let before = greatest_spread(arbs.drop_last());
        if spread_of(arbs.last()).spec_lt(before) {
            before
        } else {
            spread_of(arbs.last())
        }
    }
}

/// What is found out about the signals on a market: which tell of what, by their places.
#[derive(Debug)]
pub struct Sorted {
    pub whale_ids: Vec<String>,
    pub arbitrage_ids: Vec<String>,
    pub whale_confidences: Vec<Scalar>,
    pub arbitrage_confidences: Vec<Scalar>,
    pub greatest_spread: Scalar,
}

/// The confidences of signals.
pub open spec fn confidences(signals: Seq<MarketSignal>) -> Seq<Scalar> {
    signals.map_values(|s: MarketSignal| s.confidence)
}

/// Tells the signals on a market apart.
pub fn sort_signals(signals: &Vec<MarketSignal>) -> (r: Sorted)
    ensures
        views(r.whale_ids@) == ids_of(whales(signals@)),
        views(r.arbitrage_ids@) == ids_of(arbitrages(signals@)),
        r.whale_confidences@ == confidences(whales(signals@)),
        r.arbitrage_confidences@ == confidences(arbitrages(signals@)),
        r.greatest_spread == greatest_spread(arbitrages(signals@)),
{
    let ghost fw = |s: MarketSignal| of_whale(s);
    let ghost fa = |s: MarketSignal| of_arbitrage(s);
    let mut whale_ids: Vec<String> = Vec::new();
    let mut arbitrage_ids: Vec<String> = Vec::new();
    let mut whale_confidences: Vec<Scalar> = Vec::new();
    let mut arbitrage_confidences: Vec<Scalar> = Vec::new();
    let mut greatest = Scalar::Rank(0);
    let mut i: usize = 0;
    proof {
        reveal(Seq::filter);
    }
    assert(signals@.take(0).filter(fw) =~= Seq::<MarketSignal>::empty());
    assert(signals@.take(0).filter(fa) =~= Seq::<MarketSignal>::empty());
    assert(views(whale_ids@) =~= ids_of(signals@.take(0).filter(fw)));
    assert(views(arbitrage_ids@) =~= ids_of(signals@.take(0).filter(fa)));
    assert(whale_confidences@ =~= confidences(signals@.take(0).filter(fw)));
    assert(arbitrage_confidences@ =~= confidences(signals@.take(0).filter(fa)));
    while i < signals.len()
        invariant
            i <= signals.len(),
            fw == (|s: MarketSignal| of_whale(s)),
            fa == (|s: MarketSignal| of_arbitrage(s)),
            views(whale_ids@) == ids_of(signals@.take(i as int).filter(fw)),
            views(arbitrage_ids@) == ids_of(signals@.take(i as int).filter(fa)),
            whale_confidences@ == confidences(signals@.take(i as int).filter(fw)),
            arbitrage_confidences@ == confidences(signals@.take(i as int).filter(fa)),
            greatest == greatest_spread(signals@.take(i as int).filter(fa)),
        decreases signals.len() - i,
    {
        proof {
            reveal(Seq::filter);
        }
        let ghost sw = signals@.take(i as int).filter(fw);
        let ghost sa = signals@.take(i as int).filter(fa);
        assert(signals@.take(i as int + 1).drop_last() =~= signals@.take(i as int));
        let s = &signals[i];
        if is_of_whale(s) {
            let ghost before = whale_ids@;
            whale_ids.push(s.id.clone());
            whale_confidences.push(s.confidence);
            assert(views(whale_ids@) =~= views(before).push(s.id@));
            assert(ids_of(sw.push(*s)) =~= ids_of(sw).push(s.id@));
            assert(confidences(sw.push(*s)) =~= confidences(sw).push(s.confidence));
        }
        match &s.signal_type {
            SignalType::CrossPlatformArbitrage { spread_pct, .. } => {
                let ghost before = arbitrage_ids@;
                let none_yet = arbitrage_ids.len() == 0;
                assert(sa.len() == views(arbitrage_ids@).len());
                arbitrage_ids.push(s.id.clone());
                arbitrage_confidences.push(s.confidence);
                assert(views(arbitrage_ids@) =~= views(before).push(s.id@));
                assert(ids_of(sa.push(*s)) =~= ids_of(sa).push(s.id@));
                assert(confidences(sa.push(*s)) =~= confidences(sa).push(s.confidence));
                assert(sa.push(*s).drop_last() =~= sa);
                if none_yet || !spread_pct.lt(greatest) {
                    greatest = *spread_pct;
                }
            },
            _ => {},
        }
        i = i + 1;
    }
    assert(signals@.take(i as int) =~= signals@);
    Sorted {
        whale_ids,
        arbitrage_ids,
        whale_confidences,
        arbitrage_confidences,
        greatest_spread: greatest,
    }
}

/// The figures of signals that confirm each other: their weighed confidence, and one less
/// what is left of it under its cap; and both written in percent.
#[derive(Debug)]
pub struct CompositeNumbers {
    pub weighed: Scalar,
    pub risk_score: Scalar,
    pub confidence_text: String,
    pub return_text: String,
}

/// Who found signals and when.
#[derive(Debug)]
pub struct Found {
    pub millis: i64,
    pub stamp: String,
}

/// The parts that all composite signals share.
pub open spec fn is_composite(
    c: CompositeSignal,
    market_slug: Seq<char>,
    found: Found,
    ids: Seq<Seq<char>>,
    confidence: Scalar,
    correlation: Scalar,
    expected: Scalar,
    risk: Scalar,
) -> bool {
    &&& c.id@ == "composite_"@ + decimal(found.millis as int)
    &&& c.market_slug@ == market_slug
    &&& views(c.component_signals@) == ids
    &&& c.composite_confidence == confidence
    &&& c.correlation_score == correlation
    &&& c.expected_return == expected
    &&& c.risk_score == risk
    &&& c.detected_at@ == found.stamp@
}

/// What is said of large wallets that meet prices on two venues.
pub open spec fn alignment_text(w: nat, a: nat, market_slug: Seq<char>, n: CompositeNumbers) -> Seq<char> {
    "STRONG SIGNAL: "@ + decimal(w as int) + " whale trades + "@ + decimal(a as int)
        + " arbitrage opportunities aligned on '"@ + market_slug + "' (confidence: "@
        + n.confidence_text@ + "%, expected return: "@ + n.return_text@ + "%)"@
}

/// What is said of large wallets that agree.
pub open spec fn consensus_text(w: nat, market_slug: Seq<char>, n: CompositeNumbers) -> Seq<char> {
    "MULTI-WHALE CONSENSUS: "@ + decimal(w as int) + " elite traders buying '"@ + market_slug
        + "' (confidence: "@ + n.confidence_text@ + "%)"@
}

/// What is said of many signals.
pub open spec fn spike_text(k: nat, market_slug: Seq<char>, hours: int, n: CompositeNumbers) -> Seq<char> {
    "VOLUME SPIKE: "@ + decimal(k as int) + " signals detected on '"@ + market_slug + "' in "@
        + decimal(hours) + "h window (confidence: "@ + n.confidence_text@ + "%)"@
}

/// Large wallets that meet prices on two venues.
pub open spec fn is_alignment(
    c: CompositeSignal,
    market_slug: Seq<char>,
    signals: Seq<MarketSignal>,
    n: CompositeNumbers,
    found: Found,
) -> bool {
    &&& is_composite(
        c,
        market_slug,
        found,
        ids_of(whales(signals)) + ids_of(arbitrages(signals)),
        n.weighed.spec_min(Scalar::Rank(R_0_99)),
        Scalar::Rank(R_0_85),
        greatest_spread(arbitrages(signals)),
        n.risk_score,
    )
    &&& c.pattern_type is WhaleArbitrageAlignment
    &&& c.description@ == alignment_text(
        whales(signals).len(),
        arbitrages(signals).len(),
        market_slug,
        n,
    )
}

/// Large wallets that agree.
pub open spec fn is_consensus(
    c: CompositeSignal,
    market_slug: Seq<char>,
    signals: Seq<MarketSignal>,
    n: CompositeNumbers,
    found: Found,
) -> bool {
    &&& is_composite(
        c,
        market_slug,
        found,
        ids_of(whales(signals)),
        n.weighed.spec_min(Scalar::Rank(R_0_99)),
        Scalar::Rank(
            if whales(signals).len() >= 3 {
                R_0_9
            } else {
                R_0_75
            },
        ),
        Scalar::Rank(R_0_05),
        n.risk_score,
    )
    &&& c.pattern_type is MultiWhaleConsensus
    &&& c.description@ == consensus_text(whales(signals).len(), market_slug, n)
}

/// Many signals on a market.
pub open spec fn is_spike(
    c: CompositeSignal,
    market_slug: Seq<char>,
    signals: Seq<MarketSignal>,
    hours: int,
    n: CompositeNumbers,
    found: Found,
) -> bool {
    &&& is_composite(
        c,
        market_slug,
        found,
        ids_of(signals),
        n.weighed.spec_min(Scalar::Rank(R_0_95)),
        Scalar::Rank(R_0_7),
        Scalar::Rank(R_0_03),
        n.risk_score,
    )
    &&& c.pattern_type is VolumeSpike
    &&& c.description@ == spike_text(signals.len(), market_slug, hours, n)
}

/// How many signals on a market are unusual.
pub const UNUSUAL: usize = 5;

/// The figures of the three patterns on a market.
#[derive(Debug)]
pub struct PatternNumbers {
    pub alignment: CompositeNumbers,
    pub consensus: CompositeNumbers,
    pub spike: CompositeNumbers,
}

/// Whether two or more spreads can be compared.
pub open spec fn comparable(signals: Seq<MarketSignal>) -> bool {
    let a = arbitrages(signals);
    a.len() >= 2 ==> forall|i: int| #![trigger a[i]] 0 <= i < a.len() ==> spread_of(a[i]) is Rank
}

/// The search for signals that confirm each other.
pub struct SignalCorrelator {
    pub config: CorrelatorConfig,
}

fn composite_id(found: &Found) -> (r: String)
    ensures
        r@ == "composite_"@ + decimal(found.millis as int),
{
    joined("composite_", decimal_i64(found.millis).as_str())
}

fn chained(a: Vec<String>, b: &Vec<String>) -> (r: Vec<String>)
    ensures
        views(r@) == views(a@) + views(b@),
{
    let ghost first = views(a@);
    let mut r = a;
    let mut i: usize = 0;
    assert(views(r@) =~= first + views(b@).take(0));
    while i < b.len()
        invariant
            i <= b.len(),
            views(r@) == first + views(b@).take(i as int),
        decreases b.len() - i,
    {
        let ghost before = r@;
        r.push(b[i].clone());
        assert(views(r@) =~= views(before).push(b[i as int]@));
        assert(views(r@) =~= first + views(b@).take(i as int + 1));
        i = i + 1;
    }
    assert(views(b@).take(i as int) =~= views(b@));
    r
}

impl SignalCorrelator {
    pub fn new(config: CorrelatorConfig) -> (r: SignalCorrelator)
        ensures
            r.config == config,
    {
        SignalCorrelator { config }
    }

    /// Large wallets that meet prices on two venues.
    pub fn detect_whale_arbitrage_alignment(
        &self,
        market_slug: &str,
        signals: &Vec<MarketSignal>,
        n: &CompositeNumbers,
        found: &Found,
    ) -> (r: Option<CompositeSignal>)
        requires
            comparable(signals@),
        ensures
            r is Some <==> whales(signals@).len() > 0 && arbitrages(signals@).len() > 0,
            r matches Some(c) ==> is_alignment(c, market_slug@, signals@, *n, *found),
    {
        let sorted = sort_signals(signals);
        assert(views(sorted.whale_ids@).len() == whales(signals@).len());
        assert(views(sorted.arbitrage_ids@).len() == arbitrages(signals@).len());
        let w = sorted.whale_ids.len();
        let a = sorted.arbitrage_ids.len();
        if w == 0 || a == 0 {
            return None;
        }
        let mut text = joined("STRONG SIGNAL: ", decimal_u64(w as u64).as_str());
        text = joined(text.as_str(), " whale trades + ");
        text = joined(text.as_str(), decimal_u64(a as u64).as_str());
        text = joined(text.as_str(), " arbitrage opportunities aligned on '");
        text = joined(text.as_str(), market_slug);
        text = joined(text.as_str(), "' (confidence: ");
        text = joined(text.as_str(), n.confidence_text.as_str());
        text = joined(text.as_str(), "%, expected return: ");
        text = joined(text.as_str(), n.return_text.as_str());
        text = joined(text.as_str(), "%)");
        Some(
            CompositeSignal {
                id: composite_id(found),
                market_slug: market_slug.to_owned(),
                component_signals: chained(sorted.whale_ids, &sorted.arbitrage_ids),
                composite_confidence: n.weighed.min(Scalar::Rank(R_0_99)),
                correlation_score: Scalar::Rank(R_0_85),
                pattern_type: PatternType::WhaleArbitrageAlignment,
                expected_return: sorted.greatest_spread,
                risk_score: n.risk_score,
                detected_at: found.stamp.clone(),
                description: text,
            },
        )
    }

    /// Large wallets that agree.
    pub fn detect_multi_whale_consensus(
        &self,
        market_slug: &str,
        signals: &Vec<MarketSignal>,
        n: &CompositeNumbers,
        found: &Found,
    ) -> (r: Option<CompositeSignal>)
        ensures
            r is Some <==> whales(signals@).len() >= 2,
            r matches Some(c) ==> is_consensus(c, market_slug@, signals@, *n, *found),
    {
        let sorted = sort_signals(signals);
        assert(views(sorted.whale_ids@).len() == whales(signals@).len());
        let w = sorted.whale_ids.len();
        if w < 2 {
            return None;
        }
        let mut text = joined("MULTI-WHALE CONSENSUS: ", decimal_u64(w as u64).as_str());
        text = joined(text.as_str(), " elite traders buying '");
        text = joined(text.as_str(), market_slug);
        text = joined(text.as_str(), "' (confidence: ");
        text = joined(text.as_str(), n.confidence_text.as_str());
        text = joined(text.as_str(), "%)");
        Some(
            CompositeSignal {
                id: composite_id(found),
                market_slug: market_slug.to_owned(),
                component_signals: sorted.whale_ids,
                composite_confidence: n.weighed.min(Scalar::Rank(R_0_99)),
                correlation_score: Scalar::Rank(
                    if w >= 3 {
                        R_0_9
                    } else {
                        R_0_75
                    },
                ),
                pattern_type: PatternType::MultiWhaleConsensus,
                expected_return: Scalar::Rank(R_0_05),
                risk_score: n.risk_score,
                detected_at: found.stamp.clone(),
                description: text,
            },
        )
    }

    /// Many signals on a market.
    pub fn detect_volume_spike(
        &self,
        market_slug: &str,
        signals: &Vec<MarketSignal>,
        n: &CompositeNumbers,
        found: &Found,
    ) -> (r: Option<CompositeSignal>)
        ensures
            r is Some <==> signals.len() >= UNUSUAL,
            r matches Some(c) ==> is_spike(
                c,
                market_slug@,
                signals@,
                self.config.lookback_hours as int,
                *n,
                *found,
            ),
    {
        let k = signals.len();
        if k < UNUSUAL {
            return None;
        }
        let mut ids: Vec<String> = Vec::new();
        let mut i: usize = 0;
        assert(views(ids@) =~= ids_of(signals@).take(0));
        while i < signals.len()
            invariant
                i <= signals.len(),
                views(ids@) == ids_of(signals@).take(i as int),
            decreases signals.len() - i,
        {
            let ghost before = ids@;
            ids.push(signals[i].id.clone());
            assert(views(ids@) =~= views(before).push(signals[i as int].id@));
            assert(views(ids@) =~= ids_of(signals@).take(i as int + 1));
            i = i + 1;
        }
        assert(views(ids@) =~= ids_of(signals@));
        let mut text = joined("VOLUME SPIKE: ", decimal_u64(k as u64).as_str());
        text = joined(text.as_str(), " signals detected on '");
        text = joined(text.as_str(), market_slug);
        text = joined(text.as_str(), "' in ");
        text = joined(text.as_str(), decimal_i64(self.config.lookback_hours).as_str());
        text = joined(text.as_str(), "h window (confidence: ");
        text = joined(text.as_str(), n.confidence_text.as_str());
        text = joined(text.as_str(), "%)");
        Some(
            CompositeSignal {
                id: composite_id(found),
                market_slug: market_slug.to_owned(),
                component_signals: ids,
                composite_confidence: n.weighed.min(Scalar::Rank(R_0_95)),
                correlation_score: Scalar::Rank(R_0_7),
                pattern_type: PatternType::VolumeSpike,
                expected_return: Scalar::Rank(R_0_03),
                risk_score: n.risk_score,
                detected_at: found.stamp.clone(),
                description: text,
            },
        )
    }

    /// The confidence in signals together; `raised` is their mean, raised by how many they
    /// are.
    pub fn calculate_composite_confidence(&self, signals: &Vec<MarketSignal>, raised: Scalar) -> (r: Scalar)
        ensures
            r == if signals.len() == 0 {
                Scalar::Rank(0)
            } else {
                raised.spec_min(Scalar::Rank(R_0_99))
            },
    {
        if signals.len() == 0 {
            return Scalar::Rank(0);
        }
        raised.min(Scalar::Rank(R_0_99))
    }

    /// The patterns on a market that has enough signals, in order.
    pub fn analyze_market(
        &self,
        market_slug: &str,
        signals: &Vec<MarketSignal>,
        n: &PatternNumbers,
        found: &Found,
    ) -> (r: Vec<CompositeSignal>)
        requires
            comparable(signals@),
        ensures
            ({
                let enough = signals.len() >= self.config.min_signals;
                let a = enough && whales(signals@).len() > 0 && arbitrages(signals@).len() > 0;
                let b = enough && whales(signals@).len() >= 2;
                let c = enough && signals.len() >= UNUSUAL;
                let at_b: int = if a {
                    1
                } else {
                    0
                };
                let at_c: int = at_b + if b {
                    1int
                } else {
                    0int
                };
                &&& r.len() == at_c + if c {
                    1int
                } else {
                    0int
                }
                &&& a ==> is_alignment(r[0], market_slug@, signals@, n.alignment, *found)
                &&& b ==> is_consensus(r[at_b], market_slug@, signals@, n.consensus, *found)
                &&& c ==> is_spike(
                    r[at_c],
                    market_slug@,
                    signals@,
                    self.config.lookback_hours as int,
                    n.spike,
                    *found,
                )
            }),
    {
        let mut out: Vec<CompositeSignal> = Vec::new();
        if signals.len() < self.config.min_signals {
            return out;
        }
        match self.detect_whale_arbitrage_alignment(market_slug, signals, &n.alignment, found) {
            Some(c) => {
                out.push(c);
            },
            None => {},
        }
        match self.detect_multi_whale_consensus(market_slug, signals, &n.consensus, found) {
            Some(c) => {
                out.push(c);
            },
            None => {},
        }
        match self.detect_volume_spike(market_slug, signals, &n.spike, found) {
            Some(c) => {
                out.push(c);
            },
            None => {},
        }
        out
    }

    /// The first pattern on a market: large wallets that meet prices on two venues, else
    /// large wallets that agree.
    pub fn find_aligned_signals(
        &self,
        market_slug: &str,
        signals: &Vec<MarketSignal>,
        n: &PatternNumbers,
        found: &Found,
    ) -> (r: Option<CompositeSignal>)
        requires
            comparable(signals@),
        ensures
            ({
                let enough = signals.len() >= self.config.min_signals;
                let a = enough && whales(signals@).len() > 0 && arbitrages(signals@).len() > 0;
                let b = enough && whales(signals@).len() >= 2;
                &&& r is Some <==> a || b
                &&& a ==> is_alignment(r->0, market_slug@, signals@, n.alignment, *found)
                &&& !a && b ==> is_consensus(r->0, market_slug@, signals@, n.consensus, *found)
            }),
    {
        if signals.len() < self.config.min_signals {
            return None;
        }
        match self.detect_whale_arbitrage_alignment(market_slug, signals, &n.alignment, found) {
            Some(c) => {
                return Some(c);
            },
            None => {},
        }
        self.detect_multi_whale_consensus(market_slug, signals, &n.consensus, found)
    }

    /// Groups signals by their markets, where there are enough of them.
    pub fn analyze_correlations(&self, signals: Vec<MarketSignal>) -> (r: Table<Vec<MarketSignal>>)
        ensures
            if signals.len() < self.config.min_signals {
                r@ == Map::<Seq<char>, Vec<MarketSignal>>::empty()
            } else {
                is_grouping(r@, signals@)
            },
    {
        let mut groups: Table<Vec<MarketSignal>> = Table::new();
        if signals.len() < self.config.min_signals {
            return groups;
        }
        let ghost all = signals@;
        let mut rest = signals;
        let mut i: usize = 0;
        let n = rest.len();
        assert(rest@ =~= all.skip(0));
        proof {
            reveal(Seq::filter);
        }
        assert(is_grouping(groups@, all.take(0)));
        while rest.len() > 0
            invariant
                n == all.len(),
                i + rest.len() == n,
                rest@ == all.skip(i as int),
                is_grouping(groups@, all.take(i as int)),
            decreases rest.len(),
        {
            let signal = rest.remove(0);
            assert(signal == all[i as int]);
            assert(rest@ =~= all.skip(i as int + 1));
            let slug = signal.market_slug.clone();
            let ghost before = groups@;
            let ghost k0 = slug@;
            let mut group: Vec<MarketSignal> = match groups.remove(slug.as_str()) {
                Some(g) => g,
                None => Vec::new(),
            };
            let ghost old_group = group@;
            group.push(signal);
            groups.insert(slug, group);
            proof {
                assert(groups@ =~= before.insert(k0, group));
                lemma_grouping_step(before, groups@, all, i as int, group, old_group);
            }
            i = i + 1;
        }
        assert(all.take(i as int) =~= all);
        groups
    }
}

/// The signals on a market.
pub open spec fn on_market(signals: Seq<MarketSignal>, slug: Seq<char>) -> Seq<MarketSignal> {
    signals.filter(|s: MarketSignal| s.market_slug@ == slug)
}

/// The groups hold, for every market with signals, these signals in their order.
pub open spec fn is_grouping(groups: Map<Seq<char>, Vec<MarketSignal>>, signals: Seq<MarketSignal>) -> bool {
    &&& forall|k: Seq<char>| #[trigger]
        groups.contains_key(k) <==> exists|i: int|
            0 <= i < signals.len() && (#[trigger] signals[i]).market_slug@ == k
    &&& forall|k: Seq<char>| #[trigger]
        groups.contains_key(k) ==> groups[k]@ == on_market(signals, k)
}

proof fn lemma_filter_step(all: Seq<MarketSignal>, i: int, slug: Seq<char>)
    requires
        0 <= i < all.len(),
    ensures
        on_market(all.take(i + 1), slug) == if all[i].market_slug@ == slug {
            on_market(all.take(i), slug).push(all[i])
        } else {
            on_market(all.take(i), slug)
        },
{
    reveal(Seq::filter);
    assert(all.take(i + 1).drop_last() =~= all.take(i));
}

proof fn lemma_absent_is_empty(signals: Seq<MarketSignal>, slug: Seq<char>)
    requires
        forall|i: int| 0 <= i < signals.len() ==> (#[trigger] signals[i]).market_slug@ != slug,
    ensures
        on_market(signals, slug) == Seq::<MarketSignal>::empty(),
    decreases signals.len(),
{
    reveal(Seq::filter);
    if signals.len() > 0 {
        assert forall|i: int| 0 <= i < signals.drop_last().len() implies (
        #[trigger] signals.drop_last()[i]).market_slug@ != slug by {
            assert(signals.drop_last()[i] == signals[i]);
        }
        lemma_absent_is_empty(signals.drop_last(), slug);
        assert(signals.last().market_slug@ != slug);
    }
}

proof fn lemma_grouping_step(
    before: Map<Seq<char>, Vec<MarketSignal>>,
    after: Map<Seq<char>, Vec<MarketSignal>>,
    all: Seq<MarketSignal>,
    i: int,
    group: Vec<MarketSignal>,
    old_group: Seq<MarketSignal>,
)
    requires
        0 <= i < all.len(),
        is_grouping(before, all.take(i)),
        old_group == if before.contains_key(all[i].market_slug@) {
            before[all[i].market_slug@]@
        } else {
            Seq::<MarketSignal>::empty()
        },
        group@ == old_group.push(all[i]),
        after == before.insert(all[i].market_slug@, group),
    ensures
        is_grouping(after, all.take(i + 1)),
{
    let slug = all[i].market_slug@;
    let now = all.take(i + 1);
    let past = all.take(i);
    assert forall|k: Seq<char>| #[trigger] after.contains_key(k) <==> exists|j: int|
        0 <= j < now.len() && (#[trigger] now[j]).market_slug@ == k by {
        if after.contains_key(k) {
            if k == slug {
                assert(now[i].market_slug@ == k);
            } else {
                assert(before.contains_key(k));
                let j = choose|j: int| 0 <= j < past.len() && (#[trigger] past[j]).market_slug@ == k;
                assert(now[j].market_slug@ == k);
            }
        }
        if exists|j: int| 0 <= j < now.len() && (#[trigger] now[j]).market_slug@ == k {
            let j = choose|j: int| 0 <= j < now.len() && (#[trigger] now[j]).market_slug@ == k;
            if j < i {
                assert(past[j].market_slug@ == k);
                assert(before.contains_key(k));
            }
        }
    }
    assert forall|k: Seq<char>| #[trigger] after.contains_key(k) implies after[k]@ == on_market(now, k) by {
        lemma_filter_step(all, i, k);
        if k == slug {
            if !before.contains_key(slug) {
                assert forall|j: int| 0 <= j < past.len() implies (#[trigger] past[j]).market_slug@
                    != slug by {
                    if past[j].market_slug@ == slug {
                        assert(before.contains_key(slug));
                    }
                }
                lemma_absent_is_empty(past, slug);
            }
        } else {
            assert(before.contains_key(k));
        }
    }
}

/// A composite confidence that can be compared never exceeds its cap, and a market without
/// enough signals has no pattern by itself.
pub proof fn law_confidence_is_capped(weighed: Scalar)
    ensures
        weighed is Rank ==> weighed.spec_min(Scalar::Rank(R_0_99)).spec_le(Scalar::Rank(R_0_99))
            && weighed.spec_min(Scalar::Rank(R_0_99)).spec_le(weighed),
        weighed is Undefined ==> weighed.spec_min(Scalar::Rank(R_0_99)) == Scalar::Rank(R_0_99),
{
}

/// The greatest spread is one of the spreads, and none is greater, wherever all of them can
/// be compared.
pub proof fn law_greatest_spread_is_greatest(arbs: Seq<MarketSignal>)
    requires
        arbs.len() > 0,
        forall|i: int| #![trigger arbs[i]] 0 <= i < arbs.len() ==> spread_of(arbs[i]) is Rank,
    ensures
        exists|i: int| #![trigger arbs[i]] 0 <= i < arbs.len() && greatest_spread(arbs) == spread_of(arbs[i]),
        forall|i: int|
            #![trigger arbs[i]]
            0 <= i < arbs.len() ==> spread_of(arbs[i]).spec_le(greatest_spread(arbs)),
    decreases arbs.len(),
{
    if arbs.len() == 1 {
        assert(greatest_spread(arbs) == spread_of(arbs[0]));
    } else {
        let front = arbs.drop_last();
        assert forall|i: int| #![trigger front[i]] 0 <= i < front.len() implies spread_of(front[i]) is Rank by {
            assert(front[i] == arbs[i]);
        }
        law_greatest_spread_is_greatest(front);
        let w = choose|i: int| #![trigger front[i]] 0 <= i < front.len() && greatest_spread(front) == spread_of(front[i]);
        assert(arbs[w] == front[w]);
        assert(arbs[arbs.len() - 1] == arbs.last());
        assert forall|i: int|
            #![trigger arbs[i]]
            0 <= i < arbs.len() implies spread_of(arbs[i]).spec_le(greatest_spread(arbs)) by {
            if i < front.len() {
                assert(front[i] == arbs[i]);
            }
        }
    }
}

/// A signal of a large wallet, whichever of the four kinds it is.
pub open spec fn tells_of_a_large_wallet(t: SignalType) -> bool {
    t is TrackedWalletEntry || t is InsiderWallet || t is EliteWallet || t is WhaleFollowing
}

proof fn lemma_two_are_kept(s: Seq<MarketSignal>, f: spec_fn(MarketSignal) -> bool, i: int, j: int)
    requires
        0 <= i < j < s.len(),
        f(s[i]),
        f(s[j]),
    ensures
        s.filter(f).len() >= 2,
        s.filter(f).contains(s[i]),
        s.filter(f).contains(s[j]),
    decreases s.len(),
{
    reveal(Seq::filter);
    s.lemma_filter_contains(f, i);
    s.lemma_filter_contains(f, j);
    let front = s.drop_last();
    if j < front.len() {
        assert(front[i] == s[i] && front[j] == s[j]);
        lemma_two_are_kept(front, f, i, j);
    } else {
        assert(front[i] == s[i]);
        front.lemma_filter_contains(f, i);
        assert(front.filter(f).len() > 0);
    }
}

proof fn lemma_none_are_kept(s: Seq<MarketSignal>, f: spec_fn(MarketSignal) -> bool)
    requires
        s.filter(f).len() > 0,
    ensures
        exists|i: int| 0 <= i < s.len() && f(#[trigger] s[i]),
    decreases s.len(),
{
    reveal(Seq::filter);
    if f(s.last()) {
        assert(f(s[s.len() - 1]));
    } else {
        lemma_none_are_kept(s.drop_last(), f);
        let i = choose|i: int| 0 <= i < s.drop_last().len() && f(#[trigger] s.drop_last()[i]);
        assert(f(s[i]));
    }
}

/// Any two signals of large wallets on a market agree, whichever of the four kinds they are:
/// the agreement names both. A single one, or none, agrees with nobody.
pub proof fn law_two_large_wallets_agree(
    c: SignalCorrelator,
    slug: &str,
    signals: Vec<MarketSignal>,
    n: CompositeNumbers,
    found: Found,
    r: Option<CompositeSignal>,
    i: int,
    j: int,
)
    requires
        call_ensures(SignalCorrelator::detect_multi_whale_consensus, (&c, slug, &signals, &n, &found), r),
        0 <= i < j < signals.len(),
    ensures
        tells_of_a_large_wallet(signals[i].signal_type) && tells_of_a_large_wallet(signals[j].signal_type) ==> {
            &&& r is Some
            &&& r->0.pattern_type is MultiWhaleConsensus
            &&& r->0.market_slug@ == slug@
            &&& views(r->0.component_signals@).contains(signals[i].id@)
            &&& views(r->0.component_signals@).contains(signals[j].id@)
        },
        (forall|k: int|
            0 <= k < signals.len() && k != i ==> !tells_of_a_large_wallet((#[trigger] signals[k]).signal_type)) ==> r is None,
{
    let f = |s: MarketSignal| of_whale(s);
    let all = signals@;
    if tells_of_a_large_wallet(signals[i].signal_type) && tells_of_a_large_wallet(signals[j].signal_type) {
        lemma_two_are_kept(all, f, i, j);
        lemma_ids_hold(whales(all), all[i]);
        lemma_ids_hold(whales(all), all[j]);
    }
    if forall|k: int| 0 <= k < signals.len() && k != i ==> !tells_of_a_large_wallet((#[trigger] signals[k]).signal_type) {
        lemma_at_most_one(all, f, i);
    }
}

proof fn lemma_ids_hold(s: Seq<MarketSignal>, x: MarketSignal)
    requires
        s.contains(x),
    ensures
        ids_of(s).contains(x.id@),
{
    let k = choose|k: int| 0 <= k < s.len() && s[k] == x;
    assert(ids_of(s)[k] == x.id@);
}

proof fn lemma_at_most_one(s: Seq<MarketSignal>, f: spec_fn(MarketSignal) -> bool, i: int)
    requires
        forall|k: int| 0 <= k < s.len() && k != i ==> !f(#[trigger] s[k]),
    ensures
        s.filter(f).len() <= 1,
        !(0 <= i < s.len()) ==> s.filter(f).len() == 0,
    decreases s.len(),
{
    reveal(Seq::filter);
    if s.len() > 0 {
        let front = s.drop_last();
        assert forall|k: int| 0 <= k < front.len() && k != i implies !f(#[trigger] front[k]) by {
            assert(front[k] == s[k]);
        }
        lemma_at_most_one(front, f, i);
        assert(s[s.len() - 1] == s.last());
        if i == s.len() - 1 {
            assert(!(0 <= i < front.len()));
        }
    }
}

/// Any signal of a large wallet beside one of prices on two venues is aligned with it: the
/// alignment names both, and expects the greatest spread. Without either there is none.
pub proof fn law_large_wallet_meets_arbitrage(
    c: SignalCorrelator,
    slug: &str,
    signals: Vec<MarketSignal>,
    n: CompositeNumbers,
    found: Found,
    r: Option<CompositeSignal>,
    i: int,
    j: int,
)
    requires
        call_ensures(SignalCorrelator::detect_whale_arbitrage_alignment, (&c, slug, &signals, &n, &found), r),
        0 <= i < signals.len(),
        0 <= j < signals.len(),
    ensures
        tells_of_a_large_wallet(signals[i].signal_type) && signals[j].signal_type is CrossPlatformArbitrage ==> {
            &&& r is Some
            &&& r->0.pattern_type is WhaleArbitrageAlignment
            &&& views(r->0.component_signals@).contains(signals[i].id@)
            &&& views(r->0.component_signals@).contains(signals[j].id@)
        },
        (forall|k: int| 0 <= k < signals.len() ==> !tells_of_a_large_wallet((#[trigger] signals[k]).signal_type)) ==> r is None,
        (forall|k: int| 0 <= k < signals.len() ==> !((#[trigger] signals[k]).signal_type is CrossPlatformArbitrage))
            ==> r is None,
{
    let f = |s: MarketSignal| of_whale(s);
    let g = |s: MarketSignal| of_arbitrage(s);
    let all = signals@;
    if tells_of_a_large_wallet(signals[i].signal_type) && signals[j].signal_type is CrossPlatformArbitrage {
        all.lemma_filter_contains(f, i);
        all.lemma_filter_contains(g, j);
        assert(whales(all).contains(all[i]));
        assert(arbitrages(all).contains(all[j]));
        lemma_ids_hold(whales(all), all[i]);
        lemma_ids_hold(arbitrages(all), all[j]);
        let ids = ids_of(whales(all)) + ids_of(arbitrages(all));
        let a = choose|k: int| 0 <= k < ids_of(whales(all)).len() && ids_of(whales(all))[k] == all[i].id@;
        let b = choose|k: int| 0 <= k < ids_of(arbitrages(all)).len() && ids_of(arbitrages(all))[k] == all[j].id@;
        assert(ids[a] == all[i].id@);
        assert(ids[ids_of(whales(all)).len() + b] == all[j].id@);
    }
    if r is Some {
        lemma_none_are_kept(all, f);
        lemma_none_are_kept(all, g);
        let k = choose|k: int| 0 <= k < all.len() && f(#[trigger] all[k]);
        assert(tells_of_a_large_wallet(signals[k].signal_type));
        let l = choose|k: int| 0 <= k < all.len() && g(#[trigger] all[k]);
        assert(signals[l].signal_type is CrossPlatformArbitrage);
    }
}

/// Five signals on a market are unusual, four are not; all of them are named.
pub proof fn law_five_signals_are_unusual(
    c: SignalCorrelator,
    slug: &str,
    signals: Vec<MarketSignal>,
    n: CompositeNumbers,
    found: Found,
    r: Option<CompositeSignal>,
    raised: Scalar,
    whole: Scalar,
)
    requires
        n.weighed is Rank,
        raised is Rank,
        call_ensures(SignalCorrelator::detect_volume_spike, (&c, slug, &signals, &n, &found), r),
        call_ensures(SignalCorrelator::calculate_composite_confidence, (&c, &signals, raised), whole),
    ensures
        r is Some <==> signals.len() >= 5,
        r matches Some(x) ==> {
            &&& x.pattern_type is VolumeSpike
            &&& x.component_signals.len() == signals.len()
            &&& forall|i: int| 0 <= i < signals.len() ==> (#[trigger] x.component_signals[i])@ == signals[i].id@
            &&& x.composite_confidence.spec_le(Scalar::Rank(R_0_95)) && x.composite_confidence.spec_le(n.weighed)
            &&& x.expected_return == Scalar::Rank(R_0_03)
        },
        signals.len() == 0 ==> whole == Scalar::Rank(0),
        signals.len() > 0 ==> whole.spec_le(Scalar::Rank(R_0_99)) && whole.spec_le(raised) && (raised.spec_le(
            Scalar::Rank(R_0_99),
        ) ==> whole == raised),
{
    if r is Some {
        let x = r->0;
        assert(views(x.component_signals@) == ids_of(signals@));
        assert(views(x.component_signals@).len() == signals@.len());
        assert forall|i: int| 0 <= i < signals.len() implies (#[trigger] x.component_signals[i])@ == signals[i].id@ by {
            assert(views(x.component_signals@)[i] == ids_of(signals@)[i]);
        }
    }
}

/// More wallets that agree make a stronger agreement, of at most ninety-nine hundredths; an
/// alignment is worth the greatest spread of its prices.
pub proof fn law_more_wallets_agree_more_strongly(
    c: SignalCorrelator,
    slug: &str,
    signals: Vec<MarketSignal>,
    n: CompositeNumbers,
    found: Found,
    consensus: Option<CompositeSignal>,
    alignment: Option<CompositeSignal>,
    j: int,
)
    requires
        n.weighed is Rank,
        call_ensures(SignalCorrelator::detect_multi_whale_consensus, (&c, slug, &signals, &n, &found), consensus),
        call_ensures(
            SignalCorrelator::detect_whale_arbitrage_alignment,
            (&c, slug, &signals, &n, &found),
            alignment,
        ),
        forall|k: int|
            0 <= k < signals.len() && (#[trigger] signals[k]).signal_type is CrossPlatformArbitrage
                ==> signals[k].signal_type->spread_pct is Rank,
        0 <= j < signals.len(),
    ensures
        consensus matches Some(x) ==> {
            &&& x.component_signals.len() >= 2
            &&& x.component_signals.len() == 2 ==> x.correlation_score == Scalar::Rank(R_0_75)
            &&& x.component_signals.len() > 2 ==> x.correlation_score == Scalar::Rank(R_0_9)
            &&& x.composite_confidence.spec_le(Scalar::Rank(R_0_99)) && x.composite_confidence.spec_le(n.weighed)
            &&& x.expected_return == Scalar::Rank(R_0_05)
            &&& x.market_slug@ == slug@
        },
        alignment matches Some(x) ==> {
            &&& x.correlation_score == Scalar::Rank(R_0_85)
            &&& x.composite_confidence.spec_le(Scalar::Rank(R_0_99)) && x.composite_confidence.spec_le(n.weighed)
            &&& signals[j].signal_type is CrossPlatformArbitrage ==> signals[j].signal_type->spread_pct.spec_le(
                x.expected_return,
            )
            &&& x.market_slug@ == slug@
        },
{
    let all = signals@;
    let g = |s: MarketSignal| of_arbitrage(s);
    if consensus is Some {
        assert(views(consensus->0.component_signals@).len() == ids_of(whales(all)).len());
    }
    if alignment is Some {
        let arbs = arbitrages(all);
        assert forall|k: int| #![trigger arbs[k]] 0 <= k < arbs.len() implies spread_of(arbs[k]) is Rank by {
            all.lemma_filter_pred(g, k);
            all.lemma_filter_contains_rev(g, arbs[k]);
            let m = choose|m: int| 0 <= m < all.len() && all[m] == arbs[k];
            assert(signals[m].signal_type is CrossPlatformArbitrage);
        }
        law_greatest_spread_is_greatest(arbs);
        if signals[j].signal_type is CrossPlatformArbitrage {
            all.lemma_filter_contains(g, j);
            assert(arbs.contains(all[j]));
            let m = choose|m: int| 0 <= m < arbs.len() && arbs[m] == all[j];
            assert(spread_of(arbs[m]).spec_le(greatest_spread(arbs)));
        }
    }
}

/// The first pattern on a market is an alignment where there is one, else an agreement; a
/// market with too few signals has neither.
pub proof fn law_alignment_goes_before_agreement(
    c: SignalCorrelator,
    slug: &str,
    signals: Vec<MarketSignal>,
    n: PatternNumbers,
    found: Found,
    r: Option<CompositeSignal>,
    alignment: Option<CompositeSignal>,
    consensus: Option<CompositeSignal>,
)
    requires
        call_ensures(SignalCorrelator::find_aligned_signals, (&c, slug, &signals, &n, &found), r),
        call_ensures(
            SignalCorrelator::detect_whale_arbitrage_alignment,
            (&c, slug, &signals, &n.alignment, &found),
            alignment,
        ),
        call_ensures(
            SignalCorrelator::detect_multi_whale_consensus,
            (&c, slug, &signals, &n.consensus, &found),
            consensus,
        ),
    ensures
        signals.len() < c.config.min_signals ==> r is None,
        signals.len() >= c.config.min_signals && alignment is Some ==> r is Some
            && r->0.pattern_type is WhaleArbitrageAlignment && views(r->0.component_signals@) == views(
            alignment->0.component_signals@,
        ),
        signals.len() >= c.config.min_signals && alignment is None && consensus is Some ==> r is Some
            && r->0.pattern_type is MultiWhaleConsensus && views(r->0.component_signals@) == views(
            consensus->0.component_signals@,
        ),
        alignment is None && consensus is None ==> r is None,
{
}

/// All patterns of a market are found: each of the three once, in order, where the market
/// has enough signals.
pub proof fn law_market_has_its_patterns(
    c: SignalCorrelator,
    slug: &str,
    signals: Vec<MarketSignal>,
    n: PatternNumbers,
    found: Found,
    r: Vec<CompositeSignal>,
    alignment: Option<CompositeSignal>,
    consensus: Option<CompositeSignal>,
    spike: Option<CompositeSignal>,
)
    requires
        call_ensures(SignalCorrelator::analyze_market, (&c, slug, &signals, &n, &found), r),
        call_ensures(
            SignalCorrelator::detect_whale_arbitrage_alignment,
            (&c, slug, &signals, &n.alignment, &found),
            alignment,
        ),
        call_ensures(
            SignalCorrelator::detect_multi_whale_consensus,
            (&c, slug, &signals, &n.consensus, &found),
            consensus,
        ),
        call_ensures(SignalCorrelator::detect_volume_spike, (&c, slug, &signals, &n.spike, &found), spike),
    ensures
        signals.len() < c.config.min_signals ==> r.len() == 0,
        signals.len() >= c.config.min_signals ==> {
            let a = if alignment is Some { 1int } else { 0 };
            let b = if consensus is Some { 1int } else { 0 };
            let d = if spike is Some { 1int } else { 0 };
            &&& r.len() == a + b + d
            &&& alignment is Some ==> r[0].pattern_type is WhaleArbitrageAlignment
            &&& consensus is Some ==> r[a].pattern_type is MultiWhaleConsensus
            &&& spike is Some ==> r[a + b].pattern_type is VolumeSpike
        },
{
}

/// Signals are grouped by their markets: every signal is in the group of its market and in
/// no other, unless there are too few of them in all.
pub proof fn law_signals_are_grouped_by_market(
    c: SignalCorrelator,
    signals: Vec<MarketSignal>,
    r: Table<Vec<MarketSignal>>,
    i: int,
    slug: Seq<char>,
)
    requires
        call_ensures(SignalCorrelator::analyze_correlations, (&c, signals), r),
        0 <= i < signals.len(),
    ensures
        signals.len() < c.config.min_signals ==> !r@.contains_key(slug),
        signals.len() >= c.config.min_signals ==> {
            &&& r@.contains_key(signals[i].market_slug@)
            &&& r@[signals[i].market_slug@]@.contains(signals[i])
            &&& r@.contains_key(slug) && r@[slug]@.contains(signals[i]) ==> slug == signals[i].market_slug@
        },
{
    let all = signals@;
    let own = all[i].market_slug@;
    let f = |s: MarketSignal| s.market_slug@ == own;
    let g = |s: MarketSignal| s.market_slug@ == slug;
    if signals.len() >= c.config.min_signals {
        assert(all[i].market_slug@ == own);
        assert(r@.contains_key(own));
        all.lemma_filter_contains(f, i);
        assert(on_market(all, own).contains(all[i]));
        if r@.contains_key(slug) && r@[slug]@.contains(signals[i]) {
            let k = choose|k: int| 0 <= k < all.filter(g).len() && all.filter(g)[k] == all[i];
            all.lemma_filter_pred(g, k);
        }
    }
}

} // verus!
