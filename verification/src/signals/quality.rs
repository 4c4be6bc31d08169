//! Which signals are fresh and plausible.
use crate::base::clock::{parse_rfc3339, rfc3339_instant};
use crate::base::scalar::Scalar;
use crate::base::table::Table;
use crate::base::text::same;
use crate::models::{MarketSignal, SignalType};
use vstd::prelude::*;

verus! {

/// How many signals of a family it takes to tell an outlier.
pub const MIN_SAMPLE_SIZE: u64 = 30;

/// The greatest age limit in nanoseconds.
pub const MAX_CUTOFF_NS: i128 = 9_223_372_036_854_775_807_000_000;

/// The age limit in nanoseconds where the one that is asked for is too great.
pub const FALLBACK_CUTOFF_NS: i128 = 3_000_000_000;

/// The signals of a family so far: how many, their mean, and their summed squares.
#[derive(Clone, Copy, Debug, PartialEq, Eq, Structural)]
pub struct RollingStats {
    pub count: u64,
    pub mean: Scalar,
    pub m2: Scalar,
}

/// No signal so far.
pub open spec fn no_stats() -> RollingStats {
    RollingStats { count: 0, mean: Scalar::Rank(0), m2: Scalar::Rank(0) }
}

/// The figures behind a judgement: the standard deviation of the family; the mean with so
/// many times that; and the mean and the summed squares with the signal.
#[derive(Clone, Copy, Debug, PartialEq, Eq, Structural)]
pub struct StatNumbers {
    pub std_dev: Scalar,
    pub threshold: Scalar,
    pub mean_after: Scalar,
    pub m2_after: Scalar,
}

/// What is measured of a signal, and in which family.
pub open spec fn metric_of(t: SignalType) -> Option<(Seq<char>, Scalar)> {
    match t {
        SignalType::PriceDeviation { market_price, fair_value, deviation_pct } => Some(
            ("price_deviation"@, deviation_pct),
        ),
        SignalType::MarketExpiryEdge { hours_to_expiry, volume_spike } => Some(
            ("expiry_edge_volume"@, volume_spike),
        ),
        SignalType::WhaleFollowing { whale_address, position_size, confidence_score } => Some(
            ("whale_following_size"@, position_size),
        ),
        SignalType::TrackedWalletEntry {
            wallet_address,
            wallet_label,
            position_value_usd,
            order_count,
            token_label,
        } => Some(("tracked_wallet_position"@, position_value_usd)),
        SignalType::CrossPlatformArbitrage { polymarket_price, kalshi_price, spread_pct } => Some(
            ("arbitrage_spread"@, spread_pct),
        ),
        _ => None,
    }
}

/// Measures a signal.
pub fn metric_for_signal(signal: &MarketSignal) -> (r: Option<(&'static str, Scalar)>)
    ensures
        match r {
            Some((family, value)) => metric_of(signal.signal_type) == Some((family@, value)),
            None => metric_of(signal.signal_type) is None,
        },
{
    match &signal.signal_type {
        SignalType::PriceDeviation { deviation_pct, .. } => Some(
            ("price_deviation", *deviation_pct),
        ),
        SignalType::MarketExpiryEdge { volume_spike, .. } => Some(
            ("expiry_edge_volume", *volume_spike),
        ),
        SignalType::WhaleFollowing { position_size, .. } => Some(
            ("whale_following_size", *position_size),
        ),
        SignalType::TrackedWalletEntry { position_value_usd, .. } => Some(
            ("tracked_wallet_position", *position_value_usd),
        ),
        SignalType::CrossPlatformArbitrage { spread_pct, .. } => Some(
            ("arbitrage_spread", *spread_pct),
        ),
        _ => None,
    }
}

/// An instant: whole seconds since the epoch and nanoseconds, a thousand million of them
/// and more in a leap second.
#[derive(Clone, Copy, Debug, PartialEq, Eq, Structural)]
pub struct Instant {
    pub secs: i64,
    pub nanos: u32,
}

/// The nanoseconds from one instant to another. A leap second counts where the other
/// instant lies later in the day.
pub open spec fn nanos_since(now: Instant, then_at: Instant) -> int {
    let day_now = now.secs as int % 86_400;
    let day_then = then_at.secs as int % 86_400;
    let leap = if day_now > day_then && then_at.nanos >= 1_000_000_000 {
        1int
    } else if day_now < day_then && now.nanos >= 1_000_000_000 {
        -1int
    } else {
        0int
    };
    (now.secs - then_at.secs + leap) * 1_000_000_000 + now.nanos - then_at.nanos
}

fn day_second(secs: i64) -> (r: i128)
    ensures
        r == secs as int % 86_400,
{
    if secs >= 0 {
        (secs % 86_400) as i128
    } else {
        let m: i128 = (-(secs as i128)) % 86_400;
        if m == 0 {
            0
        } else {
            86_400 - m
        }
    }
}

fn nanos_between(now: &Instant, then_at: &Instant) -> (r: i128)
    ensures
        r == nanos_since(*now, *then_at),
{
    let day_now = day_second(now.secs);
    let day_then = day_second(then_at.secs);
    let leap: i128 = if day_now > day_then && then_at.nanos >= 1_000_000_000 {
        1
    } else if day_now < day_then && now.nanos >= 1_000_000_000 {
        -1
    } else {
        0
    };
    ((now.secs as i128) - (then_at.secs as i128) + leap) * 1_000_000_000 + (now.nanos as i128) - (
    then_at.nanos as i128)
}

/// Whether a signal is stale: older than the limit, or of an unknown age.
pub open spec fn stale(detected: Option<Instant>, now: Instant, cutoff_ns: int) -> bool {
    match detected {
        Some(d) => nanos_since(now, d) > cutoff_ns,
        None => true,
    }
}

/// When a signal was detected, as far as its text can be read.
pub open spec fn detected_instant(text: Seq<char>) -> Option<Instant> {
    match rfc3339_instant(text) {
        Some((secs, nanos)) => Some(Instant { secs, nanos }),
        None => None,
    }
}

/// Whether a signal is stale.
pub fn is_stale(signal: &MarketSignal, now: &Instant, cutoff_ns: i128) -> (r: bool)
    ensures
        r == stale(detected_instant(signal.detected_at@), *now, cutoff_ns as int),
{
    match parse_rfc3339(signal.detected_at.as_str()) {
        Some((secs, nanos)) => is_stale_at(Some(Instant { secs, nanos }), now, cutoff_ns),
        None => is_stale_at(None, now, cutoff_ns),
    }
}

/// Whether a signal that was detected at an instant is stale.
pub fn is_stale_at(detected: Option<Instant>, now: &Instant, cutoff_ns: i128) -> (r: bool)
    ensures
        r == stale(detected, *now, cutoff_ns as int),
{
    match detected {
        Some(d) => nanos_between(now, &d) > cutoff_ns,
        None => true,
    }
}

/// Whether two signals on a market come from different sources.
pub open spec fn corroborated(signals: Seq<MarketSignal>, market_slug: Seq<char>) -> bool {
    exists|i: int, j: int|
        #![trigger signals[i], signals[j]]
        0 <= i < signals.len() && 0 <= j < signals.len() && signals[i].market_slug@ == market_slug
            && signals[j].market_slug@ == market_slug && signals[i].source@ != signals[j].source@
}

/// Finds out whether two signals on a market come from different sources.
pub fn is_corroborated(signals: &Vec<MarketSignal>, market_slug: &str) -> (r: bool)
    ensures
        r == corroborated(signals@, market_slug@),
{
    let mut first: Option<usize> = None;
    let mut i: usize = 0;
    while i < signals.len()
        invariant
            i <= signals.len(),
            match first {
                None => forall|j: int|
                    #![trigger signals[j]]
                    0 <= j < i ==> signals[j].market_slug@ != market_slug@,
                Some(f) => f < i && signals[f as int].market_slug@ == market_slug@ && forall|j: int|
                    #![trigger signals[j]]
                    0 <= j < i && signals[j].market_slug@ == market_slug@ ==> signals[j].source@
                        == signals[f as int].source@,
            },
        decreases signals.len() - i,
    {
        if same(signals[i].market_slug.as_str(), market_slug) {
            match first {
                None => {
                    first = Some(i);
                },
                Some(f) => {
                    if !same(signals[i].source.as_str(), signals[f].source.as_str()) {
                        assert(signals@[i as int].source@ != signals@[f as int].source@);
                        return true;
                    }
                },
            }
        }
        i = i + 1;
    }
    false
}

/// Lets signals through that are fresh, and drops outliers that no second
/// source confirms.
pub struct SignalQualityGate {
    pub stats: Table<RollingStats>,
    pub stale_cutoff_ns: i128,
    pub zscore_threshold: Scalar,
}

/// The age limit that a duration stands for.
pub open spec fn cutoff_of(secs: u64, nanos: u32) -> int {
    let ns = secs * 1_000_000_000 + nanos;
    if ns > MAX_CUTOFF_NS {
        FALLBACK_CUTOFF_NS as int
    } else {
        ns
    }
}

impl SignalQualityGate {
    /// A gate with an age limit and a threshold in standard deviations.
    pub fn new(cutoff_secs: u64, cutoff_nanos: u32, zscore_threshold: Scalar) -> (r: SignalQualityGate)
        requires
            cutoff_nanos < 1_000_000_000,
        ensures
            r.stats@ == Map::<Seq<char>, RollingStats>::empty(),
            r.stale_cutoff_ns == cutoff_of(cutoff_secs, cutoff_nanos),
            r.zscore_threshold == zscore_threshold,
    {
        let ns: i128 = (cutoff_secs as i128) * 1_000_000_000 + (cutoff_nanos as i128);
        let stale_cutoff_ns: i128 = if ns > MAX_CUTOFF_NS {
            FALLBACK_CUTOFF_NS
        } else {
            ns
        };
        SignalQualityGate { stats: Table::new(), stale_cutoff_ns, zscore_threshold }
    }

    /// The signals of a family so far.
    pub open spec fn family(self, name: Seq<char>) -> RollingStats {
        if self.stats@.contains_key(name) {
            self.stats@[name]
        } else {
            no_stats()
        }
    }

    pub fn stats_of(&self, family: &str) -> (r: RollingStats)
        ensures
            r == self.family(family@),
    {
        match self.stats.get(family) {
            Some(s) => *s,
            None => RollingStats { count: 0, mean: Scalar::Rank(0), m2: Scalar::Rank(0) },
        }
    }

    /// Whether a value sticks out of a family that is large enough and spreads at all.
    pub open spec fn sticks_out(stats: RollingStats, value: Scalar, n: StatNumbers) -> bool {
        stats.count >= MIN_SAMPLE_SIZE && Scalar::Rank(0).spec_lt(n.std_dev) && n.threshold.spec_lt(
            value,
        )
    }

    /// Whether a fresh signal passes.
    pub open spec fn passes(self, t: SignalType, confirmed: bool, n: StatNumbers) -> bool {
        match metric_of(t) {
            None => true,
            Some((name, value)) => confirmed || !Self::sticks_out(self.family(name), value, n),
        }
    }

    /// Judges a signal of a batch, and says whether it passes: a stale one is dropped, and
    /// so is an outlier that no second source in the batch confirms; what passes counts for
    /// its family.
    pub fn filter(&mut self, batch: &Vec<MarketSignal>, index: usize, now: &Instant, n: &StatNumbers) -> (r: bool)
        requires
            index < batch.len(),
            metric_of(batch[index as int].signal_type) matches Some((name, _)) ==> old(self).family(name).count
                < u64::MAX,
        ensures
            ({
                let signal = batch[index as int];
                let is_old = stale(
                    detected_instant(signal.detected_at@),
                    *now,
                    old(self).stale_cutoff_ns as int,
                );
                let confirmed = corroborated(batch@, signal.market_slug@);
                &&& r == (!is_old && old(self).passes(signal.signal_type, confirmed, *n))
                &&& final(self).stale_cutoff_ns == old(self).stale_cutoff_ns
                &&& final(self).zscore_threshold == old(self).zscore_threshold
                &&& old(self).counted_as(*final(self), signal.signal_type, r, is_old, *n)
            }),
    {
        let signal = &batch[index];
        let is_old = is_stale(signal, now, self.stale_cutoff_ns);
        let confirmed = is_corroborated(batch, signal.market_slug.as_str());
        self.judge(signal, is_old, confirmed, n)
    }

    /// What is left of the families after a signal was judged: a family is known from its
    /// first fresh signal on, and counts what passes.
    pub open spec fn counted_as(
        self,
        after: SignalQualityGate,
        t: SignalType,
        passed: bool,
        is_old: bool,
        n: StatNumbers,
    ) -> bool {
        match metric_of(t) {
            Some((name, _)) => if is_old {
                after.stats@ == self.stats@
            } else if passed {
                after.stats@ == self.stats@.insert(
                    name,
                    RollingStats {
                        count: (self.family(name).count + 1) as u64,
                        mean: n.mean_after,
                        m2: n.m2_after,
                    },
                )
            } else {
                after.stats@ == self.stats@.insert(name, self.family(name))
            },
            None => after.stats@ == self.stats@,
        }
    }

    /// Judges a signal of which it is known whether it is stale.
    pub fn judge(&mut self, signal: &MarketSignal, is_old: bool, confirmed: bool, n: &StatNumbers) -> (r: bool)
        requires
            metric_of(signal.signal_type) matches Some((name, _)) ==> old(self).family(name).count
                < u64::MAX,
        ensures
            r == (!is_old && old(self).passes(signal.signal_type, confirmed, *n)),
            final(self).stale_cutoff_ns == old(self).stale_cutoff_ns,
            final(self).zscore_threshold == old(self).zscore_threshold,
            old(self).counted_as(*final(self), signal.signal_type, r, is_old, *n),
    {
        if is_old {
            return false;
        }
        match metric_for_signal(signal) {
            Some((name, value)) => {
                let mut stats = self.stats_of(name);
                let outlier = stats.count >= MIN_SAMPLE_SIZE && Scalar::Rank(0).lt(n.std_dev)
                    && n.threshold.lt(value);
                let keep = confirmed || !outlier;
                if keep {
                    stats.count = stats.count + 1;
                    stats.mean = n.mean_after;
                    stats.m2 = n.m2_after;
                }
                self.stats.insert(name.to_owned(), stats);
                keep
            },
            None => true,
        }
    }
}

/// The standard deviation of a family: none while it has fewer than two signals; `root` is
/// the root of the summed squares by one less than their number.
pub fn std_dev(stats: &RollingStats, root: Scalar) -> (r: Scalar)
    ensures
        r == if stats.count < 2 {
            Scalar::Rank(0)
        } else {
            root
        },
{
    if stats.count < 2 {
        Scalar::Rank(0)
    } else {
        root
    }
}

/// A signal that a second source confirms is never dropped as an outlier, and no signal is
/// while its family is small.
pub proof fn law_outliers_need_a_large_family(g: SignalQualityGate, t: SignalType, confirmed: bool, n: StatNumbers)
    ensures
        confirmed ==> g.passes(t, confirmed, n),
        (metric_of(t) matches Some((name, _)) ==> g.family(name).count < MIN_SAMPLE_SIZE) ==> g.passes(
            t,
            confirmed,
            n,
        ),
{
}

/// A looser age limit lets no fewer signals through.
pub proof fn law_looser_cutoff_drops_less(detected: Option<Instant>, now: Instant, cutoff: int, looser: int)
    requires
        cutoff <= looser,
        stale(detected, now, looser),
    ensures
        stale(detected, now, cutoff),
{
}

/// What is measured of a signal goes by its kind: the deviation, the rush, the size of a
/// position or the spread, each in a family of its own; other kinds are not measured.
pub proof fn law_signals_are_measured_by_kind(s: MarketSignal, r: Option<(&'static str, Scalar)>)
    requires
        call_ensures(metric_for_signal, (&s,), r),
    ensures
        ({
            let t = s.signal_type;
            &&& t is PriceDeviation ==> r is Some && (r->0).0@ == "price_deviation"@ && (r->0).1
                == t->PriceDeviation_deviation_pct
            &&& t is MarketExpiryEdge ==> r is Some && (r->0).0@ == "expiry_edge_volume"@ && (r->0).1
                == t->MarketExpiryEdge_volume_spike
            &&& t is WhaleFollowing ==> r is Some && (r->0).0@ == "whale_following_size"@ && (r->0).1
                == t->WhaleFollowing_position_size
            &&& t is TrackedWalletEntry ==> r is Some && (r->0).0@ == "tracked_wallet_position"@ && (r->0).1
                == t->TrackedWalletEntry_position_value_usd
            &&& t is CrossPlatformArbitrage ==> r is Some && (r->0).0@ == "arbitrage_spread"@ && (r->0).1
                == t->CrossPlatformArbitrage_spread_pct
            &&& t is EliteWallet || t is InsiderWallet || t is WhaleCluster ==> r is None
        }),
{
}

/// A signal is stale where it is older than the limit, and where its age is not known.
pub proof fn law_old_signals_are_stale(detected: Option<Instant>, now: Instant, cutoff: i128, r: bool)
    requires
        call_ensures(is_stale_at, (detected, &now, cutoff), r),
        now.nanos < 1_000_000_000,
        detected is Some ==> detected->0.nanos < 1_000_000_000,
    ensures
        detected is None ==> r,
        detected is Some ==> (r <==> now.secs * 1_000_000_000 + now.nanos > detected->0.secs * 1_000_000_000
            + detected->0.nanos + cutoff),
{
    if detected is Some {
        let d = detected->0;
        assert((now.secs - d.secs) * 1_000_000_000 == now.secs * 1_000_000_000 - d.secs * 1_000_000_000) by (
            nonlinear_arith
        );
    }
}

/// A market is confirmed by two sources, and one source never confirms itself.
pub proof fn law_two_sources_confirm(signals: Vec<MarketSignal>, slug: &str, r: bool, i: int, j: int)
    requires
        call_ensures(is_corroborated, (&signals, slug), r),
        0 <= i < signals.len(),
        0 <= j < signals.len(),
    ensures
        signals[i].market_slug@ == slug@ && signals[j].market_slug@ == slug@ && signals[i].source@ != signals[j].source@
            ==> r,
        (forall|k: int| 0 <= k < signals.len() ==> (#[trigger] signals[k]).source@ == signals[i].source@) ==> !r,
        (forall|k: int| 0 <= k < signals.len() ==> (#[trigger] signals[k]).market_slug@ != slug@) ==> !r,
{
    assert(signals@[i] == signals[i] && signals@[j] == signals[j]);
    if corroborated(signals@, slug@) {
        let (a, b) = choose|a: int, b: int|
            #![trigger signals@[a], signals@[b]]
            0 <= a < signals@.len() && 0 <= b < signals@.len() && signals@[a].market_slug@ == slug@
                && signals@[b].market_slug@ == slug@ && signals@[a].source@ != signals@[b].source@;
        assert(signals[a] == signals@[a] && signals[b] == signals@[b]);
    }
}

/// A stale signal never passes and counts for nothing. A fresh one is dropped only where it
/// sticks out of a family of thirty or more that spreads, and no second source confirms it;
/// what passes counts once for its family, and for no other.
pub proof fn law_only_lone_outliers_are_dropped(
    g: &mut SignalQualityGate,
    s: MarketSignal,
    is_old: bool,
    confirmed: bool,
    n: StatNumbers,
    r: bool,
    m: Option<(&'static str, Scalar)>,
    before: SignalQualityGate,
    after: SignalQualityGate,
    family: &str,
    was: RollingStats,
    is: RollingStats,
    other: Seq<char>,
)
    requires
        call_ensures(SignalQualityGate::judge, (g, &s, is_old, confirmed, &n), r),
        call_ensures(metric_for_signal, (&s,), m),
        m is Some,
        family@ == (m->0).0@,
        before == *old(g),
        after == *final(g),
        call_ensures(SignalQualityGate::stats_of, (&before, family), was),
        call_ensures(SignalQualityGate::stats_of, (&after, family), is),
        was.count < u64::MAX,
        other != family@,
    ensures
        ({
            let outlier = was.count >= 30 && Scalar::Rank(0).spec_lt(n.std_dev) && n.threshold.spec_lt((m->0).1);
            &&& r <==> !is_old && (confirmed || !outlier)
            &&& r ==> is.count == was.count + 1 && is.mean == n.mean_after && is.m2 == n.m2_after
            &&& !r ==> is == was
            &&& after.stats@.contains_key(other) <==> before.stats@.contains_key(other)
            &&& before.stats@.contains_key(other) ==> after.stats@[other] == before.stats@[other]
            &&& after.stale_cutoff_ns == before.stale_cutoff_ns && after.zscore_threshold == before.zscore_threshold
        }),
{
}

/// A signal that is not measured passes where it is fresh.
pub proof fn law_unmeasured_signals_pass(
    g: &mut SignalQualityGate,
    s: MarketSignal,
    is_old: bool,
    confirmed: bool,
    n: StatNumbers,
    r: bool,
)
    requires
        call_ensures(SignalQualityGate::judge, (g, &s, is_old, confirmed, &n), r),
        s.signal_type is EliteWallet || s.signal_type is InsiderWallet || s.signal_type is WhaleCluster,
    ensures
        r <==> !is_old,
        final(g).stats@ == old(g).stats@,
{
}

/// A gate starts without families and with the limit that it is given in nanoseconds, three
/// seconds where that is too great; one signal alone does not spread.
pub proof fn law_gate_has_its_limit(
    secs: u64,
    nanos: u32,
    z: Scalar,
    g: SignalQualityGate,
    family: &str,
    st: RollingStats,
    root: Scalar,
    d: Scalar,
    any: RollingStats,
)
    requires
        nanos < 1_000_000_000,
        call_ensures(SignalQualityGate::new, (secs, nanos, z), g),
        call_ensures(SignalQualityGate::stats_of, (&g, family), st),
        call_ensures(std_dev, (&any, root), d),
    ensures
        secs <= 9_000_000_000_000_000 ==> g.stale_cutoff_ns == secs * 1_000_000_000 + nanos,
        secs > 9_223_372_036_854_776 ==> g.stale_cutoff_ns == 3_000_000_000,
        g.zscore_threshold == z,
        st.count == 0 && st.mean == Scalar::Rank(0) && st.m2 == Scalar::Rank(0),
        any.count < 2 ==> d == Scalar::Rank(0),
        any.count >= 2 ==> d == root,
{
}

/// A signal is judged in its batch as it is when its age and its confirmation are known.
pub proof fn law_batch_is_judged_signal_by_signal(
    a: &mut SignalQualityGate,
    b: &mut SignalQualityGate,
    batch: Vec<MarketSignal>,
    i: usize,
    now: Instant,
    n: StatNumbers,
    r: bool,
    s: bool,
    is_old: bool,
    confirmed: bool,
    slug: &str,
)
    requires
        i < batch.len(),
        *old(a) == *old(b),
        call_ensures(SignalQualityGate::filter, (a, &batch, i, &now, &n), r),
        call_ensures(is_stale, (&batch@[i as int], &now, old(a).stale_cutoff_ns), is_old),
        slug@ == batch[i as int].market_slug@,
        call_ensures(is_corroborated, (&batch, slug), confirmed),
        call_ensures(SignalQualityGate::judge, (b, &batch@[i as int], is_old, confirmed, &n), s),
    ensures
        r == s,
        final(a).stats@ == final(b).stats@,
{
}

/// A leap second counts as one of its own: from within it to an instant later in the day it
/// takes a second more than the clock says, and into it a second less.
pub proof fn law_leap_seconds_count(detected: Instant, now: Instant, cutoff: i128, r: bool)
    requires
        call_ensures(is_stale_at, (Some(detected), &now, cutoff), r),
        0 <= detected.secs && 0 <= now.secs,
    ensures
        ({
            let clock = (now.secs - detected.secs) * 1_000_000_000 + now.nanos - detected.nanos;
            let later = now.secs % 86_400 > detected.secs % 86_400;
            let earlier = now.secs % 86_400 < detected.secs % 86_400;
            &&& later && detected.nanos >= 1_000_000_000 ==> (r <==> clock + 1_000_000_000 > cutoff)
            &&& earlier && now.nanos >= 1_000_000_000 ==> (r <==> clock - 1_000_000_000 > cutoff)
            &&& !(later && detected.nanos >= 1_000_000_000) && !(earlier && now.nanos >= 1_000_000_000) ==> (r <==> clock
                > cutoff)
        }),
{
}

} // verus!
