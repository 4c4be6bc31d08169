//! The strategy that trades on quarter-hour markets before prices catch up.
use super::belief_vol::last_items;
use super::book_access::{Order, OrderBook};
use super::execution::{OrderRequest, OrderSide, TimeInForce};
use super::kelly::{
    calculate_kelly_position,
    stake,
    KellyNumbers,
    KellyParams,
    KellyResult,
    KellySkip,
};
use crate::base::ids::fresh_id;
use crate::base::clock::less_than_apart;
use crate::base::counter::{count_if, count_up, next_count};
use crate::base::order::count_where;
use crate::base::ranks::{
    R_0_005,
    R_0_01,
    R_0_02,
    R_0_05,
    R_0_1,
    R_0_15,
    R_0_2,
    R_0_3,
    R_0_7,
    R_0_8,
    R_0_9,
    R_0_95,
    R_0_99,
    R_100,
    R_10000,
    R_1_2,
    R_1_5,
    R_2,
    R_300,
    R_5,
    R_95,
};
use crate::base::scalar::{Scalar, HALF_RANK, ONE_RANK};
use crate::base::settings::{
    flag_or,
    flag_setting,
    integer_setting,
    is_unset,
    number_or,
    number_setting,
    set_above_zero,
    set_flag,
    set_up_to,
    set_whole,
    unsigned_or,
    Environment,
    Range,
};
use crate::base::table::Table;
use crate::base::text::{joined, same};
use std::collections::VecDeque;
use vstd::prelude::*;

verus! {

/// When the strategy trades, and how much.
#[derive(Clone, Copy, Debug, PartialEq, Eq, Structural)]
pub struct LatencyArbConfig {
    pub min_effective_edge: Scalar,
    pub kelly_fraction: Scalar,
    pub max_position_pct_per_market: Scalar,
    pub max_position_pct_per_topic: Scalar,
    pub max_total_exposure_pct: Scalar,
    pub max_clip_usd: Scalar,
    pub min_clip_usd: Scalar,
    pub order_timeout_ms: u64,
    pub prob_damping: Scalar,
    pub min_confirming_drivers: usize,
    pub fee_rate_maker: Scalar,
    pub fee_rate_taker: Scalar,
    pub slippage_buffer_frac: Scalar,
    pub max_spread_bps: Scalar,
    pub min_top_liquidity_usd: Scalar,
    pub latency_percentile: Scalar,
    pub max_tail_latency_us: u64,
    pub latency_degradation_threshold: Scalar,
    pub two_leg_min_completion_prob: Scalar,
    pub rolling_window_sec: i64,
    pub market_cooldown_sec: i64,
    pub paper_mode: bool,
}

/// The configuration that holds where nothing is set.
pub open spec fn default_latency_arb() -> LatencyArbConfig {
    LatencyArbConfig {
        min_effective_edge: Scalar::Rank(R_0_005),
        kelly_fraction: Scalar::Rank(R_0_1),
        max_position_pct_per_market: Scalar::Rank(R_0_02),
        max_position_pct_per_topic: Scalar::Rank(R_0_05),
        max_total_exposure_pct: Scalar::Rank(R_0_15),
        max_clip_usd: Scalar::Rank(R_100),
        min_clip_usd: Scalar::Rank(R_5),
        order_timeout_ms: 500,
        prob_damping: Scalar::Rank(R_0_3),
        min_confirming_drivers: 2,
        fee_rate_maker: Scalar::Rank(R_0_01),
        fee_rate_taker: Scalar::Rank(R_0_02),
        slippage_buffer_frac: Scalar::Rank(HALF_RANK),
        max_spread_bps: Scalar::Rank(R_300),
        min_top_liquidity_usd: Scalar::Rank(R_100),
        latency_percentile: Scalar::Rank(R_95),
        max_tail_latency_us: 500000,
        latency_degradation_threshold: Scalar::Rank(R_2),
        two_leg_min_completion_prob: Scalar::Rank(R_0_8),
        rolling_window_sec: 900,
        market_cooldown_sec: 5,
        paper_mode: true,
    }
}

impl Default for LatencyArbConfig {
    fn default() -> (r: LatencyArbConfig)
        ensures
            r == default_latency_arb(),
    {
        LatencyArbConfig {
            min_effective_edge: Scalar::Rank(R_0_005),
            kelly_fraction: Scalar::Rank(R_0_1),
            max_position_pct_per_market: Scalar::Rank(R_0_02),
            max_position_pct_per_topic: Scalar::Rank(R_0_05),
            max_total_exposure_pct: Scalar::Rank(R_0_15),
            max_clip_usd: Scalar::Rank(R_100),
            min_clip_usd: Scalar::Rank(R_5),
            order_timeout_ms: 500,
            prob_damping: Scalar::Rank(R_0_3),
            min_confirming_drivers: 2,
            fee_rate_maker: Scalar::Rank(R_0_01),
            fee_rate_taker: Scalar::Rank(R_0_02),
            slippage_buffer_frac: Scalar::Rank(HALF_RANK),
            max_spread_bps: Scalar::Rank(R_300),
            min_top_liquidity_usd: Scalar::Rank(R_100),
            latency_percentile: Scalar::Rank(R_95),
            max_tail_latency_us: 500000,
            latency_degradation_threshold: Scalar::Rank(R_2),
            two_leg_min_completion_prob: Scalar::Rank(R_0_8),
            rolling_window_sec: 900,
            market_cooldown_sec: 5,
            paper_mode: true,
        }
    }
}

impl LatencyArbConfig {
    /// The default with what the variables set.
    pub fn from_env(env: &Environment) -> (r: LatencyArbConfig)
        ensures
            r == (LatencyArbConfig {
                min_effective_edge: number_setting(
                    *env,
                    "LATENCY_ARB_MIN_EDGE"@,
                    Range::Positive,
                    Scalar::Rank(R_0_005),
                ),
                kelly_fraction: number_setting(
                    *env,
                    "LATENCY_ARB_KELLY_FRACTION"@,
                    Range::PositiveToOne,
                    Scalar::Rank(R_0_1),
                ),
                max_clip_usd: number_setting(
                    *env,
                    "LATENCY_ARB_MAX_CLIP_USD"@,
                    Range::Positive,
                    Scalar::Rank(R_100),
                ),
                order_timeout_ms: integer_setting(
                    *env,
                    "LATENCY_ARB_ORDER_TIMEOUT_MS"@,
                    false,
                    50,
                    u64::MAX as int,
                    500,
                ) as u64,
                paper_mode: flag_setting(*env, "LATENCY_ARB_PAPER"@, true),
                ..default_latency_arb()
            }),
    {
        let mut cfg = LatencyArbConfig::default();
        cfg.min_effective_edge =
        number_or(env, "LATENCY_ARB_MIN_EDGE", Range::Positive, cfg.min_effective_edge);
        cfg.kelly_fraction =
        number_or(env, "LATENCY_ARB_KELLY_FRACTION", Range::PositiveToOne, cfg.kelly_fraction);
        cfg.max_clip_usd =
        number_or(env, "LATENCY_ARB_MAX_CLIP_USD", Range::Positive, cfg.max_clip_usd);
        cfg.order_timeout_ms =
        unsigned_or(env, "LATENCY_ARB_ORDER_TIMEOUT_MS", 50, u64::MAX, cfg.order_timeout_ms);
        cfg.paper_mode = flag_or(env, "LATENCY_ARB_PAPER", cfg.paper_mode);
        cfg
    }
}

/// What the order flow of a market tells.
#[derive(Clone, Copy, Debug, PartialEq, Eq, Structural)]
pub enum MicrostructureSignal {
    TakerImbalance(Scalar),
    CancellationBurst,
    DepthThinning { side: OrderSide, severity: Scalar },
    RepeatedLifts(u32),
    RepeatedHits(u32),
    SpreadWidening(Scalar),
    QuoteStuffing,
}

/// The order flow of a market.
#[derive(Clone, Copy, Debug, PartialEq, Eq, Structural)]
pub struct MicrostructureState {
    pub taker_imbalance: Scalar,
    pub cancel_rate: Scalar,
    pub bid_depth_ratio: Scalar,
    pub ask_depth_ratio: Scalar,
    pub lift_count: u32,
    pub hit_count: u32,
    pub spread_ratio: Scalar,
    pub updated_at: i64,
}

impl Default for MicrostructureState {
    fn default() -> (r: MicrostructureState)
        ensures
            r == still_flow(),
    {
        MicrostructureState {
            taker_imbalance: Scalar::Rank(0),
            cancel_rate: Scalar::Rank(0),
            bid_depth_ratio: Scalar::Rank(0),
            ask_depth_ratio: Scalar::Rank(0),
            lift_count: 0,
            hit_count: 0,
            spread_ratio: Scalar::Rank(0),
            updated_at: 0,
        }
    }
}

/// Nothing is known of the order flow.
pub open spec fn still_flow() -> MicrostructureState {
    MicrostructureState {
        taker_imbalance: Scalar::Rank(0),
        cancel_rate: Scalar::Rank(0),
        bid_depth_ratio: Scalar::Rank(0),
        ask_depth_ratio: Scalar::Rank(0),
        lift_count: 0,
        hit_count: 0,
        spread_ratio: Scalar::Rank(0),
        updated_at: 0,
    }
}

/// An item where it is called for.
pub open spec fn item_if<T>(wanted: bool, item: T) -> Seq<T> {
    if wanted {
        seq![item]
    } else {
        Seq::empty()
    }
}

fn push_if<T>(items: &mut Vec<T>, wanted: bool, item: T)
    ensures
        final(items)@ == old(items)@ + item_if(wanted, item),
{
    if wanted {
        items.push(item);
    }
    assert(items@ =~= old(items)@ + item_if(wanted, item));
}

/// A number held between two bounds; an undefined one stays undefined.
pub open spec fn held_between(x: Scalar, low: Scalar, high: Scalar) -> Scalar {
    if x.spec_lt(low) {
        low
    } else if high.spec_lt(x) {
        high
    } else {
        x
    }
}

pub(crate) fn hold_between(x: Scalar, low: Scalar, high: Scalar) -> (r: Scalar)
    ensures
        r == held_between(x, low, high),
{
    if x.lt(low) {
        low
    } else if high.lt(x) {
        high
    } else {
        x
    }
}

/// What a directional bias is made of: the depths of both sides where both are above
/// zero, and the aggressive trades where there are any.
#[derive(Clone, Copy, Debug, PartialEq, Eq)]
pub struct BiasTerms {
    pub taker_imbalance: Scalar,
    pub depths: Option<(Scalar, Scalar)>,
    /// The lifts, the hits and both together.
    pub aggression: Option<(u32, u32, u32)>,
}

impl MicrostructureState {
    /// The signals in the flow; the severities are one less the depth ratios.
    pub open spec fn signals(self, bid_severity: Scalar, ask_severity: Scalar) -> Seq<MicrostructureSignal> {
        item_if(
            Scalar::Rank(R_0_2).spec_lt(self.taker_imbalance.spec_abs()),
            MicrostructureSignal::TakerImbalance(self.taker_imbalance),
        ) + item_if(
            Scalar::Rank(R_5).spec_lt(self.cancel_rate),
            MicrostructureSignal::CancellationBurst,
        ) + item_if(
            self.bid_depth_ratio.spec_lt(Scalar::Rank(HALF_RANK)),
            MicrostructureSignal::DepthThinning { side: OrderSide::Buy, severity: bid_severity },
        ) + item_if(
            self.ask_depth_ratio.spec_lt(Scalar::Rank(HALF_RANK)),
            MicrostructureSignal::DepthThinning { side: OrderSide::Sell, severity: ask_severity },
        ) + item_if(
            self.lift_count > 3,
            MicrostructureSignal::RepeatedLifts(self.lift_count),
        ) + item_if(
            self.hit_count > 3,
            MicrostructureSignal::RepeatedHits(self.hit_count),
        ) + item_if(
            Scalar::Rank(R_1_5).spec_lt(self.spread_ratio),
            MicrostructureSignal::SpreadWidening(self.spread_ratio),
        )
    }

    /// The signals in the flow.
    pub fn active_signals(&self, bid_severity: Scalar, ask_severity: Scalar) -> (r: Vec<
        MicrostructureSignal,
    >)
        ensures
            r@ == self.signals(bid_severity, ask_severity),
    {
        let mut signals: Vec<MicrostructureSignal> = Vec::new();
        push_if(
            &mut signals,
            Scalar::Rank(R_0_2).lt(self.taker_imbalance.abs()),
            MicrostructureSignal::TakerImbalance(self.taker_imbalance),
        );
        assert(signals@ =~= item_if(
            Scalar::Rank(R_0_2).spec_lt(self.taker_imbalance.spec_abs()),
            MicrostructureSignal::TakerImbalance(self.taker_imbalance),
        ));
        push_if(
            &mut signals,
            Scalar::Rank(R_5).lt(self.cancel_rate),
            MicrostructureSignal::CancellationBurst,
        );
        push_if(
            &mut signals,
            self.bid_depth_ratio.lt(Scalar::Rank(HALF_RANK)),
            MicrostructureSignal::DepthThinning { side: OrderSide::Buy, severity: bid_severity },
        );
        push_if(
            &mut signals,
            self.ask_depth_ratio.lt(Scalar::Rank(HALF_RANK)),
            MicrostructureSignal::DepthThinning { side: OrderSide::Sell, severity: ask_severity },
        );
        push_if(
            &mut signals,
            self.lift_count > 3,
            MicrostructureSignal::RepeatedLifts(self.lift_count),
        );
        push_if(
            &mut signals,
            self.hit_count > 3,
            MicrostructureSignal::RepeatedHits(self.hit_count),
        );
        push_if(
            &mut signals,
            Scalar::Rank(R_1_5).lt(self.spread_ratio),
            MicrostructureSignal::SpreadWidening(self.spread_ratio),
        );
        signals
    }

    /// What the bias is made of.
    pub fn bias_terms(&self) -> (r: BiasTerms)
        requires
            self.lift_count + self.hit_count <= u32::MAX,
        ensures
            r.taker_imbalance == self.taker_imbalance,
            r.depths == if Scalar::Rank(0).spec_lt(self.bid_depth_ratio) && Scalar::Rank(0).spec_lt(
                self.ask_depth_ratio,
            ) {
                Some((self.bid_depth_ratio, self.ask_depth_ratio))
            } else {
                None
            },
            r.aggression == if self.lift_count + self.hit_count > 0 {
                Some(
                    (self.lift_count, self.hit_count, (self.lift_count + self.hit_count) as u32),
                )
            } else {
                None
            },
    {
        let depths = if Scalar::Rank(0).lt(self.bid_depth_ratio) && Scalar::Rank(0).lt(
            self.ask_depth_ratio,
        ) {
            Some((self.bid_depth_ratio, self.ask_depth_ratio))
        } else {
            None
        };
        let total: u32 = self.lift_count + self.hit_count;
        let aggression = if total > 0 {
            Some((self.lift_count, self.hit_count, total))
        } else {
            None
        };
        BiasTerms { taker_imbalance: self.taker_imbalance, depths, aggression }
    }

    /// The bias between minus one and one; `weighed` is the weighed sum of its terms.
    pub fn directional_bias(&self, weighed: Scalar) -> (r: Scalar)
        ensures
            r == held_between(weighed, Scalar::Rank((-ONE_RANK) as i64), Scalar::Rank(ONE_RANK)),
    {
        hold_between(weighed, Scalar::Rank(-ONE_RANK), Scalar::Rank(ONE_RANK))
    }
}

/// What moves an estimate.
#[derive(Debug)]
pub enum ProbabilityDriver {
    CrossMarketConsistency { implied_prob: Scalar, confidence: Scalar },
    RelatedMarket { market_slug: String, implied_delta: Scalar },
    ExternalSignal { source: String, implied_prob: Scalar },
    Microstructure { bias: Scalar, signal_count: usize },
}

/// How a driver moves an estimate.
#[derive(Clone, Copy, Debug, PartialEq, Eq, Structural)]
pub enum DriverShift {
    /// Towards a probability, with a confidence.
    Toward { target: Scalar, confidence: Scalar },
    /// By a difference, with a confidence.
    By { delta: Scalar, confidence: Scalar },
    /// By a tenth of a bias, the more confidently the more signals there are.
    Lean { bias: Scalar, signal_count: usize },
}

/// Which way a driver points.
#[derive(Clone, Copy, Debug, PartialEq, Eq, Structural)]
pub enum Lean {
    Bullish,
    Bearish,
    Neither,
}

impl ProbabilityDriver {
    pub open spec fn shift(self) -> DriverShift {
        match self {
            ProbabilityDriver::CrossMarketConsistency { implied_prob, confidence } => DriverShift::Toward {
                target: implied_prob,
                confidence,
            },
            ProbabilityDriver::RelatedMarket { market_slug, implied_delta } => DriverShift::By {
                delta: implied_delta,
                confidence: Scalar::Rank(HALF_RANK),
            },
            ProbabilityDriver::ExternalSignal { source, implied_prob } => DriverShift::Toward {
                target: implied_prob,
                confidence: Scalar::Rank(R_0_7),
            },
            ProbabilityDriver::Microstructure { bias, signal_count } => DriverShift::Lean {
                bias,
                signal_count,
            },
        }
    }

    /// How the driver moves an estimate.
    pub fn shift_of(&self) -> (r: DriverShift)
        ensures
            r == self.shift(),
    {
        match self {
            ProbabilityDriver::CrossMarketConsistency { implied_prob, confidence } => DriverShift::Toward {
                target: *implied_prob,
                confidence: *confidence,
            },
            ProbabilityDriver::RelatedMarket { implied_delta, .. } => DriverShift::By {
                delta: *implied_delta,
                confidence: Scalar::Rank(HALF_RANK),
            },
            ProbabilityDriver::ExternalSignal { implied_prob, .. } => DriverShift::Toward {
                target: *implied_prob,
                confidence: Scalar::Rank(R_0_7),
            },
            ProbabilityDriver::Microstructure { bias, signal_count } => DriverShift::Lean {
                bias: *bias,
                signal_count: *signal_count,
            },
        }
    }

    /// Which way the driver points, against the price of the market: everything that
    /// is not above points down.
    pub open spec fn vote(self, market_prob: Scalar) -> Lean {
        match self {
            ProbabilityDriver::CrossMarketConsistency { implied_prob, confidence } => if market_prob.spec_lt(
                implied_prob,
            ) {
                Lean::Bullish
            } else {
                Lean::Bearish
            },
            ProbabilityDriver::Microstructure { bias, signal_count } => if Scalar::Rank(0).spec_lt(bias) {
                Lean::Bullish
            } else {
                Lean::Bearish
            },
            _ => Lean::Neither,
        }
    }

    fn vote_of(&self, market_prob: Scalar) -> (r: Lean)
        ensures
            r == self.vote(market_prob),
    {
        match self {
            ProbabilityDriver::CrossMarketConsistency { implied_prob, .. } => if market_prob.lt(
                *implied_prob,
            ) {
                Lean::Bullish
            } else {
                Lean::Bearish
            },
            ProbabilityDriver::Microstructure { bias, .. } => if Scalar::Rank(0).lt(*bias) {
                Lean::Bullish
            } else {
                Lean::Bearish
            },
            _ => Lean::Neither,
        }
    }

    /// Which way the driver clearly points: past a margin around the price of the
    /// market, or past a bias of a tenth.
    pub open spec fn clear_vote(self, upper: Scalar, lower: Scalar) -> Lean {
        match self {
            ProbabilityDriver::CrossMarketConsistency { implied_prob, confidence } => beyond(
                implied_prob,
                upper,
                lower,
            ),
            ProbabilityDriver::ExternalSignal { source, implied_prob } => beyond(
                implied_prob,
                upper,
                lower,
            ),
            ProbabilityDriver::Microstructure { bias, signal_count } => beyond(
                bias,
                Scalar::Rank(R_0_1),
                Scalar::Rank((-R_0_1) as i64),
            ),
            ProbabilityDriver::RelatedMarket { market_slug, implied_delta } => Lean::Neither,
        }
    }

    fn clear_vote_of(&self, upper: Scalar, lower: Scalar) -> (r: Lean)
        ensures
            r == self.clear_vote(upper, lower),
    {
        match self {
            ProbabilityDriver::CrossMarketConsistency { implied_prob, .. } => lean_beyond(
                *implied_prob,
                upper,
                lower,
            ),
            ProbabilityDriver::ExternalSignal { implied_prob, .. } => lean_beyond(
                *implied_prob,
                upper,
                lower,
            ),
            ProbabilityDriver::Microstructure { bias, .. } => lean_beyond(
                *bias,
                Scalar::Rank(R_0_1),
                Scalar::Rank(-R_0_1),
            ),
            ProbabilityDriver::RelatedMarket { .. } => Lean::Neither,
        }
    }
}

/// Which side of two bounds a number lies on.
pub open spec fn beyond(x: Scalar, upper: Scalar, lower: Scalar) -> Lean {
    if upper.spec_lt(x) {
        Lean::Bullish
    } else if x.spec_lt(lower) {
        Lean::Bearish
    } else {
        Lean::Neither
    }
}

fn lean_beyond(x: Scalar, upper: Scalar, lower: Scalar) -> (r: Lean)
    ensures
        r == beyond(x, upper, lower),
{
    if upper.lt(x) {
        Lean::Bullish
    } else if x.lt(lower) {
        Lean::Bearish
    } else {
        Lean::Neither
    }
}

/// How many drivers point one way, against the price of a market.
pub open spec fn votes(drivers: Seq<ProbabilityDriver>, market_prob: Scalar, way: Lean) -> nat {
    count_where(drivers, |d: ProbabilityDriver| d.vote(market_prob) == way)
}

/// How many drivers clearly point one way.
pub open spec fn clear_votes(drivers: Seq<ProbabilityDriver>, upper: Scalar, lower: Scalar, way: Lean) -> nat {
    count_where(drivers, |d: ProbabilityDriver| d.clear_vote(upper, lower) == way)
}

/// How many estimates and how many drivers are kept.
pub const KEPT_ESTIMATES: usize = 1000;

pub const KEPT_DRIVERS: usize = 10;

/// The estimate of a market's probability.
#[derive(Debug)]
pub struct ProbabilityEstimate {
    pub market_slug: String,
    pub token_id_yes: String,
    pub token_id_no: String,
    pub private_prob: Scalar,
    pub uncertainty: Scalar,
    pub market_prob: Scalar,
    pub active_drivers: Vec<ProbabilityDriver>,
    pub updated_at: i64,
    pub history: VecDeque<(i64, Scalar)>,
}

impl ProbabilityEstimate {
    pub fn new(market_slug: &str, token_id_yes: &str, token_id_no: &str) -> (r: ProbabilityEstimate)
        ensures
            r.market_slug@ == market_slug@,
            r.token_id_yes@ == token_id_yes@,
            r.token_id_no@ == token_id_no@,
            r.private_prob == Scalar::Rank(HALF_RANK),
            r.uncertainty == Scalar::Rank(ONE_RANK),
            r.market_prob == Scalar::Rank(HALF_RANK),
            r.active_drivers@ == Seq::<ProbabilityDriver>::empty(),
            r.updated_at == 0,
            r.history@ == Seq::<(i64, Scalar)>::empty(),
    {
        ProbabilityEstimate {
            market_slug: market_slug.to_owned(),
            token_id_yes: token_id_yes.to_owned(),
            token_id_no: token_id_no.to_owned(),
            private_prob: Scalar::Rank(HALF_RANK),
            uncertainty: Scalar::Rank(ONE_RANK),
            market_prob: Scalar::Rank(HALF_RANK),
            active_drivers: Vec::new(),
            updated_at: 0,
            history: VecDeque::with_capacity(KEPT_ESTIMATES),
        }
    }

    /// Everything but what an update touches.
    pub open spec fn same_market(self, other: ProbabilityEstimate) -> bool {
        &&& self.market_slug == other.market_slug
        &&& self.token_id_yes == other.token_id_yes
        &&& self.token_id_no == other.token_id_no
        &&& self.market_prob == other.market_prob
    }

    /// Takes a driver in: `shifted` is the estimate so far, moved as the driver says.
    /// The result counts the drivers that point up and down, for the uncertainty.
    pub fn update(&mut self, driver: ProbabilityDriver, shifted: Scalar, now: i64) -> (r: (usize, usize))
        ensures
            final(self).same_market(*old(self)),
            final(self).uncertainty == old(self).uncertainty,
            final(self).updated_at == now,
            final(self).private_prob == held_between(
                shifted,
                Scalar::Rank(R_0_01),
                Scalar::Rank(R_0_99),
            ),
            final(self).history@ == last_items(
                old(self).history@.push((now, final(self).private_prob)),
                KEPT_ESTIMATES as nat,
            ),
            final(self).active_drivers@ == last_items(
                old(self).active_drivers@.push(driver),
                KEPT_DRIVERS as nat,
            ),
            r.0 == votes(final(self).active_drivers@, old(self).market_prob, Lean::Bullish),
            r.1 == votes(final(self).active_drivers@, old(self).market_prob, Lean::Bearish),
    {
        self.updated_at = now;
        let new_prob = hold_between(shifted, Scalar::Rank(R_0_01), Scalar::Rank(R_0_99));
        self.history.push_back((now, new_prob));
        let ghost full = self.history@;
        assert(full.skip(0) =~= full);
        while self.history.len() > KEPT_ESTIMATES
            invariant
                self.same_market(*old(self)),
                self.uncertainty == old(self).uncertainty,
                self.updated_at == now,
                self.active_drivers == old(self).active_drivers,
                self.history.len() <= full.len(),
                self.history@ == full.skip(full.len() - self.history.len()),
                self.history.len() >= KEPT_ESTIMATES || self.history.len() == full.len(),
            decreases self.history.len(),
        {
            let _oldest = self.history.pop_front();
            assert(self.history@ =~= full.skip(full.len() - self.history.len()));
        }
        assert(self.history@ == last_items(full, KEPT_ESTIMATES as nat));
        self.private_prob = new_prob;
        let ghost kept = self.history@;
        self.active_drivers.push(driver);
        let ghost drivers = self.active_drivers@;
        assert(drivers.skip(0) =~= drivers);
        while self.active_drivers.len() > KEPT_DRIVERS
            invariant
                self.same_market(*old(self)),
                self.uncertainty == old(self).uncertainty,
                self.updated_at == now,
                self.private_prob == new_prob,
                self.history@ == kept,
                self.active_drivers.len() <= drivers.len(),
                self.active_drivers@ == drivers.skip(drivers.len() - self.active_drivers.len()),
                self.active_drivers.len() >= KEPT_DRIVERS || self.active_drivers.len() == drivers.len(),
            decreases self.active_drivers.len(),
        {
            let _oldest = self.active_drivers.remove(0);
            assert(self.active_drivers@ =~= drivers.skip(drivers.len() - self.active_drivers.len()));
        }
        self.count_votes()
    }

    /// How many drivers point up and down.
    fn count_votes(&self) -> (r: (usize, usize))
        ensures
            r.0 == votes(self.active_drivers@, self.market_prob, Lean::Bullish),
            r.1 == votes(self.active_drivers@, self.market_prob, Lean::Bearish),
    {
        let ghost all = self.active_drivers@;
        let ghost up = |d: ProbabilityDriver| d.vote(self.market_prob) == Lean::Bullish;
        let ghost down = |d: ProbabilityDriver| d.vote(self.market_prob) == Lean::Bearish;
        let mut bullish: usize = 0;
        let mut bearish: usize = 0;
        let mut i: usize = 0;
        while i < self.active_drivers.len()
            invariant
                i <= self.active_drivers.len(),
                all == self.active_drivers@,
                up == (|d: ProbabilityDriver| d.vote(self.market_prob) == Lean::Bullish),
                down == (|d: ProbabilityDriver| d.vote(self.market_prob) == Lean::Bearish),
                bullish <= i && bearish <= i,
                bullish == count_where(all.take(i as int), up),
                bearish == count_where(all.take(i as int), down),
            decreases self.active_drivers.len() - i,
        {
            assert(all.take(i as int + 1).drop_last() =~= all.take(i as int));
            match self.active_drivers[i].vote_of(self.market_prob) {
                Lean::Bullish => {
                    bullish = bullish + 1;
                },
                Lean::Bearish => {
                    bearish = bearish + 1;
                },
                Lean::Neither => {},
            }
            i = i + 1;
        }
        assert(all.take(i as int) =~= all);
        (bullish, bearish)
    }

    /// Takes the uncertainty in that follows from the drivers: all of it while none
    /// points up or down, else what was worked out from their agreement.
    pub fn settle_uncertainty(&mut self, bullish: usize, bearish: usize, worked_out: Scalar)
        ensures
            *final(self) == (ProbabilityEstimate {
                uncertainty: if bullish == 0 && bearish == 0 {
                    Scalar::Rank(ONE_RANK)
                } else {
                    worked_out
                },
                ..*old(self)
            }),
    {
        self.uncertainty = if bullish == 0 && bearish == 0 {
            Scalar::Rank(ONE_RANK)
        } else {
            worked_out
        };
    }

    /// Whether enough drivers clearly point the same way; the bounds lie a margin
    /// around the price of the market.
    pub fn has_confirming_drivers(&self, min_count: usize, upper: Scalar, lower: Scalar) -> (r: bool)
        ensures
            r == confirmed(self.active_drivers@, min_count, upper, lower),
    {
        let ghost all = self.active_drivers@;
        let ghost up = |d: ProbabilityDriver| d.clear_vote(upper, lower) == Lean::Bullish;
        let ghost down = |d: ProbabilityDriver| d.clear_vote(upper, lower) == Lean::Bearish;
        let mut bullish: usize = 0;
        let mut bearish: usize = 0;
        let mut i: usize = 0;
        while i < self.active_drivers.len()
            invariant
                i <= self.active_drivers.len(),
                all == self.active_drivers@,
                up == (|d: ProbabilityDriver| d.clear_vote(upper, lower) == Lean::Bullish),
                down == (|d: ProbabilityDriver| d.clear_vote(upper, lower) == Lean::Bearish),
                bullish <= i && bearish <= i,
                bullish == count_where(all.take(i as int), up),
                bearish == count_where(all.take(i as int), down),
            decreases self.active_drivers.len() - i,
        {
            assert(all.take(i as int + 1).drop_last() =~= all.take(i as int));
            match self.active_drivers[i].clear_vote_of(upper, lower) {
                Lean::Bullish => {
                    bullish = bullish + 1;
                },
                Lean::Bearish => {
                    bearish = bearish + 1;
                },
                Lean::Neither => {},
            }
            i = i + 1;
        }
        assert(all.take(i as int) =~= all);
        bullish >= min_count || bearish >= min_count
    }
}

/// Enough drivers clearly point the same way.
pub open spec fn confirmed(drivers: Seq<ProbabilityDriver>, min_count: usize, upper: Scalar, lower: Scalar) -> bool {
    clear_votes(drivers, upper, lower, Lean::Bullish) >= min_count || clear_votes(
        drivers,
        upper,
        lower,
        Lean::Bearish,
    ) >= min_count
}

/// Why an edge is not traded.
#[derive(Clone, Copy, Debug, PartialEq, Eq, Structural)]
pub enum EdgeSkip {
    WideSpread { spread_bps: Scalar, max_spread_bps: Scalar },
    ThinTop { top_liquidity: Scalar, min_top_liquidity: Scalar },
    Degraded { congestion_ratio: Scalar },
    BelowMinimum { effective_edge: Scalar, min_effective_edge: Scalar },
}

/// An edge once costs and delays count.
#[derive(Clone, Copy, Debug, PartialEq, Eq, Structural)]
pub struct EffectiveEdge {
    pub raw_edge: Scalar,
    pub fee_cost: Scalar,
    pub expected_slippage: Scalar,
    pub fill_probability: Scalar,
    pub effective_edge: Scalar,
    pub tradeable: bool,
    pub skip_reason: Option<EdgeSkip>,
}

/// The delays of orders.
#[derive(Clone, Copy, Debug, PartialEq, Eq, Structural)]
pub struct LatencyStats {
    pub p50_us: u64,
    pub p90_us: u64,
    pub p95_us: u64,
    pub p99_us: u64,
    pub sample_count: u64,
    pub baseline_p95_us: u64,
    /// The slow delays by their baseline.
    pub congestion_ratio: Scalar,
}

impl LatencyStats {
    /// What congestion leaves of the chance of a fill.
    pub open spec fn penalty(self) -> Scalar {
        if Scalar::Rank(R_1_5).spec_lt(self.congestion_ratio) {
            Scalar::Rank(R_0_8)
        } else if Scalar::Rank(R_1_2).spec_lt(self.congestion_ratio) {
            Scalar::Rank(R_0_9)
        } else {
            Scalar::Rank(ONE_RANK)
        }
    }

    pub fn congestion_penalty(&self) -> (r: Scalar)
        ensures
            r == self.penalty(),
    {
        if Scalar::Rank(R_1_5).lt(self.congestion_ratio) {
            Scalar::Rank(R_0_8)
        } else if Scalar::Rank(R_1_2).lt(self.congestion_ratio) {
            Scalar::Rank(R_0_9)
        } else {
            Scalar::Rank(ONE_RANK)
        }
    }

    /// The chance of a fill: one half while little is known, little where the slow
    /// delays are too slow, else what follows from them within bounds.
    pub open spec fn chance(self, max_acceptable_us: u64, penalized: Scalar) -> Scalar {
        if self.sample_count < 10 {
            Scalar::Rank(HALF_RANK)
        } else if self.p95_us >= max_acceptable_us {
            Scalar::Rank(R_0_1)
        } else {
            held_between(penalized, Scalar::Rank(R_0_1), Scalar::Rank(R_0_95))
        }
    }

    /// The chance of a fill; `penalized` is the chance that follows from the slow
    /// delays, held within the bounds, times the penalty.
    pub fn fill_probability(&self, max_acceptable_us: u64, penalized: Scalar) -> (r: Scalar)
        ensures
            r == self.chance(max_acceptable_us, penalized),
    {
        if self.sample_count < 10 {
            return Scalar::Rank(HALF_RANK);
        }
        if self.p95_us >= max_acceptable_us {
            return Scalar::Rank(R_0_1);
        }
        LatencyStats::within_bounds(penalized)
    }

    /// A chance within the bounds of one.
    pub fn within_bounds(chance: Scalar) -> (r: Scalar)
        ensures
            r == held_between(chance, Scalar::Rank(R_0_1), Scalar::Rank(R_0_95)),
    {
        hold_between(chance, Scalar::Rank(R_0_1), Scalar::Rank(R_0_95))
    }

    pub open spec fn degraded(self, threshold: Scalar) -> bool {
        self.baseline_p95_us != 0 && threshold.spec_lt(self.congestion_ratio)
    }

    /// Whether orders are much slower than their baseline, if there is one.
    pub fn is_degraded(&self, threshold: Scalar) -> (r: bool)
        ensures
            r == self.degraded(threshold),
    {
        if self.baseline_p95_us == 0 {
            return false;
        }
        threshold.lt(self.congestion_ratio)
    }
}

/// The best prices of a book, with zero and one in place of what is missing.
pub fn touch_of(book: &OrderBook) -> (r: (Scalar, Scalar))
    ensures
        r.0 == if book.bids.len() > 0 {
            book.bids[0].price
        } else {
            Scalar::Rank(0)
        },
        r.1 == if book.asks.len() > 0 {
            book.asks[0].price
        } else {
            Scalar::Rank(ONE_RANK)
        },
{
    let bid = match book.best_bid() {
        Some(p) => p,
        None => Scalar::Rank(0),
    };
    let ask = match book.best_ask() {
        Some(p) => p,
        None => Scalar::Rank(ONE_RANK),
    };
    (bid, ask)
}

/// The spread in basis points: what was worked out where the middle is above zero, else
/// all of it.
pub fn spread_bps_of(mid: Scalar, worked_out: Scalar) -> (r: Scalar)
    ensures
        r == if Scalar::Rank(0).spec_lt(mid) {
            worked_out
        } else {
            Scalar::Rank(R_10000)
        },
{
    if Scalar::Rank(0).lt(mid) {
        worked_out
    } else {
        Scalar::Rank(R_10000)
    }
}

/// The figures behind an edge: the estimate less the price; the spread; what the best
/// ask is worth; the share of the spread that is lost; the chance of a fill; and what is
/// left of the edge, times that chance.
#[derive(Clone, Copy, Debug, PartialEq, Eq, Structural)]
pub struct EdgeNumbers {
    pub raw_edge: Scalar,
    pub spread_bps: Scalar,
    pub top_liquidity: Scalar,
    pub expected_slippage: Scalar,
    pub fill_probability: Scalar,
    pub effective_edge: Scalar,
}

/// An edge that is refused at first sight.
pub open spec fn refused_edge(raw_edge: Scalar, why: EdgeSkip) -> EffectiveEdge {
    EffectiveEdge {
        raw_edge,
        fee_cost: Scalar::Rank(0),
        expected_slippage: Scalar::Rank(0),
        fill_probability: Scalar::Rank(0),
        effective_edge: Scalar::Rank(0),
        tradeable: false,
        skip_reason: Some(why),
    }
}

/// An edge once costs and delays count.
pub open spec fn effective(n: EdgeNumbers, latency: LatencyStats, cfg: LatencyArbConfig) -> EffectiveEdge {
    if cfg.max_spread_bps.spec_lt(n.spread_bps) {
        refused_edge(
            n.raw_edge,
            EdgeSkip::WideSpread { spread_bps: n.spread_bps, max_spread_bps: cfg.max_spread_bps },
        )
    } else if n.top_liquidity.spec_lt(cfg.min_top_liquidity_usd) {
        refused_edge(
            n.raw_edge,
            EdgeSkip::ThinTop {
                top_liquidity: n.top_liquidity,
                min_top_liquidity: cfg.min_top_liquidity_usd,
            },
        )
    } else {
        let degraded = latency.degraded(cfg.latency_degradation_threshold);
        let tradeable = cfg.min_effective_edge.spec_lt(n.effective_edge) && !degraded;
        EffectiveEdge {
            raw_edge: n.raw_edge,
            fee_cost: cfg.fee_rate_taker,
            expected_slippage: n.expected_slippage,
            fill_probability: n.fill_probability,
            effective_edge: n.effective_edge,
            tradeable,
            skip_reason: if tradeable {
                None
            } else if degraded {
                Some(EdgeSkip::Degraded { congestion_ratio: latency.congestion_ratio })
            } else {
                Some(
                    EdgeSkip::BelowMinimum {
                        effective_edge: n.effective_edge,
                        min_effective_edge: cfg.min_effective_edge,
                    },
                )
            },
        }
    }
}

/// Weighs an edge against costs and delays.
pub fn compute_effective_edge(n: &EdgeNumbers, latency: &LatencyStats, cfg: &LatencyArbConfig) -> (r:
    EffectiveEdge)
    ensures
        r == effective(*n, *latency, *cfg),
{
    let mut edge = EffectiveEdge {
        raw_edge: n.raw_edge,
        fee_cost: Scalar::Rank(0),
        expected_slippage: Scalar::Rank(0),
        fill_probability: Scalar::Rank(0),
        effective_edge: Scalar::Rank(0),
        tradeable: false,
        skip_reason: None,
    };
    if cfg.max_spread_bps.lt(n.spread_bps) {
        edge.skip_reason = Some(
            EdgeSkip::WideSpread { spread_bps: n.spread_bps, max_spread_bps: cfg.max_spread_bps },
        );
        return edge;
    }
    if n.top_liquidity.lt(cfg.min_top_liquidity_usd) {
        edge.skip_reason = Some(
            EdgeSkip::ThinTop {
                top_liquidity: n.top_liquidity,
                min_top_liquidity: cfg.min_top_liquidity_usd,
            },
        );
        return edge;
    }
    let degraded = latency.is_degraded(cfg.latency_degradation_threshold);
    edge.fee_cost = cfg.fee_rate_taker;
    edge.expected_slippage = n.expected_slippage;
    edge.fill_probability = n.fill_probability;
    edge.effective_edge = n.effective_edge;
    edge.tradeable = cfg.min_effective_edge.lt(n.effective_edge) && !degraded;
    if !edge.tradeable {
        edge.skip_reason = if degraded {
            Some(EdgeSkip::Degraded { congestion_ratio: latency.congestion_ratio })
        } else {
            Some(
                EdgeSkip::BelowMinimum {
                    effective_edge: n.effective_edge,
                    min_effective_edge: cfg.min_effective_edge,
                },
            )
        };
    }
    edge
}

/// What is at stake.
pub struct ExposureTracker {
    pub per_market: Table<Scalar>,
    pub per_topic: Table<Scalar>,
    pub total_exposure: Scalar,
    pub bankroll: Scalar,
}

/// The limit that is reached.
#[derive(Clone, Copy, Debug, PartialEq, Eq, Structural)]
pub enum ExposureError {
    Market,
    Topic,
    Total,
}

impl ExposureError {
    pub open spec fn text(self) -> Seq<char> {
        match self {
            ExposureError::Market => "Market exposure limit reached"@,
            ExposureError::Topic => "Topic exposure limit reached"@,
            ExposureError::Total => "Total exposure limit reached"@,
        }
    }

    pub fn message(self) -> (r: &'static str)
        ensures
            r@ == self.text(),
    {
        match self {
            ExposureError::Market => "Market exposure limit reached",
            ExposureError::Topic => "Topic exposure limit reached",
            ExposureError::Total => "Total exposure limit reached",
        }
    }
}

/// What the limits leave: the shares of the bankroll less what is at stake.
#[derive(Clone, Copy, Debug, PartialEq, Eq, Structural)]
pub struct Headroom {
    pub market: Scalar,
    pub topic: Scalar,
    pub total: Scalar,
}

/// The amount that the limits let through.
pub open spec fn allowed(amount: Scalar, room: Headroom) -> Result<Scalar, ExposureError> {
    if room.market.spec_le(Scalar::Rank(0)) {
        Err(ExposureError::Market)
    } else if room.topic.spec_le(Scalar::Rank(0)) {
        Err(ExposureError::Topic)
    } else if room.total.spec_le(Scalar::Rank(0)) {
        Err(ExposureError::Total)
    } else {
        Ok(amount.spec_min(room.market).spec_min(room.topic).spec_min(room.total))
    }
}

/// The amount at stake under a key, zero where there is none.
pub open spec fn at_stake(t: Map<Seq<char>, Scalar>, key: Seq<char>) -> Scalar {
    if t.contains_key(key) {
        t[key]
    } else {
        Scalar::Rank(0)
    }
}

/// What is at stake once an amount was added or taken away.
#[derive(Clone, Copy, Debug, PartialEq, Eq, Structural)]
pub struct ExposureAfter {
    pub market: Scalar,
    pub topic: Scalar,
    pub total: Scalar,
}

/// The table with a smaller amount under a key that it has, at least zero.
pub open spec fn lowered(t: Map<Seq<char>, Scalar>, key: Seq<char>, after: Scalar) -> Map<
    Seq<char>,
    Scalar,
> {
    if t.contains_key(key) {
        t.insert(key, after.spec_max(Scalar::Rank(0)))
    } else {
        t
    }
}

impl ExposureTracker {
    pub fn new(bankroll: Scalar) -> (r: ExposureTracker)
        ensures
            r.per_market@ == Map::<Seq<char>, Scalar>::empty(),
            r.per_topic@ == Map::<Seq<char>, Scalar>::empty(),
            r.total_exposure == Scalar::Rank(0),
            r.bankroll == bankroll,
    {
        ExposureTracker {
            per_market: Table::new(),
            per_topic: Table::new(),
            total_exposure: Scalar::Rank(0),
            bankroll,
        }
    }

    /// What is at stake in a market.
    pub fn market_exposure(&self, market_slug: &str) -> (r: Scalar)
        ensures
            r == at_stake(self.per_market@, market_slug@),
    {
        match self.per_market.get(market_slug) {
            Some(x) => *x,
            None => Scalar::Rank(0),
        }
    }

    /// What is at stake in a topic.
    pub fn topic_exposure(&self, topic: &str) -> (r: Scalar)
        ensures
            r == at_stake(self.per_topic@, topic@),
    {
        match self.per_topic.get(topic) {
            Some(x) => *x,
            None => Scalar::Rank(0),
        }
    }

    /// Lets through as much of an amount as the limits leave.
    pub fn can_add_exposure(&self, amount_usd: Scalar, room: &Headroom) -> (r: Result<
        Scalar,
        ExposureError,
    >)
        ensures
            r == allowed(amount_usd, *room),
    {
        let zero = Scalar::Rank(0);
        if room.market.le(zero) {
            return Err(ExposureError::Market);
        }
        if room.topic.le(zero) {
            return Err(ExposureError::Topic);
        }
        if room.total.le(zero) {
            return Err(ExposureError::Total);
        }
        Ok(amount_usd.min(room.market).min(room.topic).min(room.total))
    }

    /// Notes what is at stake once an amount was added.
    pub fn add_exposure(&mut self, market_slug: &str, topic: &str, after: &ExposureAfter)
        ensures
            final(self).per_market@ == old(self).per_market@.insert(market_slug@, after.market),
            final(self).per_topic@ == old(self).per_topic@.insert(topic@, after.topic),
            final(self).total_exposure == after.total,
            final(self).bankroll == old(self).bankroll,
    {
        self.per_market.insert(market_slug.to_owned(), after.market);
        self.per_topic.insert(topic.to_owned(), after.topic);
        self.total_exposure = after.total;
    }

    /// Notes what is at stake once an amount was taken away.
    pub fn remove_exposure(&mut self, market_slug: &str, topic: &str, after: &ExposureAfter)
        ensures
            final(self).per_market@ == lowered(old(self).per_market@, market_slug@, after.market),
            final(self).per_topic@ == lowered(old(self).per_topic@, topic@, after.topic),
            final(self).total_exposure == after.total.spec_max(Scalar::Rank(0)),
            final(self).bankroll == old(self).bankroll,
    {
        if self.per_market.contains(market_slug) {
            self.per_market.insert(market_slug.to_owned(), after.market.max(Scalar::Rank(0)));
        }
        if self.per_topic.contains(topic) {
            self.per_topic.insert(topic.to_owned(), after.topic.max(Scalar::Rank(0)));
        }
        self.total_exposure = after.total.max(Scalar::Rank(0));
    }
}

/// Why there is no position.
#[derive(Clone, Copy, Debug, PartialEq, Eq, Structural)]
pub enum SizeError {
    NotTradeable(Option<EdgeSkip>),
    NoStake(Option<KellySkip>),
    Exposure(ExposureError),
    BelowMinimum { size: Scalar, minimum: Scalar },
}

/// The bounds of a stake.
pub fn position_params(exposure: &ExposureTracker, cfg: &LatencyArbConfig) -> (r: KellyParams)
    ensures
        r == (KellyParams {
            bankroll: exposure.bankroll,
            kelly_fraction: cfg.kelly_fraction,
            max_position_pct: cfg.max_position_pct_per_market,
            min_position_usd: cfg.min_clip_usd,
        }),
{
    KellyParams {
        bankroll: exposure.bankroll,
        kelly_fraction: cfg.kelly_fraction,
        max_position_pct: cfg.max_position_pct_per_market,
        min_position_usd: cfg.min_clip_usd,
    }
}

/// The size of a position: the scaled stake within the limits and the greatest clip, where
/// that is no less than the least clip.
pub open spec fn sized_position(
    edge: EffectiveEdge,
    kelly: KellyResult,
    scaled: Scalar,
    room: Headroom,
    cfg: LatencyArbConfig,
) -> Result<Scalar, SizeError> {
    if !edge.tradeable {
        Err(SizeError::NotTradeable(edge.skip_reason))
    } else if !kelly.should_trade {
        Err(SizeError::NoStake(kelly.skip_reason))
    } else {
        match allowed(scaled, room) {
            Err(e) => Err(SizeError::Exposure(e)),
            Ok(a) => {
                let clipped = a.spec_min(cfg.max_clip_usd);
                if clipped.spec_lt(cfg.min_clip_usd) {
                    Err(SizeError::BelowMinimum { size: clipped, minimum: cfg.min_clip_usd })
                } else {
                    Ok(clipped)
                }
            },
        }
    }
}

/// Sizes a position; `scaled` is the stake times the chance of a fill and what the
/// uncertainty leaves.
pub fn compute_position_size(
    edge: &EffectiveEdge,
    kelly: &KellyResult,
    scaled: Scalar,
    exposure: &ExposureTracker,
    room: &Headroom,
    cfg: &LatencyArbConfig,
) -> (r: Result<Scalar, SizeError>)
    ensures
        r == sized_position(*edge, *kelly, scaled, *room, *cfg),
{
    if !edge.tradeable {
        return Err(SizeError::NotTradeable(edge.skip_reason));
    }
    if !kelly.should_trade {
        return Err(SizeError::NoStake(kelly.skip_reason));
    }
    let let_through = match exposure.can_add_exposure(scaled, room) {
        Ok(a) => a,
        Err(e) => {
            return Err(SizeError::Exposure(e));
        },
    };
    let clipped = let_through.min(cfg.max_clip_usd);
    if clipped.lt(cfg.min_clip_usd) {
        return Err(SizeError::BelowMinimum { size: clipped, minimum: cfg.min_clip_usd });
    }
    Ok(clipped)
}

/// A trade in both outcomes of a market.
#[derive(Debug)]
pub struct TwoLegArb {
    pub leg1_token: String,
    pub leg1_side: OrderSide,
    pub leg1_price: Scalar,
    pub leg2_token: String,
    pub leg2_side: OrderSide,
    pub leg2_price: Scalar,
    pub gross_profit_pct: Scalar,
    pub leg1_fill_prob: Scalar,
    pub leg2_fill_prob: Scalar,
    pub combined_fill_prob: Scalar,
    pub is_true_arb: bool,
}

/// The figures behind a trade in both outcomes: what both cost; one less the fees for
/// both; the profit in percent; the chance of a fill; and that chance twice over.
#[derive(Clone, Copy, Debug, PartialEq, Eq, Structural)]
pub struct PairNumbers {
    pub total_cost: Scalar,
    pub cost_limit: Scalar,
    pub gross_profit_pct: Scalar,
    pub fill_prob: Scalar,
    pub combined_fill_prob: Scalar,
}

impl TwoLegArb {
    /// The trade in both outcomes, where both have an ask and cost less than they pay.
    pub fn from_yes_no_markets(
        yes_book: &OrderBook,
        no_book: &OrderBook,
        yes_token: &str,
        no_token: &str,
        n: &PairNumbers,
        cfg: &LatencyArbConfig,
    ) -> (r: Option<TwoLegArb>)
        ensures
            match r {
                None => yes_book.asks.len() == 0 || no_book.asks.len() == 0 || n.cost_limit.spec_le(
                    n.total_cost,
                ),
                Some(t) => {
                    &&& yes_book.asks.len() > 0 && no_book.asks.len() > 0
                    &&& !n.cost_limit.spec_le(n.total_cost)
                    &&& t.leg1_token@ == yes_token@
                    &&& t.leg1_side == OrderSide::Buy
                    &&& t.leg1_price == yes_book.asks[0].price
                    &&& t.leg2_token@ == no_token@
                    &&& t.leg2_side == OrderSide::Buy
                    &&& t.leg2_price == no_book.asks[0].price
                    &&& t.gross_profit_pct == n.gross_profit_pct
                    &&& t.leg1_fill_prob == n.fill_prob
                    &&& t.leg2_fill_prob == n.fill_prob
                    &&& t.combined_fill_prob == n.combined_fill_prob
                    &&& t.is_true_arb == cfg.two_leg_min_completion_prob.spec_le(
                        n.combined_fill_prob,
                    )
                },
            },
    {
        match (yes_book.best_ask(), no_book.best_ask()) {
            (Some(yes_ask), Some(no_ask)) => {
                if n.cost_limit.le(n.total_cost) {
                    return None;
                }
                Some(
                    TwoLegArb {
                        leg1_token: yes_token.to_owned(),
                        leg1_side: OrderSide::Buy,
                        leg1_price: yes_ask,
                        leg2_token: no_token.to_owned(),
                        leg2_side: OrderSide::Buy,
                        leg2_price: no_ask,
                        gross_profit_pct: n.gross_profit_pct,
                        leg1_fill_prob: n.fill_prob,
                        leg2_fill_prob: n.fill_prob,
                        combined_fill_prob: n.combined_fill_prob,
                        is_true_arb: cfg.two_leg_min_completion_prob.le(n.combined_fill_prob),
                    },
                )
            },
            _ => None,
        }
    }
}

/// Why nothing is traded.
#[derive(Clone, Copy, Debug, PartialEq, Eq, Structural)]
pub enum NoActionReason {
    NotRegistered,
    Cooldown { remaining_sec: i128 },
    Degraded { congestion_ratio: Scalar, p95_us: u64 },
    Edge(Option<EdgeSkip>),
    Unconfirmed { raw_edge_abs: Scalar, drivers: usize, needed: usize },
    Sizing(SizeError),
}

/// What the strategy decides.
#[derive(Debug)]
pub enum TradeDecision {
    NoAction { reason: NoActionReason },
    AggressiveClip {
        token_id: String,
        side: OrderSide,
        price: Scalar,
        size_usd: Scalar,
        timeout_ms: u64,
    },
    PassiveOrder {
        token_id: String,
        side: OrderSide,
        price: Scalar,
        size_usd: Scalar,
        timeout_ms: u64,
    },
    TwoLegArbitrage { leg1: Box<TradeDecision>, leg2: Box<TradeDecision>, is_true_arb: bool },
}

/// The order that a decision stands for.
pub open spec fn is_order_for(
    o: OrderRequest,
    id: Seq<char>,
    token_id: Seq<char>,
    side: OrderSide,
    price: Scalar,
    size_usd: Scalar,
    tif: TimeInForce,
) -> bool {
    &&& o.client_order_id@ == id
    &&& o.token_id@ == token_id
    &&& o.side == side
    &&& o.price == price
    &&& o.notional_usdc == size_usd
    &&& o.tif == tif
    &&& o.market_slug is None
    &&& o.outcome is None
}

/// What a single leg of a decision leads to: its order under an identifier, and how many
/// milliseconds it may take. Nothing stands for no action, nor for a trade in both
/// outcomes.
pub open spec fn is_leg_of(decision: TradeDecision, id: Seq<char>, r: Option<(OrderRequest, u64)>) -> bool {
    match decision {
        TradeDecision::AggressiveClip { token_id, side, price, size_usd, timeout_ms } => {
            &&& r matches Some((o, t))
            &&& is_order_for(o, id, token_id@, side, price, size_usd, TimeInForce::Ioc)
            &&& t == timeout_ms
        },
        TradeDecision::PassiveOrder { token_id, side, price, size_usd, timeout_ms } => {
            &&& r matches Some((o, t))
            &&& is_order_for(o, id, token_id@, side, price, size_usd, TimeInForce::Gtc)
            &&& t == timeout_ms
        },
        _ => r is None,
    }
}

/// The order for a single leg under a fresh identifier, and how many milliseconds it may
/// take.
pub fn execute_single_leg(decision: &TradeDecision) -> (r: Option<(OrderRequest, u64)>)
    ensures
        exists|id: Seq<char>| id.len() == 36 && #[trigger] is_leg_of(*decision, id, r),
{
    let id = fresh_id();
    let ghost text = id@;
    let r = execute_single_leg_with(decision, id);
    assert(is_leg_of(*decision, text, r));
    r
}

/// The order for a single leg under an identifier, and how many milliseconds it may take.
pub fn execute_single_leg_with(decision: &TradeDecision, client_order_id: String) -> (r: Option<(
    OrderRequest,
    u64,
)>)
    ensures
        is_leg_of(*decision, client_order_id@, r),
{
    match decision {
        TradeDecision::AggressiveClip { token_id, side, price, size_usd, timeout_ms } => Some(
            (
                OrderRequest {
                    client_order_id,
                    token_id: token_id.clone(),
                    side: *side,
                    price: *price,
                    notional_usdc: *size_usd,
                    tif: TimeInForce::Ioc,
                    market_slug: None,
                    outcome: None,
                },
                *timeout_ms,
            ),
        ),
        TradeDecision::PassiveOrder { token_id, side, price, size_usd, timeout_ms } => Some(
            (
                OrderRequest {
                    client_order_id,
                    token_id: token_id.clone(),
                    side: *side,
                    price: *price,
                    notional_usdc: *size_usd,
                    tif: TimeInForce::Gtc,
                    market_slug: None,
                    outcome: None,
                },
                *timeout_ms,
            ),
        ),
        _ => None,
    }
}

/// What a decision executes first.
pub fn first_leg(decision: &TradeDecision) -> (r: &TradeDecision)
    ensures
        *r == match *decision {
            TradeDecision::TwoLegArbitrage { leg1, leg2, is_true_arb } => *leg1,
            d => d,
        },
{
    match decision {
        TradeDecision::TwoLegArbitrage { leg1, .. } => leg1,
        _ => decision,
    }
}

/// What a decision executes next, once its first leg was executed without an error: the
/// second leg, where the trade is sure or the first leg was filled.
pub fn execute_decision(decision: &TradeDecision, first_filled: bool) -> (r: Option<&TradeDecision>)
    ensures
        match *decision {
            TradeDecision::TwoLegArbitrage { leg1, leg2, is_true_arb } => if is_true_arb
                || first_filled {
                r matches Some(d) && *d == *leg2
            } else {
                r is None
            },
            _ => r is None,
        },
{
    match decision {
        TradeDecision::TwoLegArbitrage { leg2, is_true_arb, .. } => if *is_true_arb || first_filled {
            Some(leg2)
        } else {
            None
        },
        _ => None,
    }
}

/// What is written down of a decision.
#[derive(Debug)]
pub struct ArbDiagnostics {
    pub timestamp: i64,
    pub market_slug: String,
    pub prob_gap: Scalar,
    pub exec_probability: Scalar,
    pub latency_p95_us: u64,
    pub latency_p99_us: u64,
    pub predicted_edge: Scalar,
    pub realized_edge: Option<Scalar>,
    pub pnl_signal_edge: Option<Scalar>,
    pub pnl_slippage: Option<Scalar>,
    pub pnl_latency_loss: Option<Scalar>,
    pub pnl_total: Option<Scalar>,
    pub decision: String,
    pub filled: bool,
    pub fill_price: Option<Scalar>,
}

/// The profits so far, and what they are made of.
#[derive(Clone, Copy, Debug, PartialEq, Eq, Structural)]
pub struct PnlTotals {
    pub total: Scalar,
    pub signal_edge: Scalar,
    pub slippage: Scalar,
    pub latency_loss: Scalar,
}

/// How many decisions are kept.
pub const KEPT_DECISIONS: usize = 10_000;

/// The decisions so far.
#[derive(Debug)]
pub struct DiagnosticsTracker {
    pub history: VecDeque<ArbDiagnostics>,
    pub total_decisions: u64,
    pub total_trades: u64,
    pub total_fills: u64,
    pub pnl: PnlTotals,
}

/// The counts and the profits; the rate of fills is the caller's to divide where there
/// are trades, and zero where there are none.
#[derive(Clone, Copy, Debug, PartialEq, Eq, Structural)]
pub struct DiagnosticsSummary {
    pub total_decisions: u64,
    pub total_trades: u64,
    pub total_fills: u64,
    pub fill_rate: Scalar,
    pub pnl: PnlTotals,
}

/// A total once an entry may have been added to it.
pub open spec fn added(entry: Option<Scalar>, before: Scalar, after: Scalar) -> Scalar {
    if entry is Some {
        after
    } else {
        before
    }
}

impl Default for DiagnosticsTracker {
    fn default() -> (r: DiagnosticsTracker)
        ensures
            r.history@ == Seq::<ArbDiagnostics>::empty(),
            r.total_decisions == 0 && r.total_trades == 0 && r.total_fills == 0,
            r.pnl == (PnlTotals {
                total: Scalar::Rank(0),
                signal_edge: Scalar::Rank(0),
                slippage: Scalar::Rank(0),
                latency_loss: Scalar::Rank(0),
            }),
    {
        DiagnosticsTracker::new()
    }
}

impl DiagnosticsTracker {
    pub fn new() -> (r: DiagnosticsTracker)
        ensures
            r.history@ == Seq::<ArbDiagnostics>::empty(),
            r.total_decisions == 0 && r.total_trades == 0 && r.total_fills == 0,
            r.pnl == (PnlTotals {
                total: Scalar::Rank(0),
                signal_edge: Scalar::Rank(0),
                slippage: Scalar::Rank(0),
                latency_loss: Scalar::Rank(0),
            }),
    {
        DiagnosticsTracker {
            history: VecDeque::with_capacity(KEPT_DECISIONS),
            total_decisions: 0,
            total_trades: 0,
            total_fills: 0,
            pnl: PnlTotals {
                total: Scalar::Rank(0),
                signal_edge: Scalar::Rank(0),
                slippage: Scalar::Rank(0),
                latency_loss: Scalar::Rank(0),
            },
        }
    }

    /// Writes a decision down; `sums` are the totals with what it brought.
    pub fn record_decision(&mut self, diag: ArbDiagnostics, sums: &PnlTotals)
        ensures
            final(self).total_decisions == next_count(old(self).total_decisions),
            final(self).total_fills == count_if(old(self).total_fills, diag.filled),
            final(self).total_trades == count_if(
                old(self).total_trades,
                diag.decision@ != "NoAction"@,
            ),
            final(self).pnl == (PnlTotals {
                total: added(diag.pnl_total, old(self).pnl.total, sums.total),
                signal_edge: added(
                    diag.pnl_signal_edge,
                    old(self).pnl.signal_edge,
                    sums.signal_edge,
                ),
                slippage: added(diag.pnl_slippage, old(self).pnl.slippage, sums.slippage),
                latency_loss: added(
                    diag.pnl_latency_loss,
                    old(self).pnl.latency_loss,
                    sums.latency_loss,
                ),
            }),
            final(self).history@ == last_items(
                old(self).history@.push(diag),
                KEPT_DECISIONS as nat,
            ),
    {
        self.total_decisions = count_up(self.total_decisions);
        if diag.filled {
            self.total_fills = count_up(self.total_fills);
        }
        if !same(diag.decision.as_str(), "NoAction") {
            self.total_trades = count_up(self.total_trades);
        }
        if diag.pnl_total.is_some() {
            self.pnl.total = sums.total;
        }
        if diag.pnl_signal_edge.is_some() {
            self.pnl.signal_edge = sums.signal_edge;
        }
        if diag.pnl_slippage.is_some() {
            self.pnl.slippage = sums.slippage;
        }
        if diag.pnl_latency_loss.is_some() {
            self.pnl.latency_loss = sums.latency_loss;
        }
        self.history.push_back(diag);
        let ghost full = self.history@;
        let ghost now = *self;
        assert(full.skip(0) =~= full);
        while self.history.len() > KEPT_DECISIONS
            invariant
                *self == (DiagnosticsTracker { history: self.history, ..now }),
                self.history.len() <= full.len(),
                self.history@ == full.skip(full.len() - self.history.len()),
                self.history.len() >= KEPT_DECISIONS || self.history.len() == full.len(),
            decreases self.history.len(),
        {
            let _oldest = self.history.pop_front();
            assert(self.history@ =~= full.skip(full.len() - self.history.len()));
        }
    }

    /// The counts and the profits; `quotient` is the fills by the trades.
    pub fn summary(&self, quotient: Scalar) -> (r: DiagnosticsSummary)
        ensures
            r == (DiagnosticsSummary {
                total_decisions: self.total_decisions,
                total_trades: self.total_trades,
                total_fills: self.total_fills,
                fill_rate: if self.total_trades > 0 {
                    quotient
                } else {
                    Scalar::Rank(0)
                },
                pnl: self.pnl,
            }),
    {
        DiagnosticsSummary {
            total_decisions: self.total_decisions,
            total_trades: self.total_trades,
            total_fills: self.total_fills,
            fill_rate: if self.total_trades > 0 {
                quotient
            } else {
                Scalar::Rank(0)
            },
            pnl: self.pnl,
        }
    }
}

/// What is known of a market.
#[derive(Debug)]
pub struct MarketState {
    pub estimate: ProbabilityEstimate,
    pub microstructure: MicrostructureState,
    pub last_trade_at: i64,
    pub topic: String,
}

/// The delays of orders so far: their percentiles and their number.
#[derive(Clone, Copy, Debug, PartialEq, Eq, Structural)]
pub struct DelayPercentiles {
    pub p50_us: u64,
    pub p90_us: u64,
    pub p95_us: u64,
    pub p99_us: u64,
    pub count: u64,
}

/// The figures that an evaluation works with.
#[derive(Clone, Copy, Debug, PartialEq, Eq, Structural)]
pub struct EvaluationNumbers {
    pub edge: EdgeNumbers,
    /// The price of the market with a margin of two hundredths.
    pub upper: Scalar,
    pub lower: Scalar,
    pub kelly: KellyNumbers,
    pub scaled: Scalar,
    pub room: Headroom,
    pub doubled_min_edge: Scalar,
}

/// The strategy.
pub struct LatencyArbEngine {
    pub config: LatencyArbConfig,
    pub markets: Table<MarketState>,
    pub exposure: ExposureTracker,
    pub baseline_latency_p95: u64,
    pub diagnostics: DiagnosticsTracker,
    pub running: bool,
}

/// A price, or one half where there is none.
pub open spec fn price_or_half(levels: Seq<Order>) -> Scalar {
    if levels.len() > 0 {
        levels[0].price
    } else {
        Scalar::Rank(HALF_RANK)
    }
}

impl LatencyArbEngine {
    pub fn new(config: LatencyArbConfig, bankroll: Scalar) -> (r: LatencyArbEngine)
        ensures
            r.config == config,
            r.markets@ == Map::<Seq<char>, MarketState>::empty(),
            r.exposure.per_market@ == Map::<Seq<char>, Scalar>::empty(),
            r.exposure.per_topic@ == Map::<Seq<char>, Scalar>::empty(),
            r.exposure.total_exposure == Scalar::Rank(0),
            r.exposure.bankroll == bankroll,
            r.baseline_latency_p95 == 0,
            r.diagnostics.total_decisions == 0,
            !r.running,
    {
        LatencyArbEngine {
            config,
            markets: Table::new(),
            exposure: ExposureTracker::new(bankroll),
            baseline_latency_p95: 0,
            diagnostics: DiagnosticsTracker::new(),
            running: false,
        }
    }

    /// Only the markets differ.
    pub open spec fn same_but_markets(self, other: LatencyArbEngine) -> bool {
        self == (LatencyArbEngine { markets: self.markets, ..other })
    }

    /// A market of which nothing is known yet.
    pub open spec fn is_new_market(
        m: MarketState,
        market_slug: Seq<char>,
        token_id_yes: Seq<char>,
        token_id_no: Seq<char>,
        topic: Seq<char>,
    ) -> bool {
        &&& m.estimate.market_slug@ == market_slug
        &&& m.estimate.token_id_yes@ == token_id_yes
        &&& m.estimate.token_id_no@ == token_id_no
        &&& m.estimate.private_prob == Scalar::Rank(HALF_RANK)
        &&& m.estimate.uncertainty == Scalar::Rank(ONE_RANK)
        &&& m.estimate.market_prob == Scalar::Rank(HALF_RANK)
        &&& m.estimate.active_drivers@.len() == 0
        &&& m.estimate.updated_at == 0
        &&& m.estimate.history@.len() == 0
        &&& m.microstructure == still_flow()
        &&& m.last_trade_at == 0
        &&& m.topic@ == topic
    }

    /// Registers a market, anew where it is known.
    pub fn register_market(
        &mut self,
        market_slug: &str,
        token_id_yes: &str,
        token_id_no: &str,
        topic: &str,
    )
        ensures
            final(self).same_but_markets(*old(self)),
            final(self).markets@.contains_key(market_slug@),
            Self::is_new_market(
                final(self).markets@[market_slug@],
                market_slug@,
                token_id_yes@,
                token_id_no@,
                topic@,
            ),
            final(self).markets@ == old(self).markets@.insert(
                market_slug@,
                final(self).markets@[market_slug@],
            ),
    {
        self.markets.insert(
            market_slug.to_owned(),
            MarketState {
                estimate: ProbabilityEstimate::new(market_slug, token_id_yes, token_id_no),
                microstructure: MicrostructureState::default(),
                last_trade_at: 0,
                topic: topic.to_owned(),
            },
        );
    }

    /// The delays of orders; `ratio` is the slow delays by their baseline, which counts
    /// where there is one.
    pub fn latency_stats(&self, delays: &DelayPercentiles, ratio: Scalar) -> (r: LatencyStats)
        ensures
            r == (LatencyStats {
                p50_us: delays.p50_us,
                p90_us: delays.p90_us,
                p95_us: delays.p95_us,
                p99_us: delays.p99_us,
                sample_count: delays.count,
                baseline_p95_us: self.baseline_latency_p95,
                congestion_ratio: if self.baseline_latency_p95 > 0 {
                    ratio
                } else {
                    Scalar::Rank(ONE_RANK)
                },
            }),
    {
        LatencyStats {
            p50_us: delays.p50_us,
            p90_us: delays.p90_us,
            p95_us: delays.p95_us,
            p99_us: delays.p99_us,
            sample_count: delays.count,
            baseline_p95_us: self.baseline_latency_p95,
            congestion_ratio: if self.baseline_latency_p95 > 0 {
                ratio
            } else {
                Scalar::Rank(ONE_RANK)
            },
        }
    }

    /// Takes the slow delays as the new baseline, where they are above zero.
    pub fn update_baseline(&mut self, p95_us: u64)
        ensures
            *final(self) == (LatencyArbEngine {
                baseline_latency_p95: if p95_us > 0 {
                    p95_us
                } else {
                    old(self).baseline_latency_p95
                },
                ..*old(self)
            }),
    {
        if p95_us > 0 {
            self.baseline_latency_p95 = p95_us;
        }
    }

    /// Whether the baseline is due, by the number of delays.
    pub fn baseline_due(count: u64) -> (r: bool)
        ensures
            r == (count % 600 == 0),
    {
        count % 600 == 0
    }

    /// The estimate after a driver was taken in.
    pub open spec fn moved(
        before: ProbabilityEstimate,
        after: ProbabilityEstimate,
        driver: ProbabilityDriver,
        shifted: Scalar,
        now: i64,
    ) -> bool {
        &&& after.same_market(before)
        &&& after.uncertainty == before.uncertainty
        &&& after.updated_at == now
        &&& after.private_prob == held_between(shifted, Scalar::Rank(R_0_01), Scalar::Rank(R_0_99))
        &&& after.history@ == last_items(
            before.history@.push((now, after.private_prob)),
            KEPT_ESTIMATES as nat,
        )
        &&& after.active_drivers@ == last_items(
            before.active_drivers@.push(driver),
            KEPT_DRIVERS as nat,
        )
    }

    /// Takes the price of a market and a driver in; counts the drivers that point up and
    /// down, for the uncertainty.
    pub fn update_market_prob(
        &mut self,
        market_slug: &str,
        market_prob: Scalar,
        driver: ProbabilityDriver,
        shifted: Scalar,
        now: i64,
    ) -> (r: Option<(usize, usize)>)
        ensures
            final(self).same_but_markets(*old(self)),
            if old(self).markets@.contains_key(market_slug@) {
                let before = old(self).markets@[market_slug@];
                let after = final(self).markets@[market_slug@];
                &&& final(self).markets@ == old(self).markets@.insert(market_slug@, after)
                &&& after == (MarketState { estimate: after.estimate, ..before })
                &&& Self::moved(
                    ProbabilityEstimate { market_prob, ..before.estimate },
                    after.estimate,
                    driver,
                    shifted,
                    now,
                )
                &&& r matches Some((up, down))
                &&& up == votes(after.estimate.active_drivers@, market_prob, Lean::Bullish)
                &&& down == votes(after.estimate.active_drivers@, market_prob, Lean::Bearish)
            } else {
                r is None && final(self).markets@ == old(self).markets@
            },
    {
        match self.markets.remove(market_slug) {
            Some(state) => {
                let mut state = state;
                state.estimate.market_prob = market_prob;
                let counts = state.estimate.update(driver, shifted, now);
                self.markets.insert(market_slug.to_owned(), state);
                assert(self.markets@ =~= old(self).markets@.insert(market_slug@, state));
                Some(counts)
            },
            None => {
                assert(self.markets@ =~= old(self).markets@);
                None
            },
        }
    }

    /// Takes the uncertainty of a market in.
    pub fn settle_uncertainty(&mut self, market_slug: &str, bullish: usize, bearish: usize, worked_out: Scalar)
        ensures
            final(self).same_but_markets(*old(self)),
            if old(self).markets@.contains_key(market_slug@) {
                let before = old(self).markets@[market_slug@];
                final(self).markets@ == old(self).markets@.insert(
                    market_slug@,
                    MarketState {
                        estimate: ProbabilityEstimate {
                            uncertainty: if bullish == 0 && bearish == 0 {
                                Scalar::Rank(ONE_RANK)
                            } else {
                                worked_out
                            },
                            ..before.estimate
                        },
                        ..before
                    },
                )
            } else {
                final(self).markets@ == old(self).markets@
            },
    {
        match self.markets.remove(market_slug) {
            Some(state) => {
                let mut state = state;
                state.estimate.settle_uncertainty(bullish, bearish, worked_out);
                self.markets.insert(market_slug.to_owned(), state);
                assert(self.markets@ =~= old(self).markets@.insert(market_slug@, state));
            },
            None => {
                assert(self.markets@ =~= old(self).markets@);
            },
        }
    }

    /// Takes the order flow of a market in: signals in it drive the estimate. `bias` is
    /// the bias of the flow, and `shifted` the estimate so far, moved by it.
    pub fn update_microstructure(
        &mut self,
        market_slug: &str,
        micro: MicrostructureState,
        bid_severity: Scalar,
        ask_severity: Scalar,
        bias: Scalar,
        shifted: Scalar,
        now: i64,
    ) -> (r: Option<(usize, usize)>)
        ensures
            final(self).same_but_markets(*old(self)),
            if old(self).markets@.contains_key(market_slug@) {
                let before = old(self).markets@[market_slug@];
                let after = final(self).markets@[market_slug@];
                let signals = micro.signals(bid_severity, ask_severity);
                &&& final(self).markets@ == old(self).markets@.insert(market_slug@, after)
                &&& after == (MarketState {
                    estimate: after.estimate,
                    microstructure: micro,
                    ..before
                })
                &&& if signals.len() > 0 {
                    &&& Self::moved(
                        before.estimate,
                        after.estimate,
                        ProbabilityDriver::Microstructure {
                            bias,
                            signal_count: signals.len() as usize,
                        },
                        shifted,
                        now,
                    )
                    &&& r matches Some((up, down))
                    &&& up == votes(
                        after.estimate.active_drivers@,
                        before.estimate.market_prob,
                        Lean::Bullish,
                    )
                    &&& down == votes(
                        after.estimate.active_drivers@,
                        before.estimate.market_prob,
                        Lean::Bearish,
                    )
                } else {
                    after.estimate == before.estimate && r is None
                }
            } else {
                r is None && final(self).markets@ == old(self).markets@
            },
    {
        match self.markets.remove(market_slug) {
            Some(state) => {
                let mut state = state;
                state.microstructure = micro;
                let signals = micro.active_signals(bid_severity, ask_severity);
                let counts = if signals.len() > 0 {
                    let driver = ProbabilityDriver::Microstructure {
                        bias,
                        signal_count: signals.len(),
                    };
                    Some(state.estimate.update(driver, shifted, now))
                } else {
                    None
                };
                self.markets.insert(market_slug.to_owned(), state);
                assert(self.markets@ =~= old(self).markets@.insert(market_slug@, state));
                counts
            },
            None => {
                assert(self.markets@ =~= old(self).markets@);
                None
            },
        }
    }

    /// The stake on a market.
    pub open spec fn stake_on(self, e: ProbabilityEstimate, n: EvaluationNumbers) -> KellyResult {
        stake(
            e.private_prob,
            e.market_prob,
            n.kelly,
            KellyParams {
                bankroll: self.exposure.bankroll,
                kelly_fraction: self.config.kelly_fraction,
                max_position_pct: self.config.max_position_pct_per_market,
                min_position_usd: self.config.min_clip_usd,
            },
        )
    }

    /// Why nothing is traded on a market, if there is a reason.
    pub open spec fn obstacle(self, market_slug: Seq<char>, latency: LatencyStats, n: EvaluationNumbers, now: int) -> Option<
        NoActionReason,
    > {
        if !self.markets@.contains_key(market_slug) {
            Some(NoActionReason::NotRegistered)
        } else {
            let m = self.markets@[market_slug];
            let edge = effective(n.edge, latency, self.config);
            let size = sized_position(edge, self.stake_on(m.estimate, n), n.scaled, n.room, self.config);
            if now - m.last_trade_at < self.config.market_cooldown_sec {
                Some(
                    NoActionReason::Cooldown {
                        remaining_sec: (self.config.market_cooldown_sec - (now - m.last_trade_at)) as i128,
                    },
                )
            } else if latency.degraded(self.config.latency_degradation_threshold) {
                Some(
                    NoActionReason::Degraded {
                        congestion_ratio: latency.congestion_ratio,
                        p95_us: latency.p95_us,
                    },
                )
            } else if !edge.tradeable {
                Some(NoActionReason::Edge(edge.skip_reason))
            } else if Scalar::Rank(R_0_05).spec_lt(edge.raw_edge.spec_abs()) && !confirmed(
                m.estimate.active_drivers@,
                self.config.min_confirming_drivers,
                n.upper,
                n.lower,
            ) {
                Some(
                    NoActionReason::Unconfirmed {
                        raw_edge_abs: edge.raw_edge.spec_abs(),
                        drivers: m.estimate.active_drivers.len(),
                        needed: self.config.min_confirming_drivers,
                    },
                )
            } else {
                match size {
                    Err(e) => Some(NoActionReason::Sizing(e)),
                    Ok(_) => None,
                }
            }
        }
    }

    /// Decides what to do about a market: an edge is bought, on the outcome that it
    /// speaks for; a wide one at once, a narrow one with patience.
    pub fn evaluate_market(
        &self,
        market_slug: &str,
        orderbook: &OrderBook,
        latency: &LatencyStats,
        n: &EvaluationNumbers,
        now: i64,
    ) -> (r: TradeDecision)
        requires
            self.config.order_timeout_ms * 2 <= u64::MAX,
        ensures
            match self.obstacle(market_slug@, *latency, *n, now as int) {
                Some(why) => r == (TradeDecision::NoAction { reason: why }),
                None => {
                    let e = self.markets@[market_slug@].estimate;
                    let up = Scalar::Rank(0).spec_lt(n.edge.raw_edge);
                    let token = if up {
                        e.token_id_yes@
                    } else {
                        e.token_id_no@
                    };
                    let price = price_or_half(
                        if up {
                            orderbook.asks@
                        } else {
                            orderbook.bids@
                        },
                    );
                    let size = sized_position(
                        effective(n.edge, *latency, self.config),
                        self.stake_on(e, *n),
                        n.scaled,
                        n.room,
                        self.config,
                    )->Ok_0;
                    if n.doubled_min_edge.spec_lt(n.edge.effective_edge) {
                        &&& r matches TradeDecision::AggressiveClip {
                            token_id,
                            side,
                            price: p,
                            size_usd,
                            timeout_ms,
                        }
                        &&& token_id@ == token && side == OrderSide::Buy && p == price
                        &&& size_usd == size && timeout_ms == self.config.order_timeout_ms
                    } else {
                        &&& r matches TradeDecision::PassiveOrder {
                            token_id,
                            side,
                            price: p,
                            size_usd,
                            timeout_ms,
                        }
                        &&& token_id@ == token && side == OrderSide::Buy && p == price
                        &&& size_usd == size && timeout_ms == self.config.order_timeout_ms * 2
                    }
                },
            },
    {
        let state = match self.markets.get(market_slug) {
            Some(s) => s,
            None => {
                return TradeDecision::NoAction { reason: NoActionReason::NotRegistered };
            },
        };
        if less_than_apart(now, state.last_trade_at, self.config.market_cooldown_sec) {
            let remaining: i128 = (self.config.market_cooldown_sec as i128) - ((now as i128) - (
            state.last_trade_at as i128));
            return TradeDecision::NoAction {
                reason: NoActionReason::Cooldown { remaining_sec: remaining },
            };
        }
        if latency.is_degraded(self.config.latency_degradation_threshold) {
            return TradeDecision::NoAction {
                reason: NoActionReason::Degraded {
                    congestion_ratio: latency.congestion_ratio,
                    p95_us: latency.p95_us,
                },
            };
        }
        let edge = compute_effective_edge(&n.edge, latency, &self.config);
        if !edge.tradeable {
            return TradeDecision::NoAction { reason: NoActionReason::Edge(edge.skip_reason) };
        }
        let raw_edge_abs = edge.raw_edge.abs();
        if Scalar::Rank(R_0_05).lt(raw_edge_abs) && !state.estimate.has_confirming_drivers(
            self.config.min_confirming_drivers,
            n.upper,
            n.lower,
        ) {
            return TradeDecision::NoAction {
                reason: NoActionReason::Unconfirmed {
                    raw_edge_abs,
                    drivers: state.estimate.active_drivers.len(),
                    needed: self.config.min_confirming_drivers,
                },
            };
        }
        let params = position_params(&self.exposure, &self.config);
        let kelly = calculate_kelly_position(
            state.estimate.private_prob,
            state.estimate.market_prob,
            &n.kelly,
            &params,
        );
        let size = match compute_position_size(
            &edge,
            &kelly,
            n.scaled,
            &self.exposure,
            &n.room,
            &self.config,
        ) {
            Ok(s) => s,
            Err(e) => {
                return TradeDecision::NoAction { reason: NoActionReason::Sizing(e) };
            },
        };
        let up = Scalar::Rank(0).lt(edge.raw_edge);
        let token_id = if up {
            state.estimate.token_id_yes.clone()
        } else {
            state.estimate.token_id_no.clone()
        };
        let touch = if up {
            orderbook.best_ask()
        } else {
            orderbook.best_bid()
        };
        let price = match touch {
            Some(p) => p,
            None => Scalar::Rank(HALF_RANK),
        };
        if n.doubled_min_edge.lt(edge.effective_edge) {
            TradeDecision::AggressiveClip {
                token_id,
                side: OrderSide::Buy,
                price,
                size_usd: size,
                timeout_ms: self.config.order_timeout_ms,
            }
        } else {
            TradeDecision::PassiveOrder {
                token_id,
                side: OrderSide::Buy,
                price,
                size_usd: size,
                timeout_ms: self.config.order_timeout_ms * 2,
            }
        }
    }

    /// The name of a decision; that of no action ends in its reason.
    pub open spec fn decision_text(decision: TradeDecision, reason: Seq<char>) -> Seq<char> {
        match decision {
            TradeDecision::NoAction { reason: _ } => "NoAction: "@ + reason,
            TradeDecision::AggressiveClip { token_id, side, price, size_usd, timeout_ms } => "AggressiveClip"@,
            TradeDecision::PassiveOrder { token_id, side, price, size_usd, timeout_ms } => "PassiveOrder"@,
            TradeDecision::TwoLegArbitrage { leg1, leg2, is_true_arb } => "TwoLegArbitrage"@,
        }
    }

    /// Writes down what became of a decision. `raw_edge` is the edge of the market, which
    /// counts as zero where the market is not known, and `chance` the chance of a fill;
    /// a fill starts the cooldown of the market.
    pub fn record_execution(
        &mut self,
        market_slug: &str,
        decision: &TradeDecision,
        reason: &str,
        fill_price: Option<Scalar>,
        raw_edge: Scalar,
        chance: Scalar,
        latency: &LatencyStats,
        now: i64,
    )
        ensures
            final(self).config == old(self).config,
            final(self).exposure == old(self).exposure,
            final(self).baseline_latency_p95 == old(self).baseline_latency_p95,
            final(self).running == old(self).running,
            final(self).diagnostics.pnl == old(self).diagnostics.pnl,
            final(self).diagnostics.total_decisions == next_count(
                old(self).diagnostics.total_decisions,
            ),
            final(self).diagnostics.total_fills == count_if(
                old(self).diagnostics.total_fills,
                fill_price is Some,
            ),
            final(self).diagnostics.total_trades == count_if(
                old(self).diagnostics.total_trades,
                Self::decision_text(*decision, reason@) != "NoAction"@,
            ),
            ({
                let h = final(self).diagnostics.history@;
                &&& h.len() > 0
                &&& h == last_items(
                    old(self).diagnostics.history@.push(h.last()),
                    KEPT_DECISIONS as nat,
                )
                &&& h.last().timestamp == now
                &&& h.last().market_slug@ == market_slug@
                &&& h.last().prob_gap == if old(self).markets@.contains_key(market_slug@) {
                    raw_edge
                } else {
                    Scalar::Rank(0)
                }
                &&& h.last().predicted_edge == h.last().prob_gap
                &&& h.last().exec_probability == chance
                &&& h.last().latency_p95_us == latency.p95_us
                &&& h.last().latency_p99_us == latency.p99_us
                &&& h.last().realized_edge is None
                &&& h.last().pnl_signal_edge is None
                &&& h.last().pnl_slippage is None
                &&& h.last().pnl_latency_loss is None
                &&& h.last().pnl_total is None
                &&& h.last().decision@ == Self::decision_text(*decision, reason@)
                &&& h.last().filled == (fill_price is Some)
                &&& h.last().fill_price == fill_price
            }),
            final(self).markets@ == if fill_price is Some && old(self).markets@.contains_key(
                market_slug@,
            ) {
                old(self).markets@.insert(
                    market_slug@,
                    MarketState { last_trade_at: now, ..old(self).markets@[market_slug@] },
                )
            } else {
                old(self).markets@
            },
    {
        let prob_gap = if self.markets.contains(market_slug) {
            raw_edge
        } else {
            Scalar::Rank(0)
        };
        let filled = fill_price.is_some();
        let decision_str = match decision {
            TradeDecision::NoAction { .. } => joined("NoAction: ", reason),
            TradeDecision::AggressiveClip { .. } => "AggressiveClip".to_owned(),
            TradeDecision::PassiveOrder { .. } => "PassiveOrder".to_owned(),
            TradeDecision::TwoLegArbitrage { .. } => "TwoLegArbitrage".to_owned(),
        };
        let diag = ArbDiagnostics {
            timestamp: now,
            market_slug: market_slug.to_owned(),
            prob_gap,
            exec_probability: chance,
            latency_p95_us: latency.p95_us,
            latency_p99_us: latency.p99_us,
            predicted_edge: prob_gap,
            realized_edge: None,
            pnl_signal_edge: None,
            pnl_slippage: None,
            pnl_latency_loss: None,
            pnl_total: None,
            decision: decision_str,
            filled,
            fill_price,
        };
        let sums = self.diagnostics.pnl;
        self.diagnostics.record_decision(diag, &sums);
        if filled {
            match self.markets.remove(market_slug) {
                Some(state) => {
                    let mut state = state;
                    state.last_trade_at = now;
                    self.markets.insert(market_slug.to_owned(), state);
                    assert(self.markets@ =~= old(self).markets@.insert(market_slug@, state));
                },
                None => {
                    assert(self.markets@ =~= old(self).markets@);
                },
            }
        }
    }

    pub fn diagnostics_summary(&self, quotient: Scalar) -> (r: DiagnosticsSummary)
        ensures
            r.total_decisions == self.diagnostics.total_decisions,
            r.total_trades == self.diagnostics.total_trades,
            r.total_fills == self.diagnostics.total_fills,
            r.fill_rate == if self.diagnostics.total_trades > 0 {
                quotient
            } else {
                Scalar::Rank(0)
            },
            r.pnl == self.diagnostics.pnl,
    {
        self.diagnostics.summary(quotient)
    }
}

/// An amount that is let through is no greater than what any limit leaves, and no greater
/// than what was asked for, wherever these can be compared; nothing is let through once a
/// limit is reached. So it is with the size of a position, which also lies between the
/// clips; what is left below the least clip is refused.
pub proof fn law_exposure_stays_within_limits(
    amount: Scalar,
    room: Headroom,
    edge: EffectiveEdge,
    kelly: KellyResult,
    cfg: LatencyArbConfig,
)
    requires
        amount is Rank,
        room.market is Rank,
        room.topic is Rank,
        room.total is Rank,
        cfg.min_clip_usd is Rank,
        cfg.max_clip_usd is Rank,
    ensures
        allowed(amount, room) matches Ok(a) ==> a.spec_le(amount) && a.spec_le(room.market)
            && a.spec_le(room.topic) && a.spec_le(room.total),
        allowed(amount, room) is Err <==> room.market.spec_le(Scalar::Rank(0)) || room.topic.spec_le(
            Scalar::Rank(0),
        ) || room.total.spec_le(Scalar::Rank(0)),
        sized_position(edge, kelly, amount, room, cfg) matches Ok(s) ==> {
            &&& edge.tradeable
            &&& kelly.should_trade
            &&& s.spec_le(amount)
            &&& s.spec_le(room.market)
            &&& s.spec_le(room.topic)
            &&& s.spec_le(room.total)
            &&& cfg.min_clip_usd.spec_le(s)
            &&& s.spec_le(cfg.max_clip_usd)
        },
        allowed(amount, room) matches Ok(a) ==> a.spec_lt(cfg.min_clip_usd) ==> sized_position(
            edge,
            kelly,
            amount,
            room,
            cfg,
        ) is Err,
{
}

/// An estimate that is defined stays between one hundredth and ninety-nine.
pub proof fn law_estimate_stays_inside(shifted: Scalar)
    requires
        shifted is Rank,
    ensures
        ({
            let p = held_between(shifted, Scalar::Rank(R_0_01), Scalar::Rank(R_0_99));
            Scalar::Rank(R_0_01).spec_le(p) && p.spec_le(Scalar::Rank(R_0_99))
        }),
{
}

/// Slower orders fill no more surely: what congestion leaves of a chance never grows with
/// it.
pub proof fn law_congestion_lowers_the_chance(a: LatencyStats, b: LatencyStats)
    requires
        a.congestion_ratio.spec_le(b.congestion_ratio),
    ensures
        b.penalty().spec_le(a.penalty()),
{
}

/// A market is traded only where its edge is tradeable, its orders are not slow, it does
/// not cool down, and it is registered.
pub proof fn law_trade_needs_everything(
    e: LatencyArbEngine,
    market_slug: Seq<char>,
    latency: LatencyStats,
    n: EvaluationNumbers,
    now: int,
)
    requires
        e.obstacle(market_slug, latency, n, now) is None,
    ensures
        e.markets@.contains_key(market_slug),
        now >= e.markets@[market_slug].last_trade_at + e.config.market_cooldown_sec,
        !latency.degraded(e.config.latency_degradation_threshold),
        effective(n.edge, latency, e.config).tradeable,
        e.config.min_effective_edge.spec_lt(n.edge.effective_edge),
        !e.config.max_spread_bps.spec_lt(n.edge.spread_bps),
        !n.edge.top_liquidity.spec_lt(e.config.min_top_liquidity_usd),
        !n.room.market.spec_le(Scalar::Rank(0)),
{
}

/// A driver that points clearly up: it implies more than the upper bound, or it leans up by
/// more than a tenth.
pub open spec fn speaks_for(d: ProbabilityDriver, upper: Scalar) -> bool {
    match d {
        ProbabilityDriver::CrossMarketConsistency { implied_prob, .. } => upper.spec_lt(implied_prob),
        ProbabilityDriver::ExternalSignal { implied_prob, .. } => upper.spec_lt(implied_prob),
        ProbabilityDriver::Microstructure { bias, .. } => Scalar::Rank(R_0_1).spec_lt(bias),
        ProbabilityDriver::RelatedMarket { .. } => false,
    }
}

/// A driver that points clearly down: it implies less than the lower bound, or it leans down
/// by more than a tenth.
pub open spec fn speaks_against(d: ProbabilityDriver, lower: Scalar) -> bool {
    match d {
        ProbabilityDriver::CrossMarketConsistency { implied_prob, .. } => implied_prob.spec_lt(lower),
        ProbabilityDriver::ExternalSignal { implied_prob, .. } => implied_prob.spec_lt(lower),
        ProbabilityDriver::Microstructure { bias, .. } => bias.spec_lt(Scalar::Rank((-R_0_1) as i64)),
        ProbabilityDriver::RelatedMarket { .. } => false,
    }
}

proof fn lemma_counted_are_filtered(
    s: Seq<ProbabilityDriver>,
    f: spec_fn(ProbabilityDriver) -> bool,
    g: spec_fn(ProbabilityDriver) -> bool,
)
    requires
        forall|d: ProbabilityDriver| #[trigger] f(d) == g(d),
    ensures
        count_where(s, f) == s.filter(g).len(),
    decreases s.len(),
{
    reveal(Seq::filter);
    if s.len() > 0 {
        lemma_counted_are_filtered(s.drop_last(), f, g);
        assert(f(s.last()) == g(s.last()));
    }
}

/// An edge is confirmed exactly where there is one direction in which enough drivers clearly
/// point: drivers for a rise and drivers for a fall never confirm it together.
pub proof fn law_confirming_drivers_agree(
    e: ProbabilityEstimate,
    min_count: usize,
    upper: Scalar,
    lower: Scalar,
    r: bool,
)
    requires
        lower.spec_le(upper),
        call_ensures(ProbabilityEstimate::has_confirming_drivers, (&e, min_count, upper, lower), r),
    ensures
        r <==> e.active_drivers@.filter(|d: ProbabilityDriver| speaks_for(d, upper)).len() >= min_count
            || e.active_drivers@.filter(|d: ProbabilityDriver| speaks_against(d, lower)).len() >= min_count,
        e.active_drivers@.len() == 2 && min_count == 2 && speaks_for(e.active_drivers[0], upper)
            && speaks_against(e.active_drivers[1], lower) ==> !r,
        e.active_drivers@.len() < min_count ==> !r,
        r && min_count > 0 ==> exists|i: int|
            0 <= i < e.active_drivers.len() && (speaks_for(#[trigger] e.active_drivers[i], upper) || speaks_against(
                e.active_drivers[i],
                lower,
            )),
{
    let all = e.active_drivers@;
    let f = |d: ProbabilityDriver| d.clear_vote(upper, lower) == Lean::Bullish;
    let g = |d: ProbabilityDriver| d.clear_vote(upper, lower) == Lean::Bearish;
    let up = |d: ProbabilityDriver| speaks_for(d, upper);
    let down = |d: ProbabilityDriver| speaks_against(d, lower);
    assert forall|d: ProbabilityDriver| #[trigger] g(d) == down(d) by {
        if down(d) {
            assert(!speaks_for(d, upper));
        }
    }
    lemma_counted_are_filtered(all, f, up);
    lemma_counted_are_filtered(all, g, down);
    all.lemma_filter_len(up);
    all.lemma_filter_len(down);
    if all.len() == 2 && speaks_for(all[0], upper) && speaks_against(all[1], lower) {
        reveal_with_fuel(count_where, 3);
        assert(all.drop_last().drop_last().len() == 0);
        assert(all.drop_last().last() == all[0]);
        assert(!speaks_against(all[0], lower) && !speaks_for(all[1], upper));
    }
    if r && min_count > 0 {
        if all.filter(up).len() >= min_count {
            let x = all.filter(up)[0];
            all.lemma_filter_pred(up, 0);
            all.lemma_filter_contains_rev(up, x);
            let i = choose|i: int| 0 <= i < all.len() && all[i] == x;
            assert(speaks_for(e.active_drivers[i], upper));
        } else {
            let x = all.filter(down)[0];
            all.lemma_filter_pred(down, 0);
            all.lemma_filter_contains_rev(down, x);
            let i = choose|i: int| 0 <= i < all.len() && all[i] == x;
            assert(speaks_against(e.active_drivers[i], lower));
        }
    }
}

/// What is traded is what speaks for itself: an edge above zero buys the outcome that comes
/// true at its ask, any other edge the outcome that does not; nothing is bought unless the
/// market is known, does not cool down, its orders are not slow, its edge is worth it once
/// costs count, a large edge is confirmed, and the stake fits. A wide edge is taken at once
/// and a narrow one with twice the patience.
pub proof fn law_decision_follows_the_edge(
    engine: LatencyArbEngine,
    market_slug: &str,
    book: OrderBook,
    latency: LatencyStats,
    n: EvaluationNumbers,
    now: i64,
    r: TradeDecision,
    confirmed_by_drivers: bool,
)
    requires
        engine.config.order_timeout_ms * 2 <= u64::MAX,
        call_ensures(LatencyArbEngine::evaluate_market, (&engine, market_slug, &book, &latency, &n, now), r),
        call_ensures(
            ProbabilityEstimate::has_confirming_drivers,
            (
                &engine.markets@[market_slug@].estimate,
                engine.config.min_confirming_drivers,
                n.upper,
                n.lower,
            ),
            confirmed_by_drivers,
        ),
    ensures
        !(r is TwoLegArbitrage),
        !(r is NoAction) ==> {
            let m = engine.markets@[market_slug@];
            let (token_id, side, price, size_usd) = match r {
                TradeDecision::AggressiveClip { token_id, side, price, size_usd, timeout_ms } => (
                    token_id@,
                    side,
                    price,
                    size_usd,
                ),
                TradeDecision::PassiveOrder { token_id, side, price, size_usd, timeout_ms } => (
                    token_id@,
                    side,
                    price,
                    size_usd,
                ),
                _ => arbitrary(),
            };
            &&& engine.markets@.contains_key(market_slug@)
            &&& now - m.last_trade_at >= engine.config.market_cooldown_sec
            &&& latency.baseline_p95_us == 0 || !engine.config.latency_degradation_threshold.spec_lt(
                latency.congestion_ratio,
            )
            &&& engine.config.min_effective_edge.spec_lt(n.edge.effective_edge)
            &&& !engine.config.max_spread_bps.spec_lt(n.edge.spread_bps)
            &&& !n.edge.top_liquidity.spec_lt(engine.config.min_top_liquidity_usd)
            &&& Scalar::Rank(R_0_05).spec_lt(n.edge.raw_edge) ==> confirmed_by_drivers
            &&& n.edge.raw_edge.spec_lt(Scalar::Rank((-R_0_05) as i64)) && n.edge.raw_edge.wf()
                ==> confirmed_by_drivers
            &&& side == OrderSide::Buy
            &&& Scalar::Rank(0).spec_lt(n.edge.raw_edge) ==> token_id == m.estimate.token_id_yes@ && price == (
            if book.asks.len() > 0 {
                book.asks[0].price
            } else {
                Scalar::Rank(HALF_RANK)
            })
            &&& n.edge.raw_edge.spec_le(Scalar::Rank(0)) ==> token_id == m.estimate.token_id_no@ && price == (
            if book.bids.len() > 0 {
                book.bids[0].price
            } else {
                Scalar::Rank(HALF_RANK)
            })
            &&& n.scaled is Rank && n.room.market is Rank && n.room.topic is Rank && n.room.total is Rank
                && engine.config.max_clip_usd is Rank ==> size_usd.spec_le(n.scaled) && size_usd.spec_le(
                n.room.market,
            ) && size_usd.spec_le(n.room.topic) && size_usd.spec_le(n.room.total) && size_usd.spec_le(
                engine.config.max_clip_usd,
            ) && !size_usd.spec_lt(engine.config.min_clip_usd)
        },
        r matches TradeDecision::AggressiveClip { token_id, side, price, size_usd, timeout_ms } ==> {
            &&& n.doubled_min_edge.spec_lt(n.edge.effective_edge)
            &&& timeout_ms == engine.config.order_timeout_ms
        },
        r matches TradeDecision::PassiveOrder { token_id, side, price, size_usd, timeout_ms } ==> {
            &&& !n.doubled_min_edge.spec_lt(n.edge.effective_edge)
            &&& timeout_ms == engine.config.order_timeout_ms + engine.config.order_timeout_ms
        },
        !engine.markets@.contains_key(market_slug@) ==> r == (TradeDecision::NoAction {
            reason: NoActionReason::NotRegistered,
        }),
{
}

/// An edge is tradeable exactly where the spread is not too wide, the best ask is worth
/// enough, more than the least edge is left, and orders are not slow; the reason why it is
/// not is the first of these.
pub proof fn law_edge_is_worth_its_costs(n: EdgeNumbers, latency: LatencyStats, cfg: LatencyArbConfig, r: EffectiveEdge)
    requires
        call_ensures(compute_effective_edge, (&n, &latency, &cfg), r),
    ensures
        ({
            let wide = cfg.max_spread_bps.spec_lt(n.spread_bps);
            let thin = n.top_liquidity.spec_lt(cfg.min_top_liquidity_usd);
            let slow = latency.baseline_p95_us != 0 && cfg.latency_degradation_threshold.spec_lt(
                latency.congestion_ratio,
            );
            &&& r.tradeable <==> !wide && !thin && !slow && cfg.min_effective_edge.spec_lt(n.effective_edge)
            &&& r.raw_edge == n.raw_edge
            &&& r.skip_reason is None <==> r.tradeable
            &&& wide ==> r.skip_reason == Some(
                EdgeSkip::WideSpread { spread_bps: n.spread_bps, max_spread_bps: cfg.max_spread_bps },
            )
            &&& !wide && thin ==> r.skip_reason is Some && r.skip_reason->0 is ThinTop
            &&& !wide && !thin && slow ==> r.skip_reason is Some && r.skip_reason->0 is Degraded
            &&& !wide && !thin && !slow && !r.tradeable ==> r.skip_reason is Some && r.skip_reason->0 is BelowMinimum
            &&& !wide && !thin ==> r.effective_edge == n.effective_edge && r.fee_cost == cfg.fee_rate_taker
                && r.fill_probability == n.fill_probability && r.expected_slippage == n.expected_slippage
            &&& wide || thin ==> r.effective_edge == Scalar::Rank(0)
        }),
{
}

/// The chance of a fill is one half while fewer than ten delays are known, a tenth where the
/// slow ones are too slow, and lies between a tenth and ninety-five hundredths elsewhere.
pub proof fn law_chance_lies_within_its_bounds(s: LatencyStats, max_us: u64, penalized: Scalar, r: Scalar)
    requires
        penalized is Rank,
        call_ensures(LatencyStats::fill_probability, (&s, max_us, penalized), r),
    ensures
        Scalar::Rank(R_0_1).spec_le(r) && r.spec_le(Scalar::Rank(R_0_95)),
        s.sample_count < 10 ==> r == Scalar::Rank(HALF_RANK),
        s.sample_count >= 10 && s.p95_us >= max_us ==> r == Scalar::Rank(R_0_1),
        s.sample_count >= 10 && s.p95_us < max_us && Scalar::Rank(R_0_1).spec_le(penalized) && penalized.spec_le(
            Scalar::Rank(R_0_95),
        ) ==> r == penalized,
{
}

/// Congestion takes a fifth of a chance above one and a half times the baseline, a tenth
/// above six fifths of it, and nothing below.
pub proof fn law_congestion_takes_its_share(s: LatencyStats, r: Scalar, slow: bool, threshold: Scalar)
    requires
        call_ensures(LatencyStats::congestion_penalty, (&s,), r),
        call_ensures(LatencyStats::is_degraded, (&s, threshold), slow),
    ensures
        Scalar::Rank(R_1_5).spec_lt(s.congestion_ratio) ==> r == Scalar::Rank(R_0_8),
        Scalar::Rank(R_1_2).spec_lt(s.congestion_ratio) && !Scalar::Rank(R_1_5).spec_lt(s.congestion_ratio) ==> r
            == Scalar::Rank(R_0_9),
        !Scalar::Rank(R_1_2).spec_lt(s.congestion_ratio) ==> r == Scalar::Rank(ONE_RANK),
        slow ==> threshold.spec_lt(s.congestion_ratio) && s.baseline_p95_us > 0,
        s.baseline_p95_us > 0 && threshold.spec_lt(s.congestion_ratio) ==> slow,
{
}

/// What may be added to a stake is no more than was asked for and no more than any limit
/// leaves, and one of these; where a limit leaves nothing, it is named, the market before
/// the topic before the total.
pub proof fn law_limits_let_through_what_they_leave(
    t: ExposureTracker,
    amount: Scalar,
    room: Headroom,
    r: Result<Scalar, ExposureError>,
)
    requires
        amount is Rank,
        room.market is Rank,
        room.topic is Rank,
        room.total is Rank,
        call_ensures(ExposureTracker::can_add_exposure, (&t, amount, &room), r),
    ensures
        r matches Ok(a) ==> {
            &&& a.spec_le(amount) && a.spec_le(room.market) && a.spec_le(room.topic) && a.spec_le(room.total)
            &&& a == amount || a == room.market || a == room.topic || a == room.total
        },
        r is Ok <==> Scalar::Rank(0).spec_lt(room.market) && Scalar::Rank(0).spec_lt(room.topic)
            && Scalar::Rank(0).spec_lt(room.total),
        room.market.spec_le(Scalar::Rank(0)) ==> r == Err::<Scalar, ExposureError>(ExposureError::Market),
        Scalar::Rank(0).spec_lt(room.market) && room.topic.spec_le(Scalar::Rank(0)) ==> r == Err::<
            Scalar,
            ExposureError,
        >(ExposureError::Topic),
        Scalar::Rank(0).spec_lt(room.market) && Scalar::Rank(0).spec_lt(room.topic) && room.total.spec_le(
            Scalar::Rank(0),
        ) ==> r == Err::<Scalar, ExposureError>(ExposureError::Total),
{
}

/// A position is sized within the limits and the clips, only for an edge and a stake that
/// are worth it.
pub proof fn law_position_lies_between_the_clips(
    edge: EffectiveEdge,
    kelly: KellyResult,
    scaled: Scalar,
    t: ExposureTracker,
    room: Headroom,
    cfg: LatencyArbConfig,
    r: Result<Scalar, SizeError>,
)
    requires
        scaled is Rank,
        room.market is Rank,
        room.topic is Rank,
        room.total is Rank,
        cfg.min_clip_usd is Rank,
        cfg.max_clip_usd is Rank,
        call_ensures(compute_position_size, (&edge, &kelly, scaled, &t, &room, &cfg), r),
    ensures
        r matches Ok(s) ==> {
            &&& edge.tradeable && kelly.should_trade
            &&& cfg.min_clip_usd.spec_le(s) && s.spec_le(cfg.max_clip_usd)
            &&& s.spec_le(scaled) && s.spec_le(room.market) && s.spec_le(room.topic) && s.spec_le(room.total)
            &&& s == scaled || s == room.market || s == room.topic || s == room.total || s == cfg.max_clip_usd
        },
        !edge.tradeable ==> r == Err::<Scalar, SizeError>(SizeError::NotTradeable(edge.skip_reason)),
        edge.tradeable && !kelly.should_trade ==> r == Err::<Scalar, SizeError>(
            SizeError::NoStake(kelly.skip_reason),
        ),
        edge.tradeable && kelly.should_trade && cfg.min_clip_usd.spec_le(scaled) && cfg.min_clip_usd.spec_le(
            room.market,
        ) && cfg.min_clip_usd.spec_le(room.topic) && cfg.min_clip_usd.spec_le(room.total)
            && cfg.min_clip_usd.spec_le(cfg.max_clip_usd) && Scalar::Rank(0).spec_lt(cfg.min_clip_usd) ==> r is Ok,
{
}

/// What is at stake is what was noted last: adding and taking away concern one market and
/// one topic, and nothing falls below zero.
pub proof fn law_stakes_are_noted(
    t: &mut ExposureTracker,
    market: &str,
    topic: &str,
    after: ExposureAfter,
    noted: ExposureTracker,
    lower: &mut ExposureTracker,
    less: ExposureAfter,
    in_market: Scalar,
    left: ExposureTracker,
    left_in_market: Scalar,
    left_in_topic: Scalar,
    other: &str,
    before: ExposureTracker,
    other_before: Scalar,
    other_after: Scalar,
)
    requires
        call_ensures(ExposureTracker::add_exposure, (t, market, topic, &after), ()),
        before == *old(t),
        noted == *final(t),
        *old(lower) == noted,
        call_ensures(ExposureTracker::remove_exposure, (lower, market, topic, &less), ()),
        left == *final(lower),
        call_ensures(ExposureTracker::market_exposure, (&noted, market), in_market),
        call_ensures(ExposureTracker::market_exposure, (&left, market), left_in_market),
        call_ensures(ExposureTracker::topic_exposure, (&left, topic), left_in_topic),
        other@ != market@,
        call_ensures(ExposureTracker::market_exposure, (&before, other), other_before),
        call_ensures(ExposureTracker::market_exposure, (&left, other), other_after),
    ensures
        in_market == after.market,
        noted.total_exposure == after.total,
        noted.bankroll == before.bankroll && left.bankroll == before.bankroll,
        Scalar::Rank(0).spec_le(less.market) ==> left_in_market == less.market,
        less.market.spec_lt(Scalar::Rank(0)) ==> left_in_market == Scalar::Rank(0),
        Scalar::Rank(0).spec_le(less.topic) ==> left_in_topic == less.topic,
        Scalar::Rank(0).spec_le(less.total) ==> left.total_exposure == less.total,
        less.total.spec_lt(Scalar::Rank(0)) ==> left.total_exposure == Scalar::Rank(0),
        other_after == other_before,
{
}

/// A trade in both outcomes buys each at its ask, where both have one and cost less than
/// they pay; it is sure where both fills are likely enough.
pub proof fn law_pair_buys_both_outcomes(
    yes: OrderBook,
    no: OrderBook,
    yes_token: &str,
    no_token: &str,
    n: PairNumbers,
    cfg: LatencyArbConfig,
    r: Option<TwoLegArb>,
)
    requires
        n.cost_limit is Rank,
        n.total_cost is Rank,
        call_ensures(TwoLegArb::from_yes_no_markets, (&yes, &no, yes_token, no_token, &n, &cfg), r),
    ensures
        r is Some <==> yes.asks.len() > 0 && no.asks.len() > 0 && n.total_cost.spec_lt(n.cost_limit),
        r matches Some(t) ==> {
            &&& t.leg1_token@ == yes_token@ && t.leg1_price == yes.asks[0].price && t.leg1_side == OrderSide::Buy
            &&& t.leg2_token@ == no_token@ && t.leg2_price == no.asks[0].price && t.leg2_side == OrderSide::Buy
            &&& t.is_true_arb <==> cfg.two_leg_min_completion_prob.spec_le(n.combined_fill_prob)
            &&& t.gross_profit_pct == n.gross_profit_pct && t.combined_fill_prob == n.combined_fill_prob
        },
{
}

/// A decision becomes the order that it is: the same token, side, price and size, at once
/// for an aggressive one and resting for a passive one; no action is no order. Of a pair the
/// first leg comes first, and the second only where it is sure or the first was filled.
pub proof fn law_decision_becomes_its_order(
    d: TradeDecision,
    r: Option<(OrderRequest, u64)>,
    first: &TradeDecision,
    filled: bool,
    next: Option<&TradeDecision>,
)
    requires
        call_ensures(execute_single_leg, (&d,), r),
        call_ensures(first_leg, (&d,), first),
        call_ensures(execute_decision, (&d, filled), next),
    ensures
        d is NoAction || d is TwoLegArbitrage ==> r is None,
        d matches TradeDecision::AggressiveClip { token_id, side, price, size_usd, timeout_ms } ==> r is Some
            && (r->0).0.token_id@ == token_id@ && (r->0).0.side == side && (r->0).0.price == price
            && (r->0).0.notional_usdc == size_usd && (r->0).0.tif == TimeInForce::Ioc && (r->0).1 == timeout_ms,
        d matches TradeDecision::PassiveOrder { token_id, side, price, size_usd, timeout_ms } ==> r is Some
            && (r->0).0.token_id@ == token_id@ && (r->0).0.side == side && (r->0).0.price == price
            && (r->0).0.notional_usdc == size_usd && (r->0).0.tif == TimeInForce::Gtc && (r->0).1 == timeout_ms,
        d matches TradeDecision::TwoLegArbitrage { leg1, leg2, is_true_arb } ==> *first == *leg1 && (next is Some
            <==> is_true_arb || filled) && (next matches Some(x) ==> *x == *leg2),
        !(d is TwoLegArbitrage) ==> *first == d && next is None,
{
}

/// A driver moves the estimate to where it says, between one hundredth and ninety-nine, and
/// is the last of at most ten that count; the price of the market and its tokens stay. The
/// drivers that are counted are those that point up and those that point down.
pub proof fn law_driver_moves_the_estimate(
    e: &mut ProbabilityEstimate,
    driver: ProbabilityDriver,
    shifted: Scalar,
    now: i64,
    r: (usize, usize),
)
    requires
        shifted is Rank,
        old(e).active_drivers.len() <= 10,
        call_ensures(ProbabilityEstimate::update, (e, driver, shifted, now), r),
    ensures
        Scalar::Rank(R_0_01).spec_le(final(e).private_prob) && final(e).private_prob.spec_le(Scalar::Rank(R_0_99)),
        Scalar::Rank(R_0_01).spec_le(shifted) && shifted.spec_le(Scalar::Rank(R_0_99)) ==> final(e).private_prob
            == shifted,
        final(e).market_prob == old(e).market_prob,
        final(e).token_id_yes == old(e).token_id_yes && final(e).token_id_no == old(e).token_id_no,
        final(e).updated_at == now,
        final(e).active_drivers.len() <= 10,
        final(e).active_drivers.len() >= 1 && final(e).active_drivers@.last() == driver,
        old(e).active_drivers.len() < 10 ==> final(e).active_drivers@ == old(e).active_drivers@.push(driver),
        final(e).history@.last() == (now, final(e).private_prob),
        final(e).history@.len() <= 1000 || old(e).history@.len() > 1000,
        r.0 == final(e).active_drivers@.filter(
            |d: ProbabilityDriver|
                match d {
                    ProbabilityDriver::CrossMarketConsistency { implied_prob, .. } => old(e).market_prob.spec_lt(
                        implied_prob,
                    ),
                    ProbabilityDriver::Microstructure { bias, .. } => Scalar::Rank(0).spec_lt(bias),
                    _ => false,
                },
        ).len(),
{
    let m = old(e).market_prob;
    let f = |d: ProbabilityDriver| d.vote(m) == Lean::Bullish;
    let g = |d: ProbabilityDriver|
        match d {
            ProbabilityDriver::CrossMarketConsistency { implied_prob, .. } => m.spec_lt(implied_prob),
            ProbabilityDriver::Microstructure { bias, .. } => Scalar::Rank(0).spec_lt(bias),
            _ => false,
        };
    lemma_counted_are_filtered(final(e).active_drivers@, f, g);
}

/// A driver moves as its kind says: towards what it implies, by its difference, or as far as
/// the flow leans.
pub proof fn law_kind_of_driver_moves_as_it_says(d: ProbabilityDriver, r: DriverShift)
    requires
        call_ensures(ProbabilityDriver::shift_of, (&d,), r),
    ensures
        d matches ProbabilityDriver::CrossMarketConsistency { implied_prob, confidence } ==> r
            == (DriverShift::Toward { target: implied_prob, confidence }),
        d matches ProbabilityDriver::ExternalSignal { source, implied_prob } ==> r == (DriverShift::Toward {
            target: implied_prob,
            confidence: Scalar::Rank(R_0_7),
        }),
        d matches ProbabilityDriver::RelatedMarket { market_slug, implied_delta } ==> r == (DriverShift::By {
            delta: implied_delta,
            confidence: Scalar::Rank(HALF_RANK),
        }),
        d matches ProbabilityDriver::Microstructure { bias, signal_count } ==> r == (DriverShift::Lean {
            bias,
            signal_count,
        }),
{
}

/// The uncertainty is whole while no driver points anywhere, and what was worked out once
/// one does.
pub proof fn law_uncertainty_needs_votes(e: &mut ProbabilityEstimate, up: usize, down: usize, worked_out: Scalar)
    requires
        call_ensures(ProbabilityEstimate::settle_uncertainty, (e, up, down, worked_out), ()),
    ensures
        up == 0 && down == 0 ==> final(e).uncertainty == Scalar::Rank(ONE_RANK),
        up > 0 || down > 0 ==> final(e).uncertainty == worked_out,
        final(e).private_prob == old(e).private_prob,
{
}

/// Each signal in the flow is there exactly where its measure is past its bound.
pub proof fn law_flow_signals_are_past_their_bounds(
    m: MicrostructureState,
    bid_severity: Scalar,
    ask_severity: Scalar,
    r: Vec<MicrostructureSignal>,
)
    requires
        m.taker_imbalance.wf(),
        call_ensures(MicrostructureState::active_signals, (&m, bid_severity, ask_severity), r),
    ensures
        r@.contains(MicrostructureSignal::TakerImbalance(m.taker_imbalance)) <==> Scalar::Rank(R_0_2).spec_lt(
            m.taker_imbalance,
        ) || m.taker_imbalance.spec_lt(Scalar::Rank((-R_0_2) as i64)),
        r@.contains(MicrostructureSignal::CancellationBurst) <==> Scalar::Rank(R_5).spec_lt(m.cancel_rate),
        r@.contains(
            MicrostructureSignal::DepthThinning { side: OrderSide::Buy, severity: bid_severity },
        ) <==> m.bid_depth_ratio.spec_lt(Scalar::Rank(HALF_RANK)),
        r@.contains(
            MicrostructureSignal::DepthThinning { side: OrderSide::Sell, severity: ask_severity },
        ) <==> m.ask_depth_ratio.spec_lt(Scalar::Rank(HALF_RANK)),
        r@.contains(MicrostructureSignal::RepeatedLifts(m.lift_count)) <==> m.lift_count >= 4,
        r@.contains(MicrostructureSignal::RepeatedHits(m.hit_count)) <==> m.hit_count >= 4,
        r@.contains(MicrostructureSignal::SpreadWidening(m.spread_ratio)) <==> Scalar::Rank(R_1_5).spec_lt(
            m.spread_ratio,
        ),
        r.len() <= 7,
{
    let a = item_if(
        Scalar::Rank(R_0_2).spec_lt(m.taker_imbalance.spec_abs()),
        MicrostructureSignal::TakerImbalance(m.taker_imbalance),
    );
    let b = item_if(Scalar::Rank(R_5).spec_lt(m.cancel_rate), MicrostructureSignal::CancellationBurst);
    let c = item_if(
        m.bid_depth_ratio.spec_lt(Scalar::Rank(HALF_RANK)),
        MicrostructureSignal::DepthThinning { side: OrderSide::Buy, severity: bid_severity },
    );
    let d = item_if(
        m.ask_depth_ratio.spec_lt(Scalar::Rank(HALF_RANK)),
        MicrostructureSignal::DepthThinning { side: OrderSide::Sell, severity: ask_severity },
    );
    let e = item_if(m.lift_count > 3, MicrostructureSignal::RepeatedLifts(m.lift_count));
    let f = item_if(m.hit_count > 3, MicrostructureSignal::RepeatedHits(m.hit_count));
    let g = item_if(
        Scalar::Rank(R_1_5).spec_lt(m.spread_ratio),
        MicrostructureSignal::SpreadWidening(m.spread_ratio),
    );
    assert(r@ == a + b + c + d + e + f + g);
    assert forall|x: MicrostructureSignal| #[trigger] r@.contains(x) <==> a.contains(x) || b.contains(x) || c.contains(
        x,
    ) || d.contains(x) || e.contains(x) || f.contains(x) || g.contains(x) by {
        lemma_in_either(a, b, x);
        lemma_in_either(a + b, c, x);
        lemma_in_either(a + b + c, d, x);
        lemma_in_either(a + b + c + d, e, x);
        lemma_in_either(a + b + c + d + e, f, x);
        lemma_in_either(a + b + c + d + e + f, g, x);
    }
    assert forall|wanted: bool, item: MicrostructureSignal, x: MicrostructureSignal| #[trigger]
        item_if(wanted, item).contains(x) <==> wanted && x == item by {
        if wanted {
            assert(seq![item][0] == item);
        }
    }
}

proof fn lemma_in_either<T>(s: Seq<T>, t: Seq<T>, x: T)
    ensures
        (s + t).contains(x) <==> s.contains(x) || t.contains(x),
{
    if s.contains(x) {
        let i = choose|i: int| 0 <= i < s.len() && s[i] == x;
        assert((s + t)[i] == x);
    }
    if t.contains(x) {
        let i = choose|i: int| 0 <= i < t.len() && t[i] == x;
        assert((s + t)[s.len() + i] == x);
    }
}

/// A bias lies between minus one and one, and is the weighed sum where that does.
pub proof fn law_bias_is_held(m: MicrostructureState, weighed: Scalar, r: Scalar)
    requires
        weighed is Rank,
        call_ensures(MicrostructureState::directional_bias, (&m, weighed), r),
    ensures
        Scalar::Rank((-ONE_RANK) as i64).spec_le(r) && r.spec_le(Scalar::Rank(ONE_RANK)),
        Scalar::Rank((-ONE_RANK) as i64).spec_le(weighed) && weighed.spec_le(Scalar::Rank(ONE_RANK)) ==> r == weighed,
{
}

/// After a fill the market is not traded until its cooldown is over; what was not filled
/// leaves every market as it was.
pub proof fn law_filled_market_cools_down(
    engine: &mut LatencyArbEngine,
    market_slug: &str,
    decision: TradeDecision,
    reason: &str,
    fill_price: Option<Scalar>,
    raw_edge: Scalar,
    chance: Scalar,
    latency: LatencyStats,
    at: i64,
    after: LatencyArbEngine,
    book: OrderBook,
    n: EvaluationNumbers,
    now: i64,
    r: TradeDecision,
)
    requires
        old(engine).config.order_timeout_ms * 2 <= u64::MAX,
        call_ensures(
            LatencyArbEngine::record_execution,
            (engine, market_slug, &decision, reason, fill_price, raw_edge, chance, &latency, at),
            (),
        ),
        after == *final(engine),
        call_ensures(LatencyArbEngine::evaluate_market, (&after, market_slug, &book, &latency, &n, now), r),
    ensures
        fill_price is Some && now < at + old(engine).config.market_cooldown_sec ==> r is NoAction,
        fill_price is None ==> after.markets@ == old(engine).markets@,
        after.exposure == old(engine).exposure && after.config == old(engine).config,
        after.diagnostics.history@.len() > 0,
        after.diagnostics.history@.last().filled <==> fill_price is Some,
        after.diagnostics.history@.last().fill_price == fill_price,
        after.diagnostics.history@.last().market_slug@ == market_slug@,
        decision is AggressiveClip ==> after.diagnostics.history@.last().decision@ == "AggressiveClip"@,
        decision is PassiveOrder ==> after.diagnostics.history@.last().decision@ == "PassiveOrder"@,
        decision is TwoLegArbitrage ==> after.diagnostics.history@.last().decision@ == "TwoLegArbitrage"@,
        decision is NoAction ==> after.diagnostics.history@.last().decision@ == "NoAction: "@ + reason@,
        fill_price is Some && old(engine).diagnostics.total_fills < u64::MAX ==> after.diagnostics.total_fills
            == old(engine).diagnostics.total_fills + 1,
        fill_price is None ==> after.diagnostics.total_fills == old(engine).diagnostics.total_fills,
{
}

/// A market that was registered is known, at even odds, with its tokens each in its place,
/// and never traded; the other markets are left alone.
pub proof fn law_registered_market_is_new(
    engine: &mut LatencyArbEngine,
    slug: &str,
    yes: &str,
    no: &str,
    topic: &str,
    other: Seq<char>,
)
    requires
        call_ensures(LatencyArbEngine::register_market, (engine, slug, yes, no, topic), ()),
        other != slug@,
    ensures
        final(engine).markets@.contains_key(slug@),
        ({
            let m = final(engine).markets@[slug@];
            &&& m.estimate.token_id_yes@ == yes@ && m.estimate.token_id_no@ == no@
            &&& m.topic@ == topic@ && m.estimate.market_slug@ == slug@
            &&& m.estimate.private_prob == Scalar::Rank(HALF_RANK) && m.estimate.market_prob == Scalar::Rank(HALF_RANK)
            &&& m.last_trade_at == 0 && m.estimate.active_drivers.len() == 0
        }),
        final(engine).markets@.contains_key(other) == old(engine).markets@.contains_key(other),
        old(engine).markets@.contains_key(other) ==> final(engine).markets@[other] == old(engine).markets@[other],
{
}

/// The price of a market and its driver reach that market alone.
pub proof fn law_price_reaches_its_market(
    engine: &mut LatencyArbEngine,
    slug: &str,
    market_prob: Scalar,
    driver: ProbabilityDriver,
    shifted: Scalar,
    now: i64,
    r: Option<(usize, usize)>,
    other: Seq<char>,
)
    requires
        call_ensures(
            LatencyArbEngine::update_market_prob,
            (engine, slug, market_prob, driver, shifted, now),
            r,
        ),
        other != slug@,
    ensures
        r is Some <==> old(engine).markets@.contains_key(slug@),
        r is Some ==> {
            let m = final(engine).markets@[slug@];
            let b = old(engine).markets@[slug@];
            &&& m.estimate.market_prob == market_prob
            &&& m.estimate.token_id_yes == b.estimate.token_id_yes && m.estimate.token_id_no
                == b.estimate.token_id_no
            &&& m.last_trade_at == b.last_trade_at && m.topic == b.topic && m.microstructure == b.microstructure
            &&& Scalar::Rank(R_0_01).spec_le(shifted) && shifted.spec_le(Scalar::Rank(R_0_99))
                ==> m.estimate.private_prob == shifted
            &&& m.estimate.active_drivers@.len() > 0 && m.estimate.active_drivers@.last() == driver
        },
        final(engine).markets@.contains_key(other) == old(engine).markets@.contains_key(other),
        old(engine).markets@.contains_key(other) ==> final(engine).markets@[other] == old(engine).markets@[other],
{
}

/// The flow of a market is kept, and drives its estimate exactly where it holds a signal.
pub proof fn law_flow_drives_where_it_signals(
    engine: &mut LatencyArbEngine,
    slug: &str,
    micro: MicrostructureState,
    bid: Scalar,
    ask: Scalar,
    bias: Scalar,
    shifted: Scalar,
    now: i64,
    r: Option<(usize, usize)>,
    signals: Vec<MicrostructureSignal>,
)
    requires
        old(engine).markets@.contains_key(slug@),
        call_ensures(
            LatencyArbEngine::update_microstructure,
            (engine, slug, micro, bid, ask, bias, shifted, now),
            r,
        ),
        call_ensures(MicrostructureState::active_signals, (&micro, bid, ask), signals),
    ensures
        r is Some <==> signals.len() > 0,
        final(engine).markets@[slug@].microstructure == micro,
        signals.len() == 0 ==> final(engine).markets@[slug@].estimate == old(engine).markets@[slug@].estimate,
        signals.len() > 0 ==> final(engine).markets@[slug@].estimate.active_drivers@.len() > 0 && (
        final(engine).markets@[slug@].estimate.active_drivers@.last() matches ProbabilityDriver::Microstructure {
            bias: b,
            signal_count,
        } && b == bias && signal_count == signals.len()),
        final(engine).markets@[slug@].last_trade_at == old(engine).markets@[slug@].last_trade_at,
{
}

/// The baseline follows the slow delays, and what is slow is told against it; without a
/// baseline nothing is slow.
pub proof fn law_baseline_is_what_was_measured(
    engine: &mut LatencyArbEngine,
    p95: u64,
    after: LatencyArbEngine,
    d: DelayPercentiles,
    ratio: Scalar,
    s: LatencyStats,
    count: u64,
    due: bool,
)
    requires
        call_ensures(LatencyArbEngine::update_baseline, (engine, p95), ()),
        after == *final(engine),
        call_ensures(LatencyArbEngine::latency_stats, (&after, &d, ratio), s),
        call_ensures(LatencyArbEngine::baseline_due, (count,), due),
    ensures
        p95 > 0 ==> s.baseline_p95_us == p95 && s.congestion_ratio == ratio,
        p95 == 0 ==> s.baseline_p95_us == old(engine).baseline_latency_p95,
        s.baseline_p95_us == 0 ==> s.congestion_ratio == Scalar::Rank(ONE_RANK),
        s.p50_us == d.p50_us && s.p90_us == d.p90_us && s.p95_us == d.p95_us && s.p99_us == d.p99_us,
        s.sample_count == d.count,
        due <==> count % 600 == 0,
        after.markets == old(engine).markets,
{
}

/// Each decision is counted once, as a trade unless it is no action, and as a fill where it
/// was filled; profits count where they are known, and the last decisions are kept.
pub proof fn law_decision_is_counted_once(t: &mut DiagnosticsTracker, diag: ArbDiagnostics, sums: PnlTotals)
    requires
        old(t).total_decisions < u64::MAX,
        old(t).total_trades < u64::MAX,
        old(t).total_fills < u64::MAX,
        old(t).history@.len() <= 10_000,
        call_ensures(DiagnosticsTracker::record_decision, (t, diag, &sums), ()),
    ensures
        final(t).total_decisions == old(t).total_decisions + 1,
        diag.decision@ == "NoAction"@ ==> final(t).total_trades == old(t).total_trades,
        diag.decision@ != "NoAction"@ ==> final(t).total_trades == old(t).total_trades + 1,
        diag.filled ==> final(t).total_fills == old(t).total_fills + 1,
        !diag.filled ==> final(t).total_fills == old(t).total_fills,
        diag.pnl_total is Some ==> final(t).pnl.total == sums.total,
        diag.pnl_total is None ==> final(t).pnl.total == old(t).pnl.total,
        diag.pnl_signal_edge is Some ==> final(t).pnl.signal_edge == sums.signal_edge,
        diag.pnl_signal_edge is None ==> final(t).pnl.signal_edge == old(t).pnl.signal_edge,
        diag.pnl_slippage is Some ==> final(t).pnl.slippage == sums.slippage,
        diag.pnl_latency_loss is Some ==> final(t).pnl.latency_loss == sums.latency_loss,
        final(t).history@.len() <= 10_000,
        final(t).history@.len() > 0 && final(t).history@.last() == diag,
        old(t).history@.len() < 10_000 ==> final(t).history@ == old(t).history@.push(diag),
{
}

/// The best prices of a book are its first bid and its first ask, zero and one where there
/// is none.
pub proof fn law_touch_is_the_first_level(book: OrderBook, r: (Scalar, Scalar), mid: Scalar, worked_out: Scalar, bps: Scalar)
    requires
        call_ensures(touch_of, (&book,), r),
        call_ensures(spread_bps_of, (mid, worked_out), bps),
    ensures
        book.bids.len() > 0 ==> r.0 == book.bids[0].price,
        book.bids.len() == 0 ==> r.0 == Scalar::Rank(0),
        book.asks.len() > 0 ==> r.1 == book.asks[0].price,
        book.asks.len() == 0 ==> r.1 == Scalar::Rank(ONE_RANK),
        Scalar::Rank(0).spec_lt(mid) ==> bps == worked_out,
        mid.spec_le(Scalar::Rank(0)) ==> bps == Scalar::Rank(R_10000),
{
}

/// Each setting is what its variable says, where that lies within its bounds, and lies within
/// them whatever the variables say.
pub proof fn law_latency_takes_its_settings(env: Environment, r: LatencyArbConfig)
    requires
        call_ensures(LatencyArbConfig::from_env, (&env,), r),
    ensures
        set_above_zero(env, "LATENCY_ARB_MIN_EDGE"@, r.min_effective_edge),
        set_up_to(env, "LATENCY_ARB_KELLY_FRACTION"@, Scalar::Rank(ONE_RANK), r.kelly_fraction),
        set_above_zero(env, "LATENCY_ARB_MAX_CLIP_USD"@, r.max_clip_usd),
        set_whole(env, "LATENCY_ARB_ORDER_TIMEOUT_MS"@, false, 50, u64::MAX as int, r.order_timeout_ms as int),
        set_flag(env, "LATENCY_ARB_PAPER"@, true, r.paper_mode),
{
}

/// The figures that hold where no variable is set.
pub proof fn law_unset_latency_is_the_default(env: Environment, r: LatencyArbConfig, d: LatencyArbConfig)
    requires
        is_unset(env),
        call_ensures(LatencyArbConfig::from_env, (&env,), r),
        call_ensures(LatencyArbConfig::default, (), d),
    ensures
        r == d,
        d.min_effective_edge == Scalar::Rank(R_0_005),
        d.kelly_fraction == Scalar::Rank(R_0_1),
        d.max_position_pct_per_market == Scalar::Rank(R_0_02),
        d.max_position_pct_per_topic == Scalar::Rank(R_0_05),
        d.max_total_exposure_pct == Scalar::Rank(R_0_15),
        d.max_clip_usd == Scalar::Rank(R_100),
        d.min_clip_usd == Scalar::Rank(R_5),
        d.order_timeout_ms == 500,
        d.prob_damping == Scalar::Rank(R_0_3),
        d.min_confirming_drivers == 2,
        d.fee_rate_maker == Scalar::Rank(R_0_01),
        d.fee_rate_taker == Scalar::Rank(R_0_02),
        d.slippage_buffer_frac == Scalar::Rank(HALF_RANK),
        d.max_spread_bps == Scalar::Rank(R_300),
        d.min_top_liquidity_usd == Scalar::Rank(R_100),
        d.latency_percentile == Scalar::Rank(R_95),
        d.max_tail_latency_us == 500000,
        d.latency_degradation_threshold == Scalar::Rank(R_2),
        d.two_leg_min_completion_prob == Scalar::Rank(R_0_8),
        d.rolling_window_sec == 900,
        d.market_cooldown_sec == 5,
        d.paper_mode,
{
}

/// The bias of a flow is told by its imbalance, by its depths where both are above zero, and
/// by its lifts and hits where there are any.
pub proof fn law_bias_is_told_by_the_flow(s: MicrostructureState, r: BiasTerms)
    requires
        s.lift_count + s.hit_count <= u32::MAX,
        call_ensures(MicrostructureState::bias_terms, (&s,), r),
    ensures
        r.taker_imbalance == s.taker_imbalance,
        r.depths is Some <==> Scalar::Rank(0).spec_lt(s.bid_depth_ratio) && Scalar::Rank(0).spec_lt(s.ask_depth_ratio),
        r.depths is Some ==> r.depths->0 == (s.bid_depth_ratio, s.ask_depth_ratio),
        r.aggression is Some <==> s.lift_count > 0 || s.hit_count > 0,
        r.aggression is Some ==> (r.aggression->0).0 == s.lift_count && (r.aggression->0).1 == s.hit_count
            && (r.aggression->0).2 == s.lift_count + s.hit_count,
{
}

/// The chance of a fill stays between a tenth and ninety-five hundredths, and a stake has the
/// bounds of this strategy.
pub proof fn law_stakes_and_chances_are_bounded(
    x: Scalar,
    r: Scalar,
    e: ExposureTracker,
    cfg: LatencyArbConfig,
    p: KellyParams,
)
    requires
        call_ensures(LatencyStats::within_bounds, (x,), r),
        call_ensures(position_params, (&e, &cfg), p),
        x is Rank,
    ensures
        Scalar::Rank(R_0_1).spec_le(r) && r.spec_le(Scalar::Rank(R_0_95)),
        Scalar::Rank(R_0_1).spec_le(x) && x.spec_le(Scalar::Rank(R_0_95)) ==> r == x,
        p.bankroll == e.bankroll && p.kelly_fraction == cfg.kelly_fraction && p.max_position_pct
            == cfg.max_position_pct_per_market && p.min_position_usd == cfg.min_clip_usd,
{
}

/// An error says which limit was reached, and a summary tells what was counted; fills are a
/// share of trades where there are any.
pub proof fn law_summary_tells_what_was_counted(
    x: ExposureError,
    m: &'static str,
    d: DiagnosticsTracker,
    q: Scalar,
    r: DiagnosticsSummary,
    e: LatencyArbEngine,
    s: DiagnosticsSummary,
)
    requires
        call_ensures(ExposureError::message, (x,), m),
        call_ensures(DiagnosticsTracker::summary, (&d, q), r),
        call_ensures(LatencyArbEngine::diagnostics_summary, (&e, q), s),
        e.diagnostics == d,
    ensures
        x is Market ==> m@ == "Market exposure limit reached"@,
        x is Topic ==> m@ == "Topic exposure limit reached"@,
        x is Total ==> m@ == "Total exposure limit reached"@,
        r.total_decisions == d.total_decisions && r.total_trades == d.total_trades && r.total_fills == d.total_fills
            && r.pnl == d.pnl,
        d.total_trades > 0 ==> r.fill_rate == q,
        d.total_trades == 0 ==> r.fill_rate == Scalar::Rank(0),
        s == r,
{
}

/// Without votes nothing is certain; the uncertainty is that of the market alone.
pub proof fn law_no_votes_leave_all_uncertain(
    e: &mut LatencyArbEngine,
    slug: &str,
    up: usize,
    down: usize,
    worked_out: Scalar,
    other: Seq<char>,
)
    requires
        call_ensures(LatencyArbEngine::settle_uncertainty, (e, slug, up, down, worked_out), ()),
        old(e).markets@.contains_key(slug@),
        other != slug@,
    ensures
        ({
            let a = old(e).markets@[slug@].estimate;
            let b = final(e).markets@[slug@].estimate;
            &&& up == 0 && down == 0 ==> b.uncertainty == Scalar::Rank(ONE_RANK)
            &&& up > 0 || down > 0 ==> b.uncertainty == worked_out
            &&& b.private_prob == a.private_prob && b.market_prob == a.market_prob && b.active_drivers == a.active_drivers
            &&& final(e).markets@.contains_key(other) <==> old(e).markets@.contains_key(other)
            &&& old(e).markets@.contains_key(other) ==> final(e).markets@[other] == old(e).markets@[other]
            &&& final(e).exposure == old(e).exposure && final(e).config == old(e).config
        }),
{
}

/// An engine and an estimate start with nothing known: one half, wholly uncertain.
pub proof fn law_latency_engine_starts_afresh(
    cfg: LatencyArbConfig,
    bankroll: Scalar,
    e: LatencyArbEngine,
    slug: &str,
    yes: &str,
    no: &str,
    p: ProbabilityEstimate,
    x: ExposureTracker,
    d: DiagnosticsTracker,
    k: Seq<char>,
)
    requires
        call_ensures(LatencyArbEngine::new, (cfg, bankroll), e),
        call_ensures(ProbabilityEstimate::new, (slug, yes, no), p),
        call_ensures(ExposureTracker::new, (bankroll,), x),
        call_ensures(DiagnosticsTracker::new, (), d),
    ensures
        e.config == cfg && e.exposure.bankroll == bankroll && !e.markets@.contains_key(k) && !e.running,
        p.private_prob == Scalar::Rank(HALF_RANK) && p.market_prob == Scalar::Rank(HALF_RANK) && p.uncertainty
            == Scalar::Rank(ONE_RANK) && p.active_drivers.len() == 0,
        p.market_slug@ == slug@ && p.token_id_yes@ == yes@ && p.token_id_no@ == no@,
        x.bankroll == bankroll && x.total_exposure == Scalar::Rank(0) && !x.per_market@.contains_key(k),
        d.total_decisions == 0 && d.total_trades == 0 && d.total_fills == 0,
{
}

} // verus!
