//! The strategy that trades on paper at every price, at low risk.
use super::book_access::StalenessConfig;
use super::execution::{
    OrderAck,
    OrderRequest,
    OrderSide,
    PaperExecutionAdapter,
    PaperExecutionConfig,
    TimeInForce,
};
use super::fast15m_reactive::{Pick, PriceUpdateEvent, Quotes};
use super::kelly::{KellyParams, KellyResult};
use super::rnjd::RnjdEstimate;
use super::updown15m::{
    lemma_symbols_differ,
    market_slug,
    slug_of,
    window_start,
    window_start_of,
    UpDownAsset,
};
use crate::base::clock::less_than_apart;
use crate::base::counter::{count_if, count_up, next_count, pushed_at_limit};
use crate::base::ids::fresh_id;
use crate::base::ranks::{
    R_0_005,
    R_0_01,
    R_0_05,
    R_0_1,
    R_0_25,
    R_0_7,
    R_3,
    R_5,
    R_10,
    R_100,
};
use crate::base::scalar::{Scalar, HALF_RANK};
use crate::base::settings::{
    integer_setting,
    is_unset,
    number_or,
    number_setting,
    set_above_zero,
    set_below,
    set_in_unit,
    set_up_to,
    set_whole,
    signed_or,
    unsigned_or,
    Environment,
    Range,
};
use crate::base::table::Table;
use vstd::prelude::*;

verus! {

/// The rank of 0.015.
pub const HFT_MIN_EDGE: i64 = 0x3F8E_B851_EB85_1EB8;

/// The rank of 2.5.
pub const JUMP_EDGE_MULT: i64 = 0x4004_0000_0000_0000;

/// The rank of 0.02.
pub const HFT_KELLY_FRACTION: i64 = 0x3F94_7AE1_47AE_147B;

/// The rank of 0.005.
pub const HFT_MAX_POSITION_PCT: i64 = 0x3F74_7AE1_47AE_147B;

/// The rank of 0.4.
pub const HFT_SHRINK: i64 = 0x3FD9_9999_9999_999A;

/// How many trades are kept.
pub const KEPT_TRADES: usize = 100;

/// How much the strategy dares.
#[derive(Clone, Copy, Debug, PartialEq, Eq, Structural)]
pub struct HftPaperStrategyConfig {
    pub min_edge: Scalar,
    /// What the least edge is multiplied by while beliefs jump.
    pub jump_regime_edge_mult: Scalar,
    pub kelly_fraction: Scalar,
    pub max_position_pct: Scalar,
    pub min_position_usd: Scalar,
    pub max_position_usd: Scalar,
    pub shrink_factor: Scalar,
    /// The seconds between two trades on an asset.
    pub cooldown_sec: i64,
    /// The last seconds of a window, in which nothing is traded.
    pub window_end_skip_sec: i64,
    pub window_start_aggressive_sec: i64,
    pub book_max_stale_ms: u64,
    pub book_hard_stale_ms: u64,
    pub min_rnjd_confidence: Scalar,
    pub jump_z_threshold: Scalar,
    pub jump_window_sec: i64,
    pub jump_count_threshold: usize,
}

/// The configuration that holds where nothing is set.
pub open spec fn default_hft() -> HftPaperStrategyConfig {
    HftPaperStrategyConfig {
        min_edge: Scalar::Rank(HFT_MIN_EDGE),
        jump_regime_edge_mult: Scalar::Rank(JUMP_EDGE_MULT),
        kelly_fraction: Scalar::Rank(HFT_KELLY_FRACTION),
        max_position_pct: Scalar::Rank(HFT_MAX_POSITION_PCT),
        min_position_usd: Scalar::Rank(R_5),
        max_position_usd: Scalar::Rank(R_100),
        shrink_factor: Scalar::Rank(HFT_SHRINK),
        cooldown_sec: 45,
        window_end_skip_sec: 90,
        window_start_aggressive_sec: 45,
        book_max_stale_ms: 1000,
        book_hard_stale_ms: 3000,
        min_rnjd_confidence: Scalar::Rank(HALF_RANK),
        jump_z_threshold: Scalar::Rank(R_3),
        jump_window_sec: 300,
        jump_count_threshold: 2,
    }
}

impl Default for HftPaperStrategyConfig {
    fn default() -> (r: HftPaperStrategyConfig)
        ensures
            r == default_hft(),
    {
        HftPaperStrategyConfig {
            min_edge: Scalar::Rank(HFT_MIN_EDGE),
            jump_regime_edge_mult: Scalar::Rank(JUMP_EDGE_MULT),
            kelly_fraction: Scalar::Rank(HFT_KELLY_FRACTION),
            max_position_pct: Scalar::Rank(HFT_MAX_POSITION_PCT),
            min_position_usd: Scalar::Rank(R_5),
            max_position_usd: Scalar::Rank(R_100),
            shrink_factor: Scalar::Rank(HFT_SHRINK),
            cooldown_sec: 45,
            window_end_skip_sec: 90,
            window_start_aggressive_sec: 45,
            book_max_stale_ms: 1000,
            book_hard_stale_ms: 3000,
            min_rnjd_confidence: Scalar::Rank(HALF_RANK),
            jump_z_threshold: Scalar::Rank(R_3),
            jump_window_sec: 300,
            jump_count_threshold: 2,
        }
    }
}

impl HftPaperStrategyConfig {
    /// The default with what the variables set.
    pub fn from_env(env: &Environment) -> (r: HftPaperStrategyConfig)
        ensures
            r == (HftPaperStrategyConfig {
                min_edge: number_setting(
                    *env,
                    "HFT_PAPER_MIN_EDGE"@,
                    Range::PositiveBelow(HALF_RANK),
                    Scalar::Rank(HFT_MIN_EDGE),
                ),
                kelly_fraction: number_setting(
                    *env,
                    "HFT_PAPER_KELLY_FRACTION"@,
                    Range::PositiveTo(R_0_25),
                    Scalar::Rank(HFT_KELLY_FRACTION),
                ),
                max_position_pct: number_setting(
                    *env,
                    "HFT_PAPER_MAX_POSITION_PCT"@,
                    Range::PositiveTo(R_0_1),
                    Scalar::Rank(HFT_MAX_POSITION_PCT),
                ),
                max_position_usd: number_setting(
                    *env,
                    "HFT_PAPER_MAX_POSITION_USD"@,
                    Range::Positive,
                    Scalar::Rank(R_100),
                ),
                cooldown_sec: integer_setting(
                    *env,
                    "HFT_PAPER_COOLDOWN_SEC"@,
                    true,
                    0,
                    i64::MAX as int,
                    45,
                ) as i64,
                shrink_factor: number_setting(
                    *env,
                    "HFT_PAPER_SHRINK_FACTOR"@,
                    Range::Unit,
                    Scalar::Rank(HFT_SHRINK),
                ),
                book_max_stale_ms: integer_setting(
                    *env,
                    "HFT_PAPER_BOOK_MAX_STALE_MS"@,
                    false,
                    0,
                    u64::MAX as int,
                    1000,
                ) as u64,
                ..default_hft()
            }),
    {
        let mut cfg = HftPaperStrategyConfig::default();
        cfg.min_edge =
        number_or(env, "HFT_PAPER_MIN_EDGE", Range::PositiveBelow(HALF_RANK), cfg.min_edge);
        cfg.kelly_fraction =
        number_or(env, "HFT_PAPER_KELLY_FRACTION", Range::PositiveTo(R_0_25), cfg.kelly_fraction);
        cfg.max_position_pct =
        number_or(env, "HFT_PAPER_MAX_POSITION_PCT", Range::PositiveTo(R_0_1), cfg.max_position_pct);
        cfg.max_position_usd =
        number_or(env, "HFT_PAPER_MAX_POSITION_USD", Range::Positive, cfg.max_position_usd);
        cfg.cooldown_sec =
        signed_or(env, "HFT_PAPER_COOLDOWN_SEC", 0, i64::MAX, cfg.cooldown_sec);
        cfg.shrink_factor =
        number_or(env, "HFT_PAPER_SHRINK_FACTOR", Range::Unit, cfg.shrink_factor);
        cfg.book_max_stale_ms =
        unsigned_or(env, "HFT_PAPER_BOOK_MAX_STALE_MS", 0, u64::MAX, cfg.book_max_stale_ms);
        cfg
    }
}

/// What is remembered of an asset between prices.
#[derive(Clone, Copy, Debug, PartialEq, Eq, Structural)]
pub struct HftAssetState {
    pub last_trade_ts: i64,
    pub last_eval_ts: i64,
    pub last_p_up: Scalar,
    pub last_edge: Scalar,
    pub consecutive_skips: u32,
}

/// Nothing is remembered yet.
pub open spec fn blank_asset() -> HftAssetState {
    HftAssetState {
        last_trade_ts: 0,
        last_eval_ts: 0,
        last_p_up: Scalar::Rank(0),
        last_edge: Scalar::Rank(0),
        consecutive_skips: 0,
    }
}

/// What is remembered of each asset.
#[derive(Clone, Copy, Debug, PartialEq, Eq, Structural)]
pub struct HftAssets {
    pub btc: HftAssetState,
    pub eth: HftAssetState,
    pub sol: HftAssetState,
    pub xrp: HftAssetState,
}

impl HftAssets {
    pub open spec fn of(self, a: UpDownAsset) -> HftAssetState {
        match a {
            UpDownAsset::Btc => self.btc,
            UpDownAsset::Eth => self.eth,
            UpDownAsset::Sol => self.sol,
            UpDownAsset::Xrp => self.xrp,
        }
    }

    pub open spec fn with(self, a: UpDownAsset, s: HftAssetState) -> HftAssets {
        match a {
            UpDownAsset::Btc => HftAssets { btc: s, ..self },
            UpDownAsset::Eth => HftAssets { eth: s, ..self },
            UpDownAsset::Sol => HftAssets { sol: s, ..self },
            UpDownAsset::Xrp => HftAssets { xrp: s, ..self },
        }
    }

    pub fn get(&self, a: UpDownAsset) -> (r: HftAssetState)
        ensures
            r == self.of(a),
    {
        match a {
            UpDownAsset::Btc => self.btc,
            UpDownAsset::Eth => self.eth,
            UpDownAsset::Sol => self.sol,
            UpDownAsset::Xrp => self.xrp,
        }
    }

    pub fn put(&mut self, a: UpDownAsset, s: HftAssetState)
        ensures
            *final(self) == old(self).with(a, s),
    {
        match a {
            UpDownAsset::Btc => {
                self.btc = s;
            },
            UpDownAsset::Eth => {
                self.eth = s;
            },
            UpDownAsset::Sol => {
                self.sol = s;
            },
            UpDownAsset::Xrp => {
                self.xrp = s;
            },
        }
    }
}

/// A trade on paper.
#[derive(Debug)]
pub struct HftPaperTrade {
    pub id: String,
    pub timestamp: i64,
    pub asset: String,
    pub market_slug: String,
    pub side: String,
    pub outcome: String,
    pub price: Scalar,
    pub notional_usd: Scalar,
    pub shares: Scalar,
    pub fees_usd: Scalar,
    pub p_estimate: Scalar,
    pub edge: Scalar,
    pub sigma_b: Scalar,
    pub jump_regime: bool,
    pub rnjd_confidence: Scalar,
    /// The microseconds from the price to the trade.
    pub t2t_us: u64,
}

/// A trade with its texts as sequences.
pub struct HftTradeView {
    pub id: Seq<char>,
    pub timestamp: i64,
    pub asset: Seq<char>,
    pub market_slug: Seq<char>,
    pub side: Seq<char>,
    pub outcome: Seq<char>,
    pub price: Scalar,
    pub notional_usd: Scalar,
    pub shares: Scalar,
    pub fees_usd: Scalar,
    pub p_estimate: Scalar,
    pub edge: Scalar,
    pub sigma_b: Scalar,
    pub jump_regime: bool,
    pub rnjd_confidence: Scalar,
    pub t2t_us: u64,
}

impl View for HftPaperTrade {
    type V = HftTradeView;

    open spec fn view(&self) -> HftTradeView {
        HftTradeView {
            id: self.id@,
            timestamp: self.timestamp,
            asset: self.asset@,
            market_slug: self.market_slug@,
            side: self.side@,
            outcome: self.outcome@,
            price: self.price,
            notional_usd: self.notional_usd,
            shares: self.shares,
            fees_usd: self.fees_usd,
            p_estimate: self.p_estimate,
            edge: self.edge,
            sigma_b: self.sigma_b,
            jump_regime: self.jump_regime,
            rnjd_confidence: self.rnjd_confidence,
            t2t_us: self.t2t_us,
        }
    }
}

impl HftPaperTrade {
    pub fn copy(&self) -> (r: HftPaperTrade)
        ensures
            r@ == self@,
    {
        HftPaperTrade {
            id: self.id.clone(),
            timestamp: self.timestamp,
            asset: self.asset.clone(),
            market_slug: self.market_slug.clone(),
            side: self.side.clone(),
            outcome: self.outcome.clone(),
            price: self.price,
            notional_usd: self.notional_usd,
            shares: self.shares,
            fees_usd: self.fees_usd,
            p_estimate: self.p_estimate,
            edge: self.edge,
            sigma_b: self.sigma_b,
            jump_regime: self.jump_regime,
            rnjd_confidence: self.rnjd_confidence,
            t2t_us: self.t2t_us,
        }
    }
}

/// What the strategy counts.
#[derive(Clone, Copy, Debug, PartialEq, Eq, Structural)]
pub struct HftCounters {
    pub price_updates: u64,
    pub evaluations: u64,
    pub skipped_cooldown: u64,
    pub skipped_window: u64,
    pub skipped_no_book: u64,
    pub skipped_no_edge: u64,
    pub skipped_jump_regime: u64,
    pub skipped_low_confidence: u64,
    pub skipped_kelly: u64,
    pub trades_executed: u64,
}

/// The counts, the profit and the last trades, oldest first.
#[derive(Debug)]
pub struct HftPaperMetrics {
    pub counters: HftCounters,
    pub total_pnl_usd: Scalar,
    pub recent_trades: Vec<HftPaperTrade>,
}

/// The counts and the profit.
#[derive(Clone, Copy, Debug, PartialEq, Eq, Structural)]
pub struct HftPaperMetricsSummary {
    pub price_updates: u64,
    pub evaluations: u64,
    pub trades_executed: u64,
    pub skipped_cooldown: u64,
    pub skipped_window: u64,
    pub skipped_no_book: u64,
    pub skipped_no_edge: u64,
    pub skipped_jump_regime: u64,
    pub skipped_low_confidence: u64,
    pub skipped_kelly: u64,
    pub total_pnl_usd: Scalar,
}

pub open spec fn trade_views(q: Seq<HftPaperTrade>) -> Seq<HftTradeView> {
    q.map_values(|t: HftPaperTrade| t@)
}

/// Nothing was counted.
pub open spec fn no_counts() -> HftCounters {
    HftCounters {
        price_updates: 0,
        evaluations: 0,
        skipped_cooldown: 0,
        skipped_window: 0,
        skipped_no_book: 0,
        skipped_no_edge: 0,
        skipped_jump_regime: 0,
        skipped_low_confidence: 0,
        skipped_kelly: 0,
        trades_executed: 0,
    }
}

impl HftPaperMetrics {
    pub fn new() -> (r: HftPaperMetrics)
        ensures
            r.counters == no_counts(),
            r.total_pnl_usd == Scalar::Rank(0),
            r.recent_trades@ == Seq::<HftPaperTrade>::empty(),
    {
        HftPaperMetrics {
            counters: HftCounters {
                price_updates: 0,
                evaluations: 0,
                skipped_cooldown: 0,
                skipped_window: 0,
                skipped_no_book: 0,
                skipped_no_edge: 0,
                skipped_jump_regime: 0,
                skipped_low_confidence: 0,
                skipped_kelly: 0,
                trades_executed: 0,
            },
            total_pnl_usd: Scalar::Rank(0),
            recent_trades: Vec::with_capacity(KEPT_TRADES),
        }
    }

    /// Counts a trade and keeps it.
    pub fn record_trade(&mut self, trade: HftPaperTrade)
        ensures
            final(self).counters == (HftCounters {
                trades_executed: next_count(old(self).counters.trades_executed),
                ..old(self).counters
            }),
            final(self).total_pnl_usd == old(self).total_pnl_usd,
            final(self).recent_trades@ == pushed_at_limit(
                old(self).recent_trades@,
                trade,
                KEPT_TRADES as nat,
            ),
    {
        self.counters.trades_executed = count_up(self.counters.trades_executed);
        if self.recent_trades.len() >= KEPT_TRADES {
            let _oldest = self.recent_trades.remove(0);
            assert(self.recent_trades@ =~= old(self).recent_trades@.skip(1));
        }
        self.recent_trades.push(trade);
    }

    pub fn summary(&self) -> (r: HftPaperMetricsSummary)
        ensures
            r.price_updates == self.counters.price_updates,
            r.evaluations == self.counters.evaluations,
            r.trades_executed == self.counters.trades_executed,
            r.skipped_cooldown == self.counters.skipped_cooldown,
            r.skipped_window == self.counters.skipped_window,
            r.skipped_no_book == self.counters.skipped_no_book,
            r.skipped_no_edge == self.counters.skipped_no_edge,
            r.skipped_jump_regime == self.counters.skipped_jump_regime,
            r.skipped_low_confidence == self.counters.skipped_low_confidence,
            r.skipped_kelly == self.counters.skipped_kelly,
            r.total_pnl_usd == self.total_pnl_usd,
    {
        HftPaperMetricsSummary {
            price_updates: self.counters.price_updates,
            evaluations: self.counters.evaluations,
            trades_executed: self.counters.trades_executed,
            skipped_cooldown: self.counters.skipped_cooldown,
            skipped_window: self.counters.skipped_window,
            skipped_no_book: self.counters.skipped_no_book,
            skipped_no_edge: self.counters.skipped_no_edge,
            skipped_jump_regime: self.counters.skipped_jump_regime,
            skipped_low_confidence: self.counters.skipped_low_confidence,
            skipped_kelly: self.counters.skipped_kelly,
            total_pnl_usd: self.total_pnl_usd,
        }
    }
}

/// An attempt to trade on a price.
#[derive(Debug)]
pub struct HftAttempt {
    pub asset: UpDownAsset,
    pub now: i64,
    pub start_ts: i64,
    /// The seconds until the window ends.
    pub t_rem: i64,
    pub slug: String,
}

/// What the price feed knows of a symbol: the price near the start of the window, within
/// one minute and within two, the latest price, and the volatility.
#[derive(Clone, Copy, Debug, PartialEq, Eq, Structural)]
pub struct FeedReading {
    pub near_start: Option<Scalar>,
    pub around_start: Option<Scalar>,
    pub latest: Option<Scalar>,
    pub sigma: Option<Scalar>,
}

impl FeedReading {
    /// The price that the window started from, as well as it is known.
    pub open spec fn start(self) -> Option<Scalar> {
        if self.near_start is Some {
            self.near_start
        } else if self.around_start is Some {
            self.around_start
        } else {
            self.latest
        }
    }

    pub fn start_price(&self) -> (r: Option<Scalar>)
        ensures
            r == self.start(),
    {
        if self.near_start.is_some() {
            self.near_start
        } else if self.around_start.is_some() {
            self.around_start
        } else {
            self.latest
        }
    }
}

/// What the feed leads to.
#[derive(Debug)]
pub enum HftReady {
    Ignored,
    /// The tokens of both outcomes are known.
    Known { attempt: HftAttempt, p_start: Scalar, sigma: Scalar, up: String, down: String },
    /// The tokens of both outcomes are asked for.
    Lookup { attempt: HftAttempt, p_start: Scalar, sigma: Scalar },
}

/// The best asks that the middle of the market is taken from: halfway between the ask
/// of the rise and what the ask of the fall leaves to one, or what there is of these.
#[derive(Clone, Copy, Debug, PartialEq, Eq, Structural)]
pub enum MarketMid {
    Between { up: Scalar, down: Scalar },
    Up(Scalar),
    OneLess(Scalar),
}

/// An outcome that is worth buying.
#[derive(Clone, Copy, Debug, PartialEq, Eq, Structural)]
pub struct HftChoice {
    pub pick: Pick,
    pub jump_regime: bool,
    pub p_up: Scalar,
    pub rnjd_confidence: Scalar,
}

/// The outcome with the greater edge, if that is above zero; where only one has an ask,
/// that one, if it is worth more than its ask.
pub open spec fn worthwhile(q: Quotes) -> Option<Pick> {
    match (q.ask_up, q.ask_down) {
        (Some(_), Some(_)) => if q.edge_down.spec_le(q.edge_up) && Scalar::Rank(0).spec_lt(q.edge_up) {
            Some(q.up())
        } else if Scalar::Rank(0).spec_lt(q.edge_down) {
            Some(q.down())
        } else {
            None
        },
        (Some(a), None) => if a.spec_lt(q.p_up) {
            Some(q.up())
        } else {
            None
        },
        (None, Some(a)) => if a.spec_lt(q.p_down) {
            Some(q.down())
        } else {
            None
        },
        (None, None) => None,
    }
}

/// Chooses the outcome to buy.
pub fn choose_outcome(q: &Quotes) -> (r: Option<Pick>)
    ensures
        r == worthwhile(*q),
{
    match (q.ask_up, q.ask_down) {
        (Some(a_up), Some(a_down)) => if q.edge_down.le(q.edge_up) && Scalar::Rank(0).lt(q.edge_up) {
            Some(Pick { up: true, price: a_up, confidence: q.p_up, edge: q.edge_up })
        } else if Scalar::Rank(0).lt(q.edge_down) {
            Some(Pick { up: false, price: a_down, confidence: q.p_down, edge: q.edge_down })
        } else {
            None
        },
        (Some(a), None) => if a.lt(q.p_up) {
            Some(Pick { up: true, price: a, confidence: q.p_up, edge: q.edge_up })
        } else {
            None
        },
        (None, Some(a)) => if a.lt(q.p_down) {
            Some(Pick { up: false, price: a, confidence: q.p_down, edge: q.edge_down })
        } else {
            None
        },
        (None, None) => None,
    }
}

/// The strategy.
pub struct HftPaperStrategy {
    pub config: HftPaperStrategyConfig,
    pub adapter: PaperExecutionAdapter,
    pub assets: HftAssets,
    /// The tokens of the up and the down outcome, by the name of the asset.
    pub tokens: Table<(String, String)>,
    pub metrics: HftPaperMetrics,
    pub staleness_config: StalenessConfig,
    pub stopping: bool,
}

/// How orders of the strategy are executed on paper.
pub open spec fn hft_execution() -> PaperExecutionConfig {
    PaperExecutionConfig {
        base_latency_ms: 0,
        latency_jitter_ms: 0,
        slippage_bps_per_1k: Scalar::Rank(R_10),
        base_slippage_bps: Scalar::Rank(R_5),
        fee_rate: Scalar::Rank(R_0_005),
        partial_fill_prob: Scalar::Rank(R_0_05),
        min_fill_ratio: Scalar::Rank(R_0_7),
        reject_prob: Scalar::Rank(R_0_01),
    }
}

/// The seconds until the window of `now` ends.
pub open spec fn seconds_left(now: int) -> int {
    let d = window_start_of(now) + 900 - now;
    if d > 0 {
        d
    } else {
        0
    }
}

impl HftPaperStrategy {
    pub fn new(config: HftPaperStrategyConfig) -> (r: HftPaperStrategy)
        ensures
            r.config == config,
            r.adapter.config == hft_execution(),
            forall|a: UpDownAsset| (#[trigger] r.assets.of(a)) == blank_asset(),
            r.tokens@ == Map::<Seq<char>, (String, String)>::empty(),
            r.metrics.counters == no_counts(),
            r.metrics.recent_trades.len() == 0,
            r.staleness_config == (StalenessConfig {
                max_stale_ms: config.book_max_stale_ms,
                hard_stale_ms: config.book_hard_stale_ms,
            }),
            !r.stopping,
    {
        let s = HftAssetState {
            last_trade_ts: 0,
            last_eval_ts: 0,
            last_p_up: Scalar::Rank(0),
            last_edge: Scalar::Rank(0),
            consecutive_skips: 0,
        };
        HftPaperStrategy {
            config,
            adapter: PaperExecutionAdapter::new(
                PaperExecutionConfig {
                    base_latency_ms: 0,
                    latency_jitter_ms: 0,
                    slippage_bps_per_1k: Scalar::Rank(R_10),
                    base_slippage_bps: Scalar::Rank(R_5),
                    fee_rate: Scalar::Rank(R_0_005),
                    partial_fill_prob: Scalar::Rank(R_0_05),
                    min_fill_ratio: Scalar::Rank(R_0_7),
                    reject_prob: Scalar::Rank(R_0_01),
                },
            ),
            assets: HftAssets { btc: s, eth: s, sol: s, xrp: s },
            tokens: Table::new(),
            metrics: HftPaperMetrics::new(),
            staleness_config: StalenessConfig {
                max_stale_ms: config.book_max_stale_ms,
                hard_stale_ms: config.book_hard_stale_ms,
            },
            stopping: false,
        }
    }

    pub fn metrics(&self) -> (r: &HftPaperMetrics)
        ensures
            *r == self.metrics,
    {
        &self.metrics
    }

    /// Asks the strategy to stop.
    pub fn shutdown(&mut self)
        ensures
            *final(self) == (HftPaperStrategy { stopping: true, ..*old(self) }),
    {
        self.stopping = true;
    }

    /// The strategy with other counts.
    pub open spec fn counted(self, c: HftCounters) -> HftPaperStrategy {
        HftPaperStrategy { metrics: HftPaperMetrics { counters: c, ..self.metrics }, ..self }
    }

    /// The strategy with one more skip of an asset.
    pub open spec fn skipping(self, a: UpDownAsset) -> HftAssets {
        self.assets.with(
            a,
            HftAssetState {
                consecutive_skips: (self.assets.of(a).consecutive_skips + 1) as u32,
                ..self.assets.of(a)
            },
        )
    }

    /// After a trade, an asset cools down.
    pub open spec fn cools_down(self, a: UpDownAsset, now: int) -> bool {
        now - self.assets.of(a).last_trade_ts < self.config.cooldown_sec
    }

    /// The skips of every asset can be counted further.
    pub open spec fn has_room(self) -> bool {
        forall|a: UpDownAsset| (#[trigger] self.assets.of(a)).consecutive_skips < u32::MAX
    }

    /// Takes a price in: prices of other assets and prices late in a window are
    /// ignored, and after a trade an asset cools down.
    pub fn on_price_update(&mut self, event: &PriceUpdateEvent, now: i64) -> (r: Option<HftAttempt>)
        requires
            old(self).has_room(),
            now <= i64::MAX - 900,
        ensures
            (forall|a: UpDownAsset| (#[trigger] a.symbol()) != event.symbol@) ==> r is None
                && *final(self) == old(self).counted(
                HftCounters {
                    price_updates: next_count(old(self).metrics.counters.price_updates),
                    ..old(self).metrics.counters
                },
            ),
            forall|a: UpDownAsset|
                (#[trigger] a.symbol()) == event.symbol@ ==> {
                    let n = now as int;
                    let c = old(self).metrics.counters;
                    let late = seconds_left(n) < old(self).config.window_end_skip_sec;
                    let cooling = !late && old(self).cools_down(a, n);
                    let counted = old(self).counted(
                        HftCounters {
                            price_updates: next_count(c.price_updates),
                            skipped_window: count_if(c.skipped_window, late),
                            skipped_cooldown: count_if(c.skipped_cooldown, cooling),
                            evaluations: count_if(c.evaluations, !late && !cooling),
                            ..c
                        },
                    );
                    if late {
                        r is None && *final(self) == counted
                    } else if cooling {
                        r is None && *final(self) == (HftPaperStrategy {
                            assets: old(self).skipping(a),
                            ..counted
                        })
                    } else {
                        &&& r matches Some(t)
                        &&& t.asset == a
                        &&& t.now == now
                        &&& t.start_ts == window_start_of(n)
                        &&& t.t_rem == seconds_left(n)
                        &&& t.slug@ == slug_of(a.name(), window_start_of(n))
                        &&& *final(self) == counted
                    }
                },
    {
        self.metrics.counters.price_updates = count_up(self.metrics.counters.price_updates);
        let asset = match UpDownAsset::from_symbol(event.symbol.as_str()) {
            Some(a) => a,
            None => {
                return None;
            },
        };
        proof {
            assert forall|a: UpDownAsset| (#[trigger] a.symbol()) == event.symbol@ implies a == asset by {
                lemma_symbols_differ(a, asset);
            }
        }
        let start_ts = window_start(now);
        let t_rem: i64 = match (start_ts + 900).checked_sub(now) {
            Some(d) => if d > 0 {
                d
            } else {
                0
            },
            None => i64::MAX,
        };
        if t_rem < self.config.window_end_skip_sec {
            self.metrics.counters.skipped_window = count_up(self.metrics.counters.skipped_window);
            return None;
        }
        let slug = market_slug(asset.as_str(), start_ts);
        let mut state = self.assets.get(asset);
        if less_than_apart(now, state.last_trade_ts, self.config.cooldown_sec) {
            self.metrics.counters.skipped_cooldown = count_up(self.metrics.counters.skipped_cooldown);
            assert(self.assets.of(asset).consecutive_skips < u32::MAX);
            state.consecutive_skips = state.consecutive_skips + 1;
            self.assets.put(asset, state);
            return None;
        }
        self.metrics.counters.evaluations = count_up(self.metrics.counters.evaluations);
        Some(HftAttempt { asset, now, start_ts, t_rem, slug })
    }

    /// Takes in what the feed knows: without a start price or a volatility nothing is
    /// done; the tokens of an asset are known once they were looked up.
    pub fn on_feed(&self, attempt: HftAttempt, reading: FeedReading) -> (r: HftReady)
        ensures
            match (reading.start(), reading.sigma) {
                (Some(p), Some(s)) => if self.tokens@.contains_key(attempt.asset.name()) {
                    &&& r matches HftReady::Known { attempt: t, p_start, sigma, up, down }
                    &&& t == attempt && p_start == p && sigma == s
                    &&& up@ == self.tokens@[attempt.asset.name()].0@
                    &&& down@ == self.tokens@[attempt.asset.name()].1@
                } else {
                    r == (HftReady::Lookup { attempt, p_start: p, sigma: s })
                },
                _ => r is Ignored,
            },
    {
        match (reading.start_price(), reading.sigma) {
            (Some(p_start), Some(sigma)) => match self.tokens.get(attempt.asset.as_str()) {
                Some(t) => HftReady::Known {
                    attempt,
                    p_start,
                    sigma,
                    up: t.0.clone(),
                    down: t.1.clone(),
                },
                None => HftReady::Lookup { attempt, p_start, sigma },
            },
            _ => HftReady::Ignored,
        }
    }

    /// Takes the tokens of both outcomes in, empty where there is none: they are kept
    /// where both are there, and the result says whether they are.
    pub fn on_tokens(&mut self, attempt: &HftAttempt, up: &str, down: &str) -> (r: bool)
        ensures
            r == (up@.len() > 0 && down@.len() > 0),
            !r ==> *final(self) == *old(self),
            r ==> {
                &&& *final(self) == (HftPaperStrategy { tokens: final(self).tokens, ..*old(self) })
                &&& final(self).tokens@.contains_key(attempt.asset.name())
                &&& final(self).tokens@[attempt.asset.name()].0@ == up@
                &&& final(self).tokens@[attempt.asset.name()].1@ == down@
                &&& final(self).tokens@ == old(self).tokens@.insert(
                    attempt.asset.name(),
                    final(self).tokens@[attempt.asset.name()],
                )
            },
    {
        if up.is_empty() || down.is_empty() {
            return false;
        }
        self.tokens.insert(attempt.asset.as_str().to_owned(), (up.to_owned(), down.to_owned()));
        true
    }

    /// Takes the best asks in: without any, the tick is skipped.
    pub fn on_books(&mut self, attempt: &HftAttempt, ask_up: Option<Scalar>, ask_down: Option<Scalar>) -> (r:
        Option<MarketMid>)
        requires
            old(self).has_room(),
        ensures
            r == match (ask_up, ask_down) {
                (Some(up), Some(down)) => Some(MarketMid::Between { up, down }),
                (Some(up), None) => Some(MarketMid::Up(up)),
                (None, Some(down)) => Some(MarketMid::OneLess(down)),
                (None, None) => None,
            },
            *final(self) == if r is Some {
                *old(self)
            } else {
                HftPaperStrategy {
                    assets: old(self).skipping(attempt.asset),
                    ..old(self).counted(
                        HftCounters {
                            skipped_no_book: next_count(old(self).metrics.counters.skipped_no_book),
                            ..old(self).metrics.counters
                        },
                    )
                }
            },
    {
        match (ask_up, ask_down) {
            (Some(up), Some(down)) => Some(MarketMid::Between { up, down }),
            (Some(up), None) => Some(MarketMid::Up(up)),
            (None, Some(down)) => Some(MarketMid::OneLess(down)),
            (None, None) => {
                self.metrics.counters.skipped_no_book =
                count_up(self.metrics.counters.skipped_no_book);
                let mut state = self.assets.get(attempt.asset);
                assert(self.assets.of(attempt.asset).consecutive_skips < u32::MAX);
                state.consecutive_skips = state.consecutive_skips + 1;
                self.assets.put(attempt.asset, state);
                None
            },
        }
    }

    /// Whether beliefs jump, by the estimate or by the jumps in the window.
    pub open spec fn jumps(self, e: RnjdEstimate, recent: usize) -> bool {
        e.jump_regime || recent >= self.config.jump_count_threshold
    }

    /// Takes an estimate in, with the asks and the edges that follow from it; `recent`
    /// jumps lie in the window, and `jump_min_edge` is the least edge times the factor
    /// that holds while beliefs jump.
    pub fn on_estimate(
        &mut self,
        attempt: &HftAttempt,
        estimate: Option<RnjdEstimate>,
        quotes: &Quotes,
        recent: usize,
        jump_min_edge: Scalar,
    ) -> (r: Option<HftChoice>)
        ensures
            ({
                let c = old(self).metrics.counters;
                match estimate {
                    None => r is None && *final(self) == *old(self),
                    Some(e) => if e.confidence.spec_lt(old(self).config.min_rnjd_confidence) {
                        r is None && *final(self) == old(self).counted(
                            HftCounters {
                                skipped_low_confidence: next_count(c.skipped_low_confidence),
                                ..c
                            },
                        )
                    } else {
                        match worthwhile(*quotes) {
                            None => r is None && *final(self) == old(self).counted(
                                HftCounters { skipped_no_edge: next_count(c.skipped_no_edge), ..c },
                            ),
                            Some(p) => {
                                let jumping = old(self).jumps(e, recent);
                                let needed = if jumping {
                                    jump_min_edge
                                } else {
                                    old(self).config.min_edge
                                };
                                if p.edge.spec_lt(needed) {
                                    r is None && *final(self) == (HftPaperStrategy {
                                        assets: old(self).assets.with(
                                            attempt.asset,
                                            HftAssetState {
                                                last_p_up: quotes.p_up,
                                                last_edge: p.edge,
                                                ..old(self).assets.of(attempt.asset)
                                            },
                                        ),
                                        ..old(self).counted(
                                            HftCounters {
                                                skipped_jump_regime: count_if(
                                                    c.skipped_jump_regime,
                                                    jumping,
                                                ),
                                                skipped_no_edge: count_if(
                                                    c.skipped_no_edge,
                                                    !jumping,
                                                ),
                                                ..c
                                            },
                                        )
                                    })
                                } else {
                                    r == Some(
                                        HftChoice {
                                            pick: p,
                                            jump_regime: jumping,
                                            p_up: quotes.p_up,
                                            rnjd_confidence: e.confidence,
                                        },
                                    ) && *final(self) == *old(self)
                                }
                            },
                        }
                    },
                }
            }),
    {
        let e = match estimate {
            Some(e) => e,
            None => {
                return None;
            },
        };
        if e.confidence.lt(self.config.min_rnjd_confidence) {
            self.metrics.counters.skipped_low_confidence =
            count_up(self.metrics.counters.skipped_low_confidence);
            return None;
        }
        let pick = match choose_outcome(quotes) {
            Some(p) => p,
            None => {
                self.metrics.counters.skipped_no_edge =
                count_up(self.metrics.counters.skipped_no_edge);
                return None;
            },
        };
        let jump_regime = e.jump_regime || recent >= self.config.jump_count_threshold;
        let needed = if jump_regime {
            jump_min_edge
        } else {
            self.config.min_edge
        };
        if pick.edge.lt(needed) {
            if jump_regime {
                self.metrics.counters.skipped_jump_regime =
                count_up(self.metrics.counters.skipped_jump_regime);
            } else {
                self.metrics.counters.skipped_no_edge =
                count_up(self.metrics.counters.skipped_no_edge);
            }
            let mut state = self.assets.get(attempt.asset);
            state.last_p_up = quotes.p_up;
            state.last_edge = pick.edge;
            self.assets.put(attempt.asset, state);
            return None;
        }
        Some(
            HftChoice {
                pick,
                jump_regime,
                p_up: quotes.p_up,
                rnjd_confidence: e.confidence,
            },
        )
    }

    /// The bounds of a stake out of a bankroll; none where there is no money.
    pub fn kelly_params(&self, bankroll: Scalar) -> (r: Option<KellyParams>)
        ensures
            r == if bankroll.spec_le(Scalar::Rank(0)) {
                None
            } else {
                Some(
                    KellyParams {
                        bankroll,
                        kelly_fraction: self.config.kelly_fraction,
                        max_position_pct: self.config.max_position_pct,
                        min_position_usd: self.config.min_position_usd,
                    },
                )
            },
    {
        if bankroll.le(Scalar::Rank(0)) {
            return None;
        }
        Some(
            KellyParams {
                bankroll,
                kelly_fraction: self.config.kelly_fraction,
                max_position_pct: self.config.max_position_pct,
                min_position_usd: self.config.min_position_usd,
            },
        )
    }

    /// The stake within its limits; `share` is the greatest share of the bankroll.
    pub open spec fn notional(self, kelly: KellyResult, share: Scalar) -> Scalar {
        kelly.position_size_usd.spec_min(self.config.max_position_usd).spec_min(share)
    }

    /// What a stake leads to: an order under an identifier where the stake is worth it and
    /// not too small within its limits.
    pub open spec fn took_stake(
        before: HftPaperStrategy,
        after: HftPaperStrategy,
        attempt: HftAttempt,
        choice: HftChoice,
        kelly: KellyResult,
        share: Scalar,
        up: Seq<char>,
        down: Seq<char>,
        id: Seq<char>,
        r: Option<OrderRequest>,
    ) -> bool {
        if !kelly.should_trade {
            r is None && after == before.counted(
                HftCounters {
                    skipped_kelly: next_count(before.metrics.counters.skipped_kelly),
                    ..before.metrics.counters
                },
            )
        } else {
            &&& after == before
            &&& if before.notional(kelly, share).spec_lt(before.config.min_position_usd) {
                r is None
            } else {
                &&& r matches Some(o)
                &&& o.client_order_id@ == id
                &&& o.token_id@ == if choice.pick.up {
                    up
                } else {
                    down
                }
                &&& o.side == OrderSide::Buy
                &&& o.price == choice.pick.price
                &&& o.notional_usdc == before.notional(kelly, share)
                &&& o.tif == TimeInForce::Ioc
                &&& (o.market_slug matches Some(m) && m@ == attempt.slug@)
                &&& (o.outcome matches Some(n) && n@ == outcome_name(choice.pick.up))
            }
        }
    }

    /// Takes a stake in: its order is for the token of the outcome that was chosen, and has a
    /// fresh identifier.
    pub fn on_sizing(
        &mut self,
        attempt: &HftAttempt,
        choice: &HftChoice,
        kelly: &KellyResult,
        share: Scalar,
        token_up: &str,
        token_down: &str,
    ) -> (r: Option<OrderRequest>)
        ensures
            exists|id: Seq<char>|
                id.len() == 36 && #[trigger] Self::took_stake(
                    *old(self),
                    *final(self),
                    *attempt,
                    *choice,
                    *kelly,
                    share,
                    token_up@,
                    token_down@,
                    id,
                    r,
                ),
    {
        let id = fresh_id();
        let ghost text = id@;
        let r = self.on_sizing_with(attempt, choice, kelly, share, token_up, token_down, id);
        assert(Self::took_stake(
            *old(self),
            *self,
            *attempt,
            *choice,
            *kelly,
            share,
            token_up@,
            token_down@,
            text,
            r,
        ));
        r
    }

    /// Takes a stake in: its order has the given identifier.
    pub fn on_sizing_with(
        &mut self,
        attempt: &HftAttempt,
        choice: &HftChoice,
        kelly: &KellyResult,
        share: Scalar,
        token_up: &str,
        token_down: &str,
        client_order_id: String,
    ) -> (r: Option<OrderRequest>)
        ensures
            Self::took_stake(
                *old(self),
                *final(self),
                *attempt,
                *choice,
                *kelly,
                share,
                token_up@,
                token_down@,
                client_order_id@,
                r,
            ),
    {
        if !kelly.should_trade {
            self.metrics.counters.skipped_kelly = count_up(self.metrics.counters.skipped_kelly);
            return None;
        }
        let notional = kelly.position_size_usd.min(self.config.max_position_usd).min(share);
        if notional.lt(self.config.min_position_usd) {
            return None;
        }
        Some(
            OrderRequest {
                client_order_id,
                token_id: if choice.pick.up {
                    token_up.to_owned()
                } else {
                    token_down.to_owned()
                },
                side: OrderSide::Buy,
                price: choice.pick.price,
                notional_usdc: notional,
                tif: TimeInForce::Ioc,
                market_slug: Some(attempt.slug.clone()),
                outcome: Some(outcome_text(choice.pick.up).to_owned()),
            },
        )
    }

    /// Takes in that the order was executed and booked; `shares` is what was bought and
    /// `t2t_us` the microseconds since the price.
    pub fn on_fill(
        &mut self,
        attempt: &HftAttempt,
        choice: &HftChoice,
        ack: &OrderAck,
        shares: Scalar,
        sigma_b: Scalar,
        t2t_us: u64,
    ) -> (r: HftPaperTrade)
        ensures
            r@ == (HftTradeView {
                id: ack.order_id@,
                timestamp: ack.filled_at,
                asset: attempt.asset.name(),
                market_slug: attempt.slug@,
                side: "BUY"@,
                outcome: outcome_name(choice.pick.up),
                price: ack.filled_price,
                notional_usd: ack.filled_notional_usdc,
                shares,
                fees_usd: ack.fees_usdc,
                p_estimate: choice.pick.confidence,
                edge: choice.pick.edge,
                sigma_b,
                jump_regime: choice.jump_regime,
                rnjd_confidence: choice.rnjd_confidence,
                t2t_us,
            }),
            *final(self) == (HftPaperStrategy {
                assets: old(self).assets.with(
                    attempt.asset,
                    HftAssetState {
                        last_trade_ts: attempt.now,
                        last_eval_ts: attempt.now,
                        last_p_up: choice.p_up,
                        last_edge: choice.pick.edge,
                        consecutive_skips: 0,
                    },
                ),
                metrics: final(self).metrics,
                ..*old(self)
            }),
            final(self).metrics.counters == (HftCounters {
                trades_executed: next_count(old(self).metrics.counters.trades_executed),
                ..old(self).metrics.counters
            }),
            final(self).metrics.total_pnl_usd == old(self).metrics.total_pnl_usd,
            trade_views(final(self).metrics.recent_trades@) == pushed_at_limit(
                trade_views(old(self).metrics.recent_trades@),
                r@,
                KEPT_TRADES as nat,
            ),
    {
        self.assets.put(
            attempt.asset,
            HftAssetState {
                last_trade_ts: attempt.now,
                last_eval_ts: attempt.now,
                last_p_up: choice.p_up,
                last_edge: choice.pick.edge,
                consecutive_skips: 0,
            },
        );
        let trade = HftPaperTrade {
            id: ack.order_id.clone(),
            timestamp: ack.filled_at,
            asset: attempt.asset.as_str().to_owned(),
            market_slug: attempt.slug.clone(),
            side: "BUY".to_owned(),
            outcome: outcome_text(choice.pick.up).to_owned(),
            price: ack.filled_price,
            notional_usd: ack.filled_notional_usdc,
            shares,
            fees_usd: ack.fees_usdc,
            p_estimate: choice.pick.confidence,
            edge: choice.pick.edge,
            sigma_b,
            jump_regime: choice.jump_regime,
            rnjd_confidence: choice.rnjd_confidence,
            t2t_us,
        };
        let kept = trade.copy();
        self.metrics.record_trade(kept);
        assert(trade_views(self.metrics.recent_trades@) =~= pushed_at_limit(
            trade_views(old(self).metrics.recent_trades@),
            trade@,
            KEPT_TRADES as nat,
        ));
        trade
    }
}

/// The name of an outcome.
pub open spec fn outcome_name(up: bool) -> Seq<char> {
    if up {
        "Up"@
    } else {
        "Down"@
    }
}

pub fn outcome_text(up: bool) -> (r: &'static str)
    ensures
        r@ == outcome_name(up),
{
    if up {
        "Up"
    } else {
        "Down"
    }
}

/// An outcome that is bought has an ask and a positive edge, and where both outcomes
/// have an ask, none has a greater edge.
pub proof fn law_worthwhile_has_edge(q: Quotes)
    requires
        q.edge_up is Rank,
        q.edge_down is Rank,
    ensures
        worthwhile(q) matches Some(p) ==> {
            &&& p.up ==> q.ask_up == Some(p.price) && p.confidence == q.p_up
            &&& !p.up ==> q.ask_down == Some(p.price) && p.confidence == q.p_down
            &&& q.ask_up is Some && q.ask_down is Some ==> Scalar::Rank(0).spec_lt(p.edge)
                && q.edge_up.spec_le(p.edge) && q.edge_down.spec_le(p.edge)
            &&& q.ask_up is None || q.ask_down is None ==> p.price.spec_lt(p.confidence)
        },
        worthwhile(q) is None && q.ask_up is Some && q.ask_down is Some ==> q.edge_up.spec_le(
            Scalar::Rank(0),
        ) && q.edge_down.spec_le(Scalar::Rank(0)),
{
}

/// A stake stays within the greatest amount and the greatest share, wherever these can
/// be compared.
pub proof fn law_stake_within_limits(s: HftPaperStrategy, kelly: KellyResult, share: Scalar)
    requires
        s.config.max_position_usd is Rank,
        share is Rank,
    ensures
        s.notional(kelly, share).spec_le(s.config.max_position_usd),
        s.notional(kelly, share).spec_le(share),
        kelly.position_size_usd is Rank ==> s.notional(kelly, share).spec_le(kelly.position_size_usd),
{
}

/// After a trade at `traded`, an asset cools down until the cooldown is over, and the
/// other assets are not held back.
pub proof fn law_hft_trade_starts_cooldown(
    before: HftPaperStrategy,
    after: HftPaperStrategy,
    a: UpDownAsset,
    b: UpDownAsset,
    state: HftAssetState,
    now: int,
)
    requires
        after.config == before.config,
        after.assets == before.assets.with(a, state),
    ensures
        after.cools_down(a, now) <==> now < state.last_trade_ts + before.config.cooldown_sec,
        b != a ==> after.cools_down(b, now) == before.cools_down(b, now),
{
}

/// An order buys the outcome that was chosen: the token of the rise where a rise was chosen
/// and the token of the fall where a fall was, at the ask of that outcome and under its
/// name. It comes out exactly where the stake is worth it and no smaller, within all of its
/// limits, than the least position.
pub proof fn law_order_buys_the_chosen_outcome(
    s: &mut HftPaperStrategy,
    attempt: HftAttempt,
    choice: HftChoice,
    kelly: KellyResult,
    share: Scalar,
    token_up: &str,
    token_down: &str,
    r: Option<OrderRequest>,
)
    requires
        call_ensures(
            HftPaperStrategy::on_sizing,
            (s, &attempt, &choice, &kelly, share, token_up, token_down),
            r,
        ),
    ensures
        r matches Some(o) ==> {
            &&& kelly.should_trade
            &&& choice.pick.up ==> o.token_id@ == token_up@ && o.outcome is Some && o.outcome->0@ == "Up"@
            &&& !choice.pick.up ==> o.token_id@ == token_down@ && o.outcome is Some && o.outcome->0@ == "Down"@
            &&& o.side == OrderSide::Buy
            &&& o.price == choice.pick.price
            &&& o.market_slug matches Some(m) && m@ == attempt.slug@
            &&& o.tif == TimeInForce::Ioc
            &&& o.client_order_id@.len() == 36
        },
        kelly.position_size_usd is Rank && old(s).config.max_position_usd is Rank && share is Rank ==> {
            &&& r matches Some(o) ==> {
                &&& o.notional_usdc.spec_le(kelly.position_size_usd)
                &&& o.notional_usdc.spec_le(old(s).config.max_position_usd)
                &&& o.notional_usdc.spec_le(share)
                &&& o.notional_usdc == kelly.position_size_usd || o.notional_usdc
                    == old(s).config.max_position_usd || o.notional_usdc == share
                &&& !o.notional_usdc.spec_lt(old(s).config.min_position_usd)
            }
            &&& kelly.should_trade && old(s).config.min_position_usd.spec_le(kelly.position_size_usd)
                && old(s).config.min_position_usd.spec_le(old(s).config.max_position_usd)
                && old(s).config.min_position_usd.spec_le(share) ==> r is Some
        },
        final(s).assets == old(s).assets,
        final(s).tokens == old(s).tokens,
        final(s).config == old(s).config,
{
}

/// What holds of an order with a fresh identifier holds of one with a given identifier.
pub proof fn law_given_identifier_changes_nothing_else(
    s: &mut HftPaperStrategy,
    attempt: HftAttempt,
    choice: HftChoice,
    kelly: KellyResult,
    share: Scalar,
    token_up: &str,
    token_down: &str,
    id: String,
    r: Option<OrderRequest>,
)
    requires
        call_ensures(
            HftPaperStrategy::on_sizing_with,
            (s, &attempt, &choice, &kelly, share, token_up, token_down, id),
            r,
        ),
    ensures
        r matches Some(o) ==> {
            &&& o.client_order_id@ == id@
            &&& choice.pick.up ==> o.token_id@ == token_up@ && o.outcome is Some && o.outcome->0@ == "Up"@
            &&& !choice.pick.up ==> o.token_id@ == token_down@ && o.outcome is Some && o.outcome->0@ == "Down"@
            &&& o.side == OrderSide::Buy
            &&& o.price == choice.pick.price
            &&& kelly.should_trade
        },
        !kelly.should_trade ==> r is None && final(s).metrics.counters.skipped_kelly == if old(
            s,
        ).metrics.counters.skipped_kelly == u64::MAX {
            0int
        } else {
            old(s).metrics.counters.skipped_kelly + 1
        },
{
}

/// A price is tried exactly where it is of one of the assets, early enough in its quarter of
/// an hour, and no sooner after a trade on the asset than the cooldown; the attempt is on
/// the market of that asset and quarter. Every price is counted.
pub proof fn law_price_is_tried_in_time(
    s: &mut HftPaperStrategy,
    event: PriceUpdateEvent,
    now: i64,
    a: UpDownAsset,
    r: Option<HftAttempt>,
)
    requires
        0 <= now <= i64::MAX - 900,
        old(s).has_room(),
        call_ensures(HftPaperStrategy::on_price_update, (s, &event, now), r),
        event.symbol@ == match a {
            UpDownAsset::Btc => "BTCUSDT"@,
            UpDownAsset::Eth => "ETHUSDT"@,
            UpDownAsset::Sol => "SOLUSDT"@,
            UpDownAsset::Xrp => "XRPUSDT"@,
        },
    ensures
        ({
            let last = match a {
                UpDownAsset::Btc => old(s).assets.btc.last_trade_ts,
                UpDownAsset::Eth => old(s).assets.eth.last_trade_ts,
                UpDownAsset::Sol => old(s).assets.sol.last_trade_ts,
                UpDownAsset::Xrp => old(s).assets.xrp.last_trade_ts,
            };
            &&& r is Some <==> 900 - now % 900 >= old(s).config.window_end_skip_sec && now - last >= old(
                s,
            ).config.cooldown_sec
            &&& r matches Some(t) ==> {
                &&& t.asset == a
                &&& t.now == now
                &&& t.start_ts <= now < t.start_ts + 900
                &&& t.start_ts % 900 == 0
                &&& t.t_rem == t.start_ts + 900 - now
                &&& t.slug@ == slug_of(a.name(), t.start_ts as int)
            }
            &&& r is Some ==> final(s).assets == old(s).assets
        }),
        old(s).metrics.counters.price_updates < u64::MAX ==> final(s).metrics.counters.price_updates == old(
            s,
        ).metrics.counters.price_updates + 1,
        final(s).config == old(s).config,
        final(s).tokens == old(s).tokens,
{
    assert(a.symbol() == event.symbol@);
}

/// A price of nothing that is traded leads to nothing.
pub proof fn law_other_prices_are_ignored(
    s: &mut HftPaperStrategy,
    event: PriceUpdateEvent,
    now: i64,
    r: Option<HftAttempt>,
)
    requires
        call_ensures(HftPaperStrategy::on_price_update, (s, &event, now), r),
        event.symbol@ != "BTCUSDT"@,
        event.symbol@ != "ETHUSDT"@,
        event.symbol@ != "SOLUSDT"@,
        event.symbol@ != "XRPUSDT"@,
    ensures
        r is None,
        final(s).assets == old(s).assets,
{
    assert forall|a: UpDownAsset| (#[trigger] a.symbol()) != event.symbol@ by {}
}

/// The window starts from the price nearest to its start, within one minute before within
/// two, and from the latest where neither is known; without it or a volatility nothing is
/// done, and with both the tokens are those that are kept or are asked for.
pub proof fn law_start_price_is_the_nearest(s: HftPaperStrategy, attempt: HftAttempt, f: FeedReading, r: HftReady)
    requires
        call_ensures(HftPaperStrategy::on_feed, (&s, attempt, f), r),
    ensures
        f.sigma is None ==> r is Ignored,
        f.near_start is None && f.around_start is None && f.latest is None ==> r is Ignored,
        r matches HftReady::Known { attempt: t, p_start, sigma, up, down } ==> {
            &&& t == attempt
            &&& f.sigma == Some(sigma)
            &&& f.near_start is Some ==> f.near_start == Some(p_start)
            &&& f.near_start is None && f.around_start is Some ==> f.around_start == Some(p_start)
            &&& f.near_start is None && f.around_start is None ==> f.latest == Some(p_start)
            &&& s.tokens@.contains_key(attempt.asset.name())
            &&& s.tokens@[attempt.asset.name()].0@ == up@
            &&& s.tokens@[attempt.asset.name()].1@ == down@
        },
        r matches HftReady::Lookup { attempt: t, p_start, sigma } ==> {
            &&& t == attempt
            &&& f.sigma == Some(sigma)
            &&& f.near_start is Some ==> f.near_start == Some(p_start)
            &&& f.near_start is None && f.around_start is Some ==> f.around_start == Some(p_start)
            &&& f.near_start is None && f.around_start is None ==> f.latest == Some(p_start)
            &&& !s.tokens@.contains_key(attempt.asset.name())
        },
        f.sigma is Some && (f.near_start is Some || f.around_start is Some || f.latest is Some) ==> !(r is Ignored),
{
}

/// Tokens that were found once are the tokens of every later attempt on the asset, each on
/// its side; they are kept only where both are there.
pub proof fn law_found_tokens_are_known(
    s: &mut HftPaperStrategy,
    found_for: HftAttempt,
    up: &str,
    down: &str,
    kept: bool,
    after: HftPaperStrategy,
    later: HftAttempt,
    f: FeedReading,
    r: HftReady,
)
    requires
        call_ensures(HftPaperStrategy::on_tokens, (s, &found_for, up, down), kept),
        after == *final(s),
        later.asset == found_for.asset,
        call_ensures(HftPaperStrategy::on_feed, (&after, later, f), r),
    ensures
        kept <==> up@.len() > 0 && down@.len() > 0,
        kept ==> !(r is Lookup),
        kept ==> (r matches HftReady::Known { attempt: t, p_start, sigma, up: u, down: d } ==> u@ == up@ && d@
            == down@),
        !kept ==> after == *old(s),
{
}

/// The middle of a market is taken from both asks where both are there, and from the one
/// that is there elsewhere; without any ask the tick is skipped.
pub proof fn law_middle_needs_an_ask(
    s: &mut HftPaperStrategy,
    attempt: HftAttempt,
    ask_up: Option<Scalar>,
    ask_down: Option<Scalar>,
    r: Option<MarketMid>,
)
    requires
        old(s).has_room(),
        call_ensures(HftPaperStrategy::on_books, (s, &attempt, ask_up, ask_down), r),
    ensures
        r is None <==> ask_up is None && ask_down is None,
        r matches Some(MarketMid::Between { up, down }) ==> ask_up == Some(up) && ask_down == Some(down),
        r matches Some(MarketMid::Up(up)) ==> ask_up == Some(up) && ask_down is None,
        r matches Some(MarketMid::OneLess(down)) ==> ask_up is None && ask_down == Some(down),
        r is Some ==> *final(s) == *old(s),
        final(s).assets.of(attempt.asset).last_trade_ts == old(s).assets.of(attempt.asset).last_trade_ts,
{
}

/// A choice is worth its edge: the estimate is confident enough, the pick is the outcome
/// with an ask and the greater edge, and the edge is at least what is needed, which is more
/// while beliefs jump. They jump where the estimate says so or enough jumps are recent.
pub proof fn law_choice_is_worth_its_edge(
    s: &mut HftPaperStrategy,
    attempt: HftAttempt,
    estimate: Option<RnjdEstimate>,
    q: Quotes,
    recent: usize,
    jump_min_edge: Scalar,
    r: Option<HftChoice>,
)
    requires
        q.edge_up is Rank,
        q.edge_down is Rank,
        call_ensures(HftPaperStrategy::on_estimate, (s, &attempt, estimate, &q, recent, jump_min_edge), r),
    ensures
        r matches Some(c) ==> {
            &&& estimate matches Some(e) && !e.confidence.spec_lt(old(s).config.min_rnjd_confidence)
                && c.rnjd_confidence == e.confidence && (c.jump_regime <==> e.jump_regime || recent >= old(
                s,
            ).config.jump_count_threshold)
            &&& c.jump_regime ==> !c.pick.edge.spec_lt(jump_min_edge)
            &&& !c.jump_regime ==> !c.pick.edge.spec_lt(old(s).config.min_edge)
            &&& c.pick.up ==> q.ask_up == Some(c.pick.price) && c.pick.edge == q.edge_up && c.pick.confidence
                == q.p_up
            &&& !c.pick.up ==> q.ask_down == Some(c.pick.price) && c.pick.edge == q.edge_down
                && c.pick.confidence == q.p_down
            &&& q.ask_up is Some && q.ask_down is Some ==> q.edge_up.spec_le(c.pick.edge) && q.edge_down.spec_le(
                c.pick.edge,
            )
            &&& c.p_up == q.p_up
            &&& *final(s) == *old(s)
        },
        q.ask_up is None && q.ask_down is None ==> r is None,
        estimate is None ==> r is None,
        r is None && estimate is Some && !estimate->0.confidence.spec_lt(old(s).config.min_rnjd_confidence)
            && q.ask_up is Some && q.ask_down is Some ==> {
            let best = if q.edge_down.spec_le(q.edge_up) {
                q.edge_up
            } else {
                q.edge_down
            };
            let jumping = estimate->0.jump_regime || recent >= old(s).config.jump_count_threshold;
            best.spec_le(Scalar::Rank(0)) || best.spec_lt(
                if jumping {
                    jump_min_edge
                } else {
                    old(s).config.min_edge
                },
            )
        },
        final(s).tokens == old(s).tokens,
        final(s).assets.of(attempt.asset).last_trade_ts == old(s).assets.of(attempt.asset).last_trade_ts,
{
}

/// Whatever is chosen has an ask and an edge above zero, none has a greater edge, and it is
/// confident in the outcome that it is on.
pub proof fn law_chosen_outcome_has_the_greater_edge(q: Quotes, r: Option<Pick>)
    requires
        q.edge_up is Rank,
        q.edge_down is Rank,
        call_ensures(choose_outcome, (&q,), r),
    ensures
        r matches Some(p) ==> {
            &&& p.up ==> q.ask_up == Some(p.price) && p.confidence == q.p_up && p.edge == q.edge_up
            &&& !p.up ==> q.ask_down == Some(p.price) && p.confidence == q.p_down && p.edge == q.edge_down
            &&& q.ask_up is Some && q.ask_down is Some ==> Scalar::Rank(0).spec_lt(p.edge)
                && q.edge_up.spec_le(p.edge) && q.edge_down.spec_le(p.edge)
            &&& q.ask_up is None || q.ask_down is None ==> p.price.spec_lt(p.confidence)
        },
        q.ask_up is Some && q.ask_down is Some && q.edge_up == q.edge_down ==> (r matches Some(p) ==> p.up),
        q.ask_up is Some && q.ask_down is Some ==> (r is None <==> q.edge_up.spec_le(Scalar::Rank(0))
            && q.edge_down.spec_le(Scalar::Rank(0))),
        q.ask_up is None && q.ask_down is None ==> r is None,
        q.ask_up matches Some(x) && q.ask_down is None && x.spec_lt(q.p_up) ==> r is Some,
        q.ask_down matches Some(x) && q.ask_up is None && x.spec_lt(q.p_down) ==> r is Some,
{
}

/// After a trade no price of its asset is tried until the cooldown is over, and the prices
/// of the other assets are tried as before.
pub proof fn law_filled_asset_rests(
    s: &mut HftPaperStrategy,
    attempt: HftAttempt,
    choice: HftChoice,
    ack: OrderAck,
    shares: Scalar,
    sigma_b: Scalar,
    t2t_us: u64,
    trade: HftPaperTrade,
    later: &mut HftPaperStrategy,
    event: PriceUpdateEvent,
    now: i64,
    r: Option<HftAttempt>,
)
    requires
        call_ensures(HftPaperStrategy::on_fill, (s, &attempt, &choice, &ack, shares, sigma_b, t2t_us), trade),
        *old(later) == *final(s),
        call_ensures(HftPaperStrategy::on_price_update, (later, &event, now), r),
        event.symbol@ == attempt.asset.symbol(),
        now < attempt.now + old(s).config.cooldown_sec,
    ensures
        r is None,
        forall|b: UpDownAsset|
            b != attempt.asset ==> #[trigger] final(s).assets.of(b) == old(s).assets.of(b),
        final(s).tokens == old(s).tokens,
        final(s).config == old(s).config,
{
}

/// A trade is told as it was filled, on the outcome that was chosen.
pub proof fn law_trade_is_told_as_filled(
    s: &mut HftPaperStrategy,
    attempt: HftAttempt,
    choice: HftChoice,
    ack: OrderAck,
    shares: Scalar,
    sigma_b: Scalar,
    t2t_us: u64,
    trade: HftPaperTrade,
)
    requires
        call_ensures(HftPaperStrategy::on_fill, (s, &attempt, &choice, &ack, shares, sigma_b, t2t_us), trade),
    ensures
        trade.outcome@ == if choice.pick.up {
            "Up"@
        } else {
            "Down"@
        },
        trade.side@ == "BUY"@,
        trade.id@ == ack.order_id@,
        trade.timestamp == ack.filled_at,
        trade.asset@ == attempt.asset.name(),
        trade.market_slug@ == attempt.slug@,
        trade.price == ack.filled_price,
        trade.notional_usd == ack.filled_notional_usdc,
        trade.fees_usd == ack.fees_usdc,
        trade.shares == shares,
        trade.p_estimate == choice.pick.confidence,
        trade.edge == choice.pick.edge,
        trade.jump_regime == choice.jump_regime,
        final(s).metrics.recent_trades.len() > 0,
        final(s).metrics.recent_trades@.last()@ == trade@,
        final(s).assets.of(attempt.asset).consecutive_skips == 0,
        old(s).metrics.counters.trades_executed < u64::MAX ==> final(s).metrics.counters.trades_executed == old(
            s,
        ).metrics.counters.trades_executed + 1,
{
    let views = trade_views(final(s).metrics.recent_trades@);
    assert(views.len() > 0);
    assert(views.last() == trade@);
    assert(views[views.len() - 1] == final(s).metrics.recent_trades@[views.len() - 1]@);
}

/// There is a stake only where there is money, and its bounds are those of the strategy.
pub proof fn law_stake_needs_money(s: HftPaperStrategy, bankroll: Scalar, r: Option<KellyParams>)
    requires
        bankroll is Rank,
        call_ensures(HftPaperStrategy::kelly_params, (&s, bankroll), r),
    ensures
        r is Some <==> Scalar::Rank(0).spec_lt(bankroll),
        r matches Some(p) ==> p.bankroll == bankroll && p.kelly_fraction == s.config.kelly_fraction
            && p.max_position_pct == s.config.max_position_pct && p.min_position_usd == s.config.min_position_usd,
{
}

/// A strategy starts with nothing traded, nothing counted and no tokens, and executes at
/// once.
pub proof fn law_strategy_starts_afresh(config: HftPaperStrategyConfig, r: HftPaperStrategy)
    requires
        call_ensures(HftPaperStrategy::new, (config,), r),
    ensures
        r.config == config,
        !r.stopping,
        r.tokens@.len() == 0,
        r.metrics.recent_trades.len() == 0,
        r.metrics.counters.trades_executed == 0 && r.metrics.counters.price_updates == 0,
        forall|a: UpDownAsset| (#[trigger] r.assets.of(a)).last_trade_ts == 0 && r.assets.of(a).consecutive_skips == 0,
        r.adapter.config.base_latency_ms == 0 && r.adapter.config.latency_jitter_ms == 0,
        r.staleness_config.max_stale_ms == config.book_max_stale_ms,
        r.staleness_config.hard_stale_ms == config.book_hard_stale_ms,
{
}

/// Each setting is what its variable says, where that lies within its bounds, and lies within
/// them whatever the variables say.
pub proof fn law_hft_takes_its_settings(env: Environment, r: HftPaperStrategyConfig)
    requires
        call_ensures(HftPaperStrategyConfig::from_env, (&env,), r),
    ensures
        set_below(env, "HFT_PAPER_MIN_EDGE"@, Scalar::Rank(HALF_RANK), r.min_edge),
        set_up_to(env, "HFT_PAPER_KELLY_FRACTION"@, Scalar::Rank(R_0_25), r.kelly_fraction),
        set_up_to(env, "HFT_PAPER_MAX_POSITION_PCT"@, Scalar::Rank(R_0_1), r.max_position_pct),
        set_above_zero(env, "HFT_PAPER_MAX_POSITION_USD"@, r.max_position_usd),
        set_in_unit(env, "HFT_PAPER_SHRINK_FACTOR"@, r.shrink_factor),
        set_whole(env, "HFT_PAPER_COOLDOWN_SEC"@, true, 0, i64::MAX as int, r.cooldown_sec as int),
        set_whole(env, "HFT_PAPER_BOOK_MAX_STALE_MS"@, false, 0, u64::MAX as int, r.book_max_stale_ms as int),
{
}

/// The figures that hold where no variable is set.
pub proof fn law_unset_hft_is_the_default(env: Environment, r: HftPaperStrategyConfig, d: HftPaperStrategyConfig)
    requires
        is_unset(env),
        call_ensures(HftPaperStrategyConfig::from_env, (&env,), r),
        call_ensures(HftPaperStrategyConfig::default, (), d),
    ensures
        r == d,
        d.min_edge == Scalar::Rank(HFT_MIN_EDGE),
        d.jump_regime_edge_mult == Scalar::Rank(JUMP_EDGE_MULT),
        d.kelly_fraction == Scalar::Rank(HFT_KELLY_FRACTION),
        d.max_position_pct == Scalar::Rank(HFT_MAX_POSITION_PCT),
        d.min_position_usd == Scalar::Rank(R_5),
        d.max_position_usd == Scalar::Rank(R_100),
        d.shrink_factor == Scalar::Rank(HFT_SHRINK),
        d.cooldown_sec == 45,
        d.window_end_skip_sec == 90,
        d.window_start_aggressive_sec == 45,
        d.book_max_stale_ms == 1000,
        d.book_hard_stale_ms == 3000,
        d.min_rnjd_confidence == Scalar::Rank(HALF_RANK),
        d.jump_z_threshold == Scalar::Rank(R_3),
        d.jump_window_sec == 300,
        d.jump_count_threshold == 2,
{
}

/// A trade that is recorded stands last and is counted; a start price is the nearest that is
/// known; and a strategy that is shut down changes nothing else.
pub proof fn law_recorded_trade_stands_last(
    m: &mut HftPaperMetrics,
    t: HftPaperTrade,
    s: &mut HftPaperStrategy,
    f: FeedReading,
    p: Option<Scalar>,
    up: &'static str,
    down: &'static str,
)
    requires
        call_ensures(HftPaperMetrics::record_trade, (m, t), ()),
        call_ensures(HftPaperStrategy::shutdown, (s,), ()),
        call_ensures(FeedReading::start_price, (&f,), p),
        call_ensures(outcome_text, (true,), up),
        call_ensures(outcome_text, (false,), down),
        old(m).counters.trades_executed < u64::MAX,
    ensures
        final(m).recent_trades@.len() > 0 && final(m).recent_trades@.last() == t,
        final(m).counters.trades_executed == old(m).counters.trades_executed + 1,
        final(m).counters.evaluations == old(m).counters.evaluations && final(m).total_pnl_usd == old(m).total_pnl_usd,
        final(s).stopping && final(s).metrics == old(s).metrics && final(s).assets == old(s).assets,
        f.near_start is Some ==> p == f.near_start,
        f.near_start is None && f.around_start is Some ==> p == f.around_start,
        f.near_start is None && f.around_start is None ==> p == f.latest,
        up@ == "Up"@ && down@ == "Down"@,
{
}

/// What is put for an asset is got for it alone, and a summary tells each count by its name.
pub proof fn law_each_hft_asset_has_its_own_state(
    p: &mut HftAssets,
    a: UpDownAsset,
    s: HftAssetState,
    b: UpDownAsset,
    before: HftAssets,
    after: HftAssets,
    r: HftAssetState,
    was: HftAssetState,
    m: HftPaperMetrics,
    sum: HftPaperMetricsSummary,
)
    requires
        call_ensures(HftAssets::put, (p, a, s), ()),
        before == *old(p),
        after == *final(p),
        call_ensures(HftAssets::get, (&after, b), r),
        call_ensures(HftAssets::get, (&before, b), was),
        call_ensures(HftPaperMetrics::summary, (&m,), sum),
    ensures
        b == a ==> r == s,
        b != a ==> r == was,
        sum.price_updates == m.counters.price_updates && sum.evaluations == m.counters.evaluations && sum.trades_executed
            == m.counters.trades_executed && sum.skipped_cooldown == m.counters.skipped_cooldown && sum.skipped_window
            == m.counters.skipped_window && sum.skipped_no_book == m.counters.skipped_no_book && sum.skipped_no_edge
            == m.counters.skipped_no_edge && sum.skipped_jump_regime == m.counters.skipped_jump_regime
            && sum.skipped_low_confidence == m.counters.skipped_low_confidence && sum.skipped_kelly
            == m.counters.skipped_kelly && sum.total_pnl_usd == m.total_pnl_usd,
{
}

/// Each rank here is that of the binary64 number nearest to the one it is called after.
pub proof fn law_hft_paper_strategy_ranks_are_nearest()
    ensures
        0x3F80_0000_0000_0000 <= HFT_MIN_EDGE < 0x3F90_0000_0000_0000,
        -200 <= 2 * (200 * (HFT_MIN_EDGE - 0x3F70000000000000) - 3 * 0x800000000000000int) <= 200,
        0x4000_0000_0000_0000 <= JUMP_EDGE_MULT < 0x4010_0000_0000_0000,
        -2 <= 2 * (2 * (JUMP_EDGE_MULT - 0x3FF0000000000000) - 5 * 0x8000000000000int) <= 2,
        0x3F90_0000_0000_0000 <= HFT_KELLY_FRACTION < 0x3FA0_0000_0000_0000,
        -50 <= 2 * (50 * (HFT_KELLY_FRACTION - 0x3F80000000000000) - 1 * 0x400000000000000int) <= 50,
        0x3F70_0000_0000_0000 <= HFT_MAX_POSITION_PCT < 0x3F80_0000_0000_0000,
        -200 <= 2 * (200 * (HFT_MAX_POSITION_PCT - 0x3F60000000000000) - 1 * 0x1000000000000000int) <= 200,
        0x3FD0_0000_0000_0000 <= HFT_SHRINK < 0x3FE0_0000_0000_0000,
        -5 <= 2 * (5 * (HFT_SHRINK - 0x3FC0000000000000) - 2 * 0x40000000000000int) <= 5,
{
}

} // verus!
