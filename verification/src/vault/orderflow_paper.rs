//! The strategy that trades on paper on the imbalance of order books.
use super::book_access::{
    answer_of,
    get_book_auto,
    renewal_due,
    BookLookupResult,
    HasHftCache,
    Order,
    OrderBook,
    StalenessConfig,
};
use super::execution::{
    OrderRequest,
    OrderSide,
    PaperExecutionAdapter,
    PaperExecutionConfig,
    TimeInForce,
};
use super::paper_ledger::VaultPaperLedger;
use crate::base::ids::fresh_id;
use crate::base::counter::{count_if, count_up, next_count};
use crate::base::order::{is_stable_order, stable_order, stands_before};
use crate::base::scalar::{Scalar, ONE_RANK};
use crate::base::settings::{
    integer_setting,
    is_unset,
    number_or,
    number_setting,
    set_above_zero,
    set_below,
    set_from_zero,
    set_whole,
    size_or,
    unsigned_or,
    Environment,
    Range,
};
use crate::base::table::Table;
use crate::base::text::{trim, trimmed, views};
use std::sync::Arc;
use vstd::prelude::*;

verus! {

/// The rank of 0.18.
pub const DEFAULT_MIN_IMBALANCE: i64 = 0x3FC7_0A3D_70A3_D70A;

/// The rank of 10.0.
pub const DEFAULT_IMBALANCE_BPS: i64 = 0x4024_0000_0000_0000;

/// The rank of 200.0.
pub const DEFAULT_MAX_SPREAD_BPS: i64 = 0x4069_0000_0000_0000;

/// The rank of 25.0.
pub const DEFAULT_MIN_TOP_USD: i64 = 0x4039_0000_0000_0000;

/// The rank of 500.0.
pub const DEFAULT_MIN_LIQUIDITY_USD: i64 = 0x407F_4000_0000_0000;

/// The rank of 2000.0.
pub const DEFAULT_MIN_VOLUME_USD: i64 = 0x409F_4000_0000_0000;

/// The rank of 25.0.
pub const DEFAULT_TRADE_NOTIONAL_USD: i64 = 0x4039_0000_0000_0000;

/// The rank of 5.0.
pub const DEFAULT_MIN_TRADE_USD: i64 = 0x4014_0000_0000_0000;

/// The rank of 0.0025.
pub const DEFAULT_MAX_TRADE_PCT_CASH: i64 = 0x3F64_7AE1_47AE_147B;

/// What the strategy looks for, and how much it trades.
#[derive(Clone, Copy, Debug, PartialEq, Eq, Structural)]
pub struct OrderflowPaperConfig {
    pub min_imbalance: Scalar,
    pub imbalance_bps: Scalar,
    pub max_spread_bps: Scalar,
    pub min_top_usd: Scalar,
    pub min_liquidity_usd: Scalar,
    pub min_volume_usd: Scalar,
    pub trade_notional_usd: Scalar,
    pub min_trade_usd: Scalar,
    pub max_trade_pct_cash: Scalar,
    pub cooldown_ms: u64,
    pub book_max_stale_ms: u64,
    pub gamma_page_size: usize,
    pub max_markets: usize,
    pub poll_interval_ms: u64,
    pub event_queue_size: usize,
    pub log_interval_sec: u64,
}

/// The configuration that holds where nothing is set.
pub open spec fn default_orderflow() -> OrderflowPaperConfig {
    OrderflowPaperConfig {
        min_imbalance: Scalar::Rank(DEFAULT_MIN_IMBALANCE),
        imbalance_bps: Scalar::Rank(DEFAULT_IMBALANCE_BPS),
        max_spread_bps: Scalar::Rank(DEFAULT_MAX_SPREAD_BPS),
        min_top_usd: Scalar::Rank(DEFAULT_MIN_TOP_USD),
        min_liquidity_usd: Scalar::Rank(DEFAULT_MIN_LIQUIDITY_USD),
        min_volume_usd: Scalar::Rank(DEFAULT_MIN_VOLUME_USD),
        trade_notional_usd: Scalar::Rank(DEFAULT_TRADE_NOTIONAL_USD),
        min_trade_usd: Scalar::Rank(DEFAULT_MIN_TRADE_USD),
        max_trade_pct_cash: Scalar::Rank(DEFAULT_MAX_TRADE_PCT_CASH),
        cooldown_ms: 7500,
        book_max_stale_ms: 1200,
        gamma_page_size: 200,
        max_markets: 600,
        poll_interval_ms: 750,
        event_queue_size: 10000,
        log_interval_sec: 10,
    }
}

impl Default for OrderflowPaperConfig {
    fn default() -> (r: OrderflowPaperConfig)
        ensures
            r == default_orderflow(),
    {
        OrderflowPaperConfig {
            min_imbalance: Scalar::Rank(DEFAULT_MIN_IMBALANCE),
            imbalance_bps: Scalar::Rank(DEFAULT_IMBALANCE_BPS),
            max_spread_bps: Scalar::Rank(DEFAULT_MAX_SPREAD_BPS),
            min_top_usd: Scalar::Rank(DEFAULT_MIN_TOP_USD),
            min_liquidity_usd: Scalar::Rank(DEFAULT_MIN_LIQUIDITY_USD),
            min_volume_usd: Scalar::Rank(DEFAULT_MIN_VOLUME_USD),
            trade_notional_usd: Scalar::Rank(DEFAULT_TRADE_NOTIONAL_USD),
            min_trade_usd: Scalar::Rank(DEFAULT_MIN_TRADE_USD),
            max_trade_pct_cash: Scalar::Rank(DEFAULT_MAX_TRADE_PCT_CASH),
            cooldown_ms: 7500,
            book_max_stale_ms: 1200,
            gamma_page_size: 200,
            max_markets: 600,
            poll_interval_ms: 750,
            event_queue_size: 10000,
            log_interval_sec: 10,
        }
    }
}

impl OrderflowPaperConfig {
    /// The default with what the variables set.
    pub fn from_env(env: &Environment) -> (r: OrderflowPaperConfig)
        ensures
            r == (OrderflowPaperConfig {
                min_imbalance: number_setting(
                    *env,
                    "ORDERFLOW_PAPER_MIN_IMBALANCE"@,
                    Range::InsideUnit,
                    Scalar::Rank(DEFAULT_MIN_IMBALANCE),
                ),
                imbalance_bps: number_setting(
                    *env,
                    "ORDERFLOW_PAPER_IMBALANCE_BPS"@,
                    Range::Positive,
                    Scalar::Rank(DEFAULT_IMBALANCE_BPS),
                ),
                max_spread_bps: number_setting(
                    *env,
                    "ORDERFLOW_PAPER_MAX_SPREAD_BPS"@,
                    Range::Positive,
                    Scalar::Rank(DEFAULT_MAX_SPREAD_BPS),
                ),
                min_top_usd: number_setting(
                    *env,
                    "ORDERFLOW_PAPER_MIN_TOP_USD"@,
                    Range::NonNegative,
                    Scalar::Rank(DEFAULT_MIN_TOP_USD),
                ),
                min_liquidity_usd: number_setting(
                    *env,
                    "ORDERFLOW_PAPER_MIN_LIQUIDITY_USD"@,
                    Range::NonNegative,
                    Scalar::Rank(DEFAULT_MIN_LIQUIDITY_USD),
                ),
                min_volume_usd: number_setting(
                    *env,
                    "ORDERFLOW_PAPER_MIN_VOLUME_USD"@,
                    Range::NonNegative,
                    Scalar::Rank(DEFAULT_MIN_VOLUME_USD),
                ),
                trade_notional_usd: number_setting(
                    *env,
                    "ORDERFLOW_PAPER_TRADE_NOTIONAL_USD"@,
                    Range::Positive,
                    Scalar::Rank(DEFAULT_TRADE_NOTIONAL_USD),
                ),
                min_trade_usd: number_setting(
                    *env,
                    "ORDERFLOW_PAPER_MIN_TRADE_USD"@,
                    Range::NonNegative,
                    Scalar::Rank(DEFAULT_MIN_TRADE_USD),
                ),
                max_trade_pct_cash: number_setting(
                    *env,
                    "ORDERFLOW_PAPER_MAX_TRADE_PCT_CASH"@,
                    Range::NonNegative,
                    Scalar::Rank(DEFAULT_MAX_TRADE_PCT_CASH),
                ),
                cooldown_ms: integer_setting(
                    *env,
                    "ORDERFLOW_PAPER_COOLDOWN_MS"@,
                    false,
                    250,
                    u64::MAX as int,
                    7500,
                ) as u64,
                book_max_stale_ms: integer_setting(
                    *env,
                    "ORDERFLOW_PAPER_BOOK_MAX_STALE_MS"@,
                    false,
                    100,
                    u64::MAX as int,
                    1200,
                ) as u64,
                gamma_page_size: integer_setting(
                    *env,
                    "ORDERFLOW_PAPER_GAMMA_PAGE_SIZE"@,
                    false,
                    50,
                    usize::MAX as int,
                    200,
                ) as usize,
                max_markets: integer_setting(
                    *env,
                    "ORDERFLOW_PAPER_MAX_MARKETS"@,
                    false,
                    0,
                    usize::MAX as int,
                    600,
                ) as usize,
                poll_interval_ms: integer_setting(
                    *env,
                    "ORDERFLOW_PAPER_POLL_INTERVAL_MS"@,
                    false,
                    100,
                    u64::MAX as int,
                    750,
                ) as u64,
                event_queue_size: integer_setting(
                    *env,
                    "ORDERFLOW_PAPER_EVENT_QUEUE_SIZE"@,
                    false,
                    1000,
                    usize::MAX as int,
                    10000,
                ) as usize,
                log_interval_sec: integer_setting(
                    *env,
                    "ORDERFLOW_PAPER_LOG_INTERVAL_SEC"@,
                    false,
                    5,
                    u64::MAX as int,
                    10,
                ) as u64,
            }),
    {
        let mut cfg = OrderflowPaperConfig::default();
        cfg.min_imbalance =
        number_or(env, "ORDERFLOW_PAPER_MIN_IMBALANCE", Range::InsideUnit, cfg.min_imbalance);
        cfg.imbalance_bps =
        number_or(env, "ORDERFLOW_PAPER_IMBALANCE_BPS", Range::Positive, cfg.imbalance_bps);
        cfg.max_spread_bps =
        number_or(env, "ORDERFLOW_PAPER_MAX_SPREAD_BPS", Range::Positive, cfg.max_spread_bps);
        cfg.min_top_usd =
        number_or(env, "ORDERFLOW_PAPER_MIN_TOP_USD", Range::NonNegative, cfg.min_top_usd);
        cfg.min_liquidity_usd =
        number_or(env, "ORDERFLOW_PAPER_MIN_LIQUIDITY_USD", Range::NonNegative, cfg.min_liquidity_usd);
        cfg.min_volume_usd =
        number_or(env, "ORDERFLOW_PAPER_MIN_VOLUME_USD", Range::NonNegative, cfg.min_volume_usd);
        cfg.trade_notional_usd =
        number_or(env, "ORDERFLOW_PAPER_TRADE_NOTIONAL_USD", Range::Positive, cfg.trade_notional_usd);
        cfg.min_trade_usd =
        number_or(env, "ORDERFLOW_PAPER_MIN_TRADE_USD", Range::NonNegative, cfg.min_trade_usd);
        cfg.max_trade_pct_cash =
        number_or(env, "ORDERFLOW_PAPER_MAX_TRADE_PCT_CASH", Range::NonNegative, cfg.max_trade_pct_cash);
        cfg.cooldown_ms =
        unsigned_or(env, "ORDERFLOW_PAPER_COOLDOWN_MS", 250, u64::MAX, cfg.cooldown_ms);
        cfg.book_max_stale_ms =
        unsigned_or(env, "ORDERFLOW_PAPER_BOOK_MAX_STALE_MS", 100, u64::MAX, cfg.book_max_stale_ms);
        cfg.gamma_page_size =
        size_or(env, "ORDERFLOW_PAPER_GAMMA_PAGE_SIZE", 50, usize::MAX, cfg.gamma_page_size);
        cfg.max_markets =
        size_or(env, "ORDERFLOW_PAPER_MAX_MARKETS", 0, usize::MAX, cfg.max_markets);
        cfg.poll_interval_ms =
        unsigned_or(env, "ORDERFLOW_PAPER_POLL_INTERVAL_MS", 100, u64::MAX, cfg.poll_interval_ms);
        cfg.event_queue_size =
        size_or(env, "ORDERFLOW_PAPER_EVENT_QUEUE_SIZE", 1000, usize::MAX, cfg.event_queue_size);
        cfg.log_interval_sec =
        unsigned_or(env, "ORDERFLOW_PAPER_LOG_INTERVAL_SEC", 5, u64::MAX, cfg.log_interval_sec);
        cfg
    }
}

/// What the strategy counts.
#[derive(Clone, Copy, Debug, PartialEq, Eq, Structural)]
pub struct OrderflowPaperMetrics {
    pub updates: u64,
    pub evaluations: u64,
    pub trades: u64,
    pub skipped_no_book: u64,
    pub skipped_spread: u64,
    pub skipped_imbalance: u64,
    pub skipped_cooldown: u64,
    pub skipped_liquidity: u64,
    pub queue_drops: u64,
    pub errors: u64,
}

/// The counts so far.
#[derive(Clone, Copy, Debug, PartialEq, Eq, Structural)]
pub struct OrderflowPaperMetricsSummary {
    pub updates: u64,
    pub evaluations: u64,
    pub trades: u64,
    pub skipped_no_book: u64,
    pub skipped_spread: u64,
    pub skipped_imbalance: u64,
    pub skipped_cooldown: u64,
    pub skipped_liquidity: u64,
    pub queue_drops: u64,
    pub errors: u64,
}

/// Nothing was counted.
pub open spec fn no_orderflow() -> OrderflowPaperMetrics {
    OrderflowPaperMetrics {
        updates: 0,
        evaluations: 0,
        trades: 0,
        skipped_no_book: 0,
        skipped_spread: 0,
        skipped_imbalance: 0,
        skipped_cooldown: 0,
        skipped_liquidity: 0,
        queue_drops: 0,
        errors: 0,
    }
}

impl Default for OrderflowPaperMetrics {
    fn default() -> (r: OrderflowPaperMetrics)
        ensures
            r == no_orderflow(),
    {
        OrderflowPaperMetrics {
            updates: 0,
            evaluations: 0,
            trades: 0,
            skipped_no_book: 0,
            skipped_spread: 0,
            skipped_imbalance: 0,
            skipped_cooldown: 0,
            skipped_liquidity: 0,
            queue_drops: 0,
            errors: 0,
        }
    }
}

impl OrderflowPaperMetrics {
    pub fn summary(&self) -> (r: OrderflowPaperMetricsSummary)
        ensures
            r.updates == self.updates,
            r.evaluations == self.evaluations,
            r.trades == self.trades,
            r.skipped_no_book == self.skipped_no_book,
            r.skipped_spread == self.skipped_spread,
            r.skipped_imbalance == self.skipped_imbalance,
            r.skipped_cooldown == self.skipped_cooldown,
            r.skipped_liquidity == self.skipped_liquidity,
            r.queue_drops == self.queue_drops,
            r.errors == self.errors,
    {
        OrderflowPaperMetricsSummary {
            updates: self.updates,
            evaluations: self.evaluations,
            trades: self.trades,
            skipped_no_book: self.skipped_no_book,
            skipped_spread: self.skipped_spread,
            skipped_imbalance: self.skipped_imbalance,
            skipped_cooldown: self.skipped_cooldown,
            skipped_liquidity: self.skipped_liquidity,
            queue_drops: self.queue_drops,
            errors: self.errors,
        }
    }
}

/// A token that is traded.
#[derive(Debug)]
pub struct TokenInfo {
    pub token_id: String,
    pub market_slug: String,
    pub outcome: String,
}

/// A token with its texts as sequences.
pub struct TokenView {
    pub token_id: Seq<char>,
    pub market_slug: Seq<char>,
    pub outcome: Seq<char>,
}

impl View for TokenInfo {
    type V = TokenView;

    open spec fn view(&self) -> TokenView {
        TokenView {
            token_id: self.token_id@,
            market_slug: self.market_slug@,
            outcome: self.outcome@,
        }
    }
}

/// A book that is worth a look: its best levels lie apart and above zero.
#[derive(Debug)]
pub struct Candidate {
    pub book: Arc<OrderBook>,
    pub best_bid: Order,
    pub best_ask: Order,
}

/// Whether best prices make a market, as far as they can be compared.
pub open spec fn no_market(bid: Scalar, ask: Scalar) -> bool {
    bid.spec_le(Scalar::Rank(0)) || ask.spec_le(Scalar::Rank(0)) || ask.spec_le(bid)
}

/// The figures behind a trade: what is held, what the best levels are worth, the share
/// of the cash that may be spent, and what the position is worth at the best bid.
#[derive(Clone, Copy, Debug, PartialEq, Eq, Structural)]
pub struct TradeFigures {
    pub position_shares: Scalar,
    pub ask_top_usd: Scalar,
    pub bid_top_usd: Scalar,
    pub max_by_cash: Scalar,
    pub position_value: Scalar,
}

/// What an imbalance leads to.
#[derive(Clone, Copy, Debug, PartialEq, Eq, Structural)]
pub enum FlowMove {
    /// Nothing to do: already held, or nothing to sell.
    Nothing,
    /// Too little at the top of the book, or too small a trade.
    TooThin,
    Trade { side: OrderSide, price: Scalar, notional: Scalar },
}

/// The levels of a book within the cutoffs.
pub open spec fn near_bids(levels: Seq<Order>, cutoff: Scalar) -> Seq<Order> {
    levels.filter(|o: Order| cutoff.spec_le(o.price))
}

pub open spec fn near_asks(levels: Seq<Order>, cutoff: Scalar) -> Seq<Order> {
    levels.filter(|o: Order| o.price.spec_le(cutoff))
}

/// The bids at or above one cutoff and the asks at or below another.
pub fn levels_near(book: &OrderBook, bid_cutoff: Scalar, ask_cutoff: Scalar) -> (r: (Vec<Order>, Vec<Order>))
    ensures
        r.0@ == near_bids(book.bids@, bid_cutoff),
        r.1@ == near_asks(book.asks@, ask_cutoff),
{
    let ghost above = |o: Order| bid_cutoff.spec_le(o.price);
    let ghost below = |o: Order| o.price.spec_le(ask_cutoff);
    let mut bids: Vec<Order> = Vec::new();
    let mut i: usize = 0;
    proof {
        reveal(Seq::filter);
    }
    assert(book.bids@.take(0).filter(above) =~= Seq::<Order>::empty());
    while i < book.bids.len()
        invariant
            i <= book.bids.len(),
            above == (|o: Order| bid_cutoff.spec_le(o.price)),
            bids@ == book.bids@.take(i as int).filter(above),
        decreases book.bids.len() - i,
    {
        proof {
            reveal(Seq::filter);
        }
        assert(book.bids@.take(i as int + 1).drop_last() =~= book.bids@.take(i as int));
        if bid_cutoff.le(book.bids[i].price) {
            bids.push(book.bids[i]);
        }
        i = i + 1;
    }
    assert(book.bids@.take(i as int) =~= book.bids@);
    let mut asks: Vec<Order> = Vec::new();
    let mut j: usize = 0;
    assert(book.asks@.take(0).filter(below) =~= Seq::<Order>::empty());
    while j < book.asks.len()
        invariant
            j <= book.asks.len(),
            below == (|o: Order| o.price.spec_le(ask_cutoff)),
            asks@ == book.asks@.take(j as int).filter(below),
        decreases book.asks.len() - j,
    {
        proof {
            reveal(Seq::filter);
        }
        assert(book.asks@.take(j as int + 1).drop_last() =~= book.asks@.take(j as int));
        if book.asks[j].price.le(ask_cutoff) {
            asks.push(book.asks[j]);
        }
        j = j + 1;
    }
    assert(book.asks@.take(j as int) =~= book.asks@);
    (bids, asks)
}

/// The imbalance of a book: `quotient` is what the near bids are worth less what the
/// near asks are worth, by `both`, what they are worth together. A book without worth
/// has none.
pub fn compute_imbalance(both: Scalar, quotient: Scalar) -> (r: Option<Scalar>)
    ensures
        r == if both.spec_le(Scalar::Rank(0)) {
            None
        } else {
            Some(quotient)
        },
{
    if both.le(Scalar::Rank(0)) {
        None
    } else {
        Some(quotient)
    }
}

/// The strategy.
pub struct OrderflowPaperEngine {
    pub cfg: OrderflowPaperConfig,
    pub adapter: PaperExecutionAdapter,
    pub metrics: OrderflowPaperMetrics,
    pub tokens: Table<TokenInfo>,
    /// When each token was last traded, in nanoseconds.
    pub last_trade_at: Table<u64>,
    pub staleness: StalenessConfig,
}

/// The book of a token in the caches, and whether a new subscription is due.
pub open spec fn book_in<T: HasHftCache>(caches: T, token_id: Seq<char>, config: StalenessConfig) -> (
    Option<Arc<OrderBook>>,
    bool,
) {
    match caches.newer() {
        Some(hft) => match answer_of(hft, token_id, config.max_stale_ms) {
            BookLookupResult::Hit { book, age_ms } => (Some(book), false),
            BookLookupResult::Miss { reason, last_age_ms } => (
                None,
                renewal_due(last_age_ms, config.hard_stale_ms),
            ),
        },
        None => (caches.older().book_within(token_id, config.max_stale_ms as i64), false),
    }
}

/// Four times a limit, or as much as there is.
pub open spec fn fourfold(x: u64) -> u64 {
    if x * 4 > u64::MAX {
        u64::MAX
    } else {
        (x * 4) as u64
    }
}

fn four_times(x: u64) -> (r: u64)
    ensures
        r == fourfold(x),
{
    match x.checked_mul(4) {
        Some(y) => y,
        None => u64::MAX,
    }
}

impl OrderflowPaperEngine {
    /// An engine that trades the tokens of a universe, and how its orders are executed on
    /// paper.
    pub fn new(cfg: OrderflowPaperConfig, execution: PaperExecutionConfig, tokens: Table<TokenInfo>) -> (r:
        OrderflowPaperEngine)
        ensures
            r.cfg == cfg,
            r.adapter.config == execution,
            r.metrics == no_orderflow(),
            r.tokens == tokens,
            r.last_trade_at@ == Map::<Seq<char>, u64>::empty(),
            r.staleness == (StalenessConfig {
                max_stale_ms: cfg.book_max_stale_ms,
                hard_stale_ms: fourfold(cfg.book_max_stale_ms),
            }),
    {
        OrderflowPaperEngine {
            cfg,
            adapter: PaperExecutionAdapter::new(execution),
            metrics: OrderflowPaperMetrics::default(),
            tokens,
            last_trade_at: Table::new(),
            staleness: StalenessConfig {
                max_stale_ms: cfg.book_max_stale_ms,
                hard_stale_ms: four_times(cfg.book_max_stale_ms),
            },
        }
    }

    /// The engine with other counts.
    pub open spec fn counted(self, m: OrderflowPaperMetrics) -> OrderflowPaperEngine {
        OrderflowPaperEngine { metrics: m, ..self }
    }

    /// The engine after a book without a market.
    pub open spec fn without_book(self) -> OrderflowPaperEngine {
        self.counted(
            OrderflowPaperMetrics {
                updates: next_count(self.metrics.updates),
                skipped_no_book: next_count(self.metrics.skipped_no_book),
                ..self.metrics
            },
        )
    }

    /// Takes in that the book of a token changed: a book that makes a market is worth a
    /// look. Also says whether a new subscription is due.
    pub fn handle_update<T: HasHftCache>(&mut self, token_id: &str, caches: &T) -> (r: (
        Option<Candidate>,
        bool,
    ))
        ensures
            ({
                let m = old(self).metrics;
                let (book, renew) = book_in(*caches, token_id@, old(self).staleness);
                if !old(self).tokens@.contains_key(token_id@) {
                    r == (None::<Candidate>, false) && *final(self) == old(self).counted(
                        OrderflowPaperMetrics { updates: next_count(m.updates), ..m },
                    )
                } else {
                    &&& r.1 == renew
                    &&& match book {
                        None => r.0 is None && *final(self) == old(self).without_book(),
                        Some(b) => if b.bids.len() == 0 || b.asks.len() == 0 || no_market(
                            b.bids[0].price,
                            b.asks[0].price,
                        ) {
                            r.0 is None && *final(self) == old(self).without_book()
                        } else {
                            r.0 == Some(
                                Candidate { book: b, best_bid: b.bids[0], best_ask: b.asks[0] },
                            ) && *final(self) == old(self).counted(
                                OrderflowPaperMetrics {
                                    updates: next_count(m.updates),
                                    evaluations: next_count(m.evaluations),
                                    ..m
                                },
                            )
                        },
                    }
                }
            }),
    {
        self.metrics.updates = count_up(self.metrics.updates);
        if !self.tokens.contains(token_id) {
            return (None, false);
        }
        let (found, renew) = get_book_auto(caches, token_id, &self.staleness);
        let book = match found {
            Some(b) => b,
            None => {
                self.metrics.skipped_no_book = count_up(self.metrics.skipped_no_book);
                return (None, renew);
            },
        };
        if book.bids.len() == 0 || book.asks.len() == 0 {
            self.metrics.skipped_no_book = count_up(self.metrics.skipped_no_book);
            return (None, renew);
        }
        let best_bid = book.bids[0];
        let best_ask = book.asks[0];
        let zero = Scalar::Rank(0);
        if best_bid.price.le(zero) || best_ask.price.le(zero) || best_ask.price.le(best_bid.price) {
            self.metrics.skipped_no_book = count_up(self.metrics.skipped_no_book);
            return (None, renew);
        }
        self.metrics.evaluations = count_up(self.metrics.evaluations);
        (Some(Candidate { book, best_bid, best_ask }), renew)
    }

    /// Whether a token was traded so lately that it cools down.
    pub open spec fn cools_down(self, token_id: Seq<char>, now_ns: u64) -> bool {
        self.last_trade_at@.contains_key(token_id) && {
            let last = self.last_trade_at@[token_id];
            (if now_ns >= last {
                (now_ns - last) / 1_000_000
            } else {
                0
            }) < self.cfg.cooldown_ms
        }
    }

    /// Takes the figures of a book in: a book with a wide spread, one that is balanced,
    /// and one of a token that cools down are passed over.
    pub fn on_figures(&mut self, token_id: &str, spread_bps: Scalar, imbalance: Option<Scalar>, now_ns: u64) -> (r:
        bool)
        ensures
            ({
                let m = old(self).metrics;
                let wide = old(self).cfg.max_spread_bps.spec_lt(spread_bps);
                let balanced = !wide && match imbalance {
                    Some(x) => x.spec_abs().spec_lt(old(self).cfg.min_imbalance),
                    None => true,
                };
                let cooling = !wide && !balanced && old(self).cools_down(token_id@, now_ns);
                &&& r == (!wide && !balanced && !cooling)
                &&& *final(self) == old(self).counted(
                    OrderflowPaperMetrics {
                        skipped_spread: count_if(m.skipped_spread, wide),
                        skipped_imbalance: count_if(m.skipped_imbalance, balanced),
                        skipped_cooldown: count_if(m.skipped_cooldown, cooling),
                        ..m
                    },
                )
            }),
    {
        if self.cfg.max_spread_bps.lt(spread_bps) {
            self.metrics.skipped_spread = count_up(self.metrics.skipped_spread);
            return false;
        }
        let balanced = match imbalance {
            Some(x) => x.abs().lt(self.cfg.min_imbalance),
            None => true,
        };
        if balanced {
            self.metrics.skipped_imbalance = count_up(self.metrics.skipped_imbalance);
            return false;
        }
        match self.last_trade_at.get(token_id) {
            Some(last) => {
                let elapsed_ms: u64 = if now_ns >= *last {
                    (now_ns - *last) / 1_000_000
                } else {
                    0
                };
                if elapsed_ms < self.cfg.cooldown_ms {
                    self.metrics.skipped_cooldown = count_up(self.metrics.skipped_cooldown);
                    return false;
                }
            },
            None => {},
        }
        true
    }

    /// What an imbalance leads to: buyers in excess mean to buy what is not held, and
    /// anything else means to sell what is held.
    pub open spec fn flow_move(self, imbalance: Scalar, best_bid: Scalar, best_ask: Scalar, f: TradeFigures) -> FlowMove {
        if Scalar::Rank(0).spec_lt(imbalance) {
            let notional = self.cfg.trade_notional_usd.spec_min(f.max_by_cash);
            if Scalar::Rank(0).spec_lt(f.position_shares) {
                FlowMove::Nothing
            } else if f.ask_top_usd.spec_lt(self.cfg.min_top_usd) || notional.spec_lt(
                self.cfg.min_trade_usd,
            ) {
                FlowMove::TooThin
            } else {
                FlowMove::Trade { side: OrderSide::Buy, price: best_ask, notional }
            }
        } else {
            let notional = self.cfg.trade_notional_usd.spec_min(f.position_value);
            if f.position_shares.spec_le(Scalar::Rank(0)) {
                FlowMove::Nothing
            } else if f.bid_top_usd.spec_lt(self.cfg.min_top_usd) || notional.spec_lt(
                self.cfg.min_trade_usd,
            ) {
                FlowMove::TooThin
            } else {
                FlowMove::Trade { side: OrderSide::Sell, price: best_bid, notional }
            }
        }
    }

    /// Decides what an imbalance leads to.
    pub fn decide(&self, imbalance: Scalar, best_bid: Scalar, best_ask: Scalar, f: &TradeFigures) -> (r: FlowMove)
        ensures
            r == self.flow_move(imbalance, best_bid, best_ask, *f),
    {
        let zero = Scalar::Rank(0);
        if zero.lt(imbalance) {
            if zero.lt(f.position_shares) {
                return FlowMove::Nothing;
            }
            if f.ask_top_usd.lt(self.cfg.min_top_usd) {
                return FlowMove::TooThin;
            }
            let notional = self.cfg.trade_notional_usd.min(f.max_by_cash);
            if notional.lt(self.cfg.min_trade_usd) {
                return FlowMove::TooThin;
            }
            FlowMove::Trade { side: OrderSide::Buy, price: best_ask, notional }
        } else {
            if f.position_shares.le(zero) {
                return FlowMove::Nothing;
            }
            if f.bid_top_usd.lt(self.cfg.min_top_usd) {
                return FlowMove::TooThin;
            }
            let notional = self.cfg.trade_notional_usd.min(f.position_value);
            if notional.lt(self.cfg.min_trade_usd) {
                return FlowMove::TooThin;
            }
            FlowMove::Trade { side: OrderSide::Sell, price: best_bid, notional }
        }
    }

    /// What the figures of the ledger lead to: an order under an identifier where there is
    /// a trade to make.
    pub open spec fn took_figures(
        before: OrderflowPaperEngine,
        after: OrderflowPaperEngine,
        token_id: Seq<char>,
        flow: FlowMove,
        id: Seq<char>,
        r: Option<OrderRequest>,
    ) -> bool {
        match flow {
            FlowMove::Nothing => r is None && after == before,
            FlowMove::TooThin => r is None && after == before.counted(
                OrderflowPaperMetrics {
                    skipped_liquidity: next_count(before.metrics.skipped_liquidity),
                    ..before.metrics
                },
            ),
            FlowMove::Trade { side, price, notional } => {
                let info = before.tokens@[token_id];
                &&& after == before
                &&& r matches Some(o)
                &&& o.client_order_id@ == id
                &&& o.token_id@ == token_id
                &&& o.side == side
                &&& o.price == price
                &&& o.notional_usdc == notional
                &&& o.tif == TimeInForce::Ioc
                &&& (o.market_slug matches Some(s) && s@ == info.market_slug@)
                &&& (o.outcome matches Some(s) && s@ == info.outcome@)
            },
        }
    }

    /// Takes the figures of the ledger in: an order has a fresh identifier.
    pub fn on_ledger(
        &mut self,
        token_id: &str,
        imbalance: Scalar,
        best_bid: Scalar,
        best_ask: Scalar,
        f: &TradeFigures,
    ) -> (r: Option<OrderRequest>)
        requires
            old(self).tokens@.contains_key(token_id@),
        ensures
            exists|id: Seq<char>|
                id.len() == 36 && #[trigger] Self::took_figures(
                    *old(self),
                    *final(self),
                    token_id@,
                    old(self).flow_move(imbalance, best_bid, best_ask, *f),
                    id,
                    r,
                ),
    {
        let id = fresh_id();
        let ghost text = id@;
        let r = self.on_ledger_with(token_id, imbalance, best_bid, best_ask, f, id);
        assert(Self::took_figures(
            *old(self),
            *self,
            token_id@,
            old(self).flow_move(imbalance, best_bid, best_ask, *f),
            text,
            r,
        ));
        r
    }

    /// Takes the figures of the ledger in: an order has the given identifier.
    pub fn on_ledger_with(
        &mut self,
        token_id: &str,
        imbalance: Scalar,
        best_bid: Scalar,
        best_ask: Scalar,
        f: &TradeFigures,
        client_order_id: String,
    ) -> (r: Option<OrderRequest>)
        requires
            old(self).tokens@.contains_key(token_id@),
        ensures
            Self::took_figures(
                *old(self),
                *final(self),
                token_id@,
                old(self).flow_move(imbalance, best_bid, best_ask, *f),
                client_order_id@,
                r,
            ),
    {
        match self.decide(imbalance, best_bid, best_ask, f) {
            FlowMove::Nothing => None,
            FlowMove::TooThin => {
                self.metrics.skipped_liquidity = count_up(self.metrics.skipped_liquidity);
                None
            },
            FlowMove::Trade { side, price, notional } => match self.tokens.get(token_id) {
                Some(info) => Some(
                    OrderRequest {
                        client_order_id,
                        token_id: token_id.to_owned(),
                        side,
                        price,
                        notional_usdc: notional,
                        tif: TimeInForce::Ioc,
                        market_slug: Some(info.market_slug.clone()),
                        outcome: Some(info.outcome.clone()),
                    },
                ),
                None => None,
            },
        }
    }

    /// Takes in that an order was refused.
    pub fn on_reject(&mut self, ledger: &mut VaultPaperLedger)
        requires
            old(ledger).reject_count < u64::MAX,
        ensures
            *final(self) == old(self).counted(
                OrderflowPaperMetrics { errors: next_count(old(self).metrics.errors), ..old(self).metrics },
            ),
            *final(ledger) == (VaultPaperLedger {
                reject_count: (old(ledger).reject_count + 1) as u64,
                ..*old(ledger)
            }),
    {
        self.metrics.errors = count_up(self.metrics.errors);
        ledger.record_reject();
    }

    /// Takes in that an update failed.
    pub fn on_failure(&mut self)
        ensures
            *final(self) == old(self).counted(
                OrderflowPaperMetrics { errors: next_count(old(self).metrics.errors), ..old(self).metrics },
            ),
    {
        self.metrics.errors = count_up(self.metrics.errors);
    }

    /// Takes in that an update found no room in the queue.
    pub fn on_queue_full(&mut self)
        ensures
            *final(self) == old(self).counted(
                OrderflowPaperMetrics {
                    queue_drops: next_count(old(self).metrics.queue_drops),
                    ..old(self).metrics
                },
            ),
    {
        self.metrics.queue_drops = count_up(self.metrics.queue_drops);
    }

    /// Takes in that a token was traded.
    pub fn on_traded(&mut self, token_id: &str, now_ns: u64)
        ensures
            final(self).last_trade_at@ == old(self).last_trade_at@.insert(token_id@, now_ns),
            *final(self) == (OrderflowPaperEngine {
                last_trade_at: final(self).last_trade_at,
                metrics: OrderflowPaperMetrics {
                    trades: next_count(old(self).metrics.trades),
                    ..old(self).metrics
                },
                ..*old(self)
            }),
    {
        self.last_trade_at.insert(token_id.to_owned(), now_ns);
        self.metrics.trades = count_up(self.metrics.trades);
    }
}

/// Whether an order was filled in part only.
pub fn is_partial(filled_notional: Scalar, order: &OrderRequest) -> (r: bool)
    ensures
        r == filled_notional.spec_lt(order.notional_usdc),
{
    filled_notional.lt(order.notional_usdc)
}

/// A market of the listing.
#[derive(Debug)]
pub struct GammaMarket {
    pub slug: String,
    pub closed: bool,
    pub active: bool,
    pub liquidity: Option<Scalar>,
    pub volume: Option<Scalar>,
    pub clob_token_ids: Vec<String>,
    pub outcomes: Vec<String>,
}

/// A figure that counts as zero where it is missing.
pub open spec fn or_zero(x: Option<Scalar>) -> Scalar {
    match x {
        Some(s) => s,
        None => Scalar::Rank(0),
    }
}

fn value_or_zero(x: Option<Scalar>) -> (r: Scalar)
    ensures
        r == or_zero(x),
{
    match x {
        Some(s) => s,
        None => Scalar::Rank(0),
    }
}

impl GammaMarket {
    /// Whether a market is open, liquid and busy, with an outcome for each token.
    pub open spec fn eligible(self, cfg: OrderflowPaperConfig) -> bool {
        &&& !self.closed
        &&& self.active
        &&& !or_zero(self.liquidity).spec_lt(cfg.min_liquidity_usd)
        &&& !or_zero(self.volume).spec_lt(cfg.min_volume_usd)
        &&& self.clob_token_ids.len() > 0
        &&& self.clob_token_ids.len() == self.outcomes.len()
    }

    pub fn is_eligible(&self, cfg: &OrderflowPaperConfig) -> (r: bool)
        ensures
            r == self.eligible(*cfg),
    {
        if self.closed || !self.active {
            return false;
        }
        if value_or_zero(self.liquidity).lt(cfg.min_liquidity_usd) || value_or_zero(self.volume).lt(
            cfg.min_volume_usd,
        ) {
            return false;
        }
        if self.clob_token_ids.len() == 0 || self.outcomes.len() == 0 {
            return false;
        }
        self.clob_token_ids.len() == self.outcomes.len()
    }

    /// The rank of its liquidity.
    pub open spec fn liquidity_rank(self) -> int {
        match or_zero(self.liquidity) {
            Scalar::Rank(a) => a as int,
            Scalar::Undefined => 0,
        }
    }

    /// The outcome of the `i`-th token.
    pub open spec fn outcome_at(self, i: int) -> Seq<char> {
        if 0 <= i < self.outcomes.len() {
            self.outcomes[i]@
        } else {
            "Unknown"@
        }
    }
}

/// The search for markets, page by page.
#[derive(Debug)]
pub struct UniverseScan {
    pub offset: usize,
    pub candidates: Vec<GammaMarket>,
}

/// Twice a number, or as much as there is.
pub open spec fn doubled(x: usize) -> usize {
    if x * 2 > usize::MAX {
        usize::MAX
    } else {
        (x * 2) as usize
    }
}

fn twice(x: usize) -> (r: usize)
    ensures
        r == doubled(x),
{
    match x.checked_mul(2) {
        Some(y) => y,
        None => usize::MAX,
    }
}

/// The tokens with one more, unless its name is blank or known.
pub open spec fn with_token(known: Seq<TokenView>, t: TokenView) -> Seq<TokenView> {
    if t.token_id.len() == 0 || knows(known, t.token_id) {
        known
    } else {
        known.push(t)
    }
}

pub open spec fn knows(known: Seq<TokenView>, token_id: Seq<char>) -> bool {
    exists|i: int| 0 <= i < known.len() && (#[trigger] known[i]).token_id == token_id
}

/// The tokens with the first `n` ones of a market.
pub open spec fn with_market(known: Seq<TokenView>, m: GammaMarket, n: nat) -> Seq<TokenView>
    decreases n,
{
    if n == 0 {
        known
    } else {
        with_token(
            with_market(known, m, (n - 1) as nat),
            TokenView {
                token_id: trimmed(m.clob_token_ids[n - 1]@),
                market_slug: m.slug@,
                outcome: m.outcome_at(n - 1),
            },
        )
    }
}

/// The tokens of markets, each where it stands first.
pub open spec fn tokens_of(markets: Seq<GammaMarket>) -> Seq<TokenView>
    decreases markets.len(),
{
    if markets.len() == 0 {
        Seq::empty()
    } else {
        with_market(
            tokens_of(markets.drop_last()),
            markets.last(),
            markets.last().clob_token_ids.len() as nat,
        )
    }
}

/// The names of tokens.
pub open spec fn ids_of(known: Seq<TokenView>) -> Seq<Seq<char>> {
    known.map_values(|t: TokenView| t.token_id)
}

/// The table of tokens holds them by their names, in order.
pub open spec fn lists(table: Table<TokenInfo>, known: Seq<TokenView>) -> bool {
    &&& table.order() == ids_of(known)
    &&& forall|i: int|
        #![trigger known[i]]
        0 <= i < known.len() ==> table@.contains_key(known[i].token_id)
            && table@[known[i].token_id]@ == known[i]
    &&& forall|k: Seq<char>| (#[trigger] table@.contains_key(k)) ==> knows(known, k)
}

/// The markets in the order of `perm`, as many as are selected.
pub open spec fn picked(markets: Seq<GammaMarket>, perm: Seq<usize>, n: int) -> Seq<GammaMarket> {
    Seq::new(n as nat, |i: int| markets[perm[i] as int])
}

/// The keys that order markets by falling liquidity.
pub open spec fn falling(markets: Seq<GammaMarket>) -> Seq<i64> {
    markets.map_values(|m: GammaMarket| (-1 - m.liquidity_rank()) as i64)
}

/// How many markets are selected.
pub open spec fn selected_count(cfg: OrderflowPaperConfig, n: nat) -> nat {
    if cfg.max_markets > 0 && cfg.max_markets < n {
        cfg.max_markets as nat
    } else {
        n
    }
}

impl UniverseScan {
    pub fn new() -> (r: UniverseScan)
        ensures
            r.offset == 0,
            r.candidates@ == Seq::<GammaMarket>::empty(),
    {
        UniverseScan { offset: 0, candidates: Vec::new() }
    }

    /// Takes a page of the listing in, and says whether the next one is asked for: not
    /// after a short page, nor once there are twice as many candidates as needed.
    pub fn take_page(&mut self, cfg: &OrderflowPaperConfig, page: Vec<GammaMarket>) -> (r: bool)
        requires
            old(self).offset + cfg.gamma_page_size <= usize::MAX,
        ensures
            final(self).candidates@ == old(self).candidates@ + page@.filter(
                |m: GammaMarket| m.eligible(*cfg),
            ),
            final(self).offset == if page.len() == 0 {
                old(self).offset as int
            } else {
                old(self).offset + cfg.gamma_page_size
            },
            r == (page.len() > 0 && !(cfg.max_markets > 0 && final(self).candidates.len() >= doubled(
                cfg.max_markets,
            )) && page.len() >= cfg.gamma_page_size),
    {
        let ghost fits = |m: GammaMarket| m.eligible(*cfg);
        let ghost all = page@;
        let batch_len = page.len();
        proof {
            reveal(Seq::filter);
        }
        if batch_len == 0 {
            assert(page@.filter(fits) =~= Seq::<GammaMarket>::empty());
            assert(self.candidates@ + page@.filter(fits) =~= self.candidates@);
            return false;
        }
        let ghost before = self.candidates@;
        let mut page = page;
        let mut i: usize = 0;
        assert(all.take(0).filter(fits) =~= Seq::<GammaMarket>::empty());
        assert(before + all.take(0).filter(fits) =~= before);
        assert(page@ =~= all.skip(0));
        while page.len() > 0
            invariant
                i + page.len() == all.len(),
                all.len() == batch_len,
                fits == (|m: GammaMarket| m.eligible(*cfg)),
                page@ == all.skip(i as int),
                self.offset == old(self).offset,
                self.candidates@ == before + all.take(i as int).filter(fits),
            decreases page.len(),
        {
            proof {
                reveal(Seq::filter);
            }
            assert(all.take(i as int + 1).drop_last() =~= all.take(i as int));
            let market = page.remove(0);
            assert(market == all[i as int]);
            assert(page@ =~= all.skip(i as int + 1));
            if market.is_eligible(cfg) {
                self.candidates.push(market);
                assert(self.candidates@ =~= before + all.take(i as int + 1).filter(fits));
            }
            i = i + 1;
        }
        assert(all.take(i as int) =~= all);
        self.offset = self.offset + cfg.gamma_page_size;
        if cfg.max_markets > 0 && self.candidates.len() >= twice(cfg.max_markets) {
            return false;
        }
        batch_len >= cfg.gamma_page_size
    }

    /// The tokens of the most liquid markets, in a table and as a list.
    pub fn universe(&self, cfg: &OrderflowPaperConfig) -> (r: (Table<TokenInfo>, Vec<String>))
        requires
            forall|i: int|
                #![trigger self.candidates[i]]
                0 <= i < self.candidates.len() ==> or_zero(self.candidates[i].liquidity) is Rank,
        ensures
            exists|perm: Seq<usize>| {
                let known = tokens_of(
                    picked(
                        self.candidates@,
                        perm,
                        selected_count(*cfg, self.candidates@.len()) as int,
                    ),
                );
                &&& #[trigger] is_stable_order(falling(self.candidates@), perm)
                &&& lists(r.0, known)
                &&& views(r.1@) == ids_of(known)
            },
    {
        let mut keys: Vec<i64> = Vec::new();
        let mut i: usize = 0;
        while i < self.candidates.len()
            invariant
                i <= self.candidates.len(),
                keys@ == falling(self.candidates@).take(i as int),
            decreases self.candidates.len() - i,
        {
            let rank: i64 = match value_or_zero(self.candidates[i].liquidity) {
                Scalar::Rank(a) => a,
                Scalar::Undefined => 0,
            };
            keys.push(-1 - rank);
            assert(keys@ =~= falling(self.candidates@).take(i as int + 1));
            i = i + 1;
        }
        assert(keys@ =~= falling(self.candidates@));
        let perm = stable_order(&keys);
        let n = if cfg.max_markets > 0 && cfg.max_markets < self.candidates.len() {
            cfg.max_markets
        } else {
            self.candidates.len()
        };
        let ghost chosen = picked(self.candidates@, perm@, n as int);
        let mut table: Table<TokenInfo> = Table::new();
        let mut ids: Vec<String> = Vec::new();
        let mut j: usize = 0;
        assert(ids_of(tokens_of(chosen.take(0))) =~= Seq::<Seq<char>>::empty());
        assert(views(ids@) =~= Seq::<Seq<char>>::empty());
        while j < n
            invariant
                j <= n,
                n <= perm.len(),
                perm.len() == self.candidates.len(),
                is_stable_order(falling(self.candidates@), perm@),
                chosen == picked(self.candidates@, perm@, n as int),
                lists(table, tokens_of(chosen.take(j as int))),
                views(ids@) == ids_of(tokens_of(chosen.take(j as int))),
            decreases n - j,
        {
            assert(0 <= perm[j as int] < self.candidates.len());
            let market = &self.candidates[perm[j]];
            assert(chosen.take(j as int + 1).drop_last() =~= chosen.take(j as int));
            let ghost known = tokens_of(chosen.take(j as int));
            let mut t: usize = 0;
            while t < market.clob_token_ids.len()
                invariant
                    t <= market.clob_token_ids.len(),
                    lists(table, with_market(known, *market, t as nat)),
                    views(ids@) == ids_of(with_market(known, *market, t as nat)),
                decreases market.clob_token_ids.len() - t,
            {
                let ghost before = with_market(known, *market, t as nat);
                let outcome = if t < market.outcomes.len() {
                    market.outcomes[t].clone()
                } else {
                    "Unknown".to_owned()
                };
                let token_id = trim(market.clob_token_ids[t].as_str());
                let ghost entry = TokenView {
                    token_id: token_id@,
                    market_slug: market.slug@,
                    outcome: outcome@,
                };
                assert(with_market(known, *market, (t + 1) as nat) == with_token(before, entry));
                t = t + 1;
                if token_id.as_str().is_empty() {
                    assert(token_id@.len() == 0);
                } else if table.contains(token_id.as_str()) {
                } else {
                    proof {
                        if knows(before, token_id@) {
                            let k = choose|k: int|
                                0 <= k < before.len() && (#[trigger] before[k]).token_id == token_id@;
                            assert(table@.contains_key(before[k].token_id));
                        }
                        lemma_listed(table, before, entry);
                    }
                    let ghost ids_before = ids@;
                    let ghost table_before = table;
                    let info = TokenInfo {
                        token_id: token_id.clone(),
                        market_slug: market.slug.clone(),
                        outcome,
                    };
                    assert(info@ == entry);
                    ids.push(token_id.clone());
                    table.insert(token_id, info);
                    proof {
                        let after = before.push(entry);
                        assert(views(ids@) =~= views(ids_before).push(entry.token_id));
                        assert(ids_of(after) =~= ids_of(before).push(entry.token_id));
                        assert forall|i: int|
                            #![trigger after[i]]
                            0 <= i < after.len() implies table@.contains_key(after[i].token_id)
                            && table@[after[i].token_id]@ == after[i] by {
                            if i < before.len() {
                                assert(after[i] == before[i]);
                                assert(before[i].token_id != entry.token_id);
                            }
                        }
                        assert forall|k: Seq<char>| (#[trigger] table@.contains_key(k)) implies knows(
                            after,
                            k,
                        ) by {
                            if k == entry.token_id {
                                assert(after[before.len() as int].token_id == k);
                            } else {
                                assert(table_before@.contains_key(k));
                                let w = choose|w: int|
                                    0 <= w < before.len() && (#[trigger] before[w]).token_id == k;
                                assert(after[w].token_id == k);
                            }
                        }
                    }
                }
            }
            j = j + 1;
        }
        assert(chosen.take(j as int) =~= chosen);
        (table, ids)
    }
}

/// A token that no table entry stands for is not known.
proof fn lemma_listed(table: Table<TokenInfo>, known: Seq<TokenView>, t: TokenView)
    requires
        lists(table, known),
        !table@.contains_key(t.token_id),
    ensures
        !knows(known, t.token_id),
{
    if knows(known, t.token_id) {
        let k = choose|k: int| 0 <= k < known.len() && (#[trigger] known[k]).token_id == t.token_id;
        assert(table@.contains_key(known[k].token_id));
    }
}

/// A trade is at least as great as the least trade and at most as great as the usual
/// one, wherever the figures can be compared; only what is not held is bought, and only
/// what is held is sold.
pub proof fn law_flow_trades_are_bounded(
    e: OrderflowPaperEngine,
    imbalance: Scalar,
    best_bid: Scalar,
    best_ask: Scalar,
    f: TradeFigures,
)
    ensures
        e.flow_move(imbalance, best_bid, best_ask, f) matches FlowMove::Trade {
            side,
            price,
            notional,
        } ==> {
            &&& !notional.spec_lt(e.cfg.min_trade_usd)
            &&& e.cfg.trade_notional_usd is Rank ==> notional.spec_le(e.cfg.trade_notional_usd)
            &&& side == OrderSide::Buy <==> Scalar::Rank(0).spec_lt(imbalance)
            &&& side == OrderSide::Buy ==> price == best_ask && !Scalar::Rank(0).spec_lt(
                f.position_shares,
            )
            &&& side == OrderSide::Sell ==> price == best_bid && !f.position_shares.spec_le(
                Scalar::Rank(0),
            )
        },
{
}

/// No token stands in a universe twice, and none has a blank name.
pub proof fn law_universe_tokens_are_distinct(markets: Seq<GammaMarket>)
    ensures
        forall|i: int, j: int|
            #![trigger tokens_of(markets)[i], tokens_of(markets)[j]]
            0 <= i < j < tokens_of(markets).len() ==> tokens_of(markets)[i].token_id
                != tokens_of(markets)[j].token_id,
        forall|i: int|
            #![trigger tokens_of(markets)[i]]
            0 <= i < tokens_of(markets).len() ==> tokens_of(markets)[i].token_id.len() > 0,
    decreases markets.len(),
{
    if markets.len() > 0 {
        law_universe_tokens_are_distinct(markets.drop_last());
        lemma_market_keeps_distinct(
            tokens_of(markets.drop_last()),
            markets.last(),
            markets.last().clob_token_ids.len() as nat,
        );
    }
}

proof fn lemma_market_keeps_distinct(known: Seq<TokenView>, m: GammaMarket, n: nat)
    requires
        forall|i: int, j: int|
            #![trigger known[i], known[j]]
            0 <= i < j < known.len() ==> known[i].token_id != known[j].token_id,
        forall|i: int| #![trigger known[i]] 0 <= i < known.len() ==> known[i].token_id.len() > 0,
    ensures
        forall|i: int, j: int|
            #![trigger with_market(known, m, n)[i], with_market(known, m, n)[j]]
            0 <= i < j < with_market(known, m, n).len() ==> with_market(known, m, n)[i].token_id
                != with_market(known, m, n)[j].token_id,
        forall|i: int|
            #![trigger with_market(known, m, n)[i]]
            0 <= i < with_market(known, m, n).len() ==> with_market(known, m, n)[i].token_id.len() > 0,
    decreases n,
{
    if n > 0 {
        lemma_market_keeps_distinct(known, m, (n - 1) as nat);
        let before = with_market(known, m, (n - 1) as nat);
        let after = with_market(known, m, n);
        assert forall|i: int, j: int|
            #![trigger after[i], after[j]]
            0 <= i < j < after.len() implies after[i].token_id != after[j].token_id by {
            if after.len() > before.len() {
                assert(after[i] == before[i]);
                if j < before.len() {
                    assert(after[j] == before[j]);
                }
            }
        }
        assert forall|i: int| #![trigger after[i]] 0 <= i < after.len() implies after[i].token_id.len()
            > 0 by {
            if i < before.len() {
                assert(after[i] == before[i]);
            }
        }
    }
}

/// Each setting is what its variable says, where that lies within its bounds, and lies within
/// them whatever the variables say.
pub proof fn law_orderflow_takes_its_settings(env: Environment, r: OrderflowPaperConfig)
    requires
        call_ensures(OrderflowPaperConfig::from_env, (&env,), r),
    ensures
        set_below(env, "ORDERFLOW_PAPER_MIN_IMBALANCE"@, Scalar::Rank(ONE_RANK), r.min_imbalance),
        set_above_zero(env, "ORDERFLOW_PAPER_IMBALANCE_BPS"@, r.imbalance_bps),
        set_above_zero(env, "ORDERFLOW_PAPER_MAX_SPREAD_BPS"@, r.max_spread_bps),
        set_from_zero(env, "ORDERFLOW_PAPER_MIN_TOP_USD"@, r.min_top_usd),
        set_from_zero(env, "ORDERFLOW_PAPER_MIN_LIQUIDITY_USD"@, r.min_liquidity_usd),
        set_from_zero(env, "ORDERFLOW_PAPER_MIN_VOLUME_USD"@, r.min_volume_usd),
        set_above_zero(env, "ORDERFLOW_PAPER_TRADE_NOTIONAL_USD"@, r.trade_notional_usd),
        set_from_zero(env, "ORDERFLOW_PAPER_MIN_TRADE_USD"@, r.min_trade_usd),
        set_from_zero(env, "ORDERFLOW_PAPER_MAX_TRADE_PCT_CASH"@, r.max_trade_pct_cash),
        set_whole(env, "ORDERFLOW_PAPER_COOLDOWN_MS"@, false, 250, u64::MAX as int, r.cooldown_ms as int),
        set_whole(env, "ORDERFLOW_PAPER_BOOK_MAX_STALE_MS"@, false, 100, u64::MAX as int, r.book_max_stale_ms as int),
        set_whole(env, "ORDERFLOW_PAPER_GAMMA_PAGE_SIZE"@, false, 50, usize::MAX as int, r.gamma_page_size as int),
        set_whole(env, "ORDERFLOW_PAPER_MAX_MARKETS"@, false, 0, usize::MAX as int, r.max_markets as int),
        set_whole(env, "ORDERFLOW_PAPER_POLL_INTERVAL_MS"@, false, 100, u64::MAX as int, r.poll_interval_ms as int),
        set_whole(env, "ORDERFLOW_PAPER_EVENT_QUEUE_SIZE"@, false, 1000, usize::MAX as int, r.event_queue_size as int),
        set_whole(env, "ORDERFLOW_PAPER_LOG_INTERVAL_SEC"@, false, 5, u64::MAX as int, r.log_interval_sec as int),
{
}

/// The figures that hold where no variable is set.
pub proof fn law_unset_orderflow_is_the_default(env: Environment, r: OrderflowPaperConfig, d: OrderflowPaperConfig)
    requires
        is_unset(env),
        call_ensures(OrderflowPaperConfig::from_env, (&env,), r),
        call_ensures(OrderflowPaperConfig::default, (), d),
    ensures
        r == d,
        d.min_imbalance == Scalar::Rank(DEFAULT_MIN_IMBALANCE),
        d.imbalance_bps == Scalar::Rank(DEFAULT_IMBALANCE_BPS),
        d.max_spread_bps == Scalar::Rank(DEFAULT_MAX_SPREAD_BPS),
        d.min_top_usd == Scalar::Rank(DEFAULT_MIN_TOP_USD),
        d.min_liquidity_usd == Scalar::Rank(DEFAULT_MIN_LIQUIDITY_USD),
        d.min_volume_usd == Scalar::Rank(DEFAULT_MIN_VOLUME_USD),
        d.trade_notional_usd == Scalar::Rank(DEFAULT_TRADE_NOTIONAL_USD),
        d.min_trade_usd == Scalar::Rank(DEFAULT_MIN_TRADE_USD),
        d.max_trade_pct_cash == Scalar::Rank(DEFAULT_MAX_TRADE_PCT_CASH),
        d.cooldown_ms == 7500,
        d.book_max_stale_ms == 1200,
        d.gamma_page_size == 200,
        d.max_markets == 600,
        d.poll_interval_ms == 750,
        d.event_queue_size == 10000,
        d.log_interval_sec == 10,
{
}

/// The bids that count lie at or above their cutoff, the asks at or below theirs, and every
/// level that lies there counts.
pub proof fn law_near_levels_lie_within_cutoffs(
    book: OrderBook,
    bid_cutoff: Scalar,
    ask_cutoff: Scalar,
    r: (Vec<Order>, Vec<Order>),
    i: int,
    k: int,
)
    requires
        call_ensures(levels_near, (&book, bid_cutoff, ask_cutoff), r),
    ensures
        0 <= i < book.bids.len() && bid_cutoff.spec_le(book.bids[i].price) ==> r.0@.contains(book.bids[i]),
        0 <= i < book.asks.len() && book.asks[i].price.spec_le(ask_cutoff) ==> r.1@.contains(book.asks[i]),
        0 <= k < r.0.len() ==> bid_cutoff.spec_le(r.0[k].price) && book.bids@.contains(r.0[k]),
        0 <= k < r.1.len() ==> r.1[k].price.spec_le(ask_cutoff) && book.asks@.contains(r.1[k]),
{
    let b = |o: Order| bid_cutoff.spec_le(o.price);
    let a = |o: Order| o.price.spec_le(ask_cutoff);
    assert(r.0@ == book.bids@.filter(b));
    assert(r.1@ == book.asks@.filter(a));
    if 0 <= i < book.bids.len() && bid_cutoff.spec_le(book.bids[i].price) {
        book.bids@.lemma_filter_contains(b, i);
    }
    if 0 <= i < book.asks.len() && book.asks[i].price.spec_le(ask_cutoff) {
        book.asks@.lemma_filter_contains(a, i);
    }
    if 0 <= k < r.0.len() {
        book.bids@.lemma_filter_pred(b, k);
        assert(r.0@.contains(r.0@[k]));
        book.bids@.lemma_filter_contains_rev(b, r.0@[k]);
    }
    if 0 <= k < r.1.len() {
        book.asks@.lemma_filter_pred(a, k);
        assert(r.1@.contains(r.1@[k]));
        book.asks@.lemma_filter_contains_rev(a, r.1@[k]);
    }
}

/// A book without worth has no imbalance, and an order is filled in part where less was
/// filled than it asks for.
pub proof fn law_imbalance_needs_worth(
    both: Scalar,
    quotient: Scalar,
    r: Option<Scalar>,
    filled: Scalar,
    order: OrderRequest,
    partial: bool,
)
    requires
        call_ensures(compute_imbalance, (both, quotient), r),
        call_ensures(is_partial, (filled, &order), partial),
        both is Rank,
    ensures
        r is Some <==> Scalar::Rank(0).spec_lt(both),
        r is Some ==> r->0 == quotient,
        partial <==> filled.spec_lt(order.notional_usdc),
{
}

/// A strategy starts with no counts and no trades; a book is hopelessly old at four times
/// the age at which it is stale.
pub proof fn law_orderflow_starts_afresh(
    cfg: OrderflowPaperConfig,
    execution: PaperExecutionConfig,
    tokens: Table<TokenInfo>,
    r: OrderflowPaperEngine,
)
    requires
        call_ensures(OrderflowPaperEngine::new, (cfg, execution, tokens), r),
    ensures
        r.cfg == cfg && r.adapter.config == execution && r.tokens == tokens,
        r.metrics.updates == 0 && r.metrics.evaluations == 0 && r.metrics.trades == 0 && r.metrics.errors == 0,
        r.metrics.skipped_no_book == 0 && r.metrics.skipped_spread == 0 && r.metrics.skipped_imbalance == 0,
        r.metrics.skipped_cooldown == 0 && r.metrics.skipped_liquidity == 0 && r.metrics.queue_drops == 0,
        r.last_trade_at@.dom() == Set::<Seq<char>>::empty(),
        r.staleness.max_stale_ms == cfg.book_max_stale_ms,
        4 * cfg.book_max_stale_ms <= u64::MAX ==> r.staleness.hard_stale_ms == 4 * cfg.book_max_stale_ms,
        4 * cfg.book_max_stale_ms > u64::MAX ==> r.staleness.hard_stale_ms == u64::MAX,
{
}

/// A book is worth a look where its token is traded and its best prices make a market: both
/// above zero, the bid below the ask. Every update is counted.
pub proof fn law_books_with_a_market_are_looked_at<T: HasHftCache>(
    s: &mut OrderflowPaperEngine,
    token: &str,
    caches: T,
    r: (Option<Candidate>, bool),
)
    requires
        call_ensures(OrderflowPaperEngine::handle_update::<T>, (s, token, &caches), r),
        old(s).metrics.updates < u64::MAX,
        old(s).metrics.evaluations < u64::MAX,
        old(s).metrics.skipped_no_book < u64::MAX,
    ensures
        ({
            let traded = old(s).tokens@.contains_key(token@);
            let c = (r.0)->0;
            &&& final(s).metrics.updates == old(s).metrics.updates + 1
            &&& !traded ==> r.0 is None && !r.1 && final(s).metrics.skipped_no_book == old(s).metrics.skipped_no_book
            &&& r.0 is Some ==> traded && c.book.bids.len() > 0 && c.book.asks.len() > 0 && c.best_bid == c.book.bids[0]
                && c.best_ask == c.book.asks[0]
            &&& r.0 is Some && c.best_bid.price is Rank && c.best_ask.price is Rank ==> Scalar::Rank(0).spec_lt(
                c.best_bid.price,
            ) && c.best_bid.price.spec_lt(c.best_ask.price)
            &&& r.0 is Some ==> final(s).metrics.evaluations == old(s).metrics.evaluations + 1 && final(s).metrics.skipped_no_book == old(s).metrics.skipped_no_book
            &&& traded && r.0 is None ==> final(s).metrics.skipped_no_book == old(s).metrics.skipped_no_book + 1 && final(s).metrics.evaluations == old(s).metrics.evaluations
            &&& final(s).cfg == old(s).cfg && final(s).tokens == old(s).tokens && final(s).last_trade_at == old(s).last_trade_at
            &&& final(s).metrics.trades == old(s).metrics.trades && final(s).metrics.errors == old(s).metrics.errors
        }),
{
}

/// A book is traded on where its spread is narrow enough, its imbalance wide enough either
/// way, and its token is not cooling down; else it is counted under the first of these that
/// fails.
pub proof fn law_only_lopsided_books_are_traded_on(
    s: &mut OrderflowPaperEngine,
    token: &str,
    spread: Scalar,
    imbalance: Option<Scalar>,
    now_ns: u64,
    r: bool,
)
    requires
        call_ensures(OrderflowPaperEngine::on_figures, (s, token, spread, imbalance, now_ns), r),
        old(s).metrics.skipped_spread < u64::MAX,
        old(s).metrics.skipped_imbalance < u64::MAX,
        old(s).metrics.skipped_cooldown < u64::MAX,
    ensures
        ({
            let cfg = old(s).cfg;
            let narrow = !cfg.max_spread_bps.spec_lt(spread);
            let lopsided = imbalance is Some && !imbalance->0.spec_abs().spec_lt(cfg.min_imbalance);
            let last = old(s).last_trade_at@[token@];
            let rested = !old(s).last_trade_at@.contains_key(token@) || (now_ns >= last && (now_ns - last) as int
                / 1_000_000 >= cfg.cooldown_ms) || (now_ns < last && cfg.cooldown_ms == 0);
            let a = old(s).metrics;
            let b = final(s).metrics;
            &&& r <==> narrow && lopsided && rested
            &&& b.skipped_spread - a.skipped_spread == if narrow {
                0int
            } else {
                1int
            }
            &&& b.skipped_imbalance - a.skipped_imbalance == if narrow && !lopsided {
                1int
            } else {
                0int
            }
            &&& b.skipped_cooldown - a.skipped_cooldown == if narrow && lopsided && !rested {
                1int
            } else {
                0int
            }
            &&& b.trades == a.trades && b.updates == a.updates && b.skipped_liquidity == a.skipped_liquidity
            &&& final(s).last_trade_at == old(s).last_trade_at
        }),
{
}

/// Buyers in excess mean to buy at the ask what is not held, out of the cash; anything else
/// means to sell at the bid what is held, out of the position. The trade is the usual amount
/// or what there is, and is left where that or the top of the book is too little.
pub proof fn law_flow_is_followed(
    e: OrderflowPaperEngine,
    imbalance: Scalar,
    bid: Scalar,
    ask: Scalar,
    f: TradeFigures,
    r: FlowMove,
)
    requires
        call_ensures(OrderflowPaperEngine::decide, (&e, imbalance, bid, ask, &f), r),
        imbalance is Rank && f.position_shares is Rank && f.max_by_cash is Rank && f.position_value is Rank,
        e.cfg.trade_notional_usd is Rank && e.cfg.min_trade_usd is Rank,
    ensures
        ({
            let up = Scalar::Rank(0).spec_lt(imbalance);
            let held = Scalar::Rank(0).spec_lt(f.position_shares);
            let least = e.cfg.min_trade_usd;
            let usual = e.cfg.trade_notional_usd;
            let limit = if up {
                f.max_by_cash
            } else {
                f.position_value
            };
            let deep = if up {
                !f.ask_top_usd.spec_lt(e.cfg.min_top_usd)
            } else {
                !f.bid_top_usd.spec_lt(e.cfg.min_top_usd)
            };
            &&& r is Nothing <==> up == held
            &&& r is Trade <==> up != held && deep && least.spec_le(usual) && least.spec_le(limit)
            &&& r is Trade && up ==> r->side is Buy && r->price == ask
            &&& r is Trade && !up ==> r->side is Sell && r->price == bid
            &&& r is Trade ==> r->notional.spec_le(usual) && r->notional.spec_le(limit) && (r->notional == usual
                || r->notional == limit)
        }),
{
}

/// What is decided becomes an order of the token, in its market and outcome; what is too thin
/// is counted, and nothing else is.
pub proof fn law_decided_trade_becomes_its_order(
    s: &mut OrderflowPaperEngine,
    token: &str,
    imbalance: Scalar,
    bid: Scalar,
    ask: Scalar,
    f: TradeFigures,
    id: String,
    r: Option<OrderRequest>,
    before: OrderflowPaperEngine,
    m: FlowMove,
)
    requires
        call_ensures(OrderflowPaperEngine::on_ledger_with, (s, token, imbalance, bid, ask, &f, id), r),
        before == *old(s),
        call_ensures(OrderflowPaperEngine::decide, (&before, imbalance, bid, ask, &f), m),
        old(s).metrics.skipped_liquidity < u64::MAX,
    ensures
        r is Some <==> m is Trade,
        r is Some ==> {
            let o = r->0;
            &&& o.side == m->side && o.price == m->price && o.notional_usdc == m->notional
            &&& o.token_id@ == token@ && o.client_order_id@ == id@ && o.tif is Ioc
            &&& o.market_slug is Some && o.market_slug->0@ == before.tokens@[token@].market_slug@
            &&& o.outcome is Some && o.outcome->0@ == before.tokens@[token@].outcome@
        },
        m is TooThin ==> final(s).metrics.skipped_liquidity == before.metrics.skipped_liquidity + 1,
        !(m is TooThin) ==> *final(s) == before,
        final(s).metrics.trades == before.metrics.trades && final(s).last_trade_at == before.last_trade_at,
{
}

/// Each event is counted under its own name.
pub proof fn law_events_are_counted_by_name(
    a: &mut OrderflowPaperEngine,
    ledger: &mut VaultPaperLedger,
    b: &mut OrderflowPaperEngine,
    c: &mut OrderflowPaperEngine,
    d: &mut OrderflowPaperEngine,
    token: &str,
    now_ns: u64,
    other: Seq<char>,
)
    requires
        call_ensures(OrderflowPaperEngine::on_reject, (a, ledger), ()),
        call_ensures(OrderflowPaperEngine::on_failure, (b,), ()),
        call_ensures(OrderflowPaperEngine::on_queue_full, (c,), ()),
        call_ensures(OrderflowPaperEngine::on_traded, (d, token, now_ns), ()),
        old(a).metrics.errors < u64::MAX && old(b).metrics.errors < u64::MAX,
        old(c).metrics.queue_drops < u64::MAX && old(d).metrics.trades < u64::MAX,
        old(ledger).reject_count < u64::MAX,
        other != token@,
    ensures
        final(a).metrics.errors == old(a).metrics.errors + 1 && final(a).metrics.trades == old(a).metrics.trades,
        final(ledger).reject_count == old(ledger).reject_count + 1 && final(ledger).cash_usdc == old(ledger).cash_usdc,
        final(b).metrics.errors == old(b).metrics.errors + 1 && final(b).metrics.queue_drops == old(b).metrics.queue_drops,
        final(c).metrics.queue_drops == old(c).metrics.queue_drops + 1 && final(c).metrics.errors == old(c).metrics.errors,
        final(d).metrics.trades == old(d).metrics.trades + 1 && final(d).metrics.errors == old(d).metrics.errors,
        final(d).last_trade_at@.contains_key(token@) && final(d).last_trade_at@[token@] == now_ns,
        final(d).last_trade_at@.contains_key(other) <==> old(d).last_trade_at@.contains_key(other),
        old(d).last_trade_at@.contains_key(other) ==> final(d).last_trade_at@[other] == old(d).last_trade_at@[other],
{
}

/// A market is taken where it is open and active, liquid and busy enough, and has an outcome
/// for each token; what is not told counts as nothing.
pub proof fn law_markets_are_taken_where_busy(m: GammaMarket, cfg: OrderflowPaperConfig, r: bool)
    requires
        call_ensures(GammaMarket::is_eligible, (&m, &cfg), r),
        cfg.min_liquidity_usd is Rank && cfg.min_volume_usd is Rank,
        m.liquidity is Some ==> m.liquidity->0 is Rank,
        m.volume is Some ==> m.volume->0 is Rank,
    ensures
        ({
            let liquid = if m.liquidity is Some {
                cfg.min_liquidity_usd.spec_le(m.liquidity->0)
            } else {
                cfg.min_liquidity_usd.spec_le(Scalar::Rank(0))
            };
            let busy = if m.volume is Some {
                cfg.min_volume_usd.spec_le(m.volume->0)
            } else {
                cfg.min_volume_usd.spec_le(Scalar::Rank(0))
            };
            r <==> !m.closed && m.active && liquid && busy && m.clob_token_ids.len() > 0 && m.clob_token_ids.len()
                == m.outcomes.len()
        }),
{
}

/// Pages are read until one is short or there are twice as many candidates as are needed;
/// each page adds its eligible markets behind the others.
pub proof fn law_pages_are_read_until_enough(
    s: &mut UniverseScan,
    cfg: OrderflowPaperConfig,
    page: Vec<GammaMarket>,
    r: bool,
)
    requires
        old(s).offset + cfg.gamma_page_size <= usize::MAX,
        call_ensures(UniverseScan::take_page, (s, &cfg, page), r),
        2 * cfg.max_markets <= usize::MAX,
        cfg.gamma_page_size > 0,
    ensures
        r <==> page.len() >= cfg.gamma_page_size && (cfg.max_markets == 0 || final(s).candidates.len() < 2
            * cfg.max_markets),
        page.len() > 0 ==> final(s).offset == old(s).offset + cfg.gamma_page_size,
        page.len() == 0 ==> final(s).offset == old(s).offset,
        old(s).candidates@.is_prefix_of(final(s).candidates@),
        forall|k: int|
            old(s).candidates.len() <= k < final(s).candidates.len() ==> !(#[trigger] final(s).candidates[k]).closed
                && final(s).candidates[k].active && page@.contains(final(s).candidates[k]),
{
    let f = |m: GammaMarket| m.eligible(cfg);
    let kept = page@.filter(f);
    assert(final(s).candidates@ == old(s).candidates@ + kept);
    assert forall|k: int| old(s).candidates.len() <= k < final(s).candidates.len() implies !(#[trigger] final(s).candidates[k]).closed && final(s).candidates[k].active && page@.contains(final(s).candidates[k]) by {
        let i = k - old(s).candidates.len();
        assert(final(s).candidates@[k] == kept[i]);
        page@.lemma_filter_pred(f, i);
        assert(kept.contains(kept[i]));
        page@.lemma_filter_contains_rev(f, kept[i]);
    }
}

/// A less liquid market has no place before a more liquid one.
pub proof fn law_liquid_markets_come_first(
    s: UniverseScan,
    cfg: OrderflowPaperConfig,
    r: (Table<TokenInfo>, Vec<String>),
)
    requires
        call_ensures(UniverseScan::universe, (&s, &cfg), r),
    ensures
        exists|markets: Seq<GammaMarket>| {
            &&& views(r.1@) == ids_of(#[trigger] tokens_of(markets))
            &&& cfg.max_markets > 0 ==> markets.len() <= cfg.max_markets
            &&& cfg.max_markets == 0 || cfg.max_markets >= s.candidates.len() ==> markets.len() == s.candidates.len()
            &&& forall|i: int, j: int|
                0 <= i < j < markets.len() ==> (#[trigger] markets[i]).liquidity_rank() >= (
                #[trigger] markets[j]).liquidity_rank()
        },
{
    let n = selected_count(cfg, s.candidates@.len()) as int;
    let perm = choose|perm: Seq<usize>| {
        let known = tokens_of(picked(s.candidates@, perm, n));
        &&& #[trigger] is_stable_order(falling(s.candidates@), perm)
        &&& lists(r.0, known)
        &&& views(r.1@) == ids_of(known)
    };
    let markets = picked(s.candidates@, perm, n);
    let keys = falling(s.candidates@);
    assert(markets.len() == n);
    assert forall|i: int, j: int| 0 <= i < j < markets.len() implies (#[trigger] markets[i]).liquidity_rank() >= (
    #[trigger] markets[j]).liquidity_rank() by {
        assert(stands_before(keys, perm[i] as int, perm[j] as int));
        assert(keys[perm[i] as int] == (-1 - markets[i].liquidity_rank()) as i64);
        assert(keys[perm[j] as int] == (-1 - markets[j].liquidity_rank()) as i64);
    }
    assert(views(r.1@) == ids_of(tokens_of(markets)));
}

/// Every token of a market with a name is in the universe, with its market and outcome where
/// it stands first.
pub proof fn law_tokens_keep_their_first_market(markets: Seq<GammaMarket>, i: int)
    requires
        markets.len() == 1,
        0 <= i < markets[0].clob_token_ids.len(),
        trimmed(markets[0].clob_token_ids[i]@).len() > 0,
    ensures
        knows(tokens_of(markets), trimmed(markets[0].clob_token_ids[i]@)),
        tokens_of(markets)[0].market_slug == markets[0].slug@,
{
    reveal_with_fuel(tokens_of, 2);
    let n = markets[0].clob_token_ids.len() as nat;
    assert(tokens_of(markets.drop_last()) == Seq::<TokenView>::empty());
    lemma_market_is_known(markets[0], n, i);
    let known = tokens_of(markets);
    let k = choose|k: int| 0 <= k < known.len() && (#[trigger] known[k]).token_id == trimmed(
        markets[0].clob_token_ids[i]@,
    );
    assert(known.len() > 0);
}

proof fn lemma_market_is_known(m: GammaMarket, n: nat, i: int)
    requires
        n <= m.clob_token_ids.len(),
    ensures
        forall|k: int|
            0 <= k < with_market(Seq::empty(), m, n).len() ==> (#[trigger] with_market(Seq::empty(), m, n)[k]).market_slug
                == m.slug@,
        0 <= i < n && trimmed(m.clob_token_ids[i]@).len() > 0 ==> knows(
            with_market(Seq::empty(), m, n),
            trimmed(m.clob_token_ids[i]@),
        ),
    decreases n,
{
    if n > 0 {
        let before = with_market(Seq::empty(), m, (n - 1) as nat);
        let all = with_market(Seq::empty(), m, n);
        lemma_market_is_known(m, (n - 1) as nat, i);
        if 0 <= i < n && trimmed(m.clob_token_ids[i]@).len() > 0 {
            let id = trimmed(m.clob_token_ids[i]@);
            if knows(before, id) {
                let k = choose|k: int| 0 <= k < before.len() && (#[trigger] before[k]).token_id == id;
                assert(all[k].token_id == id);
            } else {
                assert(all[before.len() as int].token_id == id);
            }
        }
    }
}

/// A fresh identifier changes nothing else of an order; a summary tells each count by its
/// name; and a scan starts at the beginning.
pub proof fn law_orderflow_order_has_its_own_name(
    a: &mut OrderflowPaperEngine,
    b: &mut OrderflowPaperEngine,
    token: &str,
    imbalance: Scalar,
    bid: Scalar,
    ask: Scalar,
    f: TradeFigures,
    id: String,
    r: Option<OrderRequest>,
    s: Option<OrderRequest>,
    m: OrderflowPaperMetrics,
    sum: OrderflowPaperMetricsSummary,
    scan: UniverseScan,
)
    requires
        *old(a) == *old(b),
        call_ensures(OrderflowPaperEngine::on_ledger, (a, token, imbalance, bid, ask, &f), r),
        call_ensures(OrderflowPaperEngine::on_ledger_with, (b, token, imbalance, bid, ask, &f, id), s),
        call_ensures(OrderflowPaperMetrics::summary, (&m,), sum),
        call_ensures(UniverseScan::new, (), scan),
    ensures
        r is Some <==> s is Some,
        r is Some ==> r->0.side == s->0.side && r->0.price == s->0.price && r->0.notional_usdc == s->0.notional_usdc
            && r->0.token_id@ == s->0.token_id@ && r->0.tif == s->0.tif && r->0.outcome->0@ == s->0.outcome->0@
            && r->0.client_order_id@.len() == 36,
        *final(a) == *final(b),
        sum.updates == m.updates && sum.evaluations == m.evaluations && sum.trades == m.trades && sum.skipped_no_book
            == m.skipped_no_book && sum.skipped_spread == m.skipped_spread && sum.skipped_imbalance == m.skipped_imbalance
            && sum.skipped_cooldown == m.skipped_cooldown && sum.skipped_liquidity == m.skipped_liquidity
            && sum.queue_drops == m.queue_drops && sum.errors == m.errors,
        scan.offset == 0 && scan.candidates.len() == 0,
{
}

/// Each rank here is that of the binary64 number nearest to the one it is called after.
pub proof fn law_orderflow_paper_ranks_are_nearest()
    ensures
        0x3FC0_0000_0000_0000 <= DEFAULT_MIN_IMBALANCE < 0x3FD0_0000_0000_0000,
        -50 <= 2 * (50 * (DEFAULT_MIN_IMBALANCE - 0x3FB0000000000000) - 9 * 0x80000000000000int) <= 50,
        0x4020_0000_0000_0000 <= DEFAULT_IMBALANCE_BPS < 0x4030_0000_0000_0000,
        -1 <= 2 * (1 * (DEFAULT_IMBALANCE_BPS - 0x4010000000000000) - 10 * 0x2000000000000int) <= 1,
        0x4060_0000_0000_0000 <= DEFAULT_MAX_SPREAD_BPS < 0x4070_0000_0000_0000,
        -1 <= 2 * (1 * (DEFAULT_MAX_SPREAD_BPS - 0x4050000000000000) - 200 * 0x200000000000int) <= 1,
        0x4030_0000_0000_0000 <= DEFAULT_MIN_TOP_USD < 0x4040_0000_0000_0000,
        -1 <= 2 * (1 * (DEFAULT_MIN_TOP_USD - 0x4020000000000000) - 25 * 0x1000000000000int) <= 1,
        0x4070_0000_0000_0000 <= DEFAULT_MIN_LIQUIDITY_USD < 0x4080_0000_0000_0000,
        -1 <= 2 * (1 * (DEFAULT_MIN_LIQUIDITY_USD - 0x4060000000000000) - 500 * 0x100000000000int) <= 1,
        0x4090_0000_0000_0000 <= DEFAULT_MIN_VOLUME_USD < 0x40A0_0000_0000_0000,
        -1 <= 2 * (1 * (DEFAULT_MIN_VOLUME_USD - 0x4080000000000000) - 2000 * 0x40000000000int) <= 1,
        0x4030_0000_0000_0000 <= DEFAULT_TRADE_NOTIONAL_USD < 0x4040_0000_0000_0000,
        -1 <= 2 * (1 * (DEFAULT_TRADE_NOTIONAL_USD - 0x4020000000000000) - 25 * 0x1000000000000int) <= 1,
        0x4010_0000_0000_0000 <= DEFAULT_MIN_TRADE_USD < 0x4020_0000_0000_0000,
        -1 <= 2 * (1 * (DEFAULT_MIN_TRADE_USD - 0x4000000000000000) - 5 * 0x4000000000000int) <= 1,
        0x3F60_0000_0000_0000 <= DEFAULT_MAX_TRADE_PCT_CASH < 0x3F70_0000_0000_0000,
        -400 <= 2 * (400 * (DEFAULT_MAX_TRADE_PCT_CASH - 0x3F50000000000000) - 1 * 0x2000000000000000int) <= 400,
{
}

} // verus!
