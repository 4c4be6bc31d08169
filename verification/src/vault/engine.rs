//! The engine of the vault: its settings, its quarter-hour strategy, and the worth of the
//! vault over time.
use super::book_access::{price_of, top, Order, OrderBook, PolymarketMarketWsCache};
use super::execution::{OrderRequest, OrderSide, TimeInForce};
use super::fast15m_reactive::{Pick, Quotes};
use super::hft_paper_strategy::{outcome_name, outcome_text, MarketMid};
use super::kelly::{KellyParams, KellyResult};
use super::long_engine::LongEngineState;
use super::records::{NavFigures, VaultNavSnapshotRecord};
use super::rnjd::RnjdEstimate;
use super::updown15m::{
    market_slug,
    slug_of,
    window_start,
    window_start_of,
    UpDown15mMarket,
    UpDownAsset,
};
use crate::base::clock::{div_toward_zero, less_than_apart, toward_zero};
use crate::base::ids::{fresh_id, named_id, url_id};
use crate::base::ranks::{
    R_0_01,
    R_0_02,
    R_0_05,
    R_0_12,
    R_0_15,
    R_0_3,
    R_0_35,
    R_0_9,
    R_0_95,
    R_240,
    R_250,
    R_5,
    R_50,
    R_500,
};
use crate::base::scalar::{Scalar, HALF_RANK, ONE_RANK};
use crate::base::settings::{
    flag_or,
    flag_setting,
    integer_setting,
    is_unset,
    kept_pieces,
    list_items,
    number_or,
    number_setting,
    set_above_zero,
    set_below,
    set_flag,
    set_from_zero,
    set_in_unit,
    set_up_to,
    set_whole,
    signed_or,
    size_or,
    small_or,
    unsigned_or,
    Environment,
    Range,
};
use crate::base::table::Table;
use crate::base::text::{
    decimal,
    decimal_i64,
    decimal_u64,
    integer_value,
    joined,
    lemma_decimal_is_injective,
    pieces,
    views,
};
use vstd::prelude::*;

verus! {

/// How the vault trades.
#[derive(Debug)]
pub struct VaultEngineConfig {
    pub enabled: bool,
    pub paper: bool,
    pub updown_poll_ms: u64,
    pub updown_min_edge: Scalar,
    pub updown_kelly_fraction: Scalar,
    pub updown_max_position_pct: Scalar,
    pub updown_shrink_to_half: Scalar,
    pub updown_cooldown_sec: i64,
    pub max_drawdown_pct: Scalar,
    pub initial_bankroll: Scalar,
    pub long_enabled: bool,
    pub long_poll_ms: u64,
    pub long_min_edge: Scalar,
    pub long_kelly_fraction: Scalar,
    pub long_max_position_pct: Scalar,
    pub long_min_trade_usd: Scalar,
    pub long_max_trade_usd: Scalar,
    pub long_min_infer_interval_sec: i64,
    pub long_cooldown_sec: i64,
    pub long_max_calls_per_day: u32,
    pub long_max_calls_per_market_per_day: u32,
    pub long_max_tokens_per_day: u64,
    pub long_llm_timeout_sec: u64,
    pub long_llm_max_tokens: u32,
    pub long_llm_temperature: Scalar,
    pub long_max_tte_days: Scalar,
    pub long_max_spread_bps: Scalar,
    pub long_min_top_of_book_usd: Scalar,
    pub long_fee_buffer: Scalar,
    pub long_slippage_buffer_min: Scalar,
    pub long_dispersion_max: Scalar,
    pub long_exit_price_90: Scalar,
    pub long_exit_price_95: Scalar,
    pub long_exit_frac_90: Scalar,
    pub long_exit_frac_95: Scalar,
    pub long_wallet_window_sec: i64,
    pub long_wallet_max_trades_per_window: usize,
    pub long_wallet_min_notional_usd: Scalar,
    /// The models that are asked; the first one scouts.
    pub long_models: Vec<String>,
}

/// The numbers of the configuration that hold where nothing is set.
pub open spec fn is_default_engine(c: VaultEngineConfig) -> bool {
    &&& !c.enabled
    &&& c.paper
    &&& c.updown_poll_ms == 2000
    &&& c.updown_min_edge == Scalar::Rank(R_0_01)
    &&& c.updown_kelly_fraction == Scalar::Rank(R_0_05)
    &&& c.updown_max_position_pct == Scalar::Rank(R_0_01)
    &&& c.updown_shrink_to_half == Scalar::Rank(R_0_35)
    &&& c.updown_cooldown_sec == 30
    &&& c.max_drawdown_pct == Scalar::Rank(R_0_3)
    &&& c.initial_bankroll == Scalar::Rank(R_50)
    &&& !c.long_enabled
    &&& c.long_poll_ms == 5000
    &&& c.long_min_edge == Scalar::Rank(R_0_02)
    &&& c.long_kelly_fraction == Scalar::Rank(R_0_02)
    &&& c.long_max_position_pct == Scalar::Rank(R_0_01)
    &&& c.long_min_trade_usd == Scalar::Rank(R_5)
    &&& c.long_max_trade_usd == Scalar::Rank(R_250)
    &&& c.long_min_infer_interval_sec == 60
    &&& c.long_cooldown_sec == 300
    &&& c.long_max_calls_per_day == 200
    &&& c.long_max_calls_per_market_per_day == 30
    &&& c.long_max_tokens_per_day == 300000
    &&& c.long_llm_timeout_sec == 20
    &&& c.long_llm_max_tokens == 220
    &&& c.long_llm_temperature == Scalar::Rank(R_0_15)
    &&& c.long_max_tte_days == Scalar::Rank(R_240)
    &&& c.long_max_spread_bps == Scalar::Rank(R_500)
    &&& c.long_min_top_of_book_usd == Scalar::Rank(R_250)
    &&& c.long_fee_buffer == Scalar::Rank(R_0_01)
    &&& c.long_slippage_buffer_min == Scalar::Rank(R_0_01)
    &&& c.long_dispersion_max == Scalar::Rank(R_0_12)
    &&& c.long_exit_price_90 == Scalar::Rank(R_0_9)
    &&& c.long_exit_price_95 == Scalar::Rank(R_0_95)
    &&& c.long_exit_frac_90 == Scalar::Rank(HALF_RANK)
    &&& c.long_exit_frac_95 == Scalar::Rank(R_0_9)
    &&& c.long_wallet_window_sec == 60
    &&& c.long_wallet_max_trades_per_window == 6
    &&& c.long_wallet_min_notional_usd == Scalar::Rank(R_50)
    &&& views(c.long_models@) == default_models()
}

/// The models that are asked where nothing is set.
pub open spec fn default_models() -> Seq<Seq<char>> {
    seq![
        "x-ai/grok-4.1-thinking"@,
        "google/gemini-3.0-high-think"@,
        "openai/gpt-5.2-extra-high-thinking"@,
        "anthropic/opus-4.5-thinking"@,
    ]
}

impl Default for VaultEngineConfig {
    fn default() -> (r: VaultEngineConfig)
        ensures
            is_default_engine(r),
    {
        let mut models: Vec<String> = Vec::new();
        models.push("x-ai/grok-4.1-thinking".to_owned());
        models.push("google/gemini-3.0-high-think".to_owned());
        models.push("openai/gpt-5.2-extra-high-thinking".to_owned());
        models.push("anthropic/opus-4.5-thinking".to_owned());
        assert(views(models@) =~= default_models());
        VaultEngineConfig {
            enabled: false,
            paper: true,
            updown_poll_ms: 2000,
            updown_min_edge: Scalar::Rank(R_0_01),
            updown_kelly_fraction: Scalar::Rank(R_0_05),
            updown_max_position_pct: Scalar::Rank(R_0_01),
            updown_shrink_to_half: Scalar::Rank(R_0_35),
            updown_cooldown_sec: 30,
            max_drawdown_pct: Scalar::Rank(R_0_3),
            initial_bankroll: Scalar::Rank(R_50),
            long_enabled: false,
            long_poll_ms: 5000,
            long_min_edge: Scalar::Rank(R_0_02),
            long_kelly_fraction: Scalar::Rank(R_0_02),
            long_max_position_pct: Scalar::Rank(R_0_01),
            long_min_trade_usd: Scalar::Rank(R_5),
            long_max_trade_usd: Scalar::Rank(R_250),
            long_min_infer_interval_sec: 60,
            long_cooldown_sec: 300,
            long_max_calls_per_day: 200,
            long_max_calls_per_market_per_day: 30,
            long_max_tokens_per_day: 300000,
            long_llm_timeout_sec: 20,
            long_llm_max_tokens: 220,
            long_llm_temperature: Scalar::Rank(R_0_15),
            long_max_tte_days: Scalar::Rank(R_240),
            long_max_spread_bps: Scalar::Rank(R_500),
            long_min_top_of_book_usd: Scalar::Rank(R_250),
            long_fee_buffer: Scalar::Rank(R_0_01),
            long_slippage_buffer_min: Scalar::Rank(R_0_01),
            long_dispersion_max: Scalar::Rank(R_0_12),
            long_exit_price_90: Scalar::Rank(R_0_9),
            long_exit_price_95: Scalar::Rank(R_0_95),
            long_exit_frac_90: Scalar::Rank(HALF_RANK),
            long_exit_frac_95: Scalar::Rank(R_0_9),
            long_wallet_window_sec: 60,
            long_wallet_max_trades_per_window: 6,
            long_wallet_min_notional_usd: Scalar::Rank(R_50),
            long_models: models,
        }
    }
}

impl VaultEngineConfig {
    /// The default with what the variables set.
    pub fn from_env(env: &Environment) -> (r: VaultEngineConfig)
        ensures
            r.enabled == flag_setting(*env, "VAULT_ENGINE_ENABLED"@, false),
            r.paper == flag_setting(*env, "VAULT_ENGINE_PAPER"@, true),
            r.updown_poll_ms == integer_setting(
                *env,
                "UPDOWN15M_POLL_MS"@,
                false,
                250,
                u64::MAX as int,
                2000,
            ),
            r.updown_min_edge == number_setting(
                *env,
                "UPDOWN15M_MIN_EDGE"@,
                Range::Positive,
                Scalar::Rank(R_0_01),
            ),
            r.updown_kelly_fraction == number_setting(
                *env,
                "UPDOWN15M_KELLY_FRACTION"@,
                Range::NonNegative,
                Scalar::Rank(R_0_05),
            ),
            r.updown_max_position_pct == number_setting(
                *env,
                "UPDOWN15M_MAX_POSITION_PCT"@,
                Range::Positive,
                Scalar::Rank(R_0_01),
            ),
            r.updown_shrink_to_half == number_setting(
                *env,
                "UPDOWN15M_SHRINK"@,
                Range::NonNegative,
                Scalar::Rank(R_0_35),
            ),
            r.updown_cooldown_sec == integer_setting(
                *env,
                "UPDOWN15M_COOLDOWN_SEC"@,
                true,
                0,
                i64::MAX as int,
                30,
            ),
            r.max_drawdown_pct == number_setting(
                *env,
                "VAULT_MAX_DRAWDOWN_PCT"@,
                Range::PositiveToOne,
                Scalar::Rank(R_0_3),
            ),
            r.initial_bankroll == number_setting(
                *env,
                "INITIAL_BANKROLL"@,
                Range::Positive,
                Scalar::Rank(R_50),
            ),
            r.long_enabled == flag_setting(*env, "VAULT_LLM_ENABLED"@, false),
            r.long_poll_ms == integer_setting(
                *env,
                "VAULT_LLM_POLL_MS"@,
                false,
                500,
                u64::MAX as int,
                5000,
            ),
            r.long_min_edge == number_setting(
                *env,
                "VAULT_LLM_MIN_EDGE"@,
                Range::Positive,
                Scalar::Rank(R_0_02),
            ),
            r.long_kelly_fraction == number_setting(
                *env,
                "VAULT_LLM_KELLY_FRACTION"@,
                Range::NonNegative,
                Scalar::Rank(R_0_02),
            ),
            r.long_max_position_pct == number_setting(
                *env,
                "VAULT_LLM_MAX_POSITION_PCT"@,
                Range::Positive,
                Scalar::Rank(R_0_01),
            ),
            r.long_min_trade_usd == number_setting(
                *env,
                "VAULT_LLM_MIN_TRADE_USD"@,
                Range::Positive,
                Scalar::Rank(R_5),
            ),
            r.long_max_trade_usd == number_setting(
                *env,
                "VAULT_LLM_MAX_TRADE_USD"@,
                Range::Positive,
                Scalar::Rank(R_250),
            ),
            r.long_min_infer_interval_sec == integer_setting(
                *env,
                "VAULT_LLM_MIN_INFER_INTERVAL_SEC"@,
                true,
                0,
                i64::MAX as int,
                60,
            ),
            r.long_cooldown_sec == integer_setting(
                *env,
                "VAULT_LLM_COOLDOWN_SEC"@,
                true,
                0,
                i64::MAX as int,
                300,
            ),
            r.long_max_calls_per_day == integer_setting(
                *env,
                "VAULT_LLM_MAX_CALLS_PER_DAY"@,
                false,
                1,
                u32::MAX as int,
                200,
            ),
            r.long_max_calls_per_market_per_day == integer_setting(
                *env,
                "VAULT_LLM_MAX_CALLS_PER_MARKET_PER_DAY"@,
                false,
                1,
                u32::MAX as int,
                30,
            ),
            r.long_max_tokens_per_day == integer_setting(
                *env,
                "VAULT_LLM_MAX_TOKENS_PER_DAY"@,
                false,
                1,
                u64::MAX as int,
                300000,
            ),
            r.long_llm_timeout_sec == integer_setting(
                *env,
                "VAULT_LLM_TIMEOUT_SEC"@,
                false,
                1,
                u64::MAX as int,
                20,
            ),
            r.long_llm_max_tokens == integer_setting(
                *env,
                "VAULT_LLM_MAX_TOKENS"@,
                false,
                16,
                u32::MAX as int,
                220,
            ),
            r.long_llm_temperature == number_setting(
                *env,
                "VAULT_LLM_TEMPERATURE"@,
                Range::NonNegative,
                Scalar::Rank(R_0_15),
            ),
            r.long_max_tte_days == number_setting(
                *env,
                "VAULT_LLM_MAX_TTE_DAYS"@,
                Range::Positive,
                Scalar::Rank(R_240),
            ),
            r.long_max_spread_bps == number_setting(
                *env,
                "VAULT_LLM_MAX_SPREAD_BPS"@,
                Range::Positive,
                Scalar::Rank(R_500),
            ),
            r.long_min_top_of_book_usd == number_setting(
                *env,
                "VAULT_LLM_MIN_TOP_OF_BOOK_USD"@,
                Range::NonNegative,
                Scalar::Rank(R_250),
            ),
            r.long_fee_buffer == number_setting(
                *env,
                "VAULT_LLM_FEE_BUFFER"@,
                Range::NonNegative,
                Scalar::Rank(R_0_01),
            ),
            r.long_slippage_buffer_min == number_setting(
                *env,
                "VAULT_LLM_SLIPPAGE_BUFFER_MIN"@,
                Range::NonNegative,
                Scalar::Rank(R_0_01),
            ),
            r.long_dispersion_max == number_setting(
                *env,
                "VAULT_LLM_DISPERSION_MAX"@,
                Range::Positive,
                Scalar::Rank(R_0_12),
            ),
            r.long_exit_price_90 == number_setting(
                *env,
                "VAULT_LLM_EXIT_PRICE_90"@,
                Range::InsideUnit,
                Scalar::Rank(R_0_9),
            ),
            r.long_exit_price_95 == number_setting(
                *env,
                "VAULT_LLM_EXIT_PRICE_95"@,
                Range::InsideUnit,
                Scalar::Rank(R_0_95),
            ),
            r.long_exit_frac_90 == number_setting(
                *env,
                "VAULT_LLM_EXIT_FRAC_90"@,
                Range::Unit,
                Scalar::Rank(HALF_RANK),
            ),
            r.long_exit_frac_95 == number_setting(
                *env,
                "VAULT_LLM_EXIT_FRAC_95"@,
                Range::Unit,
                Scalar::Rank(R_0_9),
            ),
            r.long_wallet_window_sec == integer_setting(
                *env,
                "VAULT_LLM_WALLET_WINDOW_SEC"@,
                true,
                1,
                i64::MAX as int,
                60,
            ),
            r.long_wallet_max_trades_per_window == integer_setting(
                *env,
                "VAULT_LLM_WALLET_MAX_TRADES_PER_WINDOW"@,
                false,
                1,
                usize::MAX as int,
                6,
            ),
            r.long_wallet_min_notional_usd == number_setting(
                *env,
                "VAULT_LLM_WALLET_MIN_NOTIONAL_USD"@,
                Range::NonNegative,
                Scalar::Rank(R_50),
            ),
            views(r.long_models@) == models_setting(*env),
    {
        let mut cfg = VaultEngineConfig::default();
        cfg.enabled = flag_or(env, "VAULT_ENGINE_ENABLED", false);
        cfg.paper = flag_or(env, "VAULT_ENGINE_PAPER", true);
        cfg.updown_poll_ms =
        unsigned_or(env, "UPDOWN15M_POLL_MS", 250, u64::MAX, cfg.updown_poll_ms);
        cfg.updown_min_edge =
        number_or(env, "UPDOWN15M_MIN_EDGE", Range::Positive, cfg.updown_min_edge);
        cfg.updown_kelly_fraction =
        number_or(env, "UPDOWN15M_KELLY_FRACTION", Range::NonNegative, cfg.updown_kelly_fraction);
        cfg.updown_max_position_pct =
        number_or(env, "UPDOWN15M_MAX_POSITION_PCT", Range::Positive, cfg.updown_max_position_pct);
        cfg.updown_shrink_to_half =
        number_or(env, "UPDOWN15M_SHRINK", Range::NonNegative, cfg.updown_shrink_to_half);
        cfg.updown_cooldown_sec =
        signed_or(env, "UPDOWN15M_COOLDOWN_SEC", 0, i64::MAX, cfg.updown_cooldown_sec);
        cfg.max_drawdown_pct =
        number_or(env, "VAULT_MAX_DRAWDOWN_PCT", Range::PositiveToOne, cfg.max_drawdown_pct);
        cfg.initial_bankroll =
        number_or(env, "INITIAL_BANKROLL", Range::Positive, cfg.initial_bankroll);
        cfg.long_enabled = flag_or(env, "VAULT_LLM_ENABLED", false);
        cfg.long_poll_ms =
        unsigned_or(env, "VAULT_LLM_POLL_MS", 500, u64::MAX, cfg.long_poll_ms);
        cfg.long_min_edge =
        number_or(env, "VAULT_LLM_MIN_EDGE", Range::Positive, cfg.long_min_edge);
        cfg.long_kelly_fraction =
        number_or(env, "VAULT_LLM_KELLY_FRACTION", Range::NonNegative, cfg.long_kelly_fraction);
        cfg.long_max_position_pct =
        number_or(env, "VAULT_LLM_MAX_POSITION_PCT", Range::Positive, cfg.long_max_position_pct);
        cfg.long_min_trade_usd =
        number_or(env, "VAULT_LLM_MIN_TRADE_USD", Range::Positive, cfg.long_min_trade_usd);
        cfg.long_max_trade_usd =
        number_or(env, "VAULT_LLM_MAX_TRADE_USD", Range::Positive, cfg.long_max_trade_usd);
        cfg.long_min_infer_interval_sec =
        signed_or(env, "VAULT_LLM_MIN_INFER_INTERVAL_SEC", 0, i64::MAX, cfg.long_min_infer_interval_sec);
        cfg.long_cooldown_sec =
        signed_or(env, "VAULT_LLM_COOLDOWN_SEC", 0, i64::MAX, cfg.long_cooldown_sec);
        cfg.long_max_calls_per_day =
        small_or(env, "VAULT_LLM_MAX_CALLS_PER_DAY", 1, u32::MAX, cfg.long_max_calls_per_day);
        cfg.long_max_calls_per_market_per_day =
        small_or(env, "VAULT_LLM_MAX_CALLS_PER_MARKET_PER_DAY", 1, u32::MAX, cfg.long_max_calls_per_market_per_day);
        cfg.long_max_tokens_per_day =
        unsigned_or(env, "VAULT_LLM_MAX_TOKENS_PER_DAY", 1, u64::MAX, cfg.long_max_tokens_per_day);
        cfg.long_llm_timeout_sec =
        unsigned_or(env, "VAULT_LLM_TIMEOUT_SEC", 1, u64::MAX, cfg.long_llm_timeout_sec);
        cfg.long_llm_max_tokens =
        small_or(env, "VAULT_LLM_MAX_TOKENS", 16, u32::MAX, cfg.long_llm_max_tokens);
        cfg.long_llm_temperature =
        number_or(env, "VAULT_LLM_TEMPERATURE", Range::NonNegative, cfg.long_llm_temperature);
        cfg.long_max_tte_days =
        number_or(env, "VAULT_LLM_MAX_TTE_DAYS", Range::Positive, cfg.long_max_tte_days);
        cfg.long_max_spread_bps =
        number_or(env, "VAULT_LLM_MAX_SPREAD_BPS", Range::Positive, cfg.long_max_spread_bps);
        cfg.long_min_top_of_book_usd =
        number_or(env, "VAULT_LLM_MIN_TOP_OF_BOOK_USD", Range::NonNegative, cfg.long_min_top_of_book_usd);
        cfg.long_fee_buffer =
        number_or(env, "VAULT_LLM_FEE_BUFFER", Range::NonNegative, cfg.long_fee_buffer);
        cfg.long_slippage_buffer_min =
        number_or(env, "VAULT_LLM_SLIPPAGE_BUFFER_MIN", Range::NonNegative, cfg.long_slippage_buffer_min);
        cfg.long_dispersion_max =
        number_or(env, "VAULT_LLM_DISPERSION_MAX", Range::Positive, cfg.long_dispersion_max);
        cfg.long_exit_price_90 =
        number_or(env, "VAULT_LLM_EXIT_PRICE_90", Range::InsideUnit, cfg.long_exit_price_90);
        cfg.long_exit_price_95 =
        number_or(env, "VAULT_LLM_EXIT_PRICE_95", Range::InsideUnit, cfg.long_exit_price_95);
        cfg.long_exit_frac_90 =
        number_or(env, "VAULT_LLM_EXIT_FRAC_90", Range::Unit, cfg.long_exit_frac_90);
        cfg.long_exit_frac_95 =
        number_or(env, "VAULT_LLM_EXIT_FRAC_95", Range::Unit, cfg.long_exit_frac_95);
        cfg.long_wallet_window_sec =
        signed_or(env, "VAULT_LLM_WALLET_WINDOW_SEC", 1, i64::MAX, cfg.long_wallet_window_sec);
        cfg.long_wallet_max_trades_per_window =
        size_or(env, "VAULT_LLM_WALLET_MAX_TRADES_PER_WINDOW", 1, usize::MAX, cfg.long_wallet_max_trades_per_window);
        cfg.long_wallet_min_notional_usd =
        number_or(env, "VAULT_LLM_WALLET_MIN_NOTIONAL_USD", Range::NonNegative, cfg.long_wallet_min_notional_usd);
        match env.text("VAULT_LLM_MODELS") {
            Some(t) => {
                let listed = list_items(t.as_str());
                if listed.len() > 0 {
                    cfg.long_models = listed;
                }
            },
            None => {},
        }
        cfg
    }
}

/// The models that are asked: those that a variable lists, if it lists any.
pub open spec fn models_setting(env: Environment) -> Seq<Seq<char>> {
    match env.text_of("VAULT_LLM_MODELS"@) {
        Some(t) => if kept_pieces(pieces(t, ',')).len() > 0 {
            kept_pieces(pieces(t, ','))
        } else {
            default_models()
        },
        None => default_models(),
    }
}

/// What runs once the engine is spawned.
#[derive(Clone, Copy, Debug, PartialEq, Eq, Structural)]
pub enum Executor {
    Paper,
    /// Orders go to the order book of the exchange.
    Live,
}

/// Why the models are not asked though the settings say so.
#[derive(Clone, Copy, Debug, PartialEq, Eq, Structural)]
pub enum LongOff {
    NotEnabled,
    TooFewModels,
    NoKey,
}

/// How many models are asked.
pub const MODELS_NEEDED: usize = 4;

/// What is set in motion.
#[derive(Clone, Copy, Debug, PartialEq, Eq, Structural)]
pub struct SpawnPlan {
    pub executor: Executor,
    /// Live trading was asked for, but nothing could sign orders.
    pub fell_back: bool,
    /// Whether the models are asked, and else why not.
    pub long_off: Option<LongOff>,
}

/// Plans what is set in motion; nothing where the engine is not enabled.
pub open spec fn spawn_plan(cfg: VaultEngineConfig, can_sign: bool, has_key: bool) -> Option<SpawnPlan> {
    if !cfg.enabled {
        None
    } else {
        Some(
            SpawnPlan {
                executor: if !cfg.paper && can_sign {
                    Executor::Live
                } else {
                    Executor::Paper
                },
                fell_back: !cfg.paper && !can_sign,
                long_off: if !cfg.long_enabled {
                    Some(LongOff::NotEnabled)
                } else if cfg.long_models.len() < MODELS_NEEDED {
                    Some(LongOff::TooFewModels)
                } else if !has_key {
                    Some(LongOff::NoKey)
                } else {
                    None
                },
            },
        )
    }
}

/// Best prices of a book that need not be sorted: where prices are equal, the first level
/// counts.
pub open spec fn is_best(levels: Seq<Order>, highest: bool, best: Option<Order>) -> bool {
    match best {
        None => levels.len() == 0,
        Some(o) => exists|i: int| is_best_at(levels, highest, o, i),
    }
}

pub open spec fn is_best_at(levels: Seq<Order>, highest: bool, o: Order, i: int) -> bool {
    &&& 0 <= i < levels.len()
    &&& levels[i] == o
    &&& forall|j: int|
        #![trigger levels[j]]
        0 <= j < levels.len() && j != i ==> !better(levels[j].price, o.price, highest)
    &&& forall|j: int| #![trigger levels[j]] 0 <= j < i ==> better(o.price, levels[j].price, highest)
}

/// Whether one price is better than another.
pub open spec fn better(a: Scalar, b: Scalar, highest: bool) -> bool {
    if highest {
        b.spec_lt(a)
    } else {
        a.spec_lt(b)
    }
}

fn is_better(a: Scalar, b: Scalar, highest: bool) -> (r: bool)
    ensures
        r == better(a, b, highest),
{
    if highest {
        b.lt(a)
    } else {
        a.lt(b)
    }
}

/// Finds the level with the best price; all prices are numbers.
pub fn best_level(levels: &Vec<Order>, highest: bool) -> (r: Option<Order>)
    requires
        forall|i: int| #![trigger levels[i]] 0 <= i < levels.len() ==> levels[i].price is Rank,
    ensures
        is_best(levels@, highest, r),
{
    if levels.len() == 0 {
        return None;
    }
    let mut at: usize = 0;
    let mut i: usize = 1;
    while i < levels.len()
        invariant
            0 <= at < i <= levels.len(),
            forall|k: int| #![trigger levels[k]] 0 <= k < levels.len() ==> levels[k].price is Rank,
            forall|j: int|
                #![trigger levels[j]]
                0 <= j < i && j != at ==> !better(levels[j].price, levels[at as int].price, highest),
            forall|j: int|
                #![trigger levels[j]]
                0 <= j < at ==> better(levels[at as int].price, levels[j].price, highest),
        decreases levels.len() - i,
    {
        if is_better(levels[i].price, levels[at].price, highest) {
            at = i;
        }
        i = i + 1;
    }
    assert(is_best_at(levels@, highest, levels[at as int], at as int));
    Some(levels[at])
}

/// The best levels of a book, and both of them where a spread can be worked out: both
/// prices are above zero.
#[derive(Clone, Copy, Debug, PartialEq, Eq)]
pub struct BookTops {
    pub bid: Option<Order>,
    pub ask: Option<Order>,
    pub spread_of: Option<(Scalar, Scalar)>,
}

/// Reads the best levels of a book that need not be sorted.
pub fn best_bid_ask_spread_top_usd(book: &OrderBook) -> (r: BookTops)
    requires
        forall|i: int| #![trigger book.bids[i]] 0 <= i < book.bids.len() ==> book.bids[i].price is Rank,
        forall|i: int| #![trigger book.asks[i]] 0 <= i < book.asks.len() ==> book.asks[i].price is Rank,
    ensures
        is_best(book.bids@, true, r.bid),
        is_best(book.asks@, false, r.ask),
        r.spread_of == match (r.bid, r.ask) {
            (Some(b), Some(a)) => if Scalar::Rank(0).spec_lt(a.price) && Scalar::Rank(0).spec_lt(
                b.price,
            ) {
                Some((b.price, a.price))
            } else {
                None
            },
            _ => None,
        },
{
    let bid = best_level(&book.bids, true);
    let ask = best_level(&book.asks, false);
    let spread_of = match (bid, ask) {
        (Some(b), Some(a)) => if Scalar::Rank(0).lt(a.price) && Scalar::Rank(0).lt(b.price) {
            Some((b.price, a.price))
        } else {
            None
        },
        _ => None,
    };
    BookTops { bid, ask, spread_of }
}

/// The best ask of a token in the older cache, or none, which means that the tick is
/// skipped.
pub fn best_ask_cached_hft(ws_cache: &PolymarketMarketWsCache, token_id: &str, max_stale_ms: i64) -> (r: Option<
    Scalar,
>)
    ensures
        r == match ws_cache.book_within(token_id@, max_stale_ms) {
            Some(book) => price_of(top(book.asks@)),
            None => None,
        },
{
    match ws_cache.get_orderbook(token_id, max_stale_ms) {
        Some(book) => book.best_ask(),
        None => None,
    }
}

/// The best bid of a token in the older cache, or none, which means that the tick is
/// skipped.
pub fn best_bid_cached_hft(ws_cache: &PolymarketMarketWsCache, token_id: &str, max_stale_ms: i64) -> (r: Option<
    Scalar,
>)
    ensures
        r == match ws_cache.book_within(token_id@, max_stale_ms) {
            Some(book) => price_of(top(book.bids@)),
            None => None,
        },
{
    match ws_cache.get_orderbook(token_id, max_stale_ms) {
        Some(book) => book.best_bid(),
        None => None,
    }
}

/// The price that a spread stands for: `product` is a price times the spread as a share.
pub fn spread_bps_to_price(spread_bps: Scalar, price_ref: Scalar, product: Scalar) -> (r: Scalar)
    ensures
        r == if spread_bps.spec_is_finite() && price_ref.spec_is_finite() {
            product.spec_max(Scalar::Rank(0))
        } else {
            Scalar::Rank(0)
        },
{
    if !(spread_bps.is_finite() && price_ref.is_finite()) {
        return Scalar::Rank(0);
    }
    product.max(Scalar::Rank(0))
}

/// The seconds between two records of the vault's worth.
pub open spec fn snapshot_secs(env: Environment) -> int {
    let n = integer_setting(
        env,
        "VAULT_NAV_SNAPSHOT_SECS"@,
        false,
        0,
        u64::MAX as int,
        60,
    );
    if n < 10 {
        10
    } else if n > 3600 {
        3600
    } else {
        n
    }
}

pub fn nav_snapshot_secs(env: &Environment) -> (r: u64)
    ensures
        r == snapshot_secs(*env),
{
    let n: u64 = unsigned_or(env, "VAULT_NAV_SNAPSHOT_SECS", 0, u64::MAX, 60);
    if n < 10 {
        10
    } else if n > 3600 {
        3600
    } else {
        n
    }
}

/// The record of the worth of a period starts at the last multiple of the period, on the
/// side of zero.
pub open spec fn bucket_of(now: int, secs: int) -> int {
    toward_zero(now, secs) * secs
}

/// The start of the period that holds an instant.
pub fn snapshot_bucket(now: i64, secs: u64) -> (r: i64)
    requires
        10 <= secs <= 3600,
    ensures
        r == bucket_of(now as int, secs as int),
{
    let q: i64 = div_toward_zero(now, secs as i64);
    proof {
        lemma_bucket_fits(now as int, secs as int);
    }
    q * (secs as i64)
}

proof fn lemma_bucket_fits(now: int, secs: int)
    requires
        secs > 0,
    ensures
        now >= 0 ==> 0 <= bucket_of(now, secs) <= now < bucket_of(now, secs) + secs,
        now < 0 ==> bucket_of(now, secs) - secs < now <= bucket_of(now, secs) <= 0,
{
    if now >= 0 {
        vstd::arithmetic::div_mod::lemma_fundamental_div_mod(now, secs);
        assert((now / secs) * secs == secs * (now / secs)) by (nonlinear_arith);
        assert((now / secs) * secs >= 0) by (nonlinear_arith)
            requires
                now >= 0,
                secs > 0,
        ;
    } else {
        let m = -now;
        vstd::arithmetic::div_mod::lemma_fundamental_div_mod(m, secs);
        assert((-(m / secs)) * secs == -(secs * (m / secs))) by (nonlinear_arith);
        assert(secs * (m / secs) >= 0) by (nonlinear_arith)
            requires
                m > 0,
                secs > 0,
        ;
    }
}

/// The name of the record of a period.
pub open spec fn snapshot_name(bucket: int, secs: int) -> Seq<char> {
    "betterbot:navsnap:"@ + decimal(bucket) + ":"@ + decimal(secs)
}

/// Names the record of a period.
pub fn snapshot_text(bucket: i64, secs: u64) -> (r: String)
    ensures
        r@ == snapshot_name(bucket as int, secs as int),
{
    let a = joined("betterbot:navsnap:", decimal_i64(bucket).as_str());
    let b = joined(a.as_str(), ":");
    joined(b.as_str(), decimal_u64(secs).as_str())
}

/// Records the worth of the vault in a period.
pub fn periodic_snapshot(now: i64, secs: u64, figures: NavFigures) -> (r: VaultNavSnapshotRecord)
    requires
        10 <= secs <= 3600,
    ensures
        r.id@ == url_id(snapshot_name(bucket_of(now as int, secs as int), secs as int)),
        r.ts == bucket_of(now as int, secs as int),
        r.figures == figures,
        r.source@ == "periodic"@,
{
    let bucket = snapshot_bucket(now, secs);
    let name = snapshot_text(bucket, secs);
    periodic_snapshot_under(named_id(name.as_str()), bucket, figures)
}

/// Records the worth of the vault in a period under an identifier.
pub fn periodic_snapshot_under(id: String, bucket: i64, figures: NavFigures) -> (r:
    VaultNavSnapshotRecord)
    ensures
        r.id == id,
        r.ts == bucket,
        r.figures == figures,
        r.source@ == "periodic"@,
{
    VaultNavSnapshotRecord { id, ts: bucket, figures, source: "periodic".to_owned() }
}

/// What a share is worth: halfway between the best prices, one of them, or what was paid.
#[derive(Clone, Copy, Debug, PartialEq, Eq, Structural)]
pub enum Mark {
    Between { bid: Scalar, ask: Scalar },
    At(Scalar),
}

/// The worth of a share, by the best prices if they could be read.
pub fn mark_of(prices: Option<(Option<Scalar>, Option<Scalar>)>, paid: Scalar) -> (r: Mark)
    ensures
        r == match prices {
            Some((Some(b), Some(a))) => Mark::Between { bid: b, ask: a },
            Some((Some(b), None)) => Mark::At(b),
            Some((None, Some(a))) => Mark::At(a),
            _ => Mark::At(paid),
        },
{
    match prices {
        Some((Some(b), Some(a))) => Mark::Between { bid: b, ask: a },
        Some((Some(b), None)) => Mark::At(b),
        Some((None, Some(a))) => Mark::At(a),
        _ => Mark::At(paid),
    }
}

/// Whether a position counts for the worth of the vault: it holds shares, and what one is
/// worth is finite.
pub fn counts_for_nav(shares: Scalar, mark: Scalar) -> (r: bool)
    ensures
        r == (!shares.spec_le(Scalar::Rank(0)) && mark.spec_is_finite()),
{
    !shares.le(Scalar::Rank(0)) && mark.is_finite()
}

/// The worth of the vault: `nav` and `positions` were summed, and `quotient` is the worth
/// by the shares.
pub fn nav_figures(
    nav: Scalar,
    cash: Scalar,
    positions: Scalar,
    total_shares: Scalar,
    quotient: Scalar,
) -> (r: NavFigures)
    ensures
        r == (NavFigures {
            nav_usdc: nav.spec_max(Scalar::Rank(0)),
            cash_usdc: cash,
            positions_value_usdc: positions,
            total_shares,
            nav_per_share: if Scalar::Rank(0).spec_lt(total_shares) {
                quotient
            } else {
                Scalar::Rank(ONE_RANK)
            },
        }),
{
    NavFigures {
        nav_usdc: nav.max(Scalar::Rank(0)),
        cash_usdc: cash,
        positions_value_usdc: positions,
        total_shares,
        nav_per_share: if Scalar::Rank(0).lt(total_shares) {
            quotient
        } else {
            Scalar::Rank(ONE_RANK)
        },
    }
}

/// The tokens of a market, as far as a tick gets.
#[derive(Debug)]
pub enum UpDownTokens {
    /// The market was traded too lately.
    Cooling,
    /// The tokens of both outcomes are known.
    Known(String, String),
    /// The tokens of both outcomes are asked for.
    Lookup,
}

/// What is remembered between the ticks of the quarter-hour strategy.
pub struct UpDownLoop {
    pub token_cache: Table<(String, String)>,
    pub last_trade_ts: Table<i64>,
    pub halted: bool,
}

/// The assets in the order in which a tick takes them.
pub open spec fn tick_assets() -> Seq<UpDownAsset> {
    seq![UpDownAsset::Btc, UpDownAsset::Eth, UpDownAsset::Sol, UpDownAsset::Xrp]
}

pub fn assets_of_tick() -> (r: Vec<UpDownAsset>)
    ensures
        r@ == tick_assets(),
{
    let mut r: Vec<UpDownAsset> = Vec::new();
    r.push(UpDownAsset::Btc);
    r.push(UpDownAsset::Eth);
    r.push(UpDownAsset::Sol);
    r.push(UpDownAsset::Xrp);
    assert(r@ =~= tick_assets());
    r
}

/// The market on an asset whose window holds `now`, and its slug.
pub fn market_at(asset: UpDownAsset, now: i64) -> (r: (UpDown15mMarket, String))
    requires
        now <= i64::MAX - 900,
    ensures
        r.0 == (UpDown15mMarket {
            asset,
            start_ts: window_start_of(now as int) as i64,
            end_ts: (window_start_of(now as int) + 900) as i64,
        }),
        r.1@ == slug_of(asset.name(), window_start_of(now as int)),
{
    let start_ts = window_start(now);
    let slug = market_slug(asset.as_str(), start_ts);
    (UpDown15mMarket { asset, start_ts, end_ts: start_ts + 900 }, slug)
}

impl UpDownLoop {
    pub fn new() -> (r: UpDownLoop)
        ensures
            r.token_cache@ == Map::<Seq<char>, (String, String)>::empty(),
            r.last_trade_ts@ == Map::<Seq<char>, i64>::empty(),
            !r.halted,
    {
        UpDownLoop { token_cache: Table::new(), last_trade_ts: Table::new(), halted: false }
    }

    /// Begins a tick, and says whether it trades: once the vault has lost too large a
    /// share of its first worth, nothing is traded any more.
    pub fn begin_tick(&mut self, drawdown: Scalar, max_drawdown_pct: Scalar) -> (r: bool)
        ensures
            final(self).halted == (old(self).halted || max_drawdown_pct.spec_le(drawdown)),
            final(self).token_cache == old(self).token_cache,
            final(self).last_trade_ts == old(self).last_trade_ts,
            r == !final(self).halted,
    {
        if !self.halted && max_drawdown_pct.le(drawdown) {
            self.halted = true;
        }
        !self.halted
    }

    /// A market cools down for a while after a trade.
    pub open spec fn cools_down(self, slug: Seq<char>, now: int, cooldown: int) -> bool {
        self.last_trade_ts@.contains_key(slug) && now - self.last_trade_ts@[slug] < cooldown
    }

    /// Finds the tokens of a market.
    pub fn tokens_of(&self, slug: &str, now: i64, cooldown_sec: i64) -> (r: UpDownTokens)
        ensures
            if self.cools_down(slug@, now as int, cooldown_sec as int) {
                r is Cooling
            } else if self.token_cache@.contains_key(slug@) {
                &&& r matches UpDownTokens::Known(up, down)
                &&& up@ == self.token_cache@[slug@].0@
                &&& down@ == self.token_cache@[slug@].1@
            } else {
                r is Lookup
            },
    {
        match self.last_trade_ts.get(slug) {
            Some(last) => {
                if less_than_apart(now, *last, cooldown_sec) {
                    return UpDownTokens::Cooling;
                }
            },
            None => {},
        }
        match self.token_cache.get(slug) {
            Some(t) => UpDownTokens::Known(t.0.clone(), t.1.clone()),
            None => UpDownTokens::Lookup,
        }
    }

    /// Takes the tokens of a market in, empty where there is none: they are kept where
    /// both are there, and the result says whether they are.
    pub fn learn_tokens(&mut self, slug: &str, up: &str, down: &str) -> (r: bool)
        ensures
            r == (up@.len() > 0 && down@.len() > 0),
            final(self).halted == old(self).halted,
            final(self).last_trade_ts == old(self).last_trade_ts,
            !r ==> final(self).token_cache == old(self).token_cache,
            r ==> {
                let kept = final(self).token_cache@[slug@];
                &&& final(self).token_cache@ == old(self).token_cache@.insert(slug@, kept)
                &&& kept.0@ == up@
                &&& kept.1@ == down@
            },
    {
        if up.is_empty() || down.is_empty() {
            return false;
        }
        self.token_cache.insert(slug.to_owned(), (up.to_owned(), down.to_owned()));
        true
    }

    /// Takes in that a market was traded.
    pub fn on_traded(&mut self, slug: &str, now: i64)
        ensures
            final(self).last_trade_ts@ == old(self).last_trade_ts@.insert(slug@, now),
            final(self).token_cache == old(self).token_cache,
            final(self).halted == old(self).halted,
    {
        self.last_trade_ts.insert(slug.to_owned(), now);
    }
}

/// The seconds that a market has left, if they are enough to trade.
pub fn updown_time_left(market: &UpDown15mMarket, now: i64) -> (r: Option<i64>)
    ensures
        r == if market.end_ts - now < 15 {
            None
        } else if market.end_ts - now > i64::MAX {
            Some(i64::MAX)
        } else {
            Some((market.end_ts - now) as i64)
        },
{
    match market.end_ts.checked_sub(now) {
        Some(d) => if d < 15 {
            None
        } else {
            Some(d)
        },
        None => if market.end_ts < now {
            None
        } else {
            Some(i64::MAX)
        },
    }
}

/// What the feeds know of a market: the latest price, the price at the start of its
/// window, the volatility, and whether the oracle lags so far behind that a trade is
/// dangerous.
#[derive(Clone, Copy, Debug, PartialEq, Eq, Structural)]
pub struct UpDownReading {
    pub p_now: Option<Scalar>,
    pub p_start: Option<Scalar>,
    pub sigma: Option<Scalar>,
    pub oracle_lags: bool,
}

/// The prices and the volatility, where all is known and the oracle keeps up.
pub fn updown_inputs(reading: &UpDownReading) -> (r: Option<(Scalar, Scalar, Scalar)>)
    ensures
        r == match (reading.p_now, reading.p_start, reading.sigma) {
            (Some(n), Some(s), Some(v)) => if reading.oracle_lags {
                None
            } else {
                Some((n, s, v))
            },
            _ => None,
        },
{
    match (reading.p_now, reading.p_start, reading.sigma) {
        (Some(n), Some(s), Some(v)) => if reading.oracle_lags {
            None
        } else {
            Some((n, s, v))
        },
        _ => None,
    }
}

/// The middle of a market by its asks; one half where it has none.
pub fn market_mid(ask_up: Option<Scalar>, ask_down: Option<Scalar>) -> (r: MarketMid)
    ensures
        r == match (ask_up, ask_down) {
            (Some(up), Some(down)) => MarketMid::Between { up, down },
            (Some(up), None) => MarketMid::Up(up),
            (None, Some(down)) => MarketMid::OneLess(down),
            (None, None) => MarketMid::Up(Scalar::Rank(HALF_RANK)),
        },
{
    match (ask_up, ask_down) {
        (Some(up), Some(down)) => MarketMid::Between { up, down },
        (Some(up), None) => MarketMid::Up(up),
        (None, Some(down)) => MarketMid::OneLess(down),
        (None, None) => MarketMid::Up(Scalar::Rank(HALF_RANK)),
    }
}

/// The estimate of the model, else the one of the plain model with half the confidence.
pub fn updown_estimate(model: Option<RnjdEstimate>, plain: Option<Scalar>) -> (r: Option<RnjdEstimate>)
    ensures
        r == match (model, plain) {
            (Some(e), _) => Some(e),
            (None, Some(p)) => Some(
                RnjdEstimate {
                    p_up: p,
                    drift_correction: Scalar::Rank(0),
                    p_up_raw: p,
                    confidence: Scalar::Rank(HALF_RANK),
                    jump_regime: false,
                },
            ),
            (None, None) => None,
        },
{
    match (model, plain) {
        (Some(e), _) => Some(e),
        (None, Some(p)) => Some(
            RnjdEstimate {
                p_up: p,
                drift_correction: Scalar::Rank(0),
                p_up_raw: p,
                confidence: Scalar::Rank(HALF_RANK),
                jump_regime: false,
            },
        ),
        (None, None) => None,
    }
}

/// The outcome that is worth buying: the one with the greater edge, where that is wide
/// enough.
pub open spec fn updown_choice(q: Quotes, jump_regime: bool, min_edge: Scalar, doubled_min_edge: Scalar) -> Option<
    Pick,
> {
    match q.best() {
        None => None,
        Some(p) => if p.edge.spec_lt(
            if jump_regime {
                doubled_min_edge
            } else {
                min_edge
            },
        ) {
            None
        } else {
            Some(p)
        },
    }
}

/// Chooses the outcome that is worth buying; while beliefs jump, twice the edge is asked
/// for.
pub fn choose_updown(q: &Quotes, jump_regime: bool, min_edge: Scalar, doubled_min_edge: Scalar) -> (r: Option<
    Pick,
>)
    ensures
        r == updown_choice(*q, jump_regime, min_edge, doubled_min_edge),
{
    match q.pick() {
        None => None,
        Some(p) => {
            let needed = if jump_regime {
                doubled_min_edge
            } else {
                min_edge
            };
            if p.edge.lt(needed) {
                None
            } else {
                Some(p)
            }
        },
    }
}

/// The bounds of a stake out of a bankroll; none where there is no money.
pub fn updown_params(cfg: &VaultEngineConfig, bankroll: Scalar) -> (r: Option<KellyParams>)
    ensures
        r == if bankroll.spec_le(Scalar::Rank(0)) {
            None
        } else {
            Some(
                KellyParams {
                    bankroll,
                    kelly_fraction: cfg.updown_kelly_fraction,
                    max_position_pct: cfg.updown_max_position_pct,
                    min_position_usd: Scalar::Rank(ONE_RANK),
                },
            )
        },
{
    if bankroll.le(Scalar::Rank(0)) {
        return None;
    }
    Some(
        KellyParams {
            bankroll,
            kelly_fraction: cfg.updown_kelly_fraction,
            max_position_pct: cfg.updown_max_position_pct,
            min_position_usd: Scalar::Rank(ONE_RANK),
        },
    )
}

/// The order for an outcome.
pub open spec fn is_updown_order(
    o: OrderRequest,
    pick: Pick,
    stake: Scalar,
    slug: Seq<char>,
    token_up: Seq<char>,
    token_down: Seq<char>,
) -> bool {
    &&& o.token_id@ == if pick.up {
        token_up
    } else {
        token_down
    }
    &&& o.side == OrderSide::Buy
    &&& o.price == pick.price
    &&& o.notional_usdc == stake
    &&& o.tif == TimeInForce::Ioc
    &&& (o.market_slug matches Some(m) && m@ == slug)
    &&& (o.outcome matches Some(n) && n@ == outcome_name(pick.up))
}

/// The order for an outcome, where its stake is worth it, under a fresh identifier.
pub fn updown_order(
    pick: &Pick,
    kelly: &KellyResult,
    slug: &str,
    token_up: &str,
    token_down: &str,
) -> (r: Option<OrderRequest>)
    ensures
        r is Some <==> kelly.should_trade,
        r matches Some(o) ==> o.client_order_id@.len() == 36 && is_updown_order(
            o,
            *pick,
            kelly.position_size_usd,
            slug@,
            token_up@,
            token_down@,
        ),
{
    updown_order_with(pick, kelly, slug, token_up, token_down, fresh_id())
}

/// The order for an outcome, where its stake is worth it, under an identifier.
pub fn updown_order_with(
    pick: &Pick,
    kelly: &KellyResult,
    slug: &str,
    token_up: &str,
    token_down: &str,
    client_order_id: String,
) -> (r: Option<OrderRequest>)
    ensures
        r is Some <==> kelly.should_trade,
        r matches Some(o) ==> o.client_order_id == client_order_id && is_updown_order(
            o,
            *pick,
            kelly.position_size_usd,
            slug@,
            token_up@,
            token_down@,
        ),
{
    if !kelly.should_trade {
        return None;
    }
    let token = if pick.up {
        token_up
    } else {
        token_down
    };
    Some(
        OrderRequest {
            client_order_id,
            token_id: token.to_owned(),
            side: OrderSide::Buy,
            price: pick.price,
            notional_usdc: kelly.position_size_usd,
            tif: TimeInForce::Ioc,
            market_slug: Some(slug.to_owned()),
            outcome: Some(outcome_text(pick.up).to_owned()),
        },
    )
}

/// The engine.
pub struct VaultEngine {
    pub cfg: VaultEngineConfig,
    pub updown: UpDownLoop,
    pub long_state: LongEngineState,
}

impl VaultEngine {
    /// Plans what is set in motion, and sets the engine up; nothing where it is not
    /// enabled. `can_sign` says whether orders can be signed, and `has_key` whether models
    /// can be asked.
    pub fn spawn(cfg: VaultEngineConfig, can_sign: bool, has_key: bool) -> (r: Option<(
        VaultEngine,
        SpawnPlan,
    )>)
        ensures
            match spawn_plan(cfg, can_sign, has_key) {
                None => r is None,
                Some(p) => {
                    &&& r matches Some((e, plan))
                    &&& plan == p
                    &&& e.cfg == (VaultEngineConfig { long_enabled: p.long_off is None, ..cfg })
                    &&& !e.updown.halted
                    &&& e.updown.token_cache@ == Map::<Seq<char>, (String, String)>::empty()
                    &&& e.updown.last_trade_ts@ == Map::<Seq<char>, i64>::empty()
                    &&& e.long_state.is_new()
                },
            },
    {
        let mut cfg = cfg;
        if !cfg.enabled {
            return None;
        }
        let executor = if !cfg.paper && can_sign {
            Executor::Live
        } else {
            Executor::Paper
        };
        let fell_back = !cfg.paper && !can_sign;
        let long_off = if !cfg.long_enabled {
            Some(LongOff::NotEnabled)
        } else if cfg.long_models.len() < MODELS_NEEDED {
            Some(LongOff::TooFewModels)
        } else if !has_key {
            Some(LongOff::NoKey)
        } else {
            None
        };
        cfg.long_enabled = long_off.is_none();
        let engine = VaultEngine {
            cfg,
            updown: UpDownLoop::new(),
            long_state: LongEngineState::new(),
        };
        Some((engine, SpawnPlan { executor, fell_back, long_off }))
    }
}

/// The engine asks models only where all of them are there, and trades live only where it
/// was told to.
pub proof fn law_spawn_is_careful(cfg: VaultEngineConfig, can_sign: bool, has_key: bool)
    ensures
        spawn_plan(cfg, can_sign, has_key) matches Some(p) ==> {
            &&& cfg.enabled
            &&& p.executor == Executor::Live ==> !cfg.paper && can_sign
            &&& p.long_off is None ==> cfg.long_enabled && has_key && cfg.long_models.len()
                >= MODELS_NEEDED
        },
{
}

/// Once halted, the strategy never trades again.
pub proof fn law_halt_stays(before: UpDownLoop, after: UpDownLoop, drawdown: Scalar, limit: Scalar)
    requires
        before.halted,
        after.halted == (before.halted || limit.spec_le(drawdown)),
    ensures
        after.halted,
{
}

/// The records of one period share their name, and those of different periods do not.
pub proof fn law_snapshot_names_tell_periods_apart(a: int, b: int, secs: int)
    requires
        secs > 0,
        0 <= a,
        0 <= b,
        snapshot_name(bucket_of(a, secs), secs) == snapshot_name(bucket_of(b, secs), secs),
    ensures
        bucket_of(a, secs) == bucket_of(b, secs),
{
    let x = bucket_of(a, secs);
    let y = bucket_of(b, secs);
    let head = "betterbot:navsnap:"@;
    let tail = ":"@ + decimal(secs);
    let p = snapshot_name(x, secs);
    assert(p =~= head + decimal(x) + tail);
    assert(snapshot_name(y, secs) =~= head + decimal(y) + tail);
    assert(p.len() == head.len() + decimal(x).len() + tail.len());
    assert(decimal(x).len() == decimal(y).len());
    assert(decimal(x) =~= p.subrange(head.len() as int, (head.len() + decimal(x).len()) as int));
    assert(decimal(y) =~= p.subrange(head.len() as int, (head.len() + decimal(x).len()) as int));
    lemma_decimal_is_injective(x, y);
}

/// Each setting is what its variable says, where that lies within its bounds, and lies within
/// them whatever the variables say.
pub proof fn law_engine_takes_its_settings(env: Environment, r: VaultEngineConfig)
    requires
        call_ensures(VaultEngineConfig::from_env, (&env,), r),
    ensures
        set_above_zero(env, "UPDOWN15M_MIN_EDGE"@, r.updown_min_edge),
        set_from_zero(env, "UPDOWN15M_KELLY_FRACTION"@, r.updown_kelly_fraction),
        set_above_zero(env, "UPDOWN15M_MAX_POSITION_PCT"@, r.updown_max_position_pct),
        set_from_zero(env, "UPDOWN15M_SHRINK"@, r.updown_shrink_to_half),
        set_up_to(env, "VAULT_MAX_DRAWDOWN_PCT"@, Scalar::Rank(ONE_RANK), r.max_drawdown_pct),
        set_above_zero(env, "INITIAL_BANKROLL"@, r.initial_bankroll),
        set_above_zero(env, "VAULT_LLM_MIN_EDGE"@, r.long_min_edge),
        set_from_zero(env, "VAULT_LLM_KELLY_FRACTION"@, r.long_kelly_fraction),
        set_above_zero(env, "VAULT_LLM_MAX_POSITION_PCT"@, r.long_max_position_pct),
        set_above_zero(env, "VAULT_LLM_MIN_TRADE_USD"@, r.long_min_trade_usd),
        set_above_zero(env, "VAULT_LLM_MAX_TRADE_USD"@, r.long_max_trade_usd),
        set_from_zero(env, "VAULT_LLM_TEMPERATURE"@, r.long_llm_temperature),
        set_above_zero(env, "VAULT_LLM_MAX_TTE_DAYS"@, r.long_max_tte_days),
        set_above_zero(env, "VAULT_LLM_MAX_SPREAD_BPS"@, r.long_max_spread_bps),
        set_from_zero(env, "VAULT_LLM_MIN_TOP_OF_BOOK_USD"@, r.long_min_top_of_book_usd),
        set_from_zero(env, "VAULT_LLM_FEE_BUFFER"@, r.long_fee_buffer),
        set_from_zero(env, "VAULT_LLM_SLIPPAGE_BUFFER_MIN"@, r.long_slippage_buffer_min),
        set_above_zero(env, "VAULT_LLM_DISPERSION_MAX"@, r.long_dispersion_max),
        set_below(env, "VAULT_LLM_EXIT_PRICE_90"@, Scalar::Rank(ONE_RANK), r.long_exit_price_90),
        set_below(env, "VAULT_LLM_EXIT_PRICE_95"@, Scalar::Rank(ONE_RANK), r.long_exit_price_95),
        set_in_unit(env, "VAULT_LLM_EXIT_FRAC_90"@, r.long_exit_frac_90),
        set_in_unit(env, "VAULT_LLM_EXIT_FRAC_95"@, r.long_exit_frac_95),
        set_from_zero(env, "VAULT_LLM_WALLET_MIN_NOTIONAL_USD"@, r.long_wallet_min_notional_usd),
        set_whole(env, "UPDOWN15M_POLL_MS"@, false, 250, u64::MAX as int, r.updown_poll_ms as int),
        set_whole(env, "UPDOWN15M_COOLDOWN_SEC"@, true, 0, i64::MAX as int, r.updown_cooldown_sec as int),
        set_whole(env, "VAULT_LLM_POLL_MS"@, false, 500, u64::MAX as int, r.long_poll_ms as int),
        set_whole(env, "VAULT_LLM_MIN_INFER_INTERVAL_SEC"@, true, 0, i64::MAX as int, r.long_min_infer_interval_sec as int),
        set_whole(env, "VAULT_LLM_COOLDOWN_SEC"@, true, 0, i64::MAX as int, r.long_cooldown_sec as int),
        set_whole(env, "VAULT_LLM_MAX_CALLS_PER_DAY"@, false, 1, u32::MAX as int, r.long_max_calls_per_day as int),
        set_whole(env, "VAULT_LLM_MAX_CALLS_PER_MARKET_PER_DAY"@, false, 1, u32::MAX as int, r.long_max_calls_per_market_per_day as int),
        set_whole(env, "VAULT_LLM_MAX_TOKENS_PER_DAY"@, false, 1, u64::MAX as int, r.long_max_tokens_per_day as int),
        set_whole(env, "VAULT_LLM_TIMEOUT_SEC"@, false, 1, u64::MAX as int, r.long_llm_timeout_sec as int),
        set_whole(env, "VAULT_LLM_MAX_TOKENS"@, false, 16, u32::MAX as int, r.long_llm_max_tokens as int),
        set_whole(env, "VAULT_LLM_WALLET_WINDOW_SEC"@, true, 1, i64::MAX as int, r.long_wallet_window_sec as int),
        set_whole(env, "VAULT_LLM_WALLET_MAX_TRADES_PER_WINDOW"@, false, 1, usize::MAX as int, r.long_wallet_max_trades_per_window as int),
        set_flag(env, "VAULT_ENGINE_ENABLED"@, false, r.enabled),
        set_flag(env, "VAULT_ENGINE_PAPER"@, true, r.paper),
        set_flag(env, "VAULT_LLM_ENABLED"@, false, r.long_enabled),
{
}

/// The figures that hold where no variable is set.
pub proof fn law_unset_engine_is_the_default(env: Environment, r: VaultEngineConfig, d: VaultEngineConfig)
    requires
        is_unset(env),
        call_ensures(VaultEngineConfig::from_env, (&env,), r),
        call_ensures(VaultEngineConfig::default, (), d),
    ensures
        r.enabled == d.enabled,
        r.paper == d.paper,
        r.updown_poll_ms == d.updown_poll_ms,
        r.updown_min_edge == d.updown_min_edge,
        r.updown_kelly_fraction == d.updown_kelly_fraction,
        r.updown_max_position_pct == d.updown_max_position_pct,
        r.updown_shrink_to_half == d.updown_shrink_to_half,
        r.updown_cooldown_sec == d.updown_cooldown_sec,
        r.max_drawdown_pct == d.max_drawdown_pct,
        r.initial_bankroll == d.initial_bankroll,
        r.long_enabled == d.long_enabled,
        r.long_poll_ms == d.long_poll_ms,
        r.long_min_edge == d.long_min_edge,
        r.long_kelly_fraction == d.long_kelly_fraction,
        r.long_max_position_pct == d.long_max_position_pct,
        r.long_min_trade_usd == d.long_min_trade_usd,
        r.long_max_trade_usd == d.long_max_trade_usd,
        r.long_min_infer_interval_sec == d.long_min_infer_interval_sec,
        r.long_cooldown_sec == d.long_cooldown_sec,
        r.long_max_calls_per_day == d.long_max_calls_per_day,
        r.long_max_calls_per_market_per_day == d.long_max_calls_per_market_per_day,
        r.long_max_tokens_per_day == d.long_max_tokens_per_day,
        r.long_llm_timeout_sec == d.long_llm_timeout_sec,
        r.long_llm_max_tokens == d.long_llm_max_tokens,
        r.long_llm_temperature == d.long_llm_temperature,
        r.long_max_tte_days == d.long_max_tte_days,
        r.long_max_spread_bps == d.long_max_spread_bps,
        r.long_min_top_of_book_usd == d.long_min_top_of_book_usd,
        r.long_fee_buffer == d.long_fee_buffer,
        r.long_slippage_buffer_min == d.long_slippage_buffer_min,
        r.long_dispersion_max == d.long_dispersion_max,
        r.long_exit_price_90 == d.long_exit_price_90,
        r.long_exit_price_95 == d.long_exit_price_95,
        r.long_exit_frac_90 == d.long_exit_frac_90,
        r.long_exit_frac_95 == d.long_exit_frac_95,
        r.long_wallet_window_sec == d.long_wallet_window_sec,
        r.long_wallet_max_trades_per_window == d.long_wallet_max_trades_per_window,
        r.long_wallet_min_notional_usd == d.long_wallet_min_notional_usd,
        views(r.long_models@) == views(d.long_models@),
        !d.enabled,
        d.paper,
        d.updown_poll_ms == 2000,
        d.updown_min_edge == Scalar::Rank(R_0_01),
        d.updown_kelly_fraction == Scalar::Rank(R_0_05),
        d.updown_max_position_pct == Scalar::Rank(R_0_01),
        d.updown_shrink_to_half == Scalar::Rank(R_0_35),
        d.updown_cooldown_sec == 30,
        d.max_drawdown_pct == Scalar::Rank(R_0_3),
        d.initial_bankroll == Scalar::Rank(R_50),
        !d.long_enabled,
        d.long_poll_ms == 5000,
        d.long_min_edge == Scalar::Rank(R_0_02),
        d.long_kelly_fraction == Scalar::Rank(R_0_02),
        d.long_max_position_pct == Scalar::Rank(R_0_01),
        d.long_min_trade_usd == Scalar::Rank(R_5),
        d.long_max_trade_usd == Scalar::Rank(R_250),
        d.long_min_infer_interval_sec == 60,
        d.long_cooldown_sec == 300,
        d.long_max_calls_per_day == 200,
        d.long_max_calls_per_market_per_day == 30,
        d.long_max_tokens_per_day == 300000,
        d.long_llm_timeout_sec == 20,
        d.long_llm_max_tokens == 220,
        d.long_llm_temperature == Scalar::Rank(R_0_15),
        d.long_max_tte_days == Scalar::Rank(R_240),
        d.long_max_spread_bps == Scalar::Rank(R_500),
        d.long_min_top_of_book_usd == Scalar::Rank(R_250),
        d.long_fee_buffer == Scalar::Rank(R_0_01),
        d.long_slippage_buffer_min == Scalar::Rank(R_0_01),
        d.long_dispersion_max == Scalar::Rank(R_0_12),
        d.long_exit_price_90 == Scalar::Rank(R_0_9),
        d.long_exit_price_95 == Scalar::Rank(R_0_95),
        d.long_exit_frac_90 == Scalar::Rank(HALF_RANK),
        d.long_exit_frac_95 == Scalar::Rank(R_0_9),
        d.long_wallet_window_sec == 60,
        d.long_wallet_max_trades_per_window == 6,
        d.long_wallet_min_notional_usd == Scalar::Rank(R_50),
{
}

/// The engine is set in motion where it is enabled, live only where that was asked for and
/// orders can be signed; models are asked where that was asked for, four of them are named
/// and there is a key.
pub proof fn law_engine_is_spawned_as_set(
    cfg: VaultEngineConfig,
    can_sign: bool,
    has_key: bool,
    r: Option<(VaultEngine, SpawnPlan)>,
)
    requires
        call_ensures(VaultEngine::spawn, (cfg, can_sign, has_key), r),
    ensures
        r is Some <==> cfg.enabled,
        r is Some ==> {
            let e = (r->0).0;
            let plan = (r->0).1;
            &&& plan.executor is Live <==> !cfg.paper && can_sign
            &&& plan.fell_back <==> !cfg.paper && !can_sign
            &&& plan.long_off is None <==> cfg.long_enabled && cfg.long_models.len() >= 4 && has_key
            &&& !cfg.long_enabled ==> plan.long_off == Some(LongOff::NotEnabled)
            &&& cfg.long_enabled && cfg.long_models.len() < 4 ==> plan.long_off == Some(LongOff::TooFewModels)
            &&& cfg.long_enabled && cfg.long_models.len() >= 4 && !has_key ==> plan.long_off == Some(LongOff::NoKey)
            &&& e.cfg.long_enabled == (plan.long_off is None)
            &&& e.cfg.paper == cfg.paper && e.cfg.enabled == cfg.enabled && e.cfg.long_models == cfg.long_models
            &&& !e.updown.halted && e.long_state.calls_today == 0
        },
{
}

/// The best bid is a level that no other bid lies above, the best ask one that no other ask
/// lies below; a spread is told where both are above zero.
pub proof fn law_best_levels_are_best(book: OrderBook, r: BookTops, i: int)
    requires
        forall|k: int| #![trigger book.bids[k]] 0 <= k < book.bids.len() ==> book.bids[k].price is Rank,
        forall|k: int| #![trigger book.asks[k]] 0 <= k < book.asks.len() ==> book.asks[k].price is Rank,
        call_ensures(best_bid_ask_spread_top_usd, (&book,), r),
    ensures
        r.bid is Some <==> book.bids.len() > 0,
        r.ask is Some <==> book.asks.len() > 0,
        0 <= i < book.bids.len() ==> book.bids[i].price.spec_le(r.bid->0.price) && book.bids@.contains(r.bid->0),
        0 <= i < book.asks.len() ==> r.ask->0.price.spec_le(book.asks[i].price) && book.asks@.contains(r.ask->0),
        r.spread_of is Some <==> r.bid is Some && r.ask is Some && Scalar::Rank(0).spec_lt(r.bid->0.price) && Scalar::Rank(
            0,
        ).spec_lt(r.ask->0.price),
        r.spread_of is Some ==> r.spread_of->0 == (r.bid->0.price, r.ask->0.price),
{
    if 0 <= i < book.bids.len() {
        let k = choose|k: int| is_best_at(book.bids@, true, r.bid->0, k);
        assert(book.bids@[k] == r.bid->0);
        assert(book.bids[k].price is Rank);
        assert(book.bids@[i] == book.bids[i]);
    }
    if 0 <= i < book.asks.len() {
        let k = choose|k: int| is_best_at(book.asks@, false, r.ask->0, k);
        assert(book.asks@[k] == r.ask->0);
        assert(book.asks[k].price is Rank);
        assert(book.asks@[i] == book.asks[i]);
    }
}

/// The best prices of a token that is not too old are the first of its levels, asks for the
/// ask and bids for the bid; of an old one there are none.
pub proof fn law_cached_prices_are_first_levels(
    c: PolymarketMarketWsCache,
    token: &str,
    stale: i64,
    ask: Option<Scalar>,
    bid: Option<Scalar>,
)
    requires
        call_ensures(best_ask_cached_hft, (&c, token, stale), ask),
        call_ensures(best_bid_cached_hft, (&c, token, stale), bid),
    ensures
        c.book_within(token@, stale) is None ==> ask is None && bid is None,
        c.book_within(token@, stale) is Some ==> {
            let b = c.book_within(token@, stale)->0;
            &&& ask is Some <==> b.asks.len() > 0
            &&& ask is Some ==> ask->0 == b.asks[0].price
            &&& bid is Some <==> b.bids.len() > 0
            &&& bid is Some ==> bid->0 == b.bids[0].price
        },
{
}

/// A spread stands for a price that is not below zero, and for nothing where it or its price
/// is not finite.
pub proof fn law_spread_stands_for_a_price(bps: Scalar, price: Scalar, product: Scalar, r: Scalar)
    requires
        call_ensures(spread_bps_to_price, (bps, price, product), r),
        product is Rank,
    ensures
        Scalar::Rank(0).spec_le(r),
        bps.spec_is_finite() && price.spec_is_finite() && Scalar::Rank(0).spec_le(product) ==> r == product,
        !bps.spec_is_finite() || !price.spec_is_finite() ==> r == Scalar::Rank(0),
{
}

/// The worth is recorded every ten seconds to every hour, as the variable says within that;
/// a period starts at a multiple of its length and holds its instants.
pub proof fn law_worth_is_recorded_in_periods(
    env: Environment,
    secs: u64,
    now: i64,
    bucket: i64,
    text: String,
    id: String,
    figures: NavFigures,
    rec: VaultNavSnapshotRecord,
)
    requires
        call_ensures(nav_snapshot_secs, (&env,), secs),
        call_ensures(snapshot_bucket, (now, secs), bucket),
        call_ensures(snapshot_text, (bucket, secs), text),
        call_ensures(periodic_snapshot_under, (id, bucket, figures), rec),
        now >= 0,
    ensures
        10 <= secs <= 3600,
        ({
            let x = integer_value(env.text_of("VAULT_NAV_SNAPSHOT_SECS"@)->0, false);
            env.text_of("VAULT_NAV_SNAPSHOT_SECS"@) is Some && x is Some && 10 <= x->0 <= 3600 ==> secs == x->0
        }),
        env.text_of("VAULT_NAV_SNAPSHOT_SECS"@) is None ==> secs == 60,
        bucket <= now < bucket + secs,
        bucket as int % secs as int == 0,
        text@ == "betterbot:navsnap:"@ + decimal(bucket as int) + ":"@ + decimal(secs as int),
        rec.id == id && rec.ts == bucket && rec.figures == figures && rec.source@ == "periodic"@,
{
    let n = now as int;
    let d = secs as int;
    assert(bucket == (n / d) * d);
    vstd::arithmetic::div_mod::lemma_fundamental_div_mod(n, d);
    vstd::arithmetic::mul::lemma_mul_is_commutative(n / d, d);
    vstd::arithmetic::div_mod::lemma_mod_multiples_basic(n / d, d);
    vstd::arithmetic::div_mod::lemma_mod_bound(n, d);
}

/// A share is worth the middle of its best prices, the one that there is, or what was paid;
/// it counts where there are shares and its worth is finite.
pub proof fn law_share_is_marked_by_its_prices(
    bid: Option<Scalar>,
    ask: Option<Scalar>,
    paid: Scalar,
    r: Mark,
    unread: Mark,
    shares: Scalar,
    mark: Scalar,
    counts: bool,
)
    requires
        call_ensures(mark_of, (Some((bid, ask)), paid), r),
        call_ensures(mark_of, (None, paid), unread),
        call_ensures(counts_for_nav, (shares, mark), counts),
        shares is Rank,
    ensures
        bid is Some && ask is Some ==> r == (Mark::Between { bid: bid->0, ask: ask->0 }),
        bid is Some && ask is None ==> r == Mark::At(bid->0),
        bid is None && ask is Some ==> r == Mark::At(ask->0),
        bid is None && ask is None ==> r == Mark::At(paid),
        unread == Mark::At(paid),
        counts <==> Scalar::Rank(0).spec_lt(shares) && mark.spec_is_finite(),
{
}

/// The worth of the vault is never below nothing, and that of a share is one while there are
/// none.
pub proof fn law_worth_is_told_whole(
    nav: Scalar,
    cash: Scalar,
    positions: Scalar,
    total: Scalar,
    quotient: Scalar,
    r: NavFigures,
)
    requires
        call_ensures(nav_figures, (nav, cash, positions, total, quotient), r),
        nav is Rank,
    ensures
        Scalar::Rank(0).spec_le(r.nav_usdc),
        Scalar::Rank(0).spec_le(nav) ==> r.nav_usdc == nav,
        r.cash_usdc == cash && r.positions_value_usdc == positions && r.total_shares == total,
        Scalar::Rank(0).spec_lt(total) ==> r.nav_per_share == quotient,
        !Scalar::Rank(0).spec_lt(total) ==> r.nav_per_share == Scalar::Rank(ONE_RANK),
{
}

/// A tick takes every asset once, and the market of an asset is that of its window.
pub proof fn law_tick_takes_each_asset(
    v: Vec<UpDownAsset>,
    a: UpDownAsset,
    now: i64,
    m: (UpDown15mMarket, String),
    name: &str,
    slug: String,
)
    requires
        call_ensures(assets_of_tick, (), v),
        0 <= now <= i64::MAX - 900,
        call_ensures(market_at, (a, now), m),
        call_ensures(UpDownAsset::as_str, (a,), name),
        call_ensures(market_slug, (name, m.0.start_ts), slug),
    ensures
        v@.contains(a) && v.len() == 4,
        m.0.asset == a && m.0.start_ts <= now < m.0.end_ts && m.0.end_ts - m.0.start_ts == 15 * 60,
        m.0.start_ts % 900 == 0,
        m.1@ == slug@,
{
    assert(v@[0] == UpDownAsset::Btc);
    assert(v@[1] == UpDownAsset::Eth);
    assert(v@[2] == UpDownAsset::Sol);
    assert(v@[3] == UpDownAsset::Xrp);
}

/// A loss at the limit halts the strategy for good; a smaller one does not.
pub proof fn law_great_loss_halts(l: &mut UpDownLoop, drawdown: Scalar, limit: Scalar, r: bool)
    requires
        call_ensures(UpDownLoop::begin_tick, (l, drawdown, limit), r),
    ensures
        limit.spec_le(drawdown) ==> !r && final(l).halted,
        old(l).halted ==> !r && final(l).halted,
        !old(l).halted && !limit.spec_le(drawdown) ==> r && !final(l).halted,
        final(l).token_cache == old(l).token_cache && final(l).last_trade_ts == old(l).last_trade_ts,
{
}

/// After a trade a market rests for its time, and no other does; tokens that were learned are
/// known, the one for up first.
pub proof fn law_traded_market_rests_and_tokens_stay(
    l: &mut UpDownLoop,
    t: &mut UpDownLoop,
    slug: &str,
    up: &str,
    down: &str,
    learned: bool,
    at: i64,
    now: i64,
    rest: i64,
    after: UpDownLoop,
    r: UpDownTokens,
)
    requires
        call_ensures(UpDownLoop::learn_tokens, (l, slug, up, down), learned),
        *old(t) == *final(l),
        call_ensures(UpDownLoop::on_traded, (t, slug, at), ()),
        after == *final(t),
        call_ensures(UpDownLoop::tokens_of, (&after, slug, now, rest), r),
        up@.len() > 0 && down@.len() > 0,
    ensures
        learned,
        r is Cooling <==> now < at + rest,
        now >= at + rest ==> r is Known && r->Known_0@ == up@ && r->Known_1@ == down@,
        after.halted == old(l).halted,
{
}

/// Tokens are learned where there are both, and asked for where none are known.
pub proof fn law_tokens_are_asked_for(
    l: &mut UpDownLoop,
    slug: &str,
    up: &str,
    down: &str,
    learned: bool,
    b: UpDownLoop,
    now: i64,
    rest: i64,
    r: UpDownTokens,
)
    requires
        call_ensures(UpDownLoop::learn_tokens, (l, slug, up, down), learned),
        call_ensures(UpDownLoop::tokens_of, (&b, slug, now, rest), r),
    ensures
        learned <==> up@.len() > 0 && down@.len() > 0,
        !learned ==> final(l).token_cache == old(l).token_cache,
        final(l).last_trade_ts == old(l).last_trade_ts && final(l).halted == old(l).halted,
        !b.last_trade_ts@.contains_key(slug@) && !b.token_cache@.contains_key(slug@) ==> r is Lookup,
        !b.last_trade_ts@.contains_key(slug@) && b.token_cache@.contains_key(slug@) ==> r is Known,
{
}

/// A market is traded while it has fifteen seconds left or more.
pub proof fn law_market_is_traded_in_time(m: UpDown15mMarket, now: i64, r: Option<i64>)
    requires
        call_ensures(updown_time_left, (&m, now), r),
    ensures
        r is Some <==> m.end_ts >= now + 15,
        r is Some && m.end_ts - now <= i64::MAX ==> now + r->0 == m.end_ts,
{
}

/// A market is priced where all is known of it and the oracle keeps up.
pub proof fn law_market_is_priced_where_all_is_known(x: UpDownReading, r: Option<(Scalar, Scalar, Scalar)>)
    requires
        call_ensures(updown_inputs, (&x,), r),
    ensures
        r is Some <==> x.p_now is Some && x.p_start is Some && x.sigma is Some && !x.oracle_lags,
        r is Some ==> (r->0).0 == x.p_now->0 && (r->0).1 == x.p_start->0 && (r->0).2 == x.sigma->0,
{
}

/// The middle of a market is told by both asks, by the ask for up, or by one less the ask for
/// down; without asks it is one half.
pub proof fn law_middle_goes_by_the_asks(up: Option<Scalar>, down: Option<Scalar>, r: MarketMid)
    requires
        call_ensures(market_mid, (up, down), r),
    ensures
        up is Some && down is Some ==> r == (MarketMid::Between { up: up->0, down: down->0 }),
        up is Some && down is None ==> r == MarketMid::Up(up->0),
        up is None && down is Some ==> r == MarketMid::OneLess(down->0),
        up is None && down is None ==> r == MarketMid::Up(Scalar::Rank(HALF_RANK)),
{
}

/// The model goes before the plain estimate, which is half as sure.
pub proof fn law_model_goes_first(model: Option<RnjdEstimate>, plain: Option<Scalar>, r: Option<RnjdEstimate>)
    requires
        call_ensures(updown_estimate, (model, plain), r),
    ensures
        model is Some ==> r == model,
        model is None && plain is None ==> r is None,
        model is None && plain is Some ==> r is Some && r->0.p_up == plain->0 && r->0.p_up_raw == plain->0
            && r->0.confidence == Scalar::Rank(HALF_RANK) && !r->0.jump_regime && r->0.drift_correction == Scalar::Rank(0),
{
}

/// The outcome with an ask and the greater edge is chosen, up where they are equal, if its
/// edge is wide enough, twice as wide while beliefs jump.
pub proof fn law_wider_outcome_is_chosen(q: Quotes, jumps: bool, least: Scalar, doubled: Scalar, r: Option<Pick>)
    requires
        call_ensures(choose_updown, (&q, jumps, least, doubled), r),
        q.edge_up is Rank && q.edge_down is Rank,
    ensures
        ({
            let bound = if jumps {
                doubled
            } else {
                least
            };
            let up = q.ask_up is Some && (q.ask_down is None || q.edge_down.spec_le(q.edge_up));
            let down = q.ask_down is Some && (q.ask_up is None || q.edge_up.spec_lt(q.edge_down));
            &&& r is Some <==> (up && !q.edge_up.spec_lt(bound)) || (down && !q.edge_down.spec_lt(bound))
            &&& r is Some && up ==> r->0.up && r->0.price == q.ask_up->0 && r->0.confidence == q.p_up && r->0.edge
                == q.edge_up
            &&& r is Some && down ==> !r->0.up && r->0.price == q.ask_down->0 && r->0.confidence == q.p_down && r->0.edge
                == q.edge_down
        }),
{
}

/// A stake has the bounds of this strategy, a dollar at least, where there is money.
pub proof fn law_updown_stake_needs_money(cfg: VaultEngineConfig, bankroll: Scalar, r: Option<KellyParams>)
    requires
        call_ensures(updown_params, (&cfg, bankroll), r),
        bankroll is Rank,
    ensures
        r is Some <==> Scalar::Rank(0).spec_lt(bankroll),
        r is Some ==> r->0.bankroll == bankroll && r->0.kelly_fraction == cfg.updown_kelly_fraction
            && r->0.max_position_pct == cfg.updown_max_position_pct && r->0.min_position_usd == Scalar::Rank(ONE_RANK),
{
}

/// The order buys the token of the chosen outcome at its price for the stake, and names that
/// outcome.
pub proof fn law_updown_order_buys_the_choice(
    pick: Pick,
    kelly: KellyResult,
    slug: &str,
    up: &str,
    down: &str,
    id: String,
    r: Option<OrderRequest>,
)
    requires
        call_ensures(updown_order_with, (&pick, &kelly, slug, up, down, id), r),
    ensures
        r is Some <==> kelly.should_trade,
        r is Some ==> {
            let o = r->0;
            &&& o.client_order_id == id
            &&& pick.up ==> o.token_id@ == up@ && o.outcome is Some && o.outcome->0@ == "Up"@
            &&& !pick.up ==> o.token_id@ == down@ && o.outcome is Some && o.outcome->0@ == "Down"@
            &&& o.side is Buy && o.tif is Ioc && o.price == pick.price && o.notional_usdc == kelly.position_size_usd
            &&& o.market_slug is Some && o.market_slug->0@ == slug@
        },
{
}

/// A best level is one of the levels, and none is better.
pub proof fn law_no_level_is_better(levels: Vec<Order>, highest: bool, r: Option<Order>, i: int)
    requires
        forall|k: int| #![trigger levels[k]] 0 <= k < levels.len() ==> levels[k].price is Rank,
        call_ensures(best_level, (&levels, highest), r),
        0 <= i < levels.len(),
    ensures
        r is Some && levels@.contains(r->0),
        highest ==> levels[i].price.spec_le(r->0.price),
        !highest ==> r->0.price.spec_le(levels[i].price),
{
    let k = choose|k: int| is_best_at(levels@, highest, r->0, k);
    assert(levels@[k] == r->0);
    assert(levels[k].price is Rank);
    assert(levels@[i] == levels[i]);
}

/// The record of a period has the name and the instant of its period; an order has what one
/// under an identifier has.
pub proof fn law_periods_and_orders_have_their_own_names(
    now: i64,
    secs: u64,
    figures: NavFigures,
    r: VaultNavSnapshotRecord,
    bucket: i64,
    text: String,
    pick: Pick,
    kelly: KellyResult,
    slug: &str,
    up: &str,
    down: &str,
    id: String,
    a: Option<OrderRequest>,
    b: Option<OrderRequest>,
    l: UpDownLoop,
)
    requires
        10 <= secs <= 3600,
        call_ensures(periodic_snapshot, (now, secs, figures), r),
        call_ensures(snapshot_bucket, (now, secs), bucket),
        call_ensures(snapshot_text, (bucket, secs), text),
        call_ensures(updown_order, (&pick, &kelly, slug, up, down), a),
        call_ensures(updown_order_with, (&pick, &kelly, slug, up, down, id), b),
        call_ensures(UpDownLoop::new, (), l),
    ensures
        r.id@ == url_id(text@) && r.ts == bucket && r.figures == figures && r.source@ == "periodic"@,
        a is Some <==> b is Some,
        a is Some ==> a->0.token_id@ == b->0.token_id@ && a->0.price == b->0.price && a->0.notional_usdc
            == b->0.notional_usdc && a->0.side == b->0.side && a->0.tif == b->0.tif && a->0.outcome->0@ == b->0.outcome->0@
            && a->0.market_slug->0@ == b->0.market_slug->0@,
        !l.halted,
{
}

} // verus!
