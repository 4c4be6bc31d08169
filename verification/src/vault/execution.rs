//! Orders and the ways in which they are executed.
use crate::base::ranks::{R_0_01, R_0_99};
use crate::base::scalar::{Scalar, ONE_RANK};
use crate::base::settings::{integer_setting, is_unset, set_whole, unsigned_or, Environment};
use crate::base::text::{decimal, decimal_i64, joined, same, trim, trimmed};
use base64::Engine;
use hmac::Mac;
use rand::Rng;
use rand::SeedableRng;
use vstd::prelude::*;
use vstd::utf8::encode_utf8;

verus! {

/// The rank of 15.0.
pub const SLIPPAGE_BPS_PER_1K: i64 = 0x402E_0000_0000_0000;

/// The rank of 10.0.
pub const BASE_SLIPPAGE_BPS: i64 = 0x4024_0000_0000_0000;

/// The rank of 0.005.
pub const FEE_RATE: i64 = 0x3F74_7AE1_47AE_147B;

/// The rank of 0.15.
pub const PARTIAL_FILL_PROB: i64 = 0x3FC3_3333_3333_3333;

/// The rank of 0.4.
pub const MIN_FILL_RATIO: i64 = 0x3FD9_9999_9999_999A;

/// The rank of 0.02.
pub const REJECT_PROB: i64 = 0x3F94_7AE1_47AE_147B;

/// The rank of 0.99.
pub const MAX_FILLED_PRICE: i64 = 0x3FEF_AE14_7AE1_47AE;

/// The rank of 0.01.
pub const MIN_FILLED_PRICE: i64 = 0x3F84_7AE1_47AE_147B;

#[derive(Clone, Copy, Debug, PartialEq, Eq, Structural)]
pub enum OrderSide {
    Buy,
    Sell,
}

#[derive(Clone, Copy, Debug, PartialEq, Eq, Structural)]
pub enum TimeInForce {
    Gtc,
    Ioc,
    Fok,
}

impl OrderSide {
    /// The name of the side on the order book.
    pub open spec fn name(self) -> Seq<char> {
        match self {
            OrderSide::Buy => "BUY"@,
            OrderSide::Sell => "SELL"@,
        }
    }

    pub fn as_str(self) -> (r: &'static str)
        ensures
            r@ == self.name(),
    {
        match self {
            OrderSide::Buy => "BUY",
            OrderSide::Sell => "SELL",
        }
    }
}

impl TimeInForce {
    /// The name of the time in force on the order book.
    pub open spec fn name(self) -> Seq<char> {
        match self {
            TimeInForce::Gtc => "GTC"@,
            TimeInForce::Ioc => "IOC"@,
            TimeInForce::Fok => "FOK"@,
        }
    }

    pub fn as_str(self) -> (r: &'static str)
        ensures
            r@ == self.name(),
    {
        match self {
            TimeInForce::Gtc => "GTC",
            TimeInForce::Ioc => "IOC",
            TimeInForce::Fok => "FOK",
        }
    }
}

/// An order for outcome shares.
#[derive(Debug)]
pub struct OrderRequest {
    pub client_order_id: String,
    pub token_id: String,
    pub side: OrderSide,
    /// The limit price, between zero and one.
    pub price: Scalar,
    /// The amount to spend or to receive.
    pub notional_usdc: Scalar,
    pub tif: TimeInForce,
    pub market_slug: Option<String>,
    pub outcome: Option<String>,
}

/// What became of an order.
#[derive(Debug)]
pub struct OrderAck {
    pub order_id: String,
    pub filled_notional_usdc: Scalar,
    pub filled_price: Scalar,
    pub filled_at: i64,
    pub fees_usdc: Scalar,
    pub slippage_bps: Scalar,
    pub latency_ms: u64,
}

/// Why an order was not executed.
#[derive(Debug)]
pub enum OrderError {
    InvalidPrice,
    InvalidNotional,
    /// The simulation turned the order away.
    Rejected,
    /// A fill-or-kill order would have been filled in part.
    NotFullyFilled,
    NotConfigured,
    /// The secret is not valid base64.
    BadSecret,
    /// The order book answered with an error.
    Venue(String),
}

impl OrderError {
    /// The message of the error.
    pub open spec fn text(self) -> Seq<char> {
        match self {
            OrderError::InvalidPrice => "invalid price"@,
            OrderError::InvalidNotional => "invalid notional"@,
            OrderError::Rejected => "order rejected (simulated)"@,
            OrderError::NotFullyFilled => "FOK order could not be fully filled"@,
            OrderError::NotConfigured =>
                "Dome router execution not configured (endpoint + payload pending)"@,
            OrderError::BadSecret => "failed to decode CLOB secret"@,
            OrderError::Venue(e) => "CLOB error: "@ + e@,
        }
    }

    pub fn message(&self) -> (r: String)
        ensures
            r@ == self.text(),
    {
        match self {
            OrderError::InvalidPrice => "invalid price".to_owned(),
            OrderError::InvalidNotional => "invalid notional".to_owned(),
            OrderError::Rejected => "order rejected (simulated)".to_owned(),
            OrderError::NotFullyFilled => "FOK order could not be fully filled".to_owned(),
            OrderError::NotConfigured =>
                "Dome router execution not configured (endpoint + payload pending)".to_owned(),
            OrderError::BadSecret => "failed to decode CLOB secret".to_owned(),
            OrderError::Venue(e) => joined("CLOB error: ", e.as_str()),
        }
    }
}

/// A price of an outcome share: strictly between zero and one.
pub open spec fn is_share_price(p: Scalar) -> bool {
    p matches Scalar::Rank(a) && 0 < a < ONE_RANK
}

/// A finite amount above zero.
pub open spec fn is_amount(x: Scalar) -> bool {
    x.spec_is_finite() && (x matches Scalar::Rank(a) && a > 0)
}

impl OrderRequest {
    /// The first thing that is wrong with the numbers of the order.
    pub open spec fn fault(self) -> Option<OrderError> {
        if !is_share_price(self.price) {
            Some(OrderError::InvalidPrice)
        } else if !is_amount(self.notional_usdc) {
            Some(OrderError::InvalidNotional)
        } else {
            None
        }
    }

    /// Checks the numbers of the order.
    pub fn validate(&self) -> (r: Result<(), OrderError>)
        ensures
            r == match self.fault() {
                Some(e) => Err::<(), OrderError>(e),
                None => Ok(()),
            },
    {
        let price_ok = match self.price {
            Scalar::Rank(a) => 0 < a && a < ONE_RANK,
            Scalar::Undefined => false,
        };
        if !price_ok {
            return Err(OrderError::InvalidPrice);
        }
        let amount_ok = self.notional_usdc.is_finite() && match self.notional_usdc {
            Scalar::Rank(a) => a > 0,
            Scalar::Undefined => false,
        };
        if !amount_ok {
            return Err(OrderError::InvalidNotional);
        }
        Ok(())
    }
}

/// How paper execution imitates a venue.
#[derive(Clone, Copy, Debug, PartialEq, Eq, Structural)]
pub struct PaperExecutionConfig {
    pub base_latency_ms: u64,
    pub latency_jitter_ms: u64,
    pub slippage_bps_per_1k: Scalar,
    pub base_slippage_bps: Scalar,
    pub fee_rate: Scalar,
    pub partial_fill_prob: Scalar,
    pub min_fill_ratio: Scalar,
    pub reject_prob: Scalar,
}

/// The configuration that holds where nothing is set.
pub open spec fn default_paper_execution() -> PaperExecutionConfig {
    PaperExecutionConfig {
        base_latency_ms: 150,
        latency_jitter_ms: 200,
        slippage_bps_per_1k: Scalar::Rank(SLIPPAGE_BPS_PER_1K),
        base_slippage_bps: Scalar::Rank(BASE_SLIPPAGE_BPS),
        fee_rate: Scalar::Rank(FEE_RATE),
        partial_fill_prob: Scalar::Rank(PARTIAL_FILL_PROB),
        min_fill_ratio: Scalar::Rank(MIN_FILL_RATIO),
        reject_prob: Scalar::Rank(REJECT_PROB),
    }
}

impl Default for PaperExecutionConfig {
    fn default() -> (r: PaperExecutionConfig)
        ensures
            r == default_paper_execution(),
    {
        PaperExecutionConfig {
            base_latency_ms: 150,
            latency_jitter_ms: 200,
            slippage_bps_per_1k: Scalar::Rank(SLIPPAGE_BPS_PER_1K),
            base_slippage_bps: Scalar::Rank(BASE_SLIPPAGE_BPS),
            fee_rate: Scalar::Rank(FEE_RATE),
            partial_fill_prob: Scalar::Rank(PARTIAL_FILL_PROB),
            min_fill_ratio: Scalar::Rank(MIN_FILL_RATIO),
            reject_prob: Scalar::Rank(REJECT_PROB),
        }
    }
}

/// The number that a variable stands for, whatever it is; else the default.
pub open spec fn any_number(env: Environment, name: Seq<char>, default: Scalar) -> Scalar {
    match env.number_of(name) {
        Some(x) => x,
        None => default,
    }
}

fn any_number_or(env: &Environment, name: &str, default: Scalar) -> (r: Scalar)
    ensures
        r == any_number(*env, name@, default),
{
    match env.number(name) {
        Some(x) => x,
        None => default,
    }
}

impl PaperExecutionConfig {
    /// The default with what the variables set.
    pub fn from_env(env: &Environment) -> (r: PaperExecutionConfig)
        ensures
            r == (PaperExecutionConfig {
                base_latency_ms: integer_setting(
                    *env,
                    "PAPER_BASE_LATENCY_MS"@,
                    false,
                    0,
                    u64::MAX as int,
                    150,
                ) as u64,
                latency_jitter_ms: integer_setting(
                    *env,
                    "PAPER_LATENCY_JITTER_MS"@,
                    false,
                    0,
                    u64::MAX as int,
                    200,
                ) as u64,
                slippage_bps_per_1k: any_number(
                    *env,
                    "PAPER_SLIPPAGE_BPS_PER_1K"@,
                    Scalar::Rank(SLIPPAGE_BPS_PER_1K),
                ),
                base_slippage_bps: any_number(
                    *env,
                    "PAPER_BASE_SLIPPAGE_BPS"@,
                    Scalar::Rank(BASE_SLIPPAGE_BPS),
                ),
                fee_rate: any_number(*env, "PAPER_FEE_RATE"@, Scalar::Rank(FEE_RATE)),
                partial_fill_prob: any_number(
                    *env,
                    "PAPER_PARTIAL_FILL_PROB"@,
                    Scalar::Rank(PARTIAL_FILL_PROB),
                ),
                min_fill_ratio: Scalar::Rank(MIN_FILL_RATIO),
                reject_prob: any_number(*env, "PAPER_REJECT_PROB"@, Scalar::Rank(REJECT_PROB)),
            }),
    {
        let mut config = PaperExecutionConfig::default();
        config.base_latency_ms = unsigned_or(env, "PAPER_BASE_LATENCY_MS", 0, u64::MAX, 150);
        config.latency_jitter_ms = unsigned_or(env, "PAPER_LATENCY_JITTER_MS", 0, u64::MAX, 200);
        config.slippage_bps_per_1k = any_number_or(
            env,
            "PAPER_SLIPPAGE_BPS_PER_1K",
            config.slippage_bps_per_1k,
        );
        config.base_slippage_bps = any_number_or(
            env,
            "PAPER_BASE_SLIPPAGE_BPS",
            config.base_slippage_bps,
        );
        config.fee_rate = any_number_or(env, "PAPER_FEE_RATE", config.fee_rate);
        config.partial_fill_prob = any_number_or(
            env,
            "PAPER_PARTIAL_FILL_PROB",
            config.partial_fill_prob,
        );
        config.reject_prob = any_number_or(env, "PAPER_REJECT_PROB", config.reject_prob);
        config
    }
}

/// `rand::Rng::gen_range` on a generator seeded by the system draws an integer
/// from `0..=max`.
#[verifier::external_body]
fn draw_up_to(max: u64) -> (r: u64)
    ensures
        r <= max,
{
    rand::rngs::StdRng::from_entropy().gen_range(0..=max)
}

/// What a simulated execution draws and computes before the order is settled.
#[derive(Clone, Copy, Debug, PartialEq, Eq, Structural)]
pub struct Simulation {
    /// Draws from the unit interval that decide on rejection and partial fill.
    pub reject_draw: Scalar,
    pub partial_draw: Scalar,
    /// The share that a partial fill reaches.
    pub partial_ratio: Scalar,
    /// The limit price moved by the slippage against the trader.
    pub slipped_price: Scalar,
    pub slippage_bps: Scalar,
    /// The filled amount and its fees for a full and for a partial fill.
    pub full_notional: Scalar,
    pub full_fees: Scalar,
    pub partial_notional: Scalar,
    pub partial_fees: Scalar,
}

/// Executes orders on paper.
#[derive(Clone, Copy, Debug, PartialEq, Eq, Structural)]
pub struct PaperExecutionAdapter {
    pub config: PaperExecutionConfig,
}

impl PaperExecutionAdapter {
    pub fn new(config: PaperExecutionConfig) -> (r: PaperExecutionAdapter)
        ensures
            r.config == config,
    {
        PaperExecutionAdapter { config }
    }

    /// The latency that an order meets: the base and a random part.
    pub fn latency_ms(&self) -> (r: u64)
        requires
            self.config.base_latency_ms + self.config.latency_jitter_ms <= u64::MAX,
        ensures
            self.config.base_latency_ms <= r <= self.config.base_latency_ms
                + self.config.latency_jitter_ms,
    {
        self.latency_with(draw_up_to(self.config.latency_jitter_ms))
    }

    /// The latency that an order meets, for a random part.
    pub fn latency_with(&self, jitter: u64) -> (r: u64)
        requires
            self.config.base_latency_ms + jitter <= u64::MAX,
        ensures
            r == self.config.base_latency_ms + jitter,
    {
        self.config.base_latency_ms + jitter
    }

    /// Whether the order is filled in part.
    pub open spec fn fills_in_part(self, sim: Simulation) -> bool {
        sim.partial_draw.spec_lt(self.config.partial_fill_prob)
    }

    /// The share of the order that is filled.
    pub open spec fn fill_ratio(self, sim: Simulation) -> Scalar {
        if self.fills_in_part(sim) {
            sim.partial_ratio
        } else {
            Scalar::Rank(ONE_RANK)
        }
    }

    /// The first reason not to execute the order.
    pub open spec fn refusal(self, req: OrderRequest, sim: Simulation) -> Option<OrderError> {
        if req.fault() is Some {
            req.fault()
        } else if sim.reject_draw.spec_lt(self.config.reject_prob) {
            Some(OrderError::Rejected)
        } else if req.tif == TimeInForce::Fok && self.fill_ratio(sim).spec_lt(
            Scalar::Rank(ONE_RANK),
        ) {
            Some(OrderError::NotFullyFilled)
        } else {
            None
        }
    }

    /// Settles an order at a simulated venue.
    pub fn place_order(&self, req: &OrderRequest, sim: &Simulation, latency_ms: u64, now: i64) -> (r:
        Result<OrderAck, OrderError>)
        ensures
            match self.refusal(*req, *sim) {
                Some(e) => r == Err::<OrderAck, OrderError>(e),
                None => r matches Ok(ack) && {
                    &&& ack.order_id@ == "paper:"@ + req.client_order_id@
                    &&& ack.filled_price == match req.side {
                        OrderSide::Buy => sim.slipped_price.spec_min(Scalar::Rank(MAX_FILLED_PRICE)),
                        OrderSide::Sell => sim.slipped_price.spec_max(Scalar::Rank(MIN_FILLED_PRICE)),
                    }
                    &&& ack.filled_notional_usdc == if self.fills_in_part(*sim) {
                        sim.partial_notional
                    } else {
                        sim.full_notional
                    }
                    &&& ack.fees_usdc == if self.fills_in_part(*sim) {
                        sim.partial_fees
                    } else {
                        sim.full_fees
                    }
                    &&& ack.slippage_bps == sim.slippage_bps
                    &&& ack.filled_at == now
                    &&& ack.latency_ms == latency_ms
                },
            },
    {
        match req.validate() {
            Err(e) => {
                return Err(e);
            },
            Ok(_) => {},
        }
        if sim.reject_draw.lt(self.config.reject_prob) {
            return Err(OrderError::Rejected);
        }
        let filled_price = match req.side {
            OrderSide::Buy => sim.slipped_price.min(Scalar::Rank(MAX_FILLED_PRICE)),
            OrderSide::Sell => sim.slipped_price.max(Scalar::Rank(MIN_FILLED_PRICE)),
        };
        let partial = sim.partial_draw.lt(self.config.partial_fill_prob);
        let ratio = if partial {
            sim.partial_ratio
        } else {
            Scalar::Rank(ONE_RANK)
        };
        if req.tif == TimeInForce::Fok && ratio.lt(Scalar::Rank(ONE_RANK)) {
            return Err(OrderError::NotFullyFilled);
        }
        Ok(
            OrderAck {
                order_id: joined("paper:", req.client_order_id.as_str()),
                filled_notional_usdc: if partial {
                    sim.partial_notional
                } else {
                    sim.full_notional
                },
                filled_price,
                filled_at: now,
                fees_usdc: if partial {
                    sim.partial_fees
                } else {
                    sim.full_fees
                },
                slippage_bps: sim.slippage_bps,
                latency_ms,
            },
        )
    }
}

/// Where the router stands and the key to it.
#[derive(Debug)]
pub struct DomeExecutionAdapter {
    pub router_url: String,
    pub api_key: String,
}

/// The first of two variables that is set.
pub open spec fn first_set(env: Environment, a: Seq<char>, b: Seq<char>) -> Option<Seq<char>> {
    match env.text_of(a) {
        Some(t) => Some(t),
        None => env.text_of(b),
    }
}

impl DomeExecutionAdapter {
    /// The router that the variables name, if they name one.
    pub fn from_env(env: &Environment) -> (r: Option<DomeExecutionAdapter>)
        ensures
            match (
                env.text_of("DOME_ROUTER_URL"@),
                first_set(*env, "DOME_ROUTER_API_KEY"@, "DOME_API_KEY"@),
            ) {
                (Some(url), Some(key)) => if trimmed(url).len() > 0 && trimmed(key).len() > 0 {
                    r matches Some(a) && a.router_url@ == url && a.api_key@ == key
                } else {
                    r is None
                },
                _ => r is None,
            },
    {
        let url = match env.text("DOME_ROUTER_URL") {
            Some(t) => t,
            None => {
                return None;
            },
        };
        let key = match env.text("DOME_ROUTER_API_KEY") {
            Some(t) => t,
            None => match env.text("DOME_API_KEY") {
                Some(t) => t,
                None => {
                    return None;
                },
            },
        };
        let bare_url = trim(url.as_str());
        let bare_key = trim(key.as_str());
        if bare_url.as_str().is_empty() || bare_key.as_str().is_empty() {
            return None;
        }
        Some(DomeExecutionAdapter { router_url: url.clone(), api_key: key.clone() })
    }

    /// The router takes no orders.
    pub fn place_order(&self, _req: &OrderRequest) -> (r: Result<OrderAck, OrderError>)
        ensures
            r == Err::<OrderAck, OrderError>(OrderError::NotConfigured),
    {
        Err(OrderError::NotConfigured)
    }
}

/// The credentials for the order book.
#[derive(Debug)]
pub struct PolymarketClobCredentials {
    pub api_key: String,
    pub secret: String,
    pub passphrase: String,
}

/// A variable that is set to something.
pub open spec fn filled_text(env: Environment, name: Seq<char>) -> Option<Seq<char>> {
    match env.text_of(name) {
        Some(t) => if t.len() > 0 {
            Some(t)
        } else {
            None
        },
        None => None,
    }
}

fn filled(env: &Environment, name: &str) -> (r: Option<String>)
    ensures
        match r {
            Some(t) => filled_text(*env, name@) == Some(t@),
            None => filled_text(*env, name@) is None,
        },
{
    match env.text(name) {
        Some(t) => if t.as_str().is_empty() {
            None
        } else {
            Some(t.clone())
        },
        None => None,
    }
}

impl PolymarketClobCredentials {
    /// The credentials, if all three variables are set to something.
    pub fn from_env(env: &Environment) -> (r: Option<PolymarketClobCredentials>)
        ensures
            match (
                filled_text(*env, "POLYMARKET_CLOB_API_KEY"@),
                filled_text(*env, "POLYMARKET_CLOB_SECRET"@),
                filled_text(*env, "POLYMARKET_CLOB_PASSPHRASE"@),
            ) {
                (Some(k), Some(s), Some(p)) => r matches Some(c) && c.api_key@ == k && c.secret@ == s
                    && c.passphrase@ == p,
                _ => r is None,
            },
    {
        match (
            filled(env, "POLYMARKET_CLOB_API_KEY"),
            filled(env, "POLYMARKET_CLOB_SECRET"),
            filled(env, "POLYMARKET_CLOB_PASSPHRASE"),
        ) {
            (Some(api_key), Some(secret), Some(passphrase)) => Some(
                PolymarketClobCredentials { api_key, secret, passphrase },
            ),
            _ => None,
        }
    }
}

/// The bytes that the URL-safe alphabet with padding reads from a text.
pub uninterp spec fn url_safe_bytes(s: Seq<char>) -> Option<Seq<u8>>;

/// The bytes that the URL-safe alphabet without padding reads from a text.
pub uninterp spec fn url_safe_no_pad_bytes(s: Seq<char>) -> Option<Seq<u8>>;

/// The bytes that the standard alphabet with padding reads from a text.
pub uninterp spec fn standard_bytes(s: Seq<char>) -> Option<Seq<u8>>;

/// The text that the URL-safe alphabet with padding writes for bytes.
pub uninterp spec fn url_safe_text(b: Seq<u8>) -> Seq<char>;

/// The authentication code of a message under a key.
pub uninterp spec fn hmac_sha256_of(key: Seq<u8>, message: Seq<u8>) -> Seq<u8>;

/// What an optional list of bytes holds.
pub open spec fn bytes_view(r: Option<Vec<u8>>) -> Option<Seq<u8>> {
    match r {
        Some(b) => Some(b@),
        None => None,
    }
}

/// `base64::Engine::decode` of the engine `URL_SAFE`, whose result is a function
/// of the text.
#[verifier::external_body]
fn decode_url_safe(s: &str) -> (r: Option<Vec<u8>>)
    ensures
        bytes_view(r) == url_safe_bytes(s@),
{
    base64::engine::general_purpose::URL_SAFE.decode(s).ok()
}

/// `base64::Engine::decode` of the engine `URL_SAFE_NO_PAD`, whose result is a
/// function of the text.
#[verifier::external_body]
fn decode_url_safe_no_pad(s: &str) -> (r: Option<Vec<u8>>)
    ensures
        bytes_view(r) == url_safe_no_pad_bytes(s@),
{
    base64::engine::general_purpose::URL_SAFE_NO_PAD.decode(s).ok()
}

/// `base64::Engine::decode` of the engine `STANDARD`, whose result is a function
/// of the text.
#[verifier::external_body]
fn decode_standard(s: &str) -> (r: Option<Vec<u8>>)
    ensures
        bytes_view(r) == standard_bytes(s@),
{
    base64::engine::general_purpose::STANDARD.decode(s).ok()
}

/// `base64::Engine::encode` of the engine `URL_SAFE`, whose result is a function
/// of the bytes.
#[verifier::external_body]
fn encode_url_safe(b: &Vec<u8>) -> (r: String)
    requires
        b.len() <= 0xFFFF,
    ensures
        r@ == url_safe_text(b@),
{
    base64::engine::general_purpose::URL_SAFE.encode(b)
}

/// `hmac::Hmac` over `sha2::Sha256`: a key of any length is taken, and the code of
/// 32 bytes is a function of the key and the message.
#[verifier::external_body]
fn hmac_sha256(key: &Vec<u8>, message: &[u8]) -> (r: Vec<u8>)
    ensures
        r@ == hmac_sha256_of(key@, message@),
        r@.len() == 32,
{
    let mut mac = hmac::Hmac::<sha2::Sha256>::new_from_slice(key).expect("keys of any length are taken");
    mac.update(message);
    mac.finalize().into_bytes().to_vec()
}

/// The bytes of a secret: the first of the three alphabets that reads it counts.
pub open spec fn secret_bytes(secret: Seq<char>) -> Option<Seq<u8>> {
    if url_safe_bytes(secret) is Some {
        url_safe_bytes(secret)
    } else if url_safe_no_pad_bytes(secret) is Some {
        url_safe_no_pad_bytes(secret)
    } else {
        standard_bytes(secret)
    }
}

/// What is signed: the timestamp, the method, the path and the body.
pub open spec fn message_of(method: Seq<char>, path: Seq<char>, body: Seq<char>, timestamp: int) -> Seq<
    char,
> {
    decimal(timestamp) + method + path + body
}

/// The message that is signed for a request.
pub fn signing_message(method: &str, path: &str, body: &str, timestamp: i64) -> (r: String)
    ensures
        r@ == message_of(method@, path@, body@, timestamp as int),
{
    let mut m = decimal_i64(timestamp);
    m.append(method);
    m.append(path);
    m.append(body);
    m
}

/// The order that is sent to the order book; the numbers are written by the caller.
#[derive(Debug)]
pub struct ClobOrderPayload {
    pub token_id: String,
    pub price: String,
    pub size: String,
    pub side: String,
    pub order_type: Option<String>,
    pub time_in_force: Option<String>,
}

/// What the order book answers; numbers that it reports are read by the caller.
#[derive(Debug)]
pub struct ClobOrderResponse {
    pub order_id: Option<String>,
    pub error_msg: Option<String>,
    pub filled_size: Option<Scalar>,
    pub avg_price: Option<Scalar>,
}

/// What the order book answers to a question for the balance.
#[derive(Clone, Copy, Debug, PartialEq, Eq, Structural)]
pub struct BalanceReply {
    /// The field `balance`, where it is a number.
    pub number: Option<Scalar>,
    /// The field `balance`, where it is the text of a number of millionths.
    pub millionths: Option<Scalar>,
    /// The balance of the answer read as a whole, where it can be read so.
    pub whole: Option<Scalar>,
}

/// A position at the venue.
#[derive(Debug)]
pub struct PolymarketPosition {
    pub token_id: String,
    pub size: Scalar,
    pub avg_price: Scalar,
    pub market_slug: Option<String>,
    pub outcome: Option<String>,
    pub current_price: Option<Scalar>,
}

impl PolymarketPosition {
    /// The price at which the position counts.
    pub fn mark(&self) -> (r: Scalar)
        ensures
            r == match self.current_price {
                Some(p) => p,
                None => self.avg_price,
            },
    {
        match self.current_price {
            Some(p) => p,
            None => self.avg_price,
        }
    }
}

/// An account at the venue.
#[derive(Debug)]
pub struct PolymarketAccountInfo {
    pub balance_usdc: Scalar,
    pub positions: Vec<PolymarketPosition>,
    pub positions_value_usdc: Scalar,
    pub total_value_usdc: Scalar,
    pub fetched_at: i64,
}

/// Sends signed requests to the order book.
#[derive(Debug)]
pub struct PolymarketClobAdapter {
    pub creds: PolymarketClobCredentials,
    pub host: String,
}

/// The headers of a signed request.
pub open spec fn header_views(h: Seq<(String, String)>) -> Seq<(Seq<char>, Seq<char>)> {
    Seq::new(h.len(), |i: int| (h[i].0@, h[i].1@))
}

impl PolymarketClobAdapter {
    /// The host of the order book.
    pub open spec fn clob_host() -> Seq<char> {
        "https://clob.polymarket.com"@
    }

    pub fn new(creds: PolymarketClobCredentials) -> (r: PolymarketClobAdapter)
        ensures
            r.creds == creds,
            r.host@ == Self::clob_host(),
    {
        PolymarketClobAdapter { creds, host: "https://clob.polymarket.com".to_owned() }
    }

    /// The adapter, if there are credentials.
    pub fn from_env(env: &Environment) -> (r: Option<PolymarketClobAdapter>)
        ensures
            match (
                filled_text(*env, "POLYMARKET_CLOB_API_KEY"@),
                filled_text(*env, "POLYMARKET_CLOB_SECRET"@),
                filled_text(*env, "POLYMARKET_CLOB_PASSPHRASE"@),
            ) {
                (Some(k), Some(s), Some(p)) => r matches Some(a) && a.creds.api_key@ == k
                    && a.creds.secret@ == s && a.creds.passphrase@ == p && a.host@ == Self::clob_host(),
                _ => r is None,
            },
    {
        match PolymarketClobCredentials::from_env(env) {
            Some(creds) => Some(PolymarketClobAdapter::new(creds)),
            None => None,
        }
    }

    /// The address of the wallet that the variables name.
    pub fn wallet_address(&self, env: &Environment) -> (r: Option<String>)
        ensures
            match r {
                Some(t) => env.text_of("POLYMARKET_WALLET_ADDRESS"@) == Some(t@),
                None => env.text_of("POLYMARKET_WALLET_ADDRESS"@) is None,
            },
    {
        match env.text("POLYMARKET_WALLET_ADDRESS") {
            Some(t) => Some(t.clone()),
            None => None,
        }
    }

    /// The signature of a request.
    pub open spec fn signature(
        self,
        method: Seq<char>,
        path: Seq<char>,
        body: Seq<char>,
        timestamp: int,
    ) -> Option<Seq<char>> {
        match secret_bytes(self.creds.secret@) {
            Some(key) => Some(
                url_safe_text(
                    hmac_sha256_of(key, encode_utf8(message_of(method, path, body, timestamp))),
                ),
            ),
            None => None,
        }
    }

    /// Signs a request with the secret.
    pub fn sign_request(&self, method: &str, path: &str, body: &str, timestamp: i64) -> (r: Result<
        String,
        OrderError,
    >)
        ensures
            match self.signature(method@, path@, body@, timestamp as int) {
                Some(s) => r matches Ok(t) && t@ == s,
                None => r == Err::<String, OrderError>(OrderError::BadSecret),
            },
    {
        let secret = self.creds.secret.as_str();
        let first = decode_url_safe(secret);
        let second = match first {
            Some(b) => Some(b),
            None => decode_url_safe_no_pad(secret),
        };
        let key = match second {
            Some(b) => b,
            None => match decode_standard(secret) {
                Some(b) => b,
                None => {
                    return Err(OrderError::BadSecret);
                },
            },
        };
        let message = signing_message(method, path, body, timestamp);
        let code = hmac_sha256(&key, message.as_str().as_bytes());
        Ok(encode_url_safe(&code))
    }

    /// The headers of a request that carries a signature.
    pub fn headers_with(&self, signature: String, timestamp: i64, wallet: Option<String>) -> (r: Vec<
        (String, String),
    >)
        ensures
            header_views(r@) == seq![
                ("POLY_ADDRESS"@, match wallet {
                    Some(w) => w@,
                    None => Seq::empty(),
                }),
                ("POLY_API_KEY"@, self.creds.api_key@),
                ("POLY_SIGNATURE"@, signature@),
                ("POLY_TIMESTAMP"@, decimal(timestamp as int)),
                ("POLY_PASSPHRASE"@, self.creds.passphrase@),
            ],
    {
        let address = match wallet {
            Some(w) => w,
            None => String::new(),
        };
        let mut h: Vec<(String, String)> = Vec::new();
        h.push(("POLY_ADDRESS".to_owned(), address));
        h.push(("POLY_API_KEY".to_owned(), self.creds.api_key.clone()));
        h.push(("POLY_SIGNATURE".to_owned(), signature));
        h.push(("POLY_TIMESTAMP".to_owned(), decimal_i64(timestamp)));
        h.push(("POLY_PASSPHRASE".to_owned(), self.creds.passphrase.clone()));
        h
    }

    /// The headers of a signed request.
    pub fn auth_headers(
        &self,
        method: &str,
        path: &str,
        body: &str,
        timestamp: i64,
        wallet: Option<String>,
    ) -> (r: Result<Vec<(String, String)>, OrderError>)
        ensures
            match self.signature(method@, path@, body@, timestamp as int) {
                Some(s) => r matches Ok(h) && header_views(h@) == seq![
                    ("POLY_ADDRESS"@, match wallet {
                        Some(w) => w@,
                        None => Seq::empty(),
                    }),
                    ("POLY_API_KEY"@, self.creds.api_key@),
                    ("POLY_SIGNATURE"@, s),
                    ("POLY_TIMESTAMP"@, decimal(timestamp as int)),
                    ("POLY_PASSPHRASE"@, self.creds.passphrase@),
                ],
                None => r == Err::<Vec<(String, String)>, OrderError>(OrderError::BadSecret),
            },
    {
        match self.sign_request(method, path, body, timestamp) {
            Ok(signature) => Ok(self.headers_with(signature, timestamp, wallet)),
            Err(e) => Err(e),
        }
    }

    /// The payload of an order, once its numbers are written.
    pub fn order_payload(&self, req: &OrderRequest, price: String, size: String) -> (r: Result<
        ClobOrderPayload,
        OrderError,
    >)
        ensures
            match req.fault() {
                Some(e) => r == Err::<ClobOrderPayload, OrderError>(e),
                None => r matches Ok(p) && {
                    &&& p.token_id@ == req.token_id@
                    &&& p.price == price
                    &&& p.size == size
                    &&& p.side@ == req.side.name()
                    &&& (p.order_type matches Some(t) && t@ == "LIMIT"@)
                    &&& (p.time_in_force matches Some(t) && t@ == req.tif.name())
                },
            },
    {
        match req.validate() {
            Err(e) => Err(e),
            Ok(_) => Ok(
                ClobOrderPayload {
                    token_id: req.token_id.clone(),
                    price,
                    size,
                    side: req.side.as_str().to_owned(),
                    order_type: Some("LIMIT".to_owned()),
                    time_in_force: Some(req.tif.as_str().to_owned()),
                },
            ),
        }
    }

    /// The size and the price at which an order counts as filled: what the answer
    /// reports, else all of it at the limit.
    pub fn fill_of(&self, req: &OrderRequest, size: Scalar, resp: &ClobOrderResponse) -> (r: (
        Scalar,
        Scalar,
    ))
        ensures
            r.0 == match resp.filled_size {
                Some(x) => x,
                None => size,
            },
            r.1 == match resp.avg_price {
                Some(x) => x,
                None => req.price,
            },
    {
        (
            match resp.filled_size {
                Some(x) => x,
                None => size,
            },
            match resp.avg_price {
                Some(x) => x,
                None => req.price,
            },
        )
    }

    /// What an answer of the order book means for an order. The filled amount and
    /// the fees are those of the fill that the answer reports.
    pub fn place_order(
        &self,
        req: &OrderRequest,
        resp: &ClobOrderResponse,
        filled_notional: Scalar,
        fees: Scalar,
        latency_ms: u64,
        now: i64,
    ) -> (r: Result<OrderAck, OrderError>)
        ensures
            match (req.fault(), resp.error_msg) {
                (Some(e), _) => r == Err::<OrderAck, OrderError>(e),
                (None, Some(m)) if m@.len() > 0 => r matches Err(OrderError::Venue(t)) && t@ == m@,
                _ => r matches Ok(ack) && {
                    &&& ack.order_id@ == match resp.order_id {
                        Some(id) => id@,
                        None => "clob:"@ + req.client_order_id@,
                    }
                    &&& ack.filled_notional_usdc == filled_notional
                    &&& ack.filled_price == match resp.avg_price {
                        Some(x) => x,
                        None => req.price,
                    }
                    &&& ack.filled_at == now
                    &&& ack.fees_usdc == fees
                    &&& ack.slippage_bps == Scalar::Rank(0)
                    &&& ack.latency_ms == latency_ms
                },
            },
    {
        match req.validate() {
            Err(e) => {
                return Err(e);
            },
            Ok(_) => {},
        }
        match &resp.error_msg {
            Some(m) => {
                if !m.as_str().is_empty() {
                    return Err(OrderError::Venue(m.clone()));
                }
            },
            None => {},
        }
        Ok(
            OrderAck {
                order_id: match &resp.order_id {
                    Some(id) => id.clone(),
                    None => joined("clob:", req.client_order_id.as_str()),
                },
                filled_notional_usdc: filled_notional,
                filled_price: match resp.avg_price {
                    Some(x) => x,
                    None => req.price,
                },
                filled_at: now,
                fees_usdc: fees,
                slippage_bps: Scalar::Rank(0),
                latency_ms,
            },
        )
    }

    /// The balance that an answer reports; zero where it reports none.
    pub fn balance_of(&self, reply: &BalanceReply) -> (r: Scalar)
        ensures
            r == match (reply.number, reply.millionths, reply.whole) {
                (Some(x), _, _) => x,
                (None, Some(x), _) => x,
                (None, None, Some(x)) => x,
                (None, None, None) => Scalar::Rank(0),
            },
    {
        match (reply.number, reply.millionths, reply.whole) {
            (Some(x), _, _) => x,
            (None, Some(x), _) => x,
            (None, None, Some(x)) => x,
            (None, None, None) => Scalar::Rank(0),
        }
    }

    /// The path of the signed request for positions, and the address that is asked
    /// for them where the signed request does not help.
    pub fn positions_urls(&self, wallet: &str) -> (r: (String, String))
        ensures
            r.0@ == "/positions?address="@ + wallet@,
            r.1@ == "https://data-api.polymarket.com"@ + "/positions?user="@ + wallet@,
    {
        let base = joined("https://data-api.polymarket.com", "/positions?user=");
        (joined("/positions?address=", wallet), joined(base.as_str(), wallet))
    }

    /// Whether the answer to the signed request is worth reading: it came with
    /// success and holds something besides the empty list.
    pub fn positions_worth_reading(&self, success: bool, text: &str) -> (r: bool)
        ensures
            r == (success && text@.len() > 0 && text@ != "[]"@),
    {
        success && !text.is_empty() && !same(text, "[]")
    }

    /// The account: nothing is known of a balance or of positions that could not be read.
    /// `value` is what the positions are worth at their marks, and `total` that and the
    /// balance.
    pub fn account_info(
        &self,
        balance: Option<Scalar>,
        positions: Option<Vec<PolymarketPosition>>,
        value: Scalar,
        total: Scalar,
        now: i64,
    ) -> (r: PolymarketAccountInfo)
        ensures
            r.balance_usdc == match balance {
                Some(b) => b,
                None => Scalar::Rank(0),
            },
            match positions {
                Some(p) => r.positions == p,
                None => r.positions.len() == 0,
            },
            r.positions_value_usdc == value,
            r.total_value_usdc == total,
            r.fetched_at == now,
    {
        let balance_usdc = match balance {
            Some(b) => b,
            None => Scalar::Rank(0),
        };
        let positions = match positions {
            Some(p) => p,
            None => Vec::new(),
        };
        PolymarketAccountInfo {
            balance_usdc,
            positions,
            positions_value_usdc: value,
            total_value_usdc: total,
            fetched_at: now,
        }
    }
}

/// Whatever is drawn, an order that paper execution takes is one whose price and
/// amount are valid, and a fill-or-kill order is never filled in part.
pub proof fn law_paper_fills_are_valid(
    adapter: PaperExecutionAdapter,
    req: OrderRequest,
    sim: Simulation,
)
    requires
        adapter.refusal(req, sim) is None,
    ensures
        is_share_price(req.price),
        is_amount(req.notional_usdc),
        req.tif == TimeInForce::Fok ==> !adapter.fill_ratio(sim).spec_lt(Scalar::Rank(ONE_RANK)),
{
}

/// An order is valid where its price lies between zero and one and its amount is above zero;
/// the price is looked at first.
pub proof fn law_valid_orders_have_price_and_amount(o: OrderRequest, r: Result<(), OrderError>)
    requires
        call_ensures(OrderRequest::validate, (&o,), r),
    ensures
        ({
            let priced = Scalar::Rank(0).spec_lt(o.price) && o.price.spec_lt(Scalar::Rank(ONE_RANK));
            let valued = o.notional_usdc.spec_is_finite() && Scalar::Rank(0).spec_lt(o.notional_usdc);
            &&& r is Ok <==> priced && valued
            &&& !priced ==> r == Err::<(), OrderError>(OrderError::InvalidPrice)
            &&& priced && !valued ==> r == Err::<(), OrderError>(OrderError::InvalidNotional)
        }),
{
}

/// Sides and times in force are known by their names.
pub proof fn law_sides_have_their_names(s: OrderSide, t: TimeInForce, side: &'static str, time: &'static str)
    requires
        call_ensures(OrderSide::as_str, (s,), side),
        call_ensures(TimeInForce::as_str, (t,), time),
    ensures
        s is Buy <==> side@ == "BUY"@,
        s is Sell <==> side@ == "SELL"@,
        t is Gtc ==> time@ == "GTC"@,
        t is Ioc ==> time@ == "IOC"@,
        t is Fok ==> time@ == "FOK"@,
{
    reveal_strlit("BUY");
    reveal_strlit("SELL");
    assert("BUY"@.len() != "SELL"@.len());
}

/// On paper a valid order is rejected by the first draw, and filled in part by the second; an
/// order that must be filled whole is refused elsewhere. Slippage goes against the trader
/// within its bounds.
pub proof fn law_paper_order_goes_by_its_draws(
    p: PaperExecutionAdapter,
    o: OrderRequest,
    sim: Simulation,
    latency: u64,
    now: i64,
    r: Result<OrderAck, OrderError>,
    valid: Result<(), OrderError>,
)
    requires
        call_ensures(PaperExecutionAdapter::place_order, (&p, &o, &sim, latency, now), r),
        call_ensures(OrderRequest::validate, (&o,), valid),
        sim.slipped_price is Rank,
    ensures
        ({
            let rejected = sim.reject_draw.spec_lt(p.config.reject_prob);
            let partial = sim.partial_draw.spec_lt(p.config.partial_fill_prob);
            let short = partial && sim.partial_ratio.spec_lt(Scalar::Rank(ONE_RANK));
            let a = r->Ok_0;
            &&& r is Ok <==> valid is Ok && !rejected && !(o.tif is Fok && short)
            &&& valid is Err ==> r is Err && r->Err_0 == valid->Err_0
            &&& valid is Ok && rejected ==> r is Err && r->Err_0 is Rejected
            &&& valid is Ok && !rejected && o.tif is Fok && short ==> r is Err && r->Err_0 is NotFullyFilled
            &&& r is Ok && partial ==> a.filled_notional_usdc == sim.partial_notional && a.fees_usdc == sim.partial_fees
            &&& r is Ok && !partial ==> a.filled_notional_usdc == sim.full_notional && a.fees_usdc == sim.full_fees
            &&& r is Ok && o.side is Buy ==> a.filled_price.spec_le(Scalar::Rank(R_0_99)) && a.filled_price.spec_le(
                sim.slipped_price,
            ) && (a.filled_price == sim.slipped_price || a.filled_price == Scalar::Rank(R_0_99))
            &&& r is Ok && o.side is Sell ==> Scalar::Rank(R_0_01).spec_le(a.filled_price) && sim.slipped_price.spec_le(
                a.filled_price,
            ) && (a.filled_price == sim.slipped_price || a.filled_price == Scalar::Rank(R_0_01))
            &&& r is Ok ==> a.order_id@ == "paper:"@ + o.client_order_id@ && a.filled_at == now && a.latency_ms == latency
                && a.slippage_bps == sim.slippage_bps
        }),
{
}

/// The latency is the base and the jitter; the router takes no orders.
pub proof fn law_latency_is_base_and_jitter(
    p: PaperExecutionAdapter,
    jitter: u64,
    r: u64,
    d: DomeExecutionAdapter,
    o: OrderRequest,
    s: Result<OrderAck, OrderError>,
)
    requires
        p.config.base_latency_ms + jitter <= u64::MAX,
        call_ensures(PaperExecutionAdapter::latency_with, (&p, jitter), r),
        call_ensures(DomeExecutionAdapter::place_order, (&d, &o), s),
    ensures
        r - jitter == p.config.base_latency_ms,
        s is Err && s->Err_0 is NotConfigured,
{
}

/// What is signed tells the timestamp first, and behind it the method, the path and the body.
pub proof fn law_signed_message_tells_the_request(method: &str, path: &str, body: &str, at: i64, r: String)
    requires
        call_ensures(signing_message, (method, path, body, at), r),
    ensures
        r@ == decimal(at as int) + method@ + path@ + body@,
{
}

/// A request is signed with the bytes of the secret, as the first alphabet reads it that can.
pub proof fn law_signature_is_of_the_message(
    c: PolymarketClobAdapter,
    method: &str,
    path: &str,
    body: &str,
    at: i64,
    message: String,
    r: Result<String, OrderError>,
)
    requires
        call_ensures(PolymarketClobAdapter::sign_request, (&c, method, path, body, at), r),
        call_ensures(signing_message, (method, path, body, at), message),
    ensures
        ({
            let s = c.creds.secret@;
            let a = url_safe_bytes(s);
            let b = url_safe_no_pad_bytes(s);
            let d = standard_bytes(s);
            let m = encode_utf8(message@);
            &&& r is Ok <==> a is Some || b is Some || d is Some
            &&& r is Err ==> r->Err_0 is BadSecret
            &&& a is Some ==> r->Ok_0@ == url_safe_text(hmac_sha256_of(a->0, m))
            &&& a is None && b is Some ==> r->Ok_0@ == url_safe_text(hmac_sha256_of(b->0, m))
            &&& a is None && b is None && d is Some ==> r->Ok_0@ == url_safe_text(hmac_sha256_of(d->0, m))
        }),
{
}

/// The headers carry the address, the key, the signature, the timestamp and the passphrase.
pub proof fn law_headers_carry_the_signature(
    c: PolymarketClobAdapter,
    signature: String,
    at: i64,
    wallet: Option<String>,
    r: Vec<(String, String)>,
)
    requires
        call_ensures(PolymarketClobAdapter::headers_with, (&c, signature, at, wallet), r),
    ensures
        r.len() == 5,
        r[0].0@ == "POLY_ADDRESS"@ && (wallet is Some ==> r[0].1@ == wallet->0@),
        r[1].0@ == "POLY_API_KEY"@ && r[1].1@ == c.creds.api_key@,
        r[2].0@ == "POLY_SIGNATURE"@ && r[2].1@ == signature@,
        r[3].0@ == "POLY_TIMESTAMP"@ && r[3].1@ == decimal(at as int),
        r[4].0@ == "POLY_PASSPHRASE"@ && r[4].1@ == c.creds.passphrase@,
{
    let h = header_views(r@);
    assert(h.len() == 5);
    assert(h[0] == (r[0].0@, r[0].1@));
    assert(h[1] == (r[1].0@, r[1].1@));
    assert(h[2] == (r[2].0@, r[2].1@));
    assert(h[3] == (r[3].0@, r[3].1@));
    assert(h[4] == (r[4].0@, r[4].1@));
}

/// A valid order is sent as a limit order of its token, side and time in force.
pub proof fn law_payload_tells_the_order(
    c: PolymarketClobAdapter,
    o: OrderRequest,
    price: String,
    size: String,
    r: Result<ClobOrderPayload, OrderError>,
    valid: Result<(), OrderError>,
)
    requires
        call_ensures(PolymarketClobAdapter::order_payload, (&c, &o, price, size), r),
        call_ensures(OrderRequest::validate, (&o,), valid),
    ensures
        r is Ok <==> valid is Ok,
        r is Err ==> r->Err_0 == valid->Err_0,
        r is Ok ==> {
            let p = r->Ok_0;
            &&& p.token_id@ == o.token_id@ && p.price == price && p.size == size
            &&& o.side is Buy ==> p.side@ == "BUY"@
            &&& o.side is Sell ==> p.side@ == "SELL"@
            &&& p.order_type is Some && p.order_type->0@ == "LIMIT"@
            &&& p.time_in_force is Some
            &&& o.tif is Gtc ==> p.time_in_force->0@ == "GTC"@
            &&& o.tif is Ioc ==> p.time_in_force->0@ == "IOC"@
            &&& o.tif is Fok ==> p.time_in_force->0@ == "FOK"@
        },
{
}

/// An answer with an error refuses a valid order; any other fills it, at the price that the
/// answer tells or else at the limit.
pub proof fn law_answer_fills_or_refuses(
    c: PolymarketClobAdapter,
    o: OrderRequest,
    resp: ClobOrderResponse,
    filled: Scalar,
    fees: Scalar,
    latency: u64,
    now: i64,
    r: Result<OrderAck, OrderError>,
    valid: Result<(), OrderError>,
    size: Scalar,
    fill: (Scalar, Scalar),
)
    requires
        call_ensures(PolymarketClobAdapter::place_order, (&c, &o, &resp, filled, fees, latency, now), r),
        call_ensures(OrderRequest::validate, (&o,), valid),
        call_ensures(PolymarketClobAdapter::fill_of, (&c, &o, size, &resp), fill),
    ensures
        ({
            let told = resp.error_msg is Some && resp.error_msg->0@.len() > 0;
            let a = r->Ok_0;
            &&& r is Ok <==> valid is Ok && !told
            &&& valid is Err ==> r is Err && r->Err_0 == valid->Err_0
            &&& valid is Ok && told ==> r is Err && r->Err_0 is Venue && r->Err_0->Venue_0@ == resp.error_msg->0@
            &&& r is Ok ==> a.filled_price == fill.1 && a.filled_notional_usdc == filled && a.fees_usdc == fees
                && a.filled_at == now && a.latency_ms == latency && a.slippage_bps == Scalar::Rank(0)
            &&& r is Ok && resp.order_id is Some ==> a.order_id@ == resp.order_id->0@
            &&& r is Ok && resp.order_id is None ==> a.order_id@ == "clob:"@ + o.client_order_id@
            &&& resp.avg_price is Some ==> fill.1 == resp.avg_price->0
            &&& resp.avg_price is None ==> fill.1 == o.price
            &&& resp.filled_size is Some ==> fill.0 == resp.filled_size->0
            &&& resp.filled_size is None ==> fill.0 == size
        }),
{
}

/// A balance is what the answer tells, a number before a text and a text before the whole; a
/// position counts at its current price or else at its cost.
pub proof fn law_account_tells_what_is_known(
    c: PolymarketClobAdapter,
    reply: BalanceReply,
    b: Scalar,
    p: PolymarketPosition,
    mark: Scalar,
    balance: Option<Scalar>,
    positions: Option<Vec<PolymarketPosition>>,
    value: Scalar,
    total: Scalar,
    now: i64,
    info: PolymarketAccountInfo,
)
    requires
        call_ensures(PolymarketClobAdapter::balance_of, (&c, &reply), b),
        call_ensures(PolymarketPosition::mark, (&p,), mark),
        call_ensures(PolymarketClobAdapter::account_info, (&c, balance, positions, value, total, now), info),
    ensures
        reply.number is Some ==> b == reply.number->0,
        reply.number is None && reply.millionths is Some ==> b == reply.millionths->0,
        reply.number is None && reply.millionths is None && reply.whole is Some ==> b == reply.whole->0,
        reply.number is None && reply.millionths is None && reply.whole is None ==> b == Scalar::Rank(0),
        p.current_price is Some ==> mark == p.current_price->0,
        p.current_price is None ==> mark == p.avg_price,
        balance is Some ==> info.balance_usdc == balance->0,
        balance is None ==> info.balance_usdc == Scalar::Rank(0),
        positions is Some ==> info.positions == positions->0,
        positions is None ==> info.positions.len() == 0,
        info.positions_value_usdc == value && info.total_value_usdc == total && info.fetched_at == now,
{
}

/// Positions are worth reading where the request succeeded and they are not empty.
pub proof fn law_empty_answers_are_not_read(c: PolymarketClobAdapter, success: bool, text: &str, r: bool, urls: (
    String,
    String,
))
    requires
        call_ensures(PolymarketClobAdapter::positions_worth_reading, (&c, success, text), r),
        call_ensures(PolymarketClobAdapter::positions_urls, (&c, text), urls),
    ensures
        r <==> success && text@ != ""@ && text@ != "[]"@,
        urls.0@ == "/positions?address="@ + text@,
        urls.1@ == "https://data-api.polymarket.com"@ + "/positions?user="@ + text@,
{
    reveal_strlit("");
    if text@.len() == 0 {
        assert(text@ =~= ""@);
    }
}

/// The figures that hold where no variable is set.
pub proof fn law_unset_execution_is_the_default(env: Environment, r: PaperExecutionConfig, d: PaperExecutionConfig)
    requires
        is_unset(env),
        call_ensures(PaperExecutionConfig::from_env, (&env,), r),
        call_ensures(PaperExecutionConfig::default, (), d),
    ensures
        r == d,
        d.base_latency_ms == 150,
        d.latency_jitter_ms == 200,
        d.slippage_bps_per_1k == Scalar::Rank(SLIPPAGE_BPS_PER_1K),
        d.base_slippage_bps == Scalar::Rank(BASE_SLIPPAGE_BPS),
        d.fee_rate == Scalar::Rank(FEE_RATE),
        d.partial_fill_prob == Scalar::Rank(PARTIAL_FILL_PROB),
        d.min_fill_ratio == Scalar::Rank(MIN_FILL_RATIO),
        d.reject_prob == Scalar::Rank(REJECT_PROB),
{
}

/// An error says what was wrong.
pub proof fn law_errors_say_what_was_wrong(e: OrderError, r: String)
    requires
        call_ensures(OrderError::message, (&e,), r),
    ensures
        e is InvalidPrice ==> r@ == "invalid price"@,
        e is InvalidNotional ==> r@ == "invalid notional"@,
        e is Rejected ==> r@ == "order rejected (simulated)"@,
        e is NotFullyFilled ==> r@ == "FOK order could not be fully filled"@,
        e is NotConfigured ==> r@ == "Dome router execution not configured (endpoint + payload pending)"@,
        e is BadSecret ==> r@ == "failed to decode CLOB secret"@,
        e is Venue ==> r@ == "CLOB error: "@ + e->Venue_0@,
{
}

/// A router needs an address and a key, its own before the common one; credentials need all
/// three of their parts.
pub proof fn law_accounts_need_all_their_parts(
    env: Environment,
    d: Option<DomeExecutionAdapter>,
    c: Option<PolymarketClobCredentials>,
    a: Option<PolymarketClobAdapter>,
    creds: PolymarketClobCredentials,
    b: PolymarketClobAdapter,
    w: Option<String>,
)
    requires
        call_ensures(DomeExecutionAdapter::from_env, (&env,), d),
        call_ensures(PolymarketClobCredentials::from_env, (&env,), c),
        call_ensures(PolymarketClobAdapter::from_env, (&env,), a),
        call_ensures(PolymarketClobAdapter::new, (creds,), b),
        call_ensures(PolymarketClobAdapter::wallet_address, (&b, &env), w),
    ensures
        ({
            let url = env.text_of("DOME_ROUTER_URL"@);
            let own = env.text_of("DOME_ROUTER_API_KEY"@);
            let common = env.text_of("DOME_API_KEY"@);
            let key = if own is Some {
                own
            } else {
                common
            };
            let k = env.text_of("POLYMARKET_CLOB_API_KEY"@);
            let s = env.text_of("POLYMARKET_CLOB_SECRET"@);
            let p = env.text_of("POLYMARKET_CLOB_PASSPHRASE"@);
            &&& d is Some <==> url is Some && key is Some && trimmed(url->0).len() > 0 && trimmed(key->0).len() > 0
            &&& d is Some ==> d->0.router_url@ == url->0 && d->0.api_key@ == key->0
            &&& c is Some <==> k is Some && s is Some && p is Some && k->0.len() > 0 && s->0.len() > 0 && p->0.len() > 0
            &&& c is Some ==> c->0.api_key@ == k->0 && c->0.secret@ == s->0 && c->0.passphrase@ == p->0
            &&& a is Some <==> c is Some
            &&& a is Some ==> a->0.creds.api_key@ == k->0 && a->0.creds.secret@ == s->0 && a->0.creds.passphrase@ == p->0
                && a->0.host@ == "https://clob.polymarket.com"@
            &&& b.creds == creds && b.host@ == "https://clob.polymarket.com"@
            &&& w is Some <==> env.text_of("POLYMARKET_WALLET_ADDRESS"@) is Some
            &&& w is Some ==> w->0@ == env.text_of("POLYMARKET_WALLET_ADDRESS"@)->0
        }),
{
}

/// A signed request has the headers of its signature.
pub proof fn law_signed_headers_carry_their_signature(
    c: PolymarketClobAdapter,
    method: &str,
    path: &str,
    body: &str,
    at: i64,
    wallet: Option<String>,
    r: Result<Vec<(String, String)>, OrderError>,
    s: Result<String, OrderError>,
    h: Vec<(String, String)>,
)
    requires
        call_ensures(PolymarketClobAdapter::auth_headers, (&c, method, path, body, at, wallet), r),
        call_ensures(PolymarketClobAdapter::sign_request, (&c, method, path, body, at), s),
        s is Ok ==> call_ensures(PolymarketClobAdapter::headers_with, (&c, s->Ok_0, at, wallet), h),
    ensures
        r is Ok <==> s is Ok,
        r is Ok ==> header_views(r->Ok_0@) == header_views(h@),
        r is Err ==> r->Err_0 is BadSecret,
{
}

/// Paper execution takes what its variables say, whatever number that is.
pub proof fn law_execution_takes_its_settings(env: Environment, r: PaperExecutionConfig)
    requires
        call_ensures(PaperExecutionConfig::from_env, (&env,), r),
    ensures
        set_whole(env, "PAPER_BASE_LATENCY_MS"@, false, 0, u64::MAX as int, r.base_latency_ms as int),
        set_whole(env, "PAPER_LATENCY_JITTER_MS"@, false, 0, u64::MAX as int, r.latency_jitter_ms as int),
        env.number_of("PAPER_SLIPPAGE_BPS_PER_1K"@) is Some ==> Some(r.slippage_bps_per_1k) == env.number_of(
            "PAPER_SLIPPAGE_BPS_PER_1K"@,
        ),
        env.number_of("PAPER_BASE_SLIPPAGE_BPS"@) is Some ==> Some(r.base_slippage_bps) == env.number_of(
            "PAPER_BASE_SLIPPAGE_BPS"@,
        ),
        env.number_of("PAPER_FEE_RATE"@) is Some ==> Some(r.fee_rate) == env.number_of("PAPER_FEE_RATE"@),
        env.number_of("PAPER_PARTIAL_FILL_PROB"@) is Some ==> Some(r.partial_fill_prob) == env.number_of(
            "PAPER_PARTIAL_FILL_PROB"@,
        ),
        env.number_of("PAPER_REJECT_PROB"@) is Some ==> Some(r.reject_prob) == env.number_of("PAPER_REJECT_PROB"@),
{
}

/// Each rank here is that of the binary64 number nearest to the one it is called after.
pub proof fn law_execution_ranks_are_nearest()
    ensures
        0x4020_0000_0000_0000 <= SLIPPAGE_BPS_PER_1K < 0x4030_0000_0000_0000,
        -1 <= 2 * (1 * (SLIPPAGE_BPS_PER_1K - 0x4010000000000000) - 15 * 0x2000000000000int) <= 1,
        0x4020_0000_0000_0000 <= BASE_SLIPPAGE_BPS < 0x4030_0000_0000_0000,
        -1 <= 2 * (1 * (BASE_SLIPPAGE_BPS - 0x4010000000000000) - 10 * 0x2000000000000int) <= 1,
        0x3F70_0000_0000_0000 <= FEE_RATE < 0x3F80_0000_0000_0000,
        -200 <= 2 * (200 * (FEE_RATE - 0x3F60000000000000) - 1 * 0x1000000000000000int) <= 200,
        0x3FC0_0000_0000_0000 <= PARTIAL_FILL_PROB < 0x3FD0_0000_0000_0000,
        -20 <= 2 * (20 * (PARTIAL_FILL_PROB - 0x3FB0000000000000) - 3 * 0x80000000000000int) <= 20,
        0x3FD0_0000_0000_0000 <= MIN_FILL_RATIO < 0x3FE0_0000_0000_0000,
        -5 <= 2 * (5 * (MIN_FILL_RATIO - 0x3FC0000000000000) - 2 * 0x40000000000000int) <= 5,
        0x3F90_0000_0000_0000 <= REJECT_PROB < 0x3FA0_0000_0000_0000,
        -50 <= 2 * (50 * (REJECT_PROB - 0x3F80000000000000) - 1 * 0x400000000000000int) <= 50,
        0x3FE0_0000_0000_0000 <= MAX_FILLED_PRICE < 0x3FF0_0000_0000_0000,
        -100 <= 2 * (100 * (MAX_FILLED_PRICE - 0x3FD0000000000000) - 99 * 0x20000000000000int) <= 100,
        0x3F80_0000_0000_0000 <= MIN_FILLED_PRICE < 0x3F90_0000_0000_0000,
        -100 <= 2 * (100 * (MIN_FILLED_PRICE - 0x3F70000000000000) - 1 * 0x800000000000000int) <= 100,
{
}

} // verus!
