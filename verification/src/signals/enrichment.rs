//! What is found out about the order behind a signal.
use crate::base::clock::more_than_apart;
use crate::base::order::{
    is_stable_order,
    law_stable_order_is_a_permutation,
    stable_order,
    stands_before,
};
use crate::base::scalar::Scalar;
use crate::base::text::{join, join_views, joined, same, to_upper, uppercase, views};
use crate::vault::records::{text_copy, text_view};
use vstd::prelude::*;

verus! {

/// An order that waits to be looked into.
#[derive(Debug)]
pub struct EnrichmentJob {
    pub signal_id: String,
    pub user: String,
    pub market_slug: String,
    pub condition_id: String,
    pub token_id: String,
    pub token_label: Option<String>,
    pub side: String,
    pub price: Scalar,
    pub shares_normalized: Scalar,
    pub timestamp: i64,
    pub order_hash: String,
    pub tx_hash: String,
    pub title: String,
    /// The order as it came in.
    pub raw_payload_json: String,
}

/// How many seconds a market, a wallet and its profits are remembered.
pub const MARKET_TTL: i64 = 1800;

pub const WALLET_TTL: i64 = 86_400;

pub const PNL_TTL: i64 = 3600;

/// A stretch of time.
#[derive(Clone, Copy, Debug, PartialEq, Eq, Structural)]
pub struct Span {
    pub from: i64,
    pub to: i64,
}

/// What is asked about an order, and where answers are remembered.
#[derive(Debug)]
pub struct JobPlan {
    /// Where the market is remembered, and for how many seconds.
    pub market_key: String,
    pub market_ttl: i64,
    pub market_url: String,
    pub wallet_key: String,
    pub wallet_ttl: i64,
    pub pnl_key: String,
    pub pnl_ttl: i64,
    pub price_at: i64,
    /// The orders on the token in the hour before, and how many of them at most.
    pub market_orders: Span,
    /// The orders of the wallet in the day before.
    pub wallet_orders: Span,
    pub order_limit: u32,
    /// The books in the five minutes before, in milliseconds.
    pub books_ms: Span,
    pub book_limit: u32,
    /// What the wallet did on the market in the day before.
    pub activity: Span,
    pub activity_limit: u32,
    /// The candlesticks of the day before, one per hour.
    pub candles: Span,
    pub candle_minutes: u32,
}

/// Whether the times around an order can be told in milliseconds.
pub open spec fn tells_millis(timestamp: i64) -> bool {
    -9_223_372_036_854_475 <= timestamp <= 9_223_372_036_854_775
}

/// Plans what is asked about an order.
pub fn plan_job(job: &EnrichmentJob) -> (r: JobPlan)
    requires
        tells_millis(job.timestamp),
    ensures
        r.market_key@ == "market_slug:"@ + job.market_slug@,
        r.market_url@ == "https://gamma-api.polymarket.com/markets/slug/"@ + job.market_slug@,
        r.wallet_key@ == "wallet:"@ + job.user@,
        r.pnl_key@ == "wallet_pnl_day:"@ + job.user@,
        r.market_ttl == 1800,
        r.wallet_ttl == 86_400,
        r.pnl_ttl == 3600,
        r.price_at == job.timestamp,
        r.market_orders == (Span { from: (job.timestamp - 3600) as i64, to: job.timestamp }),
        r.wallet_orders == (Span { from: (job.timestamp - 86_400) as i64, to: job.timestamp }),
        r.order_limit == 200,
        r.books_ms == (Span {
            from: ((job.timestamp - 300) * 1000) as i64,
            to: (job.timestamp * 1000) as i64,
        }),
        r.book_limit == 50,
        r.activity == (Span { from: (job.timestamp - 86_400) as i64, to: job.timestamp }),
        r.activity_limit == 100,
        r.candles == (Span { from: (job.timestamp - 86_400) as i64, to: job.timestamp }),
        r.candle_minutes == 60,
{
    let t: i64 = job.timestamp;
    JobPlan {
        market_key: joined("market_slug:", job.market_slug.as_str()),
        market_url: joined(
            "https://gamma-api.polymarket.com/markets/slug/",
            job.market_slug.as_str(),
        ),
        wallet_key: joined("wallet:", job.user.as_str()),
        pnl_key: joined("wallet_pnl_day:", job.user.as_str()),
        market_ttl: 1800,
        wallet_ttl: 86_400,
        pnl_ttl: 3600,
        price_at: t,
        market_orders: Span { from: t - 3600, to: t },
        wallet_orders: Span { from: t - 86_400, to: t },
        order_limit: 200,
        books_ms: Span { from: (t - 300) * 1000, to: t * 1000 },
        book_limit: 50,
        activity: Span { from: t - 86_400, to: t },
        activity_limit: 100,
        candles: Span { from: t - 86_400, to: t },
        candle_minutes: 60,
    }
}

/// What `serde_json::from_str` reads from a text: nothing, or a value that
/// `serde_json::Value::is_null` says is null or not.
pub uninterp spec fn json_null(s: Seq<char>) -> Option<bool>;

/// `serde_json::from_str` reads a JSON value from a text, or fails, and
/// `serde_json::Value::is_null` says whether the value is null; both depend on the text
/// alone.
#[verifier::external_body]
fn read_json_null(s: &str) -> (r: Option<bool>)
    ensures
        r == json_null(s@),
{
    match serde_json::from_str::<serde_json::Value>(s) {
        Ok(v) => Some(v.is_null()),
        Err(_) => None,
    }
}

/// An answer that is remembered: a text, and when it came.
#[derive(Debug)]
pub struct Remembered {
    pub json: String,
    pub fetched_at: i64,
}

/// Whether an answer still counts: it is no older than so many seconds, and it is a value.
pub open spec fn counts(m: Remembered, is_value: bool, now: int, ttl_secs: int) -> bool {
    now - m.fetched_at <= ttl_secs && is_value
}

/// The answer that is remembered, where it still counts.
pub fn get_cached_value(m: Option<Remembered>, now: i64, ttl_secs: i64) -> (r: Option<String>)
    ensures
        r == match m {
            Some(c) => if counts(c, json_null(c.json@) == Some(false), now as int, ttl_secs as int) {
                Some(c.json)
            } else {
                None
            },
            None => None,
        },
{
    match m {
        Some(c) => {
            let is_value = match read_json_null(c.json.as_str()) {
                Some(null) => !null,
                None => false,
            };
            cached_value_under(c, is_value, now, ttl_secs)
        },
        None => None,
    }
}

/// The answer that is remembered, where it still counts, when it is known to be a value or
/// not.
pub fn cached_value_under(m: Remembered, is_value: bool, now: i64, ttl_secs: i64) -> (r: Option<String>)
    ensures
        r == if counts(m, is_value, now as int, ttl_secs as int) {
            Some(m.json)
        } else {
            None
        },
{
    if more_than_apart(now, m.fetched_at, ttl_secs) {
        return None;
    }
    if is_value {
        Some(m.json)
    } else {
        None
    }
}

/// What the first source says about a market.
#[derive(Debug)]
pub enum GammaReply {
    NotFound,
    Unreachable,
    /// It answered with an error, or with what is no JSON.
    Refused(String),
    Null,
    Value(String),
}

/// What an answer of the first source leads to.
#[derive(Debug)]
pub enum MarketNext {
    /// The market, which is remembered from now on.
    Found(String),
    /// The second source is asked.
    AskSecond,
    Failed(String),
}

/// Takes the answer of the first source in.
pub fn on_gamma(reply: GammaReply) -> (r: MarketNext)
    ensures
        r == match reply {
            GammaReply::Value(v) => MarketNext::Found(v),
            GammaReply::Refused(e) => MarketNext::Failed(e),
            _ => MarketNext::AskSecond,
        },
{
    match reply {
        GammaReply::Value(v) => MarketNext::Found(v),
        GammaReply::Refused(e) => MarketNext::Failed(e),
        GammaReply::NotFound => MarketNext::AskSecond,
        GammaReply::Unreachable => MarketNext::AskSecond,
        GammaReply::Null => MarketNext::AskSecond,
    }
}

/// A price and when it held.
#[derive(Clone, Copy, Debug, PartialEq, Eq, Structural)]
pub struct MarketPriceSnapshot {
    pub price: Scalar,
    pub at_time: i64,
}

#[derive(Clone, Copy, Debug, PartialEq, Eq, Structural)]
pub struct SignalContextPrice {
    pub at_entry: Option<MarketPriceSnapshot>,
    pub latest: Option<MarketPriceSnapshot>,
}

/// Orders in figures.
#[derive(Clone, Copy, Debug, PartialEq, Eq, Structural)]
pub struct TradeFlowSummary {
    pub count: usize,
    pub buy_count: usize,
    pub sell_count: usize,
    pub total_shares: Scalar,
    pub total_value_usd: Scalar,
    pub max_trade_value_usd: Option<Scalar>,
}

/// A JSON value: an array with the texts of its items, or the text of another value.
#[derive(Debug)]
pub enum JsonText {
    Array(Vec<String>),
    Other(String),
}

#[derive(Debug)]
pub struct SignalContextTradeHistory {
    pub market_flow_1h: Option<TradeFlowSummary>,
    pub wallet_flow_24h: Option<TradeFlowSummary>,
    pub sample_market_orders: Option<JsonText>,
    pub sample_wallet_orders: Option<JsonText>,
}

#[derive(Clone, Copy, Debug, PartialEq, Eq, Structural)]
pub struct SignalContextOrderbook {
    pub best_bid: Option<Scalar>,
    pub best_ask: Option<Scalar>,
    pub mid: Option<Scalar>,
    pub spread: Option<Scalar>,
    pub snapshot_count: Option<usize>,
}

#[derive(Debug)]
pub struct SignalContextActivity {
    pub count: usize,
    pub merge_count: usize,
    pub split_count: usize,
    pub redeem_count: usize,
    pub sample: Option<JsonText>,
}

#[derive(Clone, Copy, Debug, PartialEq, Eq, Structural)]
pub struct SignalContextDerived {
    pub price_delta_abs: Option<Scalar>,
    pub price_delta_bps: Option<Scalar>,
    pub entry_value_usd: Option<Scalar>,
    pub spread_at_entry: Option<Scalar>,
    pub pnl_7d: Option<Scalar>,
    pub pnl_14d: Option<Scalar>,
    pub pnl_30d: Option<Scalar>,
    pub pnl_90d: Option<Scalar>,
    pub sharpe_7d: Option<Scalar>,
    pub sharpe_14d: Option<Scalar>,
    pub sharpe_30d: Option<Scalar>,
    pub sharpe_90d: Option<Scalar>,
    pub avg_trade_value_24h: Option<Scalar>,
    pub trade_count_24h: Option<u32>,
}

#[derive(Debug)]
pub struct SignalContextOrder {
    pub user: String,
    pub market_slug: String,
    pub condition_id: String,
    pub token_id: String,
    pub token_label: Option<String>,
    pub side: String,
    pub price: Scalar,
    pub shares_normalized: Scalar,
    pub timestamp: i64,
    pub order_hash: String,
    pub tx_hash: String,
    pub title: String,
}

/// What was found out about an order.
#[derive(Debug)]
pub struct SignalContext {
    pub order: SignalContextOrder,
    pub market: Option<String>,
    pub price: Option<SignalContextPrice>,
    pub trade_history: Option<SignalContextTradeHistory>,
    pub orderbook: Option<SignalContextOrderbook>,
    pub activity: Option<SignalContextActivity>,
    pub candlesticks: Option<String>,
    pub wallet: Option<String>,
    pub wallet_pnl: Option<String>,
    pub derived: SignalContextDerived,
    pub errors: Vec<String>,
}

/// What was found out, and how well that went.
#[derive(Debug)]
pub struct SignalContextUpdate {
    pub signal_id: String,
    pub context_version: i64,
    pub enriched_at: i64,
    pub status: String,
    /// All that went wrong, where nothing was found out.
    pub error: Option<String>,
    pub context: SignalContext,
}

/// An order: its side, what it is worth, and its JSON text.
#[derive(Debug)]
pub struct RestOrder {
    pub side: String,
    pub value: Scalar,
    pub json: String,
}

/// Orders, with the sums of their shares and values.
#[derive(Debug)]
pub struct OrdersPage {
    pub orders: Vec<RestOrder>,
    pub total_shares: Scalar,
    pub total_value: Scalar,
}

/// How many orders have a side, in capitals.
pub open spec fn side_count(sides: Seq<Seq<char>>, side: Seq<char>) -> nat
    decreases sides.len(),
{
    if sides.len() == 0 {
        0
    } else {
        side_count(sides.drop_last(), side) + if sides.last() == side {
            1nat
        } else {
            0nat
        }
    }
}

/// The sides of orders in capitals.
pub open spec fn upper_sides(orders: Seq<RestOrder>) -> Seq<Seq<char>> {
    orders.map_values(|o: RestOrder| uppercase(o.side@))
}

/// The values of orders.
pub open spec fn order_values(orders: Seq<RestOrder>) -> Seq<Scalar> {
    orders.map_values(|o: RestOrder| o.value)
}

/// The greatest value, at least zero; none where there is no order.
pub open spec fn greatest_value(values: Seq<Scalar>) -> Option<Scalar>
    decreases values.len(),
{
    if values.len() == 0 {
        None
    } else {
        let before = match greatest_value(values.drop_last()) {
            Some(v) => v,
            None => Scalar::Rank(0),
        };
        Some(before.spec_max(values.last()))
    }
}

/// Orders in figures, by their sides in capitals.
pub open spec fn flow_of(page: OrdersPage, sides: Seq<Seq<char>>) -> TradeFlowSummary {
    TradeFlowSummary {
        count: page.orders.len(),
        buy_count: side_count(sides, "BUY"@) as usize,
        sell_count: side_count(sides, "SELL"@) as usize,
        total_shares: page.total_shares,
        total_value_usd: page.total_value,
        max_trade_value_usd: greatest_value(order_values(page.orders@)),
    }
}

/// Puts orders into figures.
pub fn summarize_orders(page: &OrdersPage) -> (r: TradeFlowSummary)
    ensures
        r == flow_of(*page, upper_sides(page.orders@)),
{
    let mut sides: Vec<String> = Vec::new();
    let mut i: usize = 0;
    assert(views(sides@) =~= upper_sides(page.orders@).take(0));
    while i < page.orders.len()
        invariant
            i <= page.orders.len(),
            views(sides@) == upper_sides(page.orders@).take(i as int),
        decreases page.orders.len() - i,
    {
        let ghost before = sides@;
        let upper = to_upper(page.orders[i].side.as_str());
        sides.push(upper);
        assert(views(sides@) =~= views(before).push(upper@));
        assert(views(sides@) =~= upper_sides(page.orders@).take(i as int + 1));
        i = i + 1;
    }
    assert(views(sides@) =~= upper_sides(page.orders@));
    assert(sides.len() == views(sides@).len());
    summarize_under(page, &sides)
}

/// Puts orders into figures, given their sides in capitals.
pub fn summarize_under(page: &OrdersPage, sides: &Vec<String>) -> (r: TradeFlowSummary)
    requires
        sides.len() == page.orders.len(),
    ensures
        r == flow_of(*page, views(sides@)),
{
    let ghost all = views(sides@);
    let ghost values = order_values(page.orders@);
    let mut buy_count: usize = 0;
    let mut sell_count: usize = 0;
    let mut greatest: Option<Scalar> = None;
    let mut i: usize = 0;
    while i < page.orders.len()
        invariant
            i <= page.orders.len(),
            sides.len() == page.orders.len(),
            all == views(sides@),
            values == order_values(page.orders@),
            buy_count <= i,
            sell_count <= i,
            buy_count == side_count(all.take(i as int), "BUY"@),
            sell_count == side_count(all.take(i as int), "SELL"@),
            greatest == greatest_value(values.take(i as int)),
        decreases page.orders.len() - i,
    {
        assert(all.take(i as int + 1).drop_last() =~= all.take(i as int));
        assert(values.take(i as int + 1).drop_last() =~= values.take(i as int));
        proof {
            lemma_sides_differ();
        }
        if same(sides[i].as_str(), "BUY") {
            buy_count = buy_count + 1;
        } else if same(sides[i].as_str(), "SELL") {
            sell_count = sell_count + 1;
        }
        let before = match greatest {
            Some(v) => v,
            None => Scalar::Rank(0),
        };
        greatest = Some(before.max(page.orders[i].value));
        i = i + 1;
    }
    assert(all.take(i as int) =~= all);
    assert(values.take(i as int) =~= values);
    TradeFlowSummary {
        count: page.orders.len(),
        buy_count,
        sell_count,
        total_shares: page.total_shares,
        total_value_usd: page.total_value,
        max_trade_value_usd: greatest,
    }
}

proof fn lemma_sides_differ()
    ensures
        "BUY"@ != "SELL"@,
{
    reveal_strlit("BUY");
    reveal_strlit("SELL");
    assert("BUY"@.len() == 3);
    assert("SELL"@.len() == 4);
}

/// The first items of a list of texts.
pub open spec fn first_items(items: Seq<Seq<char>>, n: nat) -> Seq<Seq<char>> {
    if items.len() <= n {
        items
    } else {
        items.take(n as int)
    }
}

/// Keeps the first items of an array, and any other value whole.
pub fn truncate_json_array(value: JsonText, max_len: usize) -> (r: JsonText)
    ensures
        match value {
            JsonText::Array(items) => r matches JsonText::Array(kept) && views(kept@) == first_items(
                views(items@),
                max_len as nat,
            ),
            JsonText::Other(t) => r == value,
        },
{
    match value {
        JsonText::Array(items) => {
            let mut kept: Vec<String> = Vec::new();
            let mut i: usize = 0;
            assert(views(kept@) =~= views(items@).take(0));
            while i < items.len() && i < max_len
                invariant
                    i <= items.len(),
                    i <= max_len,
                    views(kept@) == views(items@).take(i as int),
                decreases items.len() - i,
            {
                let ghost before = kept@;
                kept.push(items[i].clone());
                assert(views(kept@) =~= views(before).push(items[i as int]@));
                assert(views(kept@) =~= views(items@).take(i as int + 1));
                i = i + 1;
            }
            assert(views(kept@) =~= first_items(views(items@), max_len as nat));
            JsonText::Array(kept)
        },
        JsonText::Other(t) => JsonText::Other(t),
    }
}

/// The JSON texts of orders.
pub open spec fn order_texts(orders: Seq<RestOrder>) -> Seq<Seq<char>> {
    orders.map_values(|o: RestOrder| o.json@)
}

/// A sample of texts: the first ones.
pub open spec fn is_sample(s: Option<JsonText>, texts: Seq<Seq<char>>, n: nat) -> bool {
    s matches Some(JsonText::Array(kept)) && views(kept@) == first_items(texts, n)
}

fn sample_orders(orders: &Vec<RestOrder>) -> (r: Option<JsonText>)
    ensures
        is_sample(r, order_texts(orders@), 50),
{
    let mut texts: Vec<String> = Vec::new();
    let mut i: usize = 0;
    assert(views(texts@) =~= order_texts(orders@).take(0));
    while i < orders.len()
        invariant
            i <= orders.len(),
            views(texts@) == order_texts(orders@).take(i as int),
        decreases orders.len() - i,
    {
        let ghost before = texts@;
        texts.push(orders[i].json.clone());
        assert(views(texts@) =~= views(before).push(orders[i as int].json@));
        assert(views(texts@) =~= order_texts(orders@).take(i as int + 1));
        i = i + 1;
    }
    assert(views(texts@) =~= order_texts(orders@));
    Some(truncate_json_array(JsonText::Array(texts), 50))
}

/// The prices of levels that can be read.
pub open spec fn readable(prices: Seq<Option<Scalar>>) -> Seq<Scalar>
    decreases prices.len(),
{
    if prices.len() == 0 {
        Seq::empty()
    } else {
        match prices.last() {
            Some(p) => readable(prices.drop_last()).push(p),
            None => readable(prices.drop_last()),
        }
    }
}

/// The greatest price; of prices that cannot be told apart the last one.
pub open spec fn greatest_price(prices: Seq<Scalar>) -> Option<Scalar>
    decreases prices.len(),
{
    if prices.len() == 0 {
        None
    } else {
        match greatest_price(prices.drop_last()) {
            None => Some(prices.last()),
            Some(b) => if prices.last().spec_lt(b) {
                Some(b)
            } else {
                Some(prices.last())
            },
        }
    }
}

/// The smallest price; of prices that cannot be told apart the first one.
pub open spec fn smallest_price(prices: Seq<Scalar>) -> Option<Scalar>
    decreases prices.len(),
{
    if prices.len() == 0 {
        None
    } else {
        match smallest_price(prices.drop_last()) {
            None => Some(prices.last()),
            Some(b) => if prices.last().spec_lt(b) {
                Some(prices.last())
            } else {
                Some(b)
            },
        }
    }
}

/// The best bid among levels whose prices may be unreadable.
pub fn best_bid(prices: &Vec<Option<Scalar>>) -> (r: Option<Scalar>)
    ensures
        r == greatest_price(readable(prices@)),
{
    let mut best: Option<Scalar> = None;
    let mut i: usize = 0;
    while i < prices.len()
        invariant
            i <= prices.len(),
            best == greatest_price(readable(prices@.take(i as int))),
        decreases prices.len() - i,
    {
        assert(prices@.take(i as int + 1).drop_last() =~= prices@.take(i as int));
        let ghost before = readable(prices@.take(i as int));
        match prices[i] {
            Some(p) => {
                assert(before.push(p).drop_last() =~= before);
                best = match best {
                    None => Some(p),
                    Some(b) => if p.lt(b) {
                        Some(b)
                    } else {
                        Some(p)
                    },
                };
            },
            None => {},
        }
        i = i + 1;
    }
    assert(prices@.take(i as int) =~= prices@);
    best
}

/// The best ask among levels whose prices may be unreadable.
pub fn best_ask(prices: &Vec<Option<Scalar>>) -> (r: Option<Scalar>)
    ensures
        r == smallest_price(readable(prices@)),
{
    let mut best: Option<Scalar> = None;
    let mut i: usize = 0;
    while i < prices.len()
        invariant
            i <= prices.len(),
            best == smallest_price(readable(prices@.take(i as int))),
        decreases prices.len() - i,
    {
        assert(prices@.take(i as int + 1).drop_last() =~= prices@.take(i as int));
        let ghost before = readable(prices@.take(i as int));
        match prices[i] {
            Some(p) => {
                assert(before.push(p).drop_last() =~= before);
                best = match best {
                    None => Some(p),
                    Some(b) => if p.lt(b) {
                        Some(p)
                    } else {
                        Some(b)
                    },
                };
            },
            None => {},
        }
        i = i + 1;
    }
    assert(prices@.take(i as int) =~= prices@);
    best
}

/// The books before an order: how many, the prices of the last one as far as they can be
/// read, and the middle and the width between its best prices.
#[derive(Debug)]
pub struct BooksPage {
    pub snapshot_count: usize,
    pub last_bids: Vec<Option<Scalar>>,
    pub last_asks: Vec<Option<Scalar>>,
    pub mid: Scalar,
    pub spread: Scalar,
}

/// What the books say; nothing where there is none.
pub open spec fn book_context(p: BooksPage) -> Option<SignalContextOrderbook> {
    let bid = greatest_price(readable(p.last_bids@));
    let ask = smallest_price(readable(p.last_asks@));
    if p.snapshot_count == 0 {
        None
    } else {
        Some(
            SignalContextOrderbook {
                best_bid: bid,
                best_ask: ask,
                mid: if bid is Some && ask is Some {
                    Some(p.mid)
                } else {
                    None
                },
                spread: if bid is Some && ask is Some {
                    Some(p.spread)
                } else {
                    None
                },
                snapshot_count: Some(p.snapshot_count),
            },
        )
    }
}

/// Sums the books up.
pub fn summarize_books(p: &BooksPage) -> (r: Option<SignalContextOrderbook>)
    ensures
        r == book_context(*p),
{
    if p.snapshot_count == 0 {
        return None;
    }
    let bid = best_bid(&p.last_bids);
    let ask = best_ask(&p.last_asks);
    let both = bid.is_some() && ask.is_some();
    Some(
        SignalContextOrderbook {
            best_bid: bid,
            best_ask: ask,
            mid: if both {
                Some(p.mid)
            } else {
                None
            },
            spread: if both {
                Some(p.spread)
            } else {
                None
            },
            snapshot_count: Some(p.snapshot_count),
        },
    )
}

/// Something that a wallet did: of what kind, and its JSON text.
#[derive(Debug)]
pub struct ActivityItem {
    pub side: String,
    pub json: String,
}

pub open spec fn activity_sides(items: Seq<ActivityItem>) -> Seq<Seq<char>> {
    items.map_values(|a: ActivityItem| a.side@)
}

pub open spec fn activity_texts(items: Seq<ActivityItem>) -> Seq<Seq<char>> {
    items.map_values(|a: ActivityItem| a.json@)
}

/// What a wallet did, in figures.
pub open spec fn is_activity(r: SignalContextActivity, items: Seq<ActivityItem>) -> bool {
    &&& r.count == items.len()
    &&& r.merge_count == side_count(activity_sides(items), "MERGE"@)
    &&& r.split_count == side_count(activity_sides(items), "SPLIT"@)
    &&& r.redeem_count == side_count(activity_sides(items), "REDEEM"@)
    &&& if items.len() > 0 {
        is_sample(r.sample, activity_texts(items), 25)
    } else {
        r.sample is None
    }
}

proof fn lemma_kinds_differ()
    ensures
        "MERGE"@ != "SPLIT"@,
        "MERGE"@ != "REDEEM"@,
        "SPLIT"@ != "REDEEM"@,
{
    reveal_strlit("MERGE");
    reveal_strlit("SPLIT");
    reveal_strlit("REDEEM");
    assert("MERGE"@[0] == 'M');
    assert("SPLIT"@[0] == 'S');
    assert("REDEEM"@[0] == 'R');
}

/// Puts what a wallet did into figures.
pub fn summarize_activity(items: &Vec<ActivityItem>) -> (r: SignalContextActivity)
    ensures
        is_activity(r, items@),
{
    let ghost sides = activity_sides(items@);
    let mut merge_count: usize = 0;
    let mut split_count: usize = 0;
    let mut redeem_count: usize = 0;
    let mut texts: Vec<String> = Vec::new();
    let mut i: usize = 0;
    assert(views(texts@) =~= activity_texts(items@).take(0));
    while i < items.len()
        invariant
            i <= items.len(),
            sides == activity_sides(items@),
            merge_count <= i,
            split_count <= i,
            redeem_count <= i,
            merge_count == side_count(sides.take(i as int), "MERGE"@),
            split_count == side_count(sides.take(i as int), "SPLIT"@),
            redeem_count == side_count(sides.take(i as int), "REDEEM"@),
            views(texts@) == activity_texts(items@).take(i as int),
        decreases items.len() - i,
    {
        assert(sides.take(i as int + 1).drop_last() =~= sides.take(i as int));
        proof {
            lemma_kinds_differ();
        }
        if same(items[i].side.as_str(), "MERGE") {
            merge_count = merge_count + 1;
        } else if same(items[i].side.as_str(), "SPLIT") {
            split_count = split_count + 1;
        } else if same(items[i].side.as_str(), "REDEEM") {
            redeem_count = redeem_count + 1;
        }
        let ghost before = texts@;
        texts.push(items[i].json.clone());
        assert(views(texts@) =~= views(before).push(items[i as int].json@));
        assert(views(texts@) =~= activity_texts(items@).take(i as int + 1));
        i = i + 1;
    }
    assert(sides.take(i as int) =~= sides);
    assert(views(texts@) =~= activity_texts(items@));
    let sample = if items.len() > 0 {
        Some(truncate_json_array(JsonText::Array(texts), 25))
    } else {
        None
    };
    SignalContextActivity { count: items.len(), merge_count, split_count, redeem_count, sample }
}

/// The profit of a wallet at an instant, as far as both can be read.
#[derive(Clone, Copy, Debug, PartialEq, Eq, Structural)]
pub struct PnlEntry {
    pub timestamp: Option<i64>,
    pub pnl_to_date: Option<Scalar>,
}

/// The instant of an entry, the epoch where it cannot be read.
pub open spec fn entry_ts(e: PnlEntry) -> i64 {
    match e.timestamp {
        Some(t) => t,
        None => 0,
    }
}

/// The profit of an entry, zero where it cannot be read.
pub open spec fn entry_pnl(e: PnlEntry) -> Scalar {
    match e.pnl_to_date {
        Some(p) => p,
        None => Scalar::Rank(0),
    }
}

/// The entry at `i` is the latest that is not after an instant; the first of equally late
/// ones.
pub open spec fn is_latest_at(entries: Seq<PnlEntry>, target: i64, i: int) -> bool {
    &&& 0 <= i < entries.len()
    &&& entry_ts(entries[i]) <= target
    &&& forall|j: int|
        #![trigger entries[j]]
        0 <= j < entries.len() && entry_ts(entries[j]) <= target ==> entry_ts(entries[j]) <= entry_ts(
            entries[i],
        )
    &&& forall|j: int|
        #![trigger entries[j]]
        0 <= j < i && entry_ts(entries[j]) <= target ==> entry_ts(entries[j]) < entry_ts(entries[i])
}

/// The profit at an instant: that of the latest entry not after it.
pub open spec fn is_pnl_at(entries: Seq<PnlEntry>, target: i64, r: Option<Scalar>) -> bool {
    match r {
        None => forall|j: int|
            #![trigger entries[j]]
            0 <= j < entries.len() ==> entry_ts(entries[j]) > target,
        Some(p) => exists|i: int| is_latest_at(entries, target, i) && p == entry_pnl(#[trigger] entries[i]),
    }
}

/// Finds the profit at an instant.
pub fn find_pnl_at_time(entries: &Vec<PnlEntry>, target_ts: i64) -> (r: Option<Scalar>)
    ensures
        is_pnl_at(entries@, target_ts, r),
{
    let mut at: Option<usize> = None;
    let mut at_ts: i64 = 0;
    let mut i: usize = 0;
    while i < entries.len()
        invariant
            i <= entries.len(),
            match at {
                None => forall|j: int|
                    #![trigger entries[j]]
                    0 <= j < i ==> entry_ts(entries[j]) > target_ts,
                Some(a) => {
                    &&& a < i
                    &&& at_ts == entry_ts(entries[a as int])
                    &&& at_ts <= target_ts
                    &&& forall|j: int|
                        #![trigger entries[j]]
                        0 <= j < i && entry_ts(entries[j]) <= target_ts ==> entry_ts(entries[j])
                            <= at_ts
                    &&& forall|j: int|
                        #![trigger entries[j]]
                        0 <= j < a && entry_ts(entries[j]) <= target_ts ==> entry_ts(entries[j])
                            < at_ts
                },
            },
        decreases entries.len() - i,
    {
        let ts: i64 = match entries[i].timestamp {
            Some(t) => t,
            None => 0,
        };
        if ts <= target_ts {
            match at {
                None => {
                    at = Some(i);
                    at_ts = ts;
                },
                Some(_) => {
                    if ts > at_ts {
                        at = Some(i);
                        at_ts = ts;
                    }
                },
            }
        }
        i = i + 1;
    }
    match at {
        None => None,
        Some(a) => {
            assert(is_latest_at(entries@, target_ts, a as int));
            match entries[a].pnl_to_date {
                Some(p) => Some(p),
                None => Some(Scalar::Rank(0)),
            }
        },
    }
}

/// A profit at an instant.
#[derive(Clone, Copy, Debug, PartialEq, Eq, Structural)]
pub struct PnlPoint {
    pub ts: i64,
    pub pnl: Scalar,
}

/// The entries that can be read whole.
pub open spec fn whole_entries(entries: Seq<PnlEntry>) -> Seq<PnlPoint>
    decreases entries.len(),
{
    if entries.len() == 0 {
        Seq::empty()
    } else {
        let before = whole_entries(entries.drop_last());
        match (entries.last().timestamp, entries.last().pnl_to_date) {
            (Some(ts), Some(pnl)) => before.push(PnlPoint { ts, pnl }),
            _ => before,
        }
    }
}

/// A step from one profit to the next: when it was over, and both profits.
#[derive(Clone, Copy, Debug, PartialEq, Eq, Structural)]
pub struct PnlStep {
    pub ts: i64,
    pub before: Scalar,
    pub after: Scalar,
}

/// The instants of points.
pub open spec fn point_keys(p: Seq<PnlPoint>) -> Seq<i64> {
    p.map_values(|x: PnlPoint| x.ts)
}

/// The steps between points in the order of `perm`.
pub open spec fn steps_between(p: Seq<PnlPoint>, perm: Seq<usize>) -> Seq<PnlStep> {
    Seq::new(
        if perm.len() == 0 {
            0
        } else {
            (perm.len() - 1) as nat
        },
        |i: int|
            PnlStep {
                ts: p[perm[i + 1] as int].ts,
                before: p[perm[i] as int].pnl,
                after: p[perm[i + 1] as int].pnl,
            },
    )
}

/// The steps of a profit over time.
pub fn extract_pnl_deltas(entries: &Vec<PnlEntry>) -> (r: Vec<PnlStep>)
    ensures
        exists|perm: Seq<usize>| #[trigger]
            is_stable_order(point_keys(whole_entries(entries@)), perm) && r@ == steps_between(
                whole_entries(entries@),
                perm,
            ),
{
    let mut points: Vec<PnlPoint> = Vec::new();
    let mut keys: Vec<i64> = Vec::new();
    let mut i: usize = 0;
    assert(keys@ =~= point_keys(whole_entries(entries@.take(0))));
    while i < entries.len()
        invariant
            i <= entries.len(),
            points@ == whole_entries(entries@.take(i as int)),
            keys@ == point_keys(points@),
        decreases entries.len() - i,
    {
        assert(entries@.take(i as int + 1).drop_last() =~= entries@.take(i as int));
        let ghost before = points@;
        match (entries[i].timestamp, entries[i].pnl_to_date) {
            (Some(ts), Some(pnl)) => {
                points.push(PnlPoint { ts, pnl });
                keys.push(ts);
                assert(keys@ =~= point_keys(points@));
            },
            _ => {},
        }
        i = i + 1;
    }
    assert(entries@.take(i as int) =~= entries@);
    let perm = stable_order(&keys);
    let mut steps: Vec<PnlStep> = Vec::new();
    if perm.len() == 0 {
        assert(steps@ =~= steps_between(points@, perm@));
        return steps;
    }
    let mut j: usize = 1;
    while j < perm.len()
        invariant
            1 <= j <= perm.len(),
            keys.len() == points.len(),
            keys@ == point_keys(points@),
            is_stable_order(keys@, perm@),
            steps@ == steps_between(points@, perm@).take(j - 1),
        decreases perm.len() - j,
    {
        assert(0 <= perm[j as int] < points.len());
        assert(0 <= perm[j - 1] < points.len());
        let a = points[perm[j - 1]];
        let b = points[perm[j]];
        steps.push(PnlStep { ts: b.ts, before: a.pnl, after: b.pnl });
        assert(steps@ =~= steps_between(points@, perm@).take(j as int));
        j = j + 1;
    }
    assert(steps@ =~= steps_between(points@, perm@));
    steps
}

/// A difference and when it came.
#[derive(Clone, Copy, Debug, PartialEq, Eq, Structural)]
pub struct PnlDelta {
    pub ts: i64,
    pub delta: Scalar,
}

/// The differences from an instant on.
pub open spec fn deltas_from(deltas: Seq<PnlDelta>, cutoff: i64) -> Seq<Scalar>
    decreases deltas.len(),
{
    if deltas.len() == 0 {
        Seq::empty()
    } else if deltas.last().ts >= cutoff {
        deltas_from(deltas.drop_last(), cutoff).push(deltas.last().delta)
    } else {
        deltas_from(deltas.drop_last(), cutoff)
    }
}

/// The differences from an instant on, where there are three at least.
pub fn sharpe_window(deltas: &Vec<PnlDelta>, cutoff_ts: i64) -> (r: Option<Vec<Scalar>>)
    ensures
        match r {
            Some(w) => w@ == deltas_from(deltas@, cutoff_ts) && w.len() >= 3,
            None => deltas_from(deltas@, cutoff_ts).len() < 3,
        },
{
    let mut w: Vec<Scalar> = Vec::new();
    let mut i: usize = 0;
    while i < deltas.len()
        invariant
            i <= deltas.len(),
            w@ == deltas_from(deltas@.take(i as int), cutoff_ts),
        decreases deltas.len() - i,
    {
        assert(deltas@.take(i as int + 1).drop_last() =~= deltas@.take(i as int));
        if deltas[i].ts >= cutoff_ts {
            w.push(deltas[i].delta);
        }
        i = i + 1;
    }
    assert(deltas@.take(i as int) =~= deltas@);
    if w.len() < 3 {
        None
    } else {
        Some(w)
    }
}

/// The ratio of mean and spread over a year, where the spread is finite and not zero.
pub fn compute_sharpe(std: Scalar, ratio: Scalar) -> (r: Option<Scalar>)
    ensures
        r == if !std.spec_is_finite() || std == Scalar::Rank(0) {
            None
        } else {
            Some(ratio)
        },
{
    if !std.is_finite() {
        return None;
    }
    match std {
        Scalar::Rank(a) => if a == 0 {
            None
        } else {
            Some(ratio)
        },
        Scalar::Undefined => None,
    }
}

/// The instants from which the profits of a wallet are told.
#[derive(Clone, Copy, Debug, PartialEq, Eq, Structural)]
pub struct PnlCutoffs {
    pub day_7: i64,
    pub day_14: i64,
    pub day_30: i64,
    pub day_90: i64,
}

pub fn pnl_cutoffs(now: i64) -> (r: PnlCutoffs)
    requires
        now >= i64::MIN + 7_776_000,
    ensures
        r.day_7 == now - 604_800,
        r.day_14 == now - 1_209_600,
        r.day_30 == now - 2_592_000,
        r.day_90 == now - 7_776_000,
{
    PnlCutoffs {
        day_7: now - 604_800,
        day_14: now - 1_209_600,
        day_30: now - 2_592_000,
        day_90: now - 7_776_000,
    }
}

/// The profits of a wallet: in the last days, and their ratios.
#[derive(Clone, Copy, Debug, PartialEq, Eq, Structural)]
pub struct PnlMetrics {
    pub pnl_7d: Option<Scalar>,
    pub pnl_14d: Option<Scalar>,
    pub pnl_30d: Option<Scalar>,
    pub pnl_90d: Option<Scalar>,
    pub sharpe_7d: Option<Scalar>,
    pub sharpe_14d: Option<Scalar>,
    pub sharpe_30d: Option<Scalar>,
    pub sharpe_90d: Option<Scalar>,
}

/// The profit that was made at last, zero where it cannot be read.
pub fn latest_pnl(entries: &Vec<PnlEntry>) -> (r: Scalar)
    ensures
        r == if entries.len() == 0 {
            Scalar::Rank(0)
        } else {
            entry_pnl(entries@.last())
        },
{
    if entries.len() == 0 {
        return Scalar::Rank(0);
    }
    match entries[entries.len() - 1].pnl_to_date {
        Some(p) => p,
        None => Scalar::Rank(0),
    }
}

/// The figures of a period: the latest profit less the one at its start, how far the
/// differences in it are spread, and the ratio of their mean and that over a year.
#[derive(Clone, Copy, Debug, PartialEq, Eq, Structural)]
pub struct PeriodFigures {
    pub difference: Scalar,
    pub std: Scalar,
    pub ratio: Scalar,
}

/// The figures of the periods.
#[derive(Clone, Copy, Debug, PartialEq, Eq, Structural)]
pub struct PnlFigures {
    pub day_7: PeriodFigures,
    pub day_14: PeriodFigures,
    pub day_30: PeriodFigures,
    pub day_90: PeriodFigures,
}

/// What was earned since an instant, where something is known not after it.
pub open spec fn earned_since(entries: Seq<PnlEntry>, cutoff: i64, f: PeriodFigures) -> Option<Scalar> {
    if exists|j: int| 0 <= j < entries.len() && entry_ts(#[trigger] entries[j]) <= cutoff {
        Some(f.difference)
    } else {
        None
    }
}

/// The ratio since an instant, where there are three differences at least and they are
/// spread.
pub open spec fn ratio_since(deltas: Seq<PnlDelta>, cutoff: i64, f: PeriodFigures) -> Option<Scalar> {
    if deltas_from(deltas, cutoff).len() < 3 || !f.std.spec_is_finite() || f.std == Scalar::Rank(0) {
        None
    } else {
        Some(f.ratio)
    }
}

/// What a wallet earned, by what was written down of it.
pub open spec fn metrics_of(entries: Seq<PnlEntry>, deltas: Seq<PnlDelta>, now: int, f: PnlFigures) -> PnlMetrics {
    if entries.len() == 0 {
        no_metrics()
    } else {
        PnlMetrics {
            pnl_7d: earned_since(entries, (now - 604_800) as i64, f.day_7),
            pnl_14d: earned_since(entries, (now - 1_209_600) as i64, f.day_14),
            pnl_30d: earned_since(entries, (now - 2_592_000) as i64, f.day_30),
            pnl_90d: earned_since(entries, (now - 7_776_000) as i64, f.day_90),
            sharpe_7d: ratio_since(deltas, (now - 604_800) as i64, f.day_7),
            sharpe_14d: ratio_since(deltas, (now - 1_209_600) as i64, f.day_14),
            sharpe_30d: ratio_since(deltas, (now - 2_592_000) as i64, f.day_30),
            sharpe_90d: ratio_since(deltas, (now - 7_776_000) as i64, f.day_90),
        }
    }
}

fn earned(entries: &Vec<PnlEntry>, cutoff: i64, f: &PeriodFigures) -> (r: Option<Scalar>)
    ensures
        r == earned_since(entries@, cutoff, *f),
{
    match find_pnl_at_time(entries, cutoff) {
        Some(_) => {
            let ghost i = choose|i: int| #[trigger] is_latest_at(entries@, cutoff, i);
            assert(is_latest_at(entries@, cutoff, i) && entry_ts(entries@[i]) <= cutoff);
            Some(f.difference)
        },
        None => None,
    }
}

fn yearly_ratio(deltas: &Vec<PnlDelta>, cutoff: i64, f: &PeriodFigures) -> (r: Option<Scalar>)
    ensures
        r == ratio_since(deltas@, cutoff, *f),
{
    match sharpe_window(deltas, cutoff) {
        Some(_) => compute_sharpe(f.std, f.ratio),
        None => None,
    }
}

/// Tells what a wallet earned over a week, two weeks, a month and a quarter.
pub fn compute_wallet_pnl_metrics(
    entries: &Vec<PnlEntry>,
    deltas: &Vec<PnlDelta>,
    now: i64,
    f: &PnlFigures,
) -> (r: PnlMetrics)
    requires
        now >= i64::MIN + 7_776_000,
    ensures
        r == metrics_of(entries@, deltas@, now as int, *f),
{
    if entries.len() == 0 {
        return PnlMetrics {
            pnl_7d: None,
            pnl_14d: None,
            pnl_30d: None,
            pnl_90d: None,
            sharpe_7d: None,
            sharpe_14d: None,
            sharpe_30d: None,
            sharpe_90d: None,
        };
    }
    let c = pnl_cutoffs(now);
    PnlMetrics {
        pnl_7d: earned(entries, c.day_7, &f.day_7),
        pnl_14d: earned(entries, c.day_14, &f.day_14),
        pnl_30d: earned(entries, c.day_30, &f.day_30),
        pnl_90d: earned(entries, c.day_90, &f.day_90),
        sharpe_7d: yearly_ratio(deltas, c.day_7, &f.day_7),
        sharpe_14d: yearly_ratio(deltas, c.day_14, &f.day_14),
        sharpe_30d: yearly_ratio(deltas, c.day_30, &f.day_30),
        sharpe_90d: yearly_ratio(deltas, c.day_90, &f.day_90),
    }
}

/// The profits of a wallet over time as they were told, the difference of each step of
/// them, and the figures of the periods.
#[derive(Debug)]
pub struct PnlInputs {
    pub entries: Vec<PnlEntry>,
    pub differences: Vec<Scalar>,
    pub figures: PnlFigures,
}

impl PnlInputs {
    /// Whether there is a difference for each step.
    pub open spec fn wf(self) -> bool {
        self.differences.len() == if whole_entries(self.entries@).len() == 0 {
            0
        } else {
            whole_entries(self.entries@).len() - 1
        }
    }
}

/// The differences of steps, each when its step was over.
pub open spec fn deltas_at(steps: Seq<PnlStep>, differences: Seq<Scalar>) -> Seq<PnlDelta> {
    Seq::new(steps.len(), |i: int| PnlDelta { ts: steps[i].ts, delta: differences[i] })
}

/// No profits.
pub open spec fn no_metrics() -> PnlMetrics {
    PnlMetrics {
        pnl_7d: None,
        pnl_14d: None,
        pnl_30d: None,
        pnl_90d: None,
        sharpe_7d: None,
        sharpe_14d: None,
        sharpe_30d: None,
        sharpe_90d: None,
    }
}

/// What a wallet earned: nothing where nothing was told.
pub open spec fn is_pnl(m: PnlMetrics, told: bool, p: PnlInputs, now: int) -> bool {
    if !told {
        m == no_metrics()
    } else {
        let points = whole_entries(p.entries@);
        exists|perm: Seq<usize>| #[trigger]
            is_stable_order(point_keys(points), perm) && m == metrics_of(
                p.entries@,
                deltas_at(steps_between(points, perm), p.differences@),
                now,
                p.figures,
            )
    }
}

/// Tells what a wallet earned by its profits over time, where they were told.
pub fn wallet_pnl_metrics(told: bool, p: &PnlInputs, now: i64) -> (r: PnlMetrics)
    requires
        p.wf(),
        now >= i64::MIN + 7_776_000,
    ensures
        is_pnl(r, told, *p, now as int),
{
    if !told {
        return PnlMetrics {
            pnl_7d: None,
            pnl_14d: None,
            pnl_30d: None,
            pnl_90d: None,
            sharpe_7d: None,
            sharpe_14d: None,
            sharpe_30d: None,
            sharpe_90d: None,
        };
    }
    let steps = extract_pnl_deltas(&p.entries);
    let ghost points = whole_entries(p.entries@);
    let ghost perm = choose|perm: Seq<usize>| #[trigger]
        is_stable_order(point_keys(points), perm) && steps@ == steps_between(points, perm);
    assert(steps.len() == p.differences.len());
    let mut deltas: Vec<PnlDelta> = Vec::new();
    let mut i: usize = 0;
    while i < steps.len()
        invariant
            i <= steps.len(),
            steps.len() == p.differences.len(),
            deltas@ == deltas_at(steps@, p.differences@).take(i as int),
        decreases steps.len() - i,
    {
        deltas.push(PnlDelta { ts: steps[i].ts, delta: p.differences[i] });
        assert(deltas@ =~= deltas_at(steps@, p.differences@).take(i as int + 1));
        i = i + 1;
    }
    assert(deltas@ =~= deltas_at(steps@, p.differences@));
    compute_wallet_pnl_metrics(&p.entries, &deltas, now, &p.figures)
}

/// The figures of a price and the profits: what the price moved; that by the first price
/// and as it is, in basis points; and what the wallet trades on average.
#[derive(Debug)]
pub struct DerivedNumbers {
    pub delta: Scalar,
    pub relative_bps: Scalar,
    pub absolute_bps: Scalar,
    pub entry_value: Scalar,
    pub average_value: Scalar,
    pub profits: PnlInputs,
}

/// What follows from what was found out.
pub open spec fn derived_of(
    price: Option<SignalContextPrice>,
    book: Option<SignalContextOrderbook>,
    wallet_flow: Option<TradeFlowSummary>,
    pnl: PnlMetrics,
    n: DerivedNumbers,
) -> SignalContextDerived {
    let both = price matches Some(p) && p.at_entry is Some && p.latest is Some;
    SignalContextDerived {
        price_delta_abs: if both {
            Some(n.delta)
        } else {
            None
        },
        price_delta_bps: if both {
            Some(
                if Scalar::Rank(0).spec_lt(price->0.at_entry->0.price) {
                    n.relative_bps
                } else {
                    n.absolute_bps
                },
            )
        } else {
            None
        },
        entry_value_usd: Some(n.entry_value),
        spread_at_entry: match book {
            Some(b) => b.spread,
            None => None,
        },
        pnl_7d: pnl.pnl_7d,
        pnl_14d: pnl.pnl_14d,
        pnl_30d: pnl.pnl_30d,
        pnl_90d: pnl.pnl_90d,
        sharpe_7d: pnl.sharpe_7d,
        sharpe_14d: pnl.sharpe_14d,
        sharpe_30d: pnl.sharpe_30d,
        sharpe_90d: pnl.sharpe_90d,
        avg_trade_value_24h: match wallet_flow {
            Some(w) => if w.count == 0 {
                None
            } else {
                Some(n.average_value)
            },
            None => None,
        },
        trade_count_24h: match wallet_flow {
            Some(w) => Some(w.count as u32),
            None => None,
        },
    }
}

/// Derives what follows from what was found out.
pub fn derive_fields(
    price: &Option<SignalContextPrice>,
    book: &Option<SignalContextOrderbook>,
    wallet_flow: &Option<TradeFlowSummary>,
    pnl: &PnlMetrics,
    n: &DerivedNumbers,
) -> (r: SignalContextDerived)
    ensures
        r == derived_of(*price, *book, *wallet_flow, *pnl, *n),
{
    let entry_price = match price {
        Some(p) => match (p.at_entry, p.latest) {
            (Some(e), Some(_)) => Some(e.price),
            _ => None,
        },
        None => None,
    };
    let (abs, bps) = match entry_price {
        Some(e) => (
            Some(n.delta),
            Some(
                if Scalar::Rank(0).lt(e) {
                    n.relative_bps
                } else {
                    n.absolute_bps
                },
            ),
        ),
        None => (None, None),
    };
    let spread = match book {
        Some(b) => b.spread,
        None => None,
    };
    let (average, count) = match wallet_flow {
        Some(w) => (
            if w.count == 0 {
                None
            } else {
                Some(n.average_value)
            },
            Some(w.count as u32),
        ),
        None => (None, None),
    };
    SignalContextDerived {
        price_delta_abs: abs,
        price_delta_bps: bps,
        entry_value_usd: Some(n.entry_value),
        spread_at_entry: spread,
        pnl_7d: pnl.pnl_7d,
        pnl_14d: pnl.pnl_14d,
        pnl_30d: pnl.pnl_30d,
        pnl_90d: pnl.pnl_90d,
        sharpe_7d: pnl.sharpe_7d,
        sharpe_14d: pnl.sharpe_14d,
        sharpe_30d: pnl.sharpe_30d,
        sharpe_90d: pnl.sharpe_90d,
        avg_trade_value_24h: average,
        trade_count_24h: count,
    }
}

/// The answers about an order: what was asked for, or what went wrong.
#[derive(Debug)]
pub struct JobAnswers {
    pub market: Result<Option<String>, String>,
    pub price_entry: Result<MarketPriceSnapshot, String>,
    pub price_latest: Result<MarketPriceSnapshot, String>,
    pub market_orders: Result<OrdersPage, String>,
    pub wallet_orders: Result<OrdersPage, String>,
    pub orderbooks: Result<BooksPage, String>,
    pub activity: Result<Vec<ActivityItem>, String>,
    pub candlesticks: Result<String, String>,
    pub wallet: Result<Option<String>, String>,
    pub wallet_pnl: Result<Option<String>, String>,
}

/// What is written down of an answer: nothing, or what was asked for and what went wrong.
pub open spec fn fault<T>(prefix: Seq<char>, a: Result<T, String>) -> Seq<Seq<char>> {
    match a {
        Ok(_) => Seq::empty(),
        Err(e) => seq![prefix + e@],
    }
}

/// All that went wrong, in order.
pub open spec fn faults(a: JobAnswers) -> Seq<Seq<char>> {
    fault("markets: "@, a.market) + fault("market_price_at_entry: "@, a.price_entry) + fault(
        "market_price_latest: "@,
        a.price_latest,
    ) + fault("orders_market: "@, a.market_orders) + fault("orders_wallet: "@, a.wallet_orders)
        + fault("orderbooks: "@, a.orderbooks) + fault("activity: "@, a.activity) + fault(
        "candlesticks: "@,
        a.candlesticks,
    ) + fault("wallet: "@, a.wallet) + fault("wallet_pnl: "@, a.wallet_pnl)
}

/// The good part of an answer.
pub open spec fn good<T>(a: Result<T, String>) -> Option<T> {
    match a {
        Ok(v) => Some(v),
        Err(_) => None,
    }
}

/// An answer that may be empty.
pub open spec fn good_flat<T>(a: Result<Option<T>, String>) -> Option<T> {
    match a {
        Ok(v) => v,
        Err(_) => None,
    }
}

fn take_good<T>(errors: &mut Vec<String>, prefix: &str, a: Result<T, String>) -> (r: Option<T>)
    ensures
        r == good(a),
        views(final(errors)@) == views(old(errors)@) + fault(prefix@, a),
{
    match a {
        Ok(v) => {
            assert(views(errors@) + Seq::<Seq<char>>::empty() =~= views(errors@));
            Some(v)
        },
        Err(e) => {
            let ghost before = errors@;
            let line = joined(prefix, e.as_str());
            errors.push(line);
            assert(views(errors@) =~= views(before) + seq![line@]);
            None
        },
    }
}

/// The prices of an order, where there is one at least.
pub open spec fn prices_of(a: JobAnswers) -> Option<SignalContextPrice> {
    if good(a.price_entry) is Some || good(a.price_latest) is Some {
        Some(SignalContextPrice { at_entry: good(a.price_entry), latest: good(a.price_latest) })
    } else {
        None
    }
}

/// The figures of orders that were told.
pub open spec fn flow_in(a: Result<OrdersPage, String>) -> Option<TradeFlowSummary> {
    match a {
        Ok(p) => Some(flow_of(p, upper_sides(p.orders@))),
        Err(_) => None,
    }
}

/// The sample of orders that were told.
pub open spec fn sample_in(s: Option<JsonText>, a: Result<OrdersPage, String>) -> bool {
    match a {
        Ok(p) => is_sample(s, order_texts(p.orders@), 50),
        Err(_) => s is None,
    }
}

/// What is found out about the order behind a signal.
pub open spec fn is_context(
    c: SignalContext,
    job: EnrichmentJob,
    a: JobAnswers,
    n: DerivedNumbers,
    now: int,
) -> bool {
    &&& is_order_of(c.order, job)
    &&& c.market == good_flat(a.market)
    &&& c.price == prices_of(a)
    &&& match c.trade_history {
        None => a.market_orders is Err && a.wallet_orders is Err,
        Some(t) => {
            &&& a.market_orders is Ok || a.wallet_orders is Ok
            &&& t.market_flow_1h == flow_in(a.market_orders)
            &&& t.wallet_flow_24h == flow_in(a.wallet_orders)
            &&& sample_in(t.sample_market_orders, a.market_orders)
            &&& sample_in(t.sample_wallet_orders, a.wallet_orders)
        },
    }
    &&& c.orderbook == match a.orderbooks {
        Ok(p) => book_context(p),
        Err(_) => None,
    }
    &&& match a.activity {
        Ok(items) => c.activity matches Some(t) && is_activity(t, items@),
        Err(_) => c.activity is None,
    }
    &&& c.candlesticks == good(a.candlesticks)
    &&& c.wallet == good_flat(a.wallet)
    &&& c.wallet_pnl == good_flat(a.wallet_pnl)
    &&& exists|m: PnlMetrics| #[trigger]
        is_pnl(m, good_flat(a.wallet_pnl) is Some, n.profits, now) && c.derived == derived_of(
            prices_of(a),
            c.orderbook,
            flow_in(a.wallet_orders),
            m,
            n,
        )
    &&& views(c.errors@) == faults(a)
}

/// The order behind a signal.
pub open spec fn is_order_of(o: SignalContextOrder, job: EnrichmentJob) -> bool {
    &&& o.user@ == job.user@
    &&& o.market_slug@ == job.market_slug@
    &&& o.condition_id@ == job.condition_id@
    &&& o.token_id@ == job.token_id@
    &&& text_view(o.token_label) == text_view(job.token_label)
    &&& o.side@ == job.side@
    &&& o.price == job.price
    &&& o.shares_normalized == job.shares_normalized
    &&& o.timestamp == job.timestamp
    &&& o.order_hash@ == job.order_hash@
    &&& o.tx_hash@ == job.tx_hash@
    &&& o.title@ == job.title@
}

/// Whether anything was found out.
pub open spec fn has_anything(c: SignalContext) -> bool {
    c.market is Some || c.price is Some || c.trade_history is Some || c.orderbook is Some
        || c.activity is Some || c.candlesticks is Some || c.wallet is Some || c.wallet_pnl is Some
}

/// How well it went.
pub open spec fn status_of(c: SignalContext) -> Seq<char> {
    if c.errors.len() == 0 {
        "ok"@
    } else if has_anything(c) {
        "partial"@
    } else {
        "failed"@
    }
}

fn order_of(job: &EnrichmentJob) -> (r: SignalContextOrder)
    ensures
        is_order_of(r, *job),
{
    SignalContextOrder {
        user: job.user.clone(),
        market_slug: job.market_slug.clone(),
        condition_id: job.condition_id.clone(),
        token_id: job.token_id.clone(),
        token_label: text_copy(&job.token_label),
        side: job.side.clone(),
        price: job.price,
        shares_normalized: job.shares_normalized,
        timestamp: job.timestamp,
        order_hash: job.order_hash.clone(),
        tx_hash: job.tx_hash.clone(),
        title: job.title.clone(),
    }
}

/// Puts the answers about an order together.
pub fn assemble_context(job: &EnrichmentJob, answers: JobAnswers, n: &DerivedNumbers, now: i64) -> (r:
    SignalContext)
    requires
        n.profits.wf(),
        now >= i64::MIN + 7_776_000,
    ensures
        is_context(r, *job, answers, *n, now as int),
{
    let ghost all = answers;
    let JobAnswers {
        market,
        price_entry,
        price_latest,
        market_orders,
        wallet_orders,
        orderbooks,
        activity,
        candlesticks,
        wallet,
        wallet_pnl,
    } = answers;
    let mut errors: Vec<String> = Vec::new();
    assert(views(errors@) =~= Seq::<Seq<char>>::empty());
    let market = match take_good(&mut errors, "markets: ", market) {
        Some(v) => v,
        None => None,
    };
    assert(views(errors@) =~= fault("markets: "@, all.market));
    let at_entry = take_good(&mut errors, "market_price_at_entry: ", price_entry);
    let latest = take_good(&mut errors, "market_price_latest: ", price_latest);
    let price = if at_entry.is_some() || latest.is_some() {
        Some(SignalContextPrice { at_entry, latest })
    } else {
        None
    };
    let market_page = take_good(&mut errors, "orders_market: ", market_orders);
    let wallet_page = take_good(&mut errors, "orders_wallet: ", wallet_orders);
    let (market_flow_1h, sample_market_orders) = match &market_page {
        Some(p) => (Some(summarize_orders(p)), sample_orders(&p.orders)),
        None => (None, None),
    };
    let (wallet_flow_24h, sample_wallet_orders) = match &wallet_page {
        Some(p) => (Some(summarize_orders(p)), sample_orders(&p.orders)),
        None => (None, None),
    };
    let trade_history = if market_flow_1h.is_some() || wallet_flow_24h.is_some() {
        Some(
            SignalContextTradeHistory {
                market_flow_1h,
                wallet_flow_24h,
                sample_market_orders,
                sample_wallet_orders,
            },
        )
    } else {
        None
    };
    let orderbook = match take_good(&mut errors, "orderbooks: ", orderbooks) {
        Some(p) => summarize_books(&p),
        None => None,
    };
    let activity = match take_good(&mut errors, "activity: ", activity) {
        Some(items) => Some(summarize_activity(&items)),
        None => None,
    };
    let candlesticks = take_good(&mut errors, "candlesticks: ", candlesticks);
    let wallet = match take_good(&mut errors, "wallet: ", wallet) {
        Some(v) => v,
        None => None,
    };
    let wallet_pnl = match take_good(&mut errors, "wallet_pnl: ", wallet_pnl) {
        Some(v) => v,
        None => None,
    };
    let pnl = wallet_pnl_metrics(wallet_pnl.is_some(), &n.profits, now);
    let derived = derive_fields(&price, &orderbook, &wallet_flow_24h, &pnl, n);
    SignalContext {
        order: order_of(job),
        market,
        price,
        trade_history,
        orderbook,
        activity,
        candlesticks,
        wallet,
        wallet_pnl,
        derived,
        errors,
    }
}

/// Finds out about the order behind a signal: puts the answers together, and says how well
/// it went. `version` is that of what was found out before.
pub fn process_job(
    job: EnrichmentJob,
    answers: JobAnswers,
    n: &DerivedNumbers,
    version: Option<i64>,
    enriched_at: i64,
) -> (r: SignalContextUpdate)
    requires
        version matches Some(v) ==> v < i64::MAX,
        n.profits.wf(),
        enriched_at >= i64::MIN + 7_776_000,
    ensures
        r.signal_id == job.signal_id,
        r.context_version == match version {
            Some(v) => v + 1,
            None => 1,
        },
        r.enriched_at == enriched_at,
        is_context(r.context, job, answers, *n, enriched_at as int),
        r.status@ == status_of(r.context),
        text_view(r.error) == if r.context.errors.len() > 0 && !has_anything(r.context) {
            Some(join_views(faults(answers), " | "@))
        } else {
            None
        },
{
    let context = assemble_context(&job, answers, n, enriched_at);
    let context_version: i64 = match version {
        Some(v) => v + 1,
        None => 1,
    };
    let any = context.market.is_some() || context.price.is_some() || context.trade_history.is_some()
        || context.orderbook.is_some() || context.activity.is_some() || context.candlesticks.is_some()
        || context.wallet.is_some() || context.wallet_pnl.is_some();
    let clean = context.errors.len() == 0;
    let status = if clean {
        "ok"
    } else if any {
        "partial"
    } else {
        "failed"
    };
    let error = if !clean && !any {
        Some(join(&context.errors, " | "))
    } else {
        None
    };
    SignalContextUpdate {
        signal_id: job.signal_id,
        context_version,
        enriched_at,
        status: status.to_owned(),
        error,
        context,
    }
}

/// The limits of a service: at least one request at a time.
pub fn at_least_one(n: usize) -> (r: usize)
    ensures
        r == if n > 1 {
            n
        } else {
            1
        },
{
    if n > 1 {
        n
    } else {
        1
    }
}

/// Nothing went wrong if and only if every answer came, and one line is written down for
/// each that did not.
pub proof fn law_every_fault_is_written_down(a: JobAnswers)
    ensures
        faults(a).len() == 0 <==> a.market is Ok && a.price_entry is Ok && a.price_latest is Ok
            && a.market_orders is Ok && a.wallet_orders is Ok && a.orderbooks is Ok && a.activity is Ok
            && a.candlesticks is Ok && a.wallet is Ok && a.wallet_pnl is Ok,
        faults(a).len() <= 10,
{
}

/// A failure means that no answer came, or that those that came hold nothing.
pub proof fn law_failure_means_nothing_was_found(
    c: SignalContext,
    job: EnrichmentJob,
    a: JobAnswers,
    n: DerivedNumbers,
    now: int,
)
    requires
        is_context(c, job, a, n, now),
        c.errors.len() > 0,
        !has_anything(c),
    ensures
        a.price_entry is Err && a.price_latest is Err && a.market_orders is Err && a.wallet_orders is Err
            && a.activity is Err && a.candlesticks is Err,
        good_flat(a.market) is None && good_flat(a.wallet) is None && good_flat(a.wallet_pnl) is None,
        a.orderbooks matches Ok(p) ==> p.snapshot_count == 0,
{
}

proof fn lemma_side_count_bounded(sides: Seq<Seq<char>>)
    ensures
        side_count(sides, "BUY"@) + side_count(sides, "SELL"@) <= sides.len(),
    decreases sides.len(),
{
    lemma_sides_differ();
    if sides.len() > 0 {
        lemma_side_count_bounded(sides.drop_last());
    }
}

/// What is known of a shorter time back is known of no less: where the profit of a period
/// is told, that of a shorter one is too.
pub proof fn law_shorter_periods_are_told(entries: Seq<PnlEntry>, deltas: Seq<PnlDelta>, now: int, f: PnlFigures)
    requires
        i64::MIN + 7_776_000 <= now <= i64::MAX,
    ensures
        ({
            let m = metrics_of(entries, deltas, now, f);
            &&& m.pnl_90d is Some ==> m.pnl_30d is Some
            &&& m.pnl_30d is Some ==> m.pnl_14d is Some
            &&& m.pnl_14d is Some ==> m.pnl_7d is Some
        }),
{
}

/// No order counts twice: purchases and sales together are no more than the orders.
pub proof fn law_flow_counts_each_order_once(page: OrdersPage)
    ensures
        ({
            let f = flow_of(page, upper_sides(page.orders@));
            f.buy_count + f.sell_count <= f.count
        }),
{
    lemma_side_count_bounded(upper_sides(page.orders@));
}

/// What is asked about an order reaches back from its instant: an hour for the market, a day
/// for the wallet, its activity and the candlesticks, five minutes for the books.
pub proof fn law_questions_reach_back_from_the_order(job: EnrichmentJob, r: JobPlan)
    requires
        tells_millis(job.timestamp),
        call_ensures(plan_job, (&job,), r),
    ensures
        r.price_at == job.timestamp,
        r.market_orders.to == job.timestamp && r.market_orders.from == job.timestamp - 60 * 60,
        r.wallet_orders.to == job.timestamp && r.wallet_orders.from == job.timestamp - 24 * 3600,
        r.activity.to == job.timestamp && r.activity.from == job.timestamp - 24 * 3600,
        r.candles.to == job.timestamp && r.candles.from == job.timestamp - 24 * 3600,
        r.books_ms.to == 1000 * job.timestamp && r.books_ms.to - r.books_ms.from == 5 * 60 * 1000,
        r.order_limit == 200 && r.book_limit == 50 && r.activity_limit == 100 && r.candle_minutes == 60,
        r.market_ttl == 30 * 60 && r.wallet_ttl == 24 * 3600 && r.pnl_ttl == 3600,
        r.market_key@ == "market_slug:"@ + job.market_slug@,
        r.wallet_key@ == "wallet:"@ + job.user@,
        r.pnl_key@ == "wallet_pnl_day:"@ + job.user@,
        r.market_url@ == "https://gamma-api.polymarket.com/markets/slug/"@ + job.market_slug@,
{
}

/// An answer is remembered until its time is over, and only where it is a value.
pub proof fn law_answer_is_remembered_for_its_time(
    m: Remembered,
    is_value: bool,
    now: i64,
    ttl_secs: i64,
    r: Option<String>,
)
    requires
        call_ensures(cached_value_under, (m, is_value, now, ttl_secs), r),
    ensures
        r is Some <==> is_value && now <= m.fetched_at + ttl_secs,
        r is Some ==> r->0 == m.json,
{
}

/// The second source is asked where the first one knows nothing or cannot be reached; a
/// refusal is a failure.
pub proof fn law_second_source_is_asked(reply: GammaReply, r: MarketNext)
    requires
        call_ensures(on_gamma, (reply,), r),
    ensures
        r is AskSecond <==> reply is NotFound || reply is Unreachable || reply is Null,
        r is Failed <==> reply is Refused,
        r is Failed ==> r->Failed_0 == reply->Refused_0,
        r is Found <==> reply is Value,
        r is Found ==> r->Found_0 == reply->Value_0,
{
}

/// Tells whether a side is the one that is called so.
pub open spec fn called(side: Seq<char>) -> spec_fn(Seq<char>) -> bool {
    |s: Seq<char>| s == side
}

proof fn lemma_side_count_is_a_count(sides: Seq<Seq<char>>, side: Seq<char>)
    ensures
        side_count(sides, side) == sides.filter(called(side)).len(),
        side_count(sides, side) <= sides.len(),
    decreases sides.len(),
{
    reveal(Seq::filter);
    if sides.len() > 0 {
        lemma_side_count_is_a_count(sides.drop_last(), side);
    }
}

proof fn lemma_greatest_value(values: Seq<Scalar>)
    requires
        forall|i: int| 0 <= i < values.len() ==> (#[trigger] values[i]) is Rank,
    ensures
        values.len() > 0 <==> greatest_value(values) is Some,
        values.len() > 0 ==> greatest_value(values)->0 is Rank && Scalar::Rank(0).spec_le(greatest_value(values)->0) && (
        greatest_value(values)->0 == Scalar::Rank(0) || values.contains(greatest_value(values)->0)),
        forall|i: int| 0 <= i < values.len() ==> (#[trigger] values[i]).spec_le(greatest_value(values)->0),
    decreases values.len(),
{
    if values.len() > 0 {
        let front = values.drop_last();
        assert forall|i: int| 0 <= i < front.len() implies (#[trigger] front[i]) is Rank by {
            assert(front[i] == values[i]);
        }
        lemma_greatest_value(front);
        let g = greatest_value(values)->0;
        assert(values[values.len() - 1] is Rank);
        assert forall|i: int| 0 <= i < values.len() implies (#[trigger] values[i]).spec_le(g) by {
            if i < front.len() {
                assert(front[i] == values[i]);
            }
        }
        if g == values.last() {
            assert(values[values.len() - 1] == g);
        } else if front.len() > 0 && g != Scalar::Rank(0) {
            let i = choose|i: int| 0 <= i < front.len() && front[i] == g;
            assert(values[i] == g);
        }
    }
}

/// Orders are counted by their sides in capitals, and no order is worth more than the one
/// that is told as worth most.
pub proof fn law_flow_counts_sides(page: OrdersPage, sides: Vec<String>, r: TradeFlowSummary, i: int)
    requires
        sides.len() == page.orders.len(),
        call_ensures(summarize_under, (&page, &sides), r),
        forall|k: int| 0 <= k < page.orders.len() ==> (#[trigger] page.orders[k]).value is Rank,
        0 <= i < page.orders.len(),
    ensures
        r.count == page.orders.len(),
        r.buy_count == views(sides@).filter(called("BUY"@)).len(),
        r.sell_count == views(sides@).filter(called("SELL"@)).len(),
        r.total_shares == page.total_shares,
        r.total_value_usd == page.total_value,
        r.max_trade_value_usd is Some,
        page.orders[i].value.spec_le(r.max_trade_value_usd->0),
        r.max_trade_value_usd->0 == Scalar::Rank(0) || exists|k: int|
            0 <= k < page.orders.len() && (#[trigger] page.orders[k]).value == r.max_trade_value_usd->0,
{
    lemma_side_count_is_a_count(views(sides@), "BUY"@);
    lemma_side_count_is_a_count(views(sides@), "SELL"@);
    let values = order_values(page.orders@);
    assert forall|k: int| 0 <= k < values.len() implies (#[trigger] values[k]) is Rank by {
        assert(values[k] == page.orders[k].value);
    }
    lemma_greatest_value(values);
    assert(values[i] == page.orders[i].value);
    let g = r.max_trade_value_usd->0;
    if g != Scalar::Rank(0) {
        let k = choose|k: int| 0 <= k < values.len() && values[k] == g;
        assert(page.orders[k].value == g);
    }
}

/// Of an array the first items stay, as many as there may be.
pub proof fn law_array_keeps_its_first_items(items: Vec<String>, max_len: usize, r: JsonText, i: int)
    requires
        call_ensures(truncate_json_array, (JsonText::Array(items), max_len), r),
    ensures
        r is Array,
        items.len() <= max_len ==> r->Array_0.len() == items.len(),
        items.len() > max_len ==> r->Array_0.len() == max_len,
        0 <= i < r->Array_0.len() ==> r->Array_0[i]@ == items[i]@,
{
    let kept = r->Array_0;
    assert(views(kept@).len() == kept.len());
    assert(views(items@).len() == items.len());
    if 0 <= i < kept.len() {
        assert(views(kept@)[i] == kept[i]@);
        assert(views(items@)[i] == items[i]@);
    }
}

proof fn lemma_readable(prices: Seq<Option<Scalar>>)
    ensures
        forall|i: int| 0 <= i < prices.len() && (#[trigger] prices[i]) is Some ==> readable(prices).contains(prices[i]->0),
        forall|k: int| 0 <= k < readable(prices).len() ==> prices.contains(Some(#[trigger] readable(prices)[k])),
    decreases prices.len(),
{
    if prices.len() > 0 {
        let front = prices.drop_last();
        let before = readable(front);
        let all = readable(prices);
        lemma_readable(front);
        assert forall|i: int| 0 <= i < prices.len() && (#[trigger] prices[i]) is Some implies all.contains(
            prices[i]->0,
        ) by {
            if i < front.len() {
                assert(front[i] == prices[i]);
                let k = choose|k: int| 0 <= k < before.len() && before[k] == prices[i]->0;
                assert(all[k] == prices[i]->0);
            } else {
                assert(all[before.len() as int] == prices[i]->0);
            }
        }
        assert forall|k: int| 0 <= k < all.len() implies prices.contains(Some(#[trigger] all[k])) by {
            if k < before.len() {
                assert(before[k] == all[k]);
                let i = choose|i: int| 0 <= i < front.len() && front[i] == Some(before[k]);
                assert(prices[i] == Some(all[k]));
            } else {
                assert(prices[prices.len() - 1] == Some(all[k]));
            }
        }
    }
}

proof fn lemma_extreme_prices(p: Seq<Scalar>)
    requires
        forall|i: int| 0 <= i < p.len() ==> (#[trigger] p[i]) is Rank,
    ensures
        p.len() == 0 <==> greatest_price(p) is None,
        p.len() == 0 <==> smallest_price(p) is None,
        p.len() > 0 ==> p.contains(greatest_price(p)->0) && p.contains(smallest_price(p)->0),
        forall|i: int|
            0 <= i < p.len() ==> (#[trigger] p[i]).spec_le(greatest_price(p)->0) && smallest_price(p)->0.spec_le(p[i]),
    decreases p.len(),
{
    if p.len() > 0 {
        let front = p.drop_last();
        assert forall|i: int| 0 <= i < front.len() implies (#[trigger] front[i]) is Rank by {
            assert(front[i] == p[i]);
        }
        lemma_extreme_prices(front);
        assert(p[p.len() - 1] is Rank);
        if front.len() > 0 {
            let a = choose|a: int| 0 <= a < front.len() && front[a] == greatest_price(front)->0;
            let b = choose|b: int| 0 <= b < front.len() && front[b] == smallest_price(front)->0;
            assert(p[a] == greatest_price(front)->0 && p[b] == smallest_price(front)->0);
        }
        assert forall|i: int| 0 <= i < p.len() implies (#[trigger] p[i]).spec_le(greatest_price(p)->0)
            && smallest_price(p)->0.spec_le(p[i]) by {
            if i < front.len() {
                assert(front[i] == p[i]);
            }
        }
    }
}

/// The best bid is the greatest price that can be read, the best ask the smallest.
pub proof fn law_best_prices_are_extreme(
    prices: Vec<Option<Scalar>>,
    bid: Option<Scalar>,
    ask: Option<Scalar>,
    i: int,
)
    requires
        call_ensures(best_bid, (&prices,), bid),
        call_ensures(best_ask, (&prices,), ask),
        forall|k: int| 0 <= k < prices.len() && (#[trigger] prices[k]) is Some ==> prices[k]->0 is Rank,
        0 <= i < prices.len(),
        prices[i] is Some,
    ensures
        bid is Some && prices@.contains(bid) && prices[i]->0.spec_le(bid->0),
        ask is Some && prices@.contains(ask) && ask->0.spec_le(prices[i]->0),
{
    lemma_readable(prices@);
    let p = readable(prices@);
    assert forall|k: int| 0 <= k < p.len() implies (#[trigger] p[k]) is Rank by {
        let j = choose|j: int| 0 <= j < prices@.len() && prices@[j] == Some(p[k]);
        assert(prices[j] is Some);
    }
    lemma_extreme_prices(p);
    assert(p.contains(prices[i]->0));
    let k = choose|k: int| 0 <= k < p.len() && p[k] == prices[i]->0;
    assert(p[k].spec_le(bid->0));
    let a = choose|a: int| 0 <= a < p.len() && p[a] == bid->0;
    let b = choose|b: int| 0 <= b < p.len() && p[b] == ask->0;
    assert(prices@.contains(Some(p[a])));
    assert(prices@.contains(Some(p[b])));
}

/// Where no price can be read there is no best one.
pub proof fn law_no_price_is_best_of_none(prices: Vec<Option<Scalar>>, bid: Option<Scalar>, ask: Option<Scalar>)
    requires
        call_ensures(best_bid, (&prices,), bid),
        call_ensures(best_ask, (&prices,), ask),
        forall|k: int| 0 <= k < prices.len() ==> (#[trigger] prices[k]) is None,
    ensures
        bid is None && ask is None,
{
    lemma_readable(prices@);
    let p = readable(prices@);
    if p.len() > 0 {
        assert(prices@.contains(Some(p[0])));
    }
}

/// The last book is told where there is one: with its best prices, and with their middle and
/// their width where there are both.
pub proof fn law_book_tells_middle_and_width(
    p: BooksPage,
    r: Option<SignalContextOrderbook>,
    bid: Option<Scalar>,
    ask: Option<Scalar>,
)
    requires
        call_ensures(summarize_books, (&p,), r),
        call_ensures(best_bid, (&p.last_bids,), bid),
        call_ensures(best_ask, (&p.last_asks,), ask),
    ensures
        r is Some <==> p.snapshot_count > 0,
        r is Some ==> {
            let b = r->0;
            &&& b.best_bid == bid && b.best_ask == ask && b.snapshot_count == Some(p.snapshot_count)
            &&& bid is Some && ask is Some ==> b.mid == Some(p.mid) && b.spread == Some(p.spread)
            &&& bid is None || ask is None ==> b.mid is None && b.spread is None
        },
{
}

/// What a wallet did is counted by its kind; the sample holds the first items.
pub proof fn law_activity_is_counted_by_kind(items: Vec<ActivityItem>, r: SignalContextActivity)
    requires
        call_ensures(summarize_activity, (&items,), r),
    ensures
        r.count == items.len(),
        r.merge_count == activity_sides(items@).filter(called("MERGE"@)).len(),
        r.split_count == activity_sides(items@).filter(called("SPLIT"@)).len(),
        r.redeem_count == activity_sides(items@).filter(called("REDEEM"@)).len(),
        r.sample is Some <==> items.len() > 0,
        items.len() > 0 ==> r.sample->0 is Array && 1 <= r.sample->0->Array_0.len() <= 25 && r.sample->0->Array_0[0]@
            == items[0].json@,
        0 < items.len() <= 25 ==> r.sample->0->Array_0.len() == items.len(),
{
    lemma_side_count_is_a_count(activity_sides(items@), "MERGE"@);
    lemma_side_count_is_a_count(activity_sides(items@), "SPLIT"@);
    lemma_side_count_is_a_count(activity_sides(items@), "REDEEM"@);
    if items.len() > 0 {
        let kept = r.sample->0->Array_0;
        assert(views(kept@).len() == kept.len());
        assert(activity_texts(items@).len() == items.len());
        assert(views(kept@)[0] == kept[0]@);
        assert(activity_texts(items@)[0] == items[0].json@);
    }
}

/// The profit at an instant is that of an entry not after it, and no entry lies between.
pub proof fn law_profit_is_the_latest_known(entries: Vec<PnlEntry>, target: i64, r: Option<Scalar>)
    requires
        call_ensures(find_pnl_at_time, (&entries, target), r),
        forall|i: int|
            0 <= i < entries.len() ==> (#[trigger] entries[i]).timestamp is Some && entries[i].pnl_to_date is Some,
    ensures
        r is Some <==> exists|i: int| 0 <= i < entries.len() && (#[trigger] entries[i]).timestamp->0 <= target,
        r is Some ==> exists|i: int|
            0 <= i < entries.len() && (#[trigger] entries[i]).pnl_to_date == r && entries[i].timestamp->0 <= target
                && forall|j: int|
                0 <= j < entries.len() ==> (#[trigger] entries[j]).timestamp->0 > target || entries[j].timestamp->0
                    <= entries[i].timestamp->0,
{
    if r is Some {
        let i = choose|i: int|
            is_latest_at(entries@, target, i) && r->0 == entry_pnl(#[trigger] entries@[i]);
        assert(entries[i].pnl_to_date == r);
        assert(entries[i].timestamp->0 <= target);
        assert forall|j: int| 0 <= j < entries.len() implies (#[trigger] entries[j]).timestamp->0 > target
            || entries[j].timestamp->0 <= entries[i].timestamp->0 by {
            assert(entry_ts(entries@[j]) == entries[j].timestamp->0);
        }
    } else {
        assert forall|i: int| 0 <= i < entries.len() implies (#[trigger] entries[i]).timestamp->0 > target by {
            assert(entry_ts(entries@[i]) > target);
        }
    }
}

/// The steps of a profit follow each other: each begins with the profit with which the one
/// before ended, and none is over before the one before it.
pub proof fn law_steps_follow_each_other(entries: Vec<PnlEntry>, r: Vec<PnlStep>, i: int)
    requires
        call_ensures(extract_pnl_deltas, (&entries,), r),
        0 <= i < r.len() - 1,
    ensures
        r[i].after == r[i + 1].before,
        r[i].ts <= r[i + 1].ts,
{
    let points = whole_entries(entries@);
    let perm = choose|perm: Seq<usize>| #[trigger]
        is_stable_order(point_keys(points), perm) && r@ == steps_between(points, perm);
    assert(stands_before(point_keys(points), perm[i + 1] as int, perm[i + 2] as int));
    assert(r@[i] == steps_between(points, perm)[i]);
    assert(r@[i + 1] == steps_between(points, perm)[i + 1]);
}

/// The entries that can be read whole make one step less than they are.
pub proof fn law_steps_lie_between_entries(entries: Vec<PnlEntry>, r: Vec<PnlStep>)
    requires
        call_ensures(extract_pnl_deltas, (&entries,), r),
        forall|i: int|
            0 <= i < entries.len() ==> (#[trigger] entries[i]).timestamp is Some && entries[i].pnl_to_date is Some,
        entries.len() > 0,
    ensures
        r.len() == entries.len() - 1,
{
    lemma_whole_entries(entries@);
    let points = whole_entries(entries@);
    let perm = choose|perm: Seq<usize>| #[trigger]
        is_stable_order(point_keys(points), perm) && r@ == steps_between(points, perm);
    law_stable_order_is_a_permutation(point_keys(points), perm);
    assert(point_keys(points).len() == points.len());
}

proof fn lemma_whole_entries(entries: Seq<PnlEntry>)
    requires
        forall|i: int|
            0 <= i < entries.len() ==> (#[trigger] entries[i]).timestamp is Some && entries[i].pnl_to_date is Some,
    ensures
        whole_entries(entries).len() == entries.len(),
    decreases entries.len(),
{
    if entries.len() > 0 {
        let front = entries.drop_last();
        assert forall|i: int| 0 <= i < front.len() implies (#[trigger] front[i]).timestamp is Some
            && front[i].pnl_to_date is Some by {
            assert(front[i] == entries[i]);
        }
        lemma_whole_entries(front);
        assert(entries[entries.len() - 1].timestamp is Some);
    }
}

proof fn lemma_deltas_from(deltas: Seq<PnlDelta>, cutoff: i64)
    ensures
        deltas_from(deltas, cutoff) == deltas.filter(|d: PnlDelta| d.ts >= cutoff).map_values(|d: PnlDelta| d.delta),
    decreases deltas.len(),
{
    reveal(Seq::filter);
    let keeps = |d: PnlDelta| d.ts >= cutoff;
    let value = |d: PnlDelta| d.delta;
    if deltas.len() > 0 {
        lemma_deltas_from(deltas.drop_last(), cutoff);
        let front = deltas.drop_last().filter(keeps);
        assert(front.push(deltas.last()).map_values(value) =~= front.map_values(value).push(deltas.last().delta));
    } else {
        assert(deltas.filter(keeps).map_values(value) =~= Seq::<Scalar>::empty());
    }
}

/// A ratio is told of the differences from an instant on, where there are three at least
/// and they differ.
pub proof fn law_ratio_needs_three_differences(
    deltas: Vec<PnlDelta>,
    cutoff: i64,
    r: Option<Vec<Scalar>>,
    std: Scalar,
    ratio: Scalar,
    told: Option<Scalar>,
)
    requires
        call_ensures(sharpe_window, (&deltas, cutoff), r),
        call_ensures(compute_sharpe, (std, ratio), told),
    ensures
        r is Some <==> deltas@.filter(|d: PnlDelta| d.ts >= cutoff).len() >= 3,
        r is Some ==> r->0@ == deltas@.filter(|d: PnlDelta| d.ts >= cutoff).map_values(|d: PnlDelta| d.delta),
        told is Some <==> std.spec_is_finite() && std != Scalar::Rank(0),
        told is Some ==> told->0 == ratio,
{
    lemma_deltas_from(deltas@, cutoff);
}

/// What a wallet earned in a period is told where something is known of its start; the
/// periods are a week, two weeks, thirty days and ninety.
pub proof fn law_periods_are_told_by_their_days(
    entries: Vec<PnlEntry>,
    deltas: Vec<PnlDelta>,
    now: i64,
    f: PnlFigures,
    r: PnlMetrics,
    days: int,
)
    requires
        now >= i64::MIN + 7_776_000,
        call_ensures(compute_wallet_pnl_metrics, (&entries, &deltas, now, &f), r),
        days == 7 || days == 14 || days == 30 || days == 90,
        entries.len() > 0,
        forall|i: int| 0 <= i < entries.len() ==> (#[trigger] entries[i]).timestamp is Some,
    ensures
        ({
            let start = now - days * 86_400;
            let known = exists|i: int| 0 <= i < entries.len() && (#[trigger] entries[i]).timestamp->0 <= start;
            let enough = deltas@.filter(|d: PnlDelta| d.ts >= start).len() >= 3;
            let g = if days == 7 {
                f.day_7
            } else if days == 14 {
                f.day_14
            } else if days == 30 {
                f.day_30
            } else {
                f.day_90
            };
            let earned = if days == 7 {
                r.pnl_7d
            } else if days == 14 {
                r.pnl_14d
            } else if days == 30 {
                r.pnl_30d
            } else {
                r.pnl_90d
            };
            let ratio = if days == 7 {
                r.sharpe_7d
            } else if days == 14 {
                r.sharpe_14d
            } else if days == 30 {
                r.sharpe_30d
            } else {
                r.sharpe_90d
            };
            &&& earned is Some <==> known
            &&& earned is Some ==> earned->0 == g.difference
            &&& ratio is Some <==> enough && g.std.spec_is_finite() && g.std != Scalar::Rank(0)
            &&& ratio is Some ==> ratio->0 == g.ratio
        }),
{
    let start = (now - days * 86_400) as i64;
    lemma_deltas_from(deltas@, start);
    assert(deltas@.filter(|d: PnlDelta| d.ts >= start) == deltas@.filter(|d: PnlDelta| d.ts >= now - days * 86_400))
        by {
        assert((|d: PnlDelta| d.ts >= start) =~= (|d: PnlDelta| d.ts >= now - days * 86_400));
    }
    if exists|j: int| 0 <= j < entries@.len() && entry_ts(#[trigger] entries@[j]) <= start {
        let j = choose|j: int| 0 <= j < entries@.len() && entry_ts(#[trigger] entries@[j]) <= start;
        assert(entries[j].timestamp->0 <= start);
    }
    if exists|i: int| 0 <= i < entries.len() && (#[trigger] entries[i]).timestamp->0 <= start {
        let i = choose|i: int| 0 <= i < entries.len() && (#[trigger] entries[i]).timestamp->0 <= start;
        assert(entry_ts(entries@[i]) <= start);
    }
}

/// The start of a period lies as many days back as the period is called after.
pub proof fn law_periods_start_on_their_days(now: i64, r: PnlCutoffs)
    requires
        now >= i64::MIN + 7_776_000,
        call_ensures(pnl_cutoffs, (now,), r),
    ensures
        now - r.day_7 == 7 * 86_400,
        now - r.day_14 == 14 * 86_400,
        now - r.day_30 == 30 * 86_400,
        now - r.day_90 == 90 * 86_400,
{
}

/// A price is told to have moved where both prices are known, in basis points of the first
/// one where that is above zero; the rest follows from what was found out.
pub proof fn law_derived_fields_follow(
    price: Option<SignalContextPrice>,
    book: Option<SignalContextOrderbook>,
    flow: Option<TradeFlowSummary>,
    pnl: PnlMetrics,
    n: DerivedNumbers,
    r: SignalContextDerived,
)
    requires
        call_ensures(derive_fields, (&price, &book, &flow, &pnl, &n), r),
    ensures
        ({
            let both = price is Some && price->0.at_entry is Some && price->0.latest is Some;
            let first = price->0.at_entry->0.price;
            &&& r.price_delta_abs is Some <==> both
            &&& r.price_delta_bps is Some <==> both
            &&& both ==> r.price_delta_abs->0 == n.delta
            &&& both && Scalar::Rank(0).spec_lt(first) ==> r.price_delta_bps->0 == n.relative_bps
            &&& both && !Scalar::Rank(0).spec_lt(first) ==> r.price_delta_bps->0 == n.absolute_bps
            &&& r.entry_value_usd == Some(n.entry_value)
            &&& book is Some ==> r.spread_at_entry == book->0.spread
            &&& book is None ==> r.spread_at_entry is None
            &&& r.pnl_7d == pnl.pnl_7d && r.pnl_14d == pnl.pnl_14d && r.pnl_30d == pnl.pnl_30d && r.pnl_90d == pnl.pnl_90d
            &&& r.sharpe_7d == pnl.sharpe_7d && r.sharpe_14d == pnl.sharpe_14d && r.sharpe_30d == pnl.sharpe_30d
                && r.sharpe_90d == pnl.sharpe_90d
            &&& r.avg_trade_value_24h is Some <==> flow is Some && flow->0.count > 0
            &&& r.avg_trade_value_24h is Some ==> r.avg_trade_value_24h->0 == n.average_value
            &&& r.trade_count_24h is Some <==> flow is Some
            &&& flow is Some && flow->0.count <= u32::MAX ==> r.trade_count_24h->0 == flow->0.count
        }),
{
}

/// What was found out is well when every answer came, failed when something went wrong and
/// nothing was found, and partial elsewhere; each answer stands in its own place, and the
/// version goes up.
pub proof fn law_answers_make_the_context(
    job: EnrichmentJob,
    a: JobAnswers,
    n: DerivedNumbers,
    version: Option<i64>,
    at: i64,
    r: SignalContextUpdate,
)
    requires
        call_ensures(process_job, (job, a, &n, version, at), r),
        version is Some ==> version->0 < i64::MAX,
    ensures
        ({
            let c = r.context;
            let all = a.market is Ok && a.price_entry is Ok && a.price_latest is Ok && a.market_orders is Ok
                && a.wallet_orders is Ok && a.orderbooks is Ok && a.activity is Ok && a.candlesticks is Ok && a.wallet is Ok
                && a.wallet_pnl is Ok;
            let none = c.market is None && c.price is None && c.trade_history is None && c.orderbook is None
                && c.activity is None && c.candlesticks is None && c.wallet is None && c.wallet_pnl is None;
            &&& r.signal_id == job.signal_id && r.enriched_at == at
            &&& version is None ==> r.context_version == 1
            &&& version is Some ==> r.context_version == version->0 + 1
            &&& all ==> r.status@ == "ok"@ && r.error is None
            &&& !all && none ==> r.status@ == "failed"@ && r.error is Some
            &&& !all && !none ==> r.status@ == "partial"@ && r.error is None
            &&& a.market is Ok ==> c.market == a.market->Ok_0
            &&& a.market is Err ==> c.market is None
            &&& a.wallet is Ok ==> c.wallet == a.wallet->Ok_0
            &&& a.wallet is Err ==> c.wallet is None
            &&& a.wallet_pnl is Ok ==> c.wallet_pnl == a.wallet_pnl->Ok_0
            &&& a.wallet_pnl is Err ==> c.wallet_pnl is None
            &&& a.candlesticks is Ok ==> c.candlesticks == Some(a.candlesticks->Ok_0)
            &&& a.candlesticks is Err ==> c.candlesticks is None
            &&& c.price is Some <==> a.price_entry is Ok || a.price_latest is Ok
            &&& a.price_entry is Ok ==> c.price->0.at_entry == Some(a.price_entry->Ok_0)
            &&& a.price_latest is Ok ==> c.price->0.latest == Some(a.price_latest->Ok_0)
            &&& a.price_entry is Err && c.price is Some ==> c.price->0.at_entry is None
            &&& a.price_latest is Err && c.price is Some ==> c.price->0.latest is None
            &&& c.trade_history is Some <==> a.market_orders is Ok || a.wallet_orders is Ok
            &&& c.trade_history is Some ==> (c.trade_history->0.market_flow_1h is Some <==> a.market_orders is Ok) && (
            c.trade_history->0.wallet_flow_24h is Some <==> a.wallet_orders is Ok)
            &&& a.market_orders is Ok ==> c.trade_history->0.market_flow_1h->0.total_value_usd
                == a.market_orders->Ok_0.total_value
            &&& a.wallet_orders is Ok ==> c.trade_history->0.wallet_flow_24h->0.total_value_usd
                == a.wallet_orders->Ok_0.total_value
            &&& c.activity is Some <==> a.activity is Ok
            &&& c.order.user@ == job.user@ && c.order.token_id@ == job.token_id@ && c.order.side@ == job.side@
                && c.order.price == job.price && c.order.shares_normalized == job.shares_normalized && c.order.timestamp
                == job.timestamp && c.order.market_slug@ == job.market_slug@ && c.order.condition_id@ == job.condition_id@
        }),
{
    law_every_fault_is_written_down(a);
    assert(views(r.context.errors@).len() == r.context.errors.len());
}

/// Each fault is told under the name of what was asked for.
pub proof fn law_faults_are_told_by_name(
    job: EnrichmentJob,
    a: JobAnswers,
    n: DerivedNumbers,
    version: Option<i64>,
    at: i64,
    r: SignalContextUpdate,
)
    requires
        call_ensures(process_job, (job, a, &n, version, at), r),
    ensures
        ({
            let e = views(r.context.errors@);
            &&& a.market is Err ==> e.contains("markets: "@ + a.market->Err_0@)
            &&& a.price_entry is Err ==> e.contains("market_price_at_entry: "@ + a.price_entry->Err_0@)
            &&& a.price_latest is Err ==> e.contains("market_price_latest: "@ + a.price_latest->Err_0@)
            &&& a.market_orders is Err ==> e.contains("orders_market: "@ + a.market_orders->Err_0@)
            &&& a.wallet_orders is Err ==> e.contains("orders_wallet: "@ + a.wallet_orders->Err_0@)
            &&& a.orderbooks is Err ==> e.contains("orderbooks: "@ + a.orderbooks->Err_0@)
            &&& a.activity is Err ==> e.contains("activity: "@ + a.activity->Err_0@)
            &&& a.candlesticks is Err ==> e.contains("candlesticks: "@ + a.candlesticks->Err_0@)
            &&& a.wallet is Err ==> e.contains("wallet: "@ + a.wallet->Err_0@)
            &&& a.wallet_pnl is Err ==> e.contains("wallet_pnl: "@ + a.wallet_pnl->Err_0@)
        }),
{
    let m1 = fault("markets: "@, a.market);
    let m2 = fault("market_price_at_entry: "@, a.price_entry);
    let m3 = fault("market_price_latest: "@, a.price_latest);
    let m4 = fault("orders_market: "@, a.market_orders);
    let m5 = fault("orders_wallet: "@, a.wallet_orders);
    let m6 = fault("orderbooks: "@, a.orderbooks);
    let m7 = fault("activity: "@, a.activity);
    let m8 = fault("candlesticks: "@, a.candlesticks);
    let m9 = fault("wallet: "@, a.wallet);
    let m10 = fault("wallet_pnl: "@, a.wallet_pnl);
    let s2 = m1 + m2;
    let s3 = s2 + m3;
    let s4 = s3 + m4;
    let s5 = s4 + m5;
    let s6 = s5 + m6;
    let s7 = s6 + m7;
    let s8 = s7 + m8;
    let s9 = s8 + m9;
    let s10 = s9 + m10;
    assert(s10 == faults(a));
    if a.market is Err {
        assert(s10[0] == m1[0]);
    }
    if a.price_entry is Err {
        assert(s10[m1.len() as int] == m2[0]);
    }
    if a.price_latest is Err {
        assert(s10[s2.len() as int] == m3[0]);
    }
    if a.market_orders is Err {
        assert(s10[s3.len() as int] == m4[0]);
    }
    if a.wallet_orders is Err {
        assert(s10[s4.len() as int] == m5[0]);
    }
    if a.orderbooks is Err {
        assert(s10[s5.len() as int] == m6[0]);
    }
    if a.activity is Err {
        assert(s10[s6.len() as int] == m7[0]);
    }
    if a.candlesticks is Err {
        assert(s10[s7.len() as int] == m8[0]);
    }
    if a.wallet is Err {
        assert(s10[s8.len() as int] == m9[0]);
    }
    if a.wallet_pnl is Err {
        assert(s10[s9.len() as int] == m10[0]);
    }
}

/// A service takes at least one request at a time, and as many as it is set to beyond that.
pub proof fn law_one_request_at_least(n: usize, r: usize)
    requires
        call_ensures(at_least_one, (n,), r),
    ensures
        r >= 1,
        n >= 1 ==> r == n,
        n == 0 ==> r == 1,
{
}

/// The latest profit is that of the last entry, zero where it cannot be read.
pub proof fn law_latest_profit_is_the_last(entries: Vec<PnlEntry>, r: Scalar)
    requires
        call_ensures(latest_pnl, (&entries,), r),
    ensures
        entries.len() == 0 ==> r == Scalar::Rank(0),
        entries.len() > 0 && entries@.last().pnl_to_date is Some ==> r == entries@.last().pnl_to_date->0,
        entries.len() > 0 && entries@.last().pnl_to_date is None ==> r == Scalar::Rank(0),
{
}

/// An answer that is remembered is served while it is young and a value, and so it is where
/// nothing else is known of it.
pub proof fn law_remembered_value_is_served(m: Option<Remembered>, now: i64, ttl: i64, r: Option<String>, is_value: bool, s: Option<String>)
    requires
        call_ensures(get_cached_value, (m, now, ttl), r),
        m is Some ==> is_value == (json_null(m->0.json@) == Some(false)),
        m is Some ==> call_ensures(cached_value_under, (m->0, is_value, now, ttl), s),
    ensures
        m is None ==> r is None,
        m is Some ==> r == s,
{
}

/// Orders are put into figures by their sides in capitals, whatever the case they came in.
pub proof fn law_orders_are_counted_in_capitals(page: OrdersPage, sides: Vec<String>, r: TradeFlowSummary, s: TradeFlowSummary)
    requires
        call_ensures(summarize_orders, (&page,), r),
        sides.len() == page.orders.len(),
        forall|i: int| 0 <= i < sides.len() ==> (#[trigger] sides[i])@ == uppercase(page.orders[i].side@),
        call_ensures(summarize_under, (&page, &sides), s),
    ensures
        r == s,
{
    assert(views(sides@) =~= upper_sides(page.orders@)) by {
        assert forall|i: int| 0 <= i < sides.len() implies views(sides@)[i] == upper_sides(page.orders@)[i] by {
            assert(sides[i]@ == uppercase(page.orders[i].side@));
        }
    }
}

/// Nothing is told of profits where none were told.
pub proof fn law_no_profits_tell_nothing(p: PnlInputs, now: i64, r: PnlMetrics, s: PnlMetrics)
    requires
        p.wf(),
        now >= i64::MIN + 7_776_000,
        call_ensures(wallet_pnl_metrics, (false, &p, now), r),
        call_ensures(wallet_pnl_metrics, (true, &p, now), s),
    ensures
        r.pnl_7d is None && r.pnl_14d is None && r.pnl_30d is None && r.pnl_90d is None,
        r.sharpe_7d is None && r.sharpe_14d is None && r.sharpe_30d is None && r.sharpe_90d is None,
        s.pnl_7d is Some ==> s.pnl_7d->0 == p.figures.day_7.difference,
        s.pnl_14d is Some ==> s.pnl_14d->0 == p.figures.day_14.difference,
        s.pnl_30d is Some ==> s.pnl_30d->0 == p.figures.day_30.difference,
        s.pnl_90d is Some ==> s.pnl_90d->0 == p.figures.day_90.difference,
        s.pnl_7d is Some ==> exists|i: int| 0 <= i < p.entries.len() && entry_ts(#[trigger] p.entries@[i]) <= now - 7 * 86_400,
        s.pnl_90d is Some ==> exists|i: int|
            0 <= i < p.entries.len() && entry_ts(#[trigger] p.entries@[i]) <= now - 90 * 86_400,
        s.sharpe_7d is Some ==> s.sharpe_7d->0 == p.figures.day_7.ratio && p.figures.day_7.std.spec_is_finite(),
        s.sharpe_90d is Some ==> s.sharpe_90d->0 == p.figures.day_90.ratio && p.figures.day_90.std.spec_is_finite(),
{
}

} // verus!
