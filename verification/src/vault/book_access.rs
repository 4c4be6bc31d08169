//! Order books from caches: a book that is missing or old means that a tick is
//! skipped.
use crate::base::scalar::Scalar;
use crate::base::table::Table;
use std::sync::Arc;
use vstd::prelude::*;

verus! {

/// A level of an order book.
#[derive(Clone, Copy, Debug, PartialEq, Eq, Structural)]
pub struct Order {
    pub price: Scalar,
    pub size: Scalar,
}

/// An order book, best levels first.
#[derive(Debug)]
pub struct OrderBook {
    pub bids: Vec<Order>,
    pub asks: Vec<Order>,
}

/// How old a book may be in milliseconds.
#[derive(Clone, Copy, Debug, PartialEq, Eq, Structural)]
pub struct StalenessConfig {
    /// The greatest age for a decision.
    pub max_stale_ms: u64,
    /// The age beyond which a new subscription is asked for.
    pub hard_stale_ms: u64,
}

impl Default for StalenessConfig {
    fn default() -> (r: StalenessConfig)
        ensures
            r == (StalenessConfig { max_stale_ms: 1500, hard_stale_ms: 5000 }),
    {
        StalenessConfig { max_stale_ms: 1500, hard_stale_ms: 5000 }
    }
}

impl StalenessConfig {
    /// For strategies that live on latency.
    pub fn latency_arb() -> (r: StalenessConfig)
        ensures
            r == (StalenessConfig { max_stale_ms: 300, hard_stale_ms: 1000 }),
    {
        StalenessConfig { max_stale_ms: 300, hard_stale_ms: 1000 }
    }

    /// For strategies on quarter-hour markets.
    pub fn fast15m() -> (r: StalenessConfig)
        ensures
            r == (StalenessConfig { max_stale_ms: 1500, hard_stale_ms: 5000 }),
    {
        StalenessConfig { max_stale_ms: 1500, hard_stale_ms: 5000 }
    }

    /// For strategies on distant markets.
    pub fn long_strategy() -> (r: StalenessConfig)
        ensures
            r == (StalenessConfig { max_stale_ms: 5000, hard_stale_ms: 30_000 }),
    {
        StalenessConfig { max_stale_ms: 5000, hard_stale_ms: 30_000 }
    }

    /// For slow strategies.
    pub fn slow() -> (r: StalenessConfig)
        ensures
            r == (StalenessConfig { max_stale_ms: 30_000, hard_stale_ms: 120_000 }),
    {
        StalenessConfig { max_stale_ms: 30_000, hard_stale_ms: 120_000 }
    }
}

/// Why a cache has no book to give.
#[derive(Clone, Copy, Debug, PartialEq, Eq, Structural)]
pub enum CacheMissReason {
    NotSubscribed,
    NotReady,
    Stale,
    NeverSeen,
    BookCrossed,
}

/// Why a tick is skipped.
#[derive(Clone, Copy, Debug, PartialEq, Eq, Structural)]
pub enum SkipReason {
    NotSubscribed,
    NotReady,
    Stale,
    NeverSeen,
    InvalidState,
}

/// The reason to skip that a miss stands for.
pub open spec fn skip_of(reason: CacheMissReason) -> SkipReason {
    match reason {
        CacheMissReason::NotSubscribed => SkipReason::NotSubscribed,
        CacheMissReason::NotReady => SkipReason::NotReady,
        CacheMissReason::Stale => SkipReason::Stale,
        CacheMissReason::NeverSeen => SkipReason::NeverSeen,
        CacheMissReason::BookCrossed => SkipReason::InvalidState,
    }
}

impl From<CacheMissReason> for SkipReason {
    fn from(reason: CacheMissReason) -> (r: SkipReason) {
        match reason {
            CacheMissReason::NotSubscribed => SkipReason::NotSubscribed,
            CacheMissReason::NotReady => SkipReason::NotReady,
            CacheMissReason::Stale => SkipReason::Stale,
            CacheMissReason::NeverSeen => SkipReason::NeverSeen,
            CacheMissReason::BookCrossed => SkipReason::InvalidState,
        }
    }
}

impl vstd::std_specs::convert::FromSpecImpl<CacheMissReason> for SkipReason {
    open spec fn obeys_from_spec() -> bool {
        true
    }

    open spec fn from_spec(reason: CacheMissReason) -> SkipReason {
        skip_of(reason)
    }
}

/// What a cache answers for a token within the greatest age.
#[derive(Debug)]
pub enum BookLookupResult {
    Hit { book: Arc<OrderBook>, age_ms: u64 },
    Miss { reason: CacheMissReason, last_age_ms: Option<u64> },
}

/// What a lookup means for a strategy.
#[derive(Debug)]
pub enum BookResult {
    Available { book: Arc<OrderBook>, age_ms: u64 },
    Skip { reason: SkipReason, token_id: String },
}

/// A call to a cache.
#[derive(Debug)]
pub enum CacheCall {
    /// A token is subscribed to; the answer is not waited for.
    Subscribe(String),
    /// The older cache is asked for the book of a token within a greatest age.
    OlderBook(String, i64),
    /// The newer cache is asked for the book of a token within a greatest age.
    NewerBook(String, u64),
}

/// The calls that are made to the older cache for a token, in their order, and no others:
/// its subscription, and one lookup within a greatest age.
pub fn lookup_calls(token_id: &str, max_stale_ms: i64) -> (r: Vec<CacheCall>)
    ensures
        r.len() == 2,
        r[0] matches CacheCall::Subscribe(t) && t@ == token_id@,
        r[1] matches CacheCall::OlderBook(t, age) && t@ == token_id@ && age == max_stale_ms,
{
    let mut r: Vec<CacheCall> = Vec::new();
    r.push(CacheCall::Subscribe(token_id.to_owned()));
    r.push(CacheCall::OlderBook(token_id.to_owned(), max_stale_ms));
    r
}

/// The calls that a strategy makes to the older cache for a token: the lookup is within its
/// greatest age. What the
/// lookup answers is the book, and none means that the tick is skipped.
pub fn cached_calls(token_id: &str, config: &StalenessConfig) -> (r: Vec<CacheCall>)
    ensures
        r.len() == 2,
        r[0] matches CacheCall::Subscribe(t) && t@ == token_id@,
        r[1] matches CacheCall::OlderBook(t, age) && t@ == token_id@ && age == config.max_stale_ms as i64,
{
    lookup_calls(token_id, config.max_stale_ms as i64)
}

/// The calls that are made to the newer cache for a token before its answer is known, in
/// their order: its subscription, and one lookup within the greatest age of the strategy.
pub fn hft_calls(token_id: &str, config: &StalenessConfig) -> (r: Vec<CacheCall>)
    ensures
        r.len() == 2,
        r[0] matches CacheCall::Subscribe(t) && t@ == token_id@,
        r[1] matches CacheCall::NewerBook(t, age) && t@ == token_id@ && age == config.max_stale_ms,
{
    let mut r: Vec<CacheCall> = Vec::new();
    r.push(CacheCall::Subscribe(token_id.to_owned()));
    r.push(CacheCall::NewerBook(token_id.to_owned(), config.max_stale_ms));
    r
}

/// What the older cache answers to lookups within a greatest age: the books that are young
/// enough, by their tokens.
pub struct PolymarketMarketWsCache {
    pub max_stale_ms: i64,
    pub fresh: Table<Arc<OrderBook>>,
}

impl PolymarketMarketWsCache {
    /// The answer to a lookup within a greatest age.
    pub open spec fn book_within(self, token_id: Seq<char>, max_stale_ms: i64) -> Option<Arc<OrderBook>> {
        if max_stale_ms == self.max_stale_ms && self.fresh@.contains_key(token_id) {
            Some(self.fresh@[token_id])
        } else {
            None
        }
    }

    /// The book of a token, if it is young enough.
    pub fn get_orderbook(&self, token_id: &str, max_stale_ms: i64) -> (r: Option<Arc<OrderBook>>)
        ensures
            r == self.book_within(token_id@, max_stale_ms),
    {
        if max_stale_ms != self.max_stale_ms {
            return None;
        }
        match self.fresh.get(token_id) {
            Some(b) => Some(b.clone()),
            None => None,
        }
    }
}

/// What the newer cache answers to lookups within a greatest age, by tokens.
pub struct HftBookCache {
    pub max_stale_ms: u64,
    pub answers: Table<BookLookupResult>,
}

/// Takes the book of a token from the older cache, or none, which means that the tick
/// is skipped. The caller asks for a subscription first.
pub fn get_book_cached(
    ws_cache: &PolymarketMarketWsCache,
    token_id: &str,
    config: &StalenessConfig,
) -> (r: Option<Arc<OrderBook>>)
    ensures
        r == ws_cache.book_within(token_id@, config.max_stale_ms as i64),
{
    ws_cache.get_orderbook(token_id, config.max_stale_ms as i64)
}

/// Takes the book of a token from the older cache, which knows neither ages nor
/// reasons.
pub fn get_book_cached_detailed(
    ws_cache: &PolymarketMarketWsCache,
    token_id: &str,
    config: &StalenessConfig,
) -> (r: BookResult)
    ensures
        match ws_cache.book_within(token_id@, config.max_stale_ms as i64) {
            Some(book) => r == (BookResult::Available { book, age_ms: 0 }),
            None => r matches BookResult::Skip { reason, token_id: t } && reason == SkipReason::Stale && t@
                == token_id@,
        },
{
    match get_book_cached(ws_cache, token_id, config) {
        Some(book) => BookResult::Available { book, age_ms: 0 },
        None => BookResult::Skip { reason: SkipReason::Stale, token_id: token_id.to_owned() },
    }
}

/// What the newer cache answers for a token within a greatest age: what it never answered
/// for was never seen.
pub open spec fn answer_of(cache: HftBookCache, token_id: Seq<char>, max_stale_ms: u64) -> BookLookupResult {
    if max_stale_ms == cache.max_stale_ms && cache.answers@.contains_key(token_id) {
        cache.answers@[token_id]
    } else {
        BookLookupResult::Miss { reason: CacheMissReason::NeverSeen, last_age_ms: None }
    }
}

/// Whether the last book of a token is so old that a new subscription is due.
pub open spec fn renewal_due(last_age_ms: Option<u64>, hard_stale_ms: u64) -> bool {
    match last_age_ms {
        Some(age) => age > hard_stale_ms,
        None => false,
    }
}

/// Takes the book of a token from the newer cache, and says whether a new subscription
/// is due: it is where the book that was missed is too old by far.
pub fn get_book_hft(hft_cache: &HftBookCache, token_id: &str, config: &StalenessConfig) -> (r: (
    BookResult,
    bool,
))
    ensures
        match answer_of(*hft_cache, token_id@, config.max_stale_ms) {
            BookLookupResult::Hit { book, age_ms } => r.0 == (BookResult::Available { book, age_ms })
                && !r.1,
            BookLookupResult::Miss { reason, last_age_ms } => {
                &&& r.0 matches BookResult::Skip { reason: s, token_id: t }
                &&& s == skip_of(reason)
                &&& t@ == token_id@
                &&& r.1 == renewal_due(last_age_ms, config.hard_stale_ms)
            },
        },
{
    let answer = if config.max_stale_ms == hft_cache.max_stale_ms {
        hft_cache.answers.get(token_id)
    } else {
        None
    };
    match answer {
        Some(BookLookupResult::Hit { book, age_ms }) => (
            BookResult::Available { book: book.clone(), age_ms: *age_ms },
            false,
        ),
        Some(BookLookupResult::Miss { reason, last_age_ms }) => {
            let renew = match last_age_ms {
                Some(age) => *age > config.hard_stale_ms,
                None => false,
            };
            (
                BookResult::Skip { reason: SkipReason::from(*reason), token_id: token_id.to_owned() },
                renew,
            )
        },
        None => (
            BookResult::Skip { reason: SkipReason::NeverSeen, token_id: token_id.to_owned() },
            false,
        ),
    }
}

/// Whoever holds the caches: the newer one is not always there.
pub trait HasHftCache {
    /// The newer cache, if it is there.
    spec fn newer(&self) -> Option<HftBookCache>;

    /// The older cache.
    spec fn older(&self) -> PolymarketMarketWsCache;

    fn hft_cache(&self) -> (r: Option<&HftBookCache>)
        ensures
            match r {
                Some(c) => self.newer() == Some(*c),
                None => self.newer() is None,
            },
    ;

    fn legacy_cache(&self) -> (r: &PolymarketMarketWsCache)
        ensures
            *r == self.older(),
    ;
}

/// Both caches.
pub struct BookCaches {
    pub hft: Option<HftBookCache>,
    pub legacy: PolymarketMarketWsCache,
}

impl HasHftCache for BookCaches {
    open spec fn newer(&self) -> Option<HftBookCache> {
        self.hft
    }

    open spec fn older(&self) -> PolymarketMarketWsCache {
        self.legacy
    }

    fn hft_cache(&self) -> (r: Option<&HftBookCache>) {
        match &self.hft {
            Some(c) => Some(c),
            None => None,
        }
    }

    fn legacy_cache(&self) -> (r: &PolymarketMarketWsCache) {
        &self.legacy
    }
}

/// Takes the book of a token from the newer cache where there is one, else from the
/// older; also says whether a new subscription is due.
pub fn get_book_auto<T: HasHftCache>(state: &T, token_id: &str, config: &StalenessConfig) -> (r: (
    Option<Arc<OrderBook>>,
    bool,
))
    ensures
        match state.newer() {
            Some(hft) => match answer_of(hft, token_id@, config.max_stale_ms) {
                BookLookupResult::Hit { book, age_ms } => r == (Some(book), false),
                BookLookupResult::Miss { reason, last_age_ms } => r.0 is None && r.1
                    == renewal_due(last_age_ms, config.hard_stale_ms),
            },
            None => r == (state.older().book_within(token_id@, config.max_stale_ms as i64), false),
        },
{
    match state.hft_cache() {
        Some(hft) => {
            let (result, renew) = get_book_hft(hft, token_id, config);
            match result {
                BookResult::Available { book, .. } => (Some(book), renew),
                BookResult::Skip { .. } => (None, renew),
            }
        },
        None => (get_book_cached(state.legacy_cache(), token_id, config), false),
    }
}

/// The first level of a side.
pub open spec fn top(side: Seq<Order>) -> Option<Order> {
    if side.len() > 0 {
        Some(side[0])
    } else {
        None
    }
}

/// The price of a level.
pub open spec fn price_of(o: Option<Order>) -> Option<Scalar> {
    match o {
        Some(l) => Some(l.price),
        None => None,
    }
}

/// The tops of a book: the best prices, both of them where a spread can be worked out
/// from them, and the best ask with its size.
#[derive(Clone, Copy, Debug, PartialEq, Eq)]
pub struct TopOfBook {
    pub bid: Option<Scalar>,
    pub ask: Option<Scalar>,
    pub spread_of: Option<(Scalar, Scalar)>,
    pub best_ask: Option<Order>,
}

impl OrderBook {
    /// The best bid.
    pub fn best_bid(&self) -> (r: Option<Scalar>)
        ensures
            r == price_of(top(self.bids@)),
    {
        if self.bids.len() > 0 {
            Some(self.bids[0].price)
        } else {
            None
        }
    }

    /// The best ask.
    pub fn best_ask(&self) -> (r: Option<Scalar>)
        ensures
            r == price_of(top(self.asks@)),
    {
        if self.asks.len() > 0 {
            Some(self.asks[0].price)
        } else {
            None
        }
    }

    /// The tops of the book; a spread needs both sides and a bid above zero.
    pub fn top_of_book(&self) -> (r: TopOfBook)
        ensures
            r == tops(self.bids@, self.asks@),
    {
        let bid = self.best_bid();
        let ask = self.best_ask();
        let spread_of = match (bid, ask) {
            (Some(b), Some(a)) => if Scalar::Rank(0).lt(b) {
                Some((b, a))
            } else {
                None
            },
            _ => None,
        };
        let best_ask = if self.asks.len() > 0 {
            Some(self.asks[0])
        } else {
            None
        };
        TopOfBook { bid, ask, spread_of, best_ask }
    }
}

/// The tops of two sides.
pub open spec fn tops(bids: Seq<Order>, asks: Seq<Order>) -> TopOfBook {
    let bid = price_of(top(bids));
    let ask = price_of(top(asks));
    TopOfBook {
        bid,
        ask,
        spread_of: match (bid, ask) {
            (Some(b), Some(a)) => if Scalar::Rank(0).spec_lt(b) {
                Some((b, a))
            } else {
                None
            },
            _ => None,
        },
        best_ask: top(asks),
    }
}

/// The best ask of a token in the older cache.
pub fn best_ask_cached(ws_cache: &PolymarketMarketWsCache, token_id: &str, config: &StalenessConfig) -> (r:
    Option<Scalar>)
    ensures
        r == match ws_cache.book_within(token_id@, config.max_stale_ms as i64) {
            Some(book) => price_of(top(book.asks@)),
            None => None,
        },
{
    match get_book_cached(ws_cache, token_id, config) {
        Some(book) => book.best_ask(),
        None => None,
    }
}

/// The best bid of a token in the older cache.
pub fn best_bid_cached(ws_cache: &PolymarketMarketWsCache, token_id: &str, config: &StalenessConfig) -> (r:
    Option<Scalar>)
    ensures
        r == match ws_cache.book_within(token_id@, config.max_stale_ms as i64) {
            Some(book) => price_of(top(book.bids@)),
            None => None,
        },
{
    match get_book_cached(ws_cache, token_id, config) {
        Some(book) => book.best_bid(),
        None => None,
    }
}

/// The middle between the best prices of a token in the older cache, where both are there.
pub fn mid_price_cached(
    ws_cache: &PolymarketMarketWsCache,
    token_id: &str,
    config: &StalenessConfig,
    middle: Scalar,
) -> (r: Option<Scalar>)
    ensures
        r == match ws_cache.book_within(token_id@, config.max_stale_ms as i64) {
            Some(book) => if book.bids.len() > 0 && book.asks.len() > 0 {
                Some(middle)
            } else {
                None
            },
            None => None,
        },
{
    match get_book_cached(ws_cache, token_id, config) {
        Some(book) => if book.bids.len() > 0 && book.asks.len() > 0 {
            Some(middle)
        } else {
            None
        },
        None => None,
    }
}

/// The width between the best prices of a token in the older cache in basis points, where
/// both are there and the bid is above zero.
pub fn spread_bps_cached(
    ws_cache: &PolymarketMarketWsCache,
    token_id: &str,
    config: &StalenessConfig,
    width: Scalar,
) -> (r: Option<Scalar>)
    ensures
        r == match ws_cache.book_within(token_id@, config.max_stale_ms as i64) {
            Some(book) => if book.bids.len() > 0 && book.asks.len() > 0 && !book.bids[0].price.spec_le(
                Scalar::Rank(0),
            ) {
                Some(width)
            } else {
                None
            },
            None => None,
        },
{
    match get_book_cached(ws_cache, token_id, config) {
        Some(book) => if book.bids.len() > 0 && book.asks.len() > 0 && !book.bids[0].price.le(
            Scalar::Rank(0),
        ) {
            Some(width)
        } else {
            None
        },
        None => None,
    }
}

/// The tops of a token's book in the older cache; nothing where the tick is skipped.
pub fn bid_ask_spread_cached(
    ws_cache: &PolymarketMarketWsCache,
    token_id: &str,
    config: &StalenessConfig,
) -> (r: TopOfBook)
    ensures
        r == match ws_cache.book_within(token_id@, config.max_stale_ms as i64) {
            Some(book) => tops(book.bids@, book.asks@),
            None => TopOfBook { bid: None, ask: None, spread_of: None, best_ask: None },
        },
{
    match get_book_cached(ws_cache, token_id, config) {
        Some(book) => book.top_of_book(),
        None => TopOfBook { bid: None, ask: None, spread_of: None, best_ask: None },
    }
}

/// The best ask of a token in the newer cache.
pub fn best_ask_hft(hft_cache: &HftBookCache, token_id: &str, config: &StalenessConfig) -> (r: Option<Scalar>)
    ensures
        r == match answer_of(*hft_cache, token_id@, config.max_stale_ms) {
            BookLookupResult::Hit { book, age_ms } => price_of(top(book.asks@)),
            BookLookupResult::Miss { reason, last_age_ms } => None,
        },
{
    match get_book_hft(hft_cache, token_id, config).0 {
        BookResult::Available { book, .. } => book.best_ask(),
        BookResult::Skip { .. } => None,
    }
}

/// The best bid of a token in the newer cache.
pub fn best_bid_hft(hft_cache: &HftBookCache, token_id: &str, config: &StalenessConfig) -> (r: Option<Scalar>)
    ensures
        r == match answer_of(*hft_cache, token_id@, config.max_stale_ms) {
            BookLookupResult::Hit { book, age_ms } => price_of(top(book.bids@)),
            BookLookupResult::Miss { reason, last_age_ms } => None,
        },
{
    match get_book_hft(hft_cache, token_id, config).0 {
        BookResult::Available { book, .. } => book.best_bid(),
        BookResult::Skip { .. } => None,
    }
}

/// The tops of a token's book in the newer cache; nothing where the tick is skipped.
pub fn bid_ask_spread_hft(hft_cache: &HftBookCache, token_id: &str, config: &StalenessConfig) -> (r:
    TopOfBook)
    ensures
        r == match answer_of(*hft_cache, token_id@, config.max_stale_ms) {
            BookLookupResult::Hit { book, age_ms } => tops(book.bids@, book.asks@),
            BookLookupResult::Miss { reason, last_age_ms } => TopOfBook {
                bid: None,
                ask: None,
                spread_of: None,
                best_ask: None,
            },
        },
{
    match get_book_hft(hft_cache, token_id, config).0 {
        BookResult::Available { book, .. } => book.top_of_book(),
        BookResult::Skip { .. } => TopOfBook { bid: None, ask: None, spread_of: None, best_ask: None },
    }
}

/// A looser limit asks for new subscriptions no more often.
pub proof fn law_looser_limit_renews_less(last_age_ms: Option<u64>, hard: u64, looser: u64)
    requires
        hard <= looser,
        renewal_due(last_age_ms, looser),
    ensures
        renewal_due(last_age_ms, hard),
{
}

/// Strategies wait for books of their own ages: those that live on latency for the youngest,
/// slow ones for the oldest; a subscription is renewed later than a book is stale.
pub proof fn law_ages_go_by_strategy(
    d: StalenessConfig,
    l: StalenessConfig,
    f: StalenessConfig,
    g: StalenessConfig,
    s: StalenessConfig,
)
    requires
        call_ensures(StalenessConfig::default, (), d),
        call_ensures(StalenessConfig::latency_arb, (), l),
        call_ensures(StalenessConfig::fast15m, (), f),
        call_ensures(StalenessConfig::long_strategy, (), g),
        call_ensures(StalenessConfig::slow, (), s),
    ensures
        l.max_stale_ms == 300 && f.max_stale_ms == 1500 && g.max_stale_ms == 5000 && s.max_stale_ms == 30_000,
        l.hard_stale_ms == 1000 && f.hard_stale_ms == 5000 && g.hard_stale_ms == 30_000 && s.hard_stale_ms == 120_000,
        d == f,
{
}

/// A token is subscribed to before it is looked up, within the age of the strategy.
pub proof fn law_subscription_comes_first(
    token: &str,
    c: StalenessConfig,
    a: Vec<CacheCall>,
    b: Vec<CacheCall>,
    age: i64,
    d: Vec<CacheCall>,
)
    requires
        call_ensures(cached_calls, (token, &c), a),
        call_ensures(hft_calls, (token, &c), b),
        call_ensures(lookup_calls, (token, age), d),
        c.max_stale_ms <= i64::MAX,
    ensures
        a.len() == 2 && a[0] is Subscribe && a[0]->Subscribe_0@ == token@ && a[1] is OlderBook && a[1]->OlderBook_0@
            == token@ && a[1]->OlderBook_1 == c.max_stale_ms,
        b.len() == 2 && b[0] is Subscribe && b[0]->Subscribe_0@ == token@ && b[1] is NewerBook && b[1]->NewerBook_0@
            == token@ && b[1]->NewerBook_1 == c.max_stale_ms,
        d.len() == 2 && d[0] is Subscribe && d[1] is OlderBook && d[1]->OlderBook_0@ == token@ && d[1]->OlderBook_1 == age,
{
}

/// A book that the older cache has is taken; one that it lacks skips the tick as stale.
pub proof fn law_older_book_is_taken_or_skipped(
    w: PolymarketMarketWsCache,
    token: &str,
    c: StalenessConfig,
    plain: Option<Arc<OrderBook>>,
    r: BookResult,
)
    requires
        call_ensures(get_book_cached, (&w, token, &c), plain),
        call_ensures(get_book_cached_detailed, (&w, token, &c), r),
        w.max_stale_ms == c.max_stale_ms,
    ensures
        plain is Some <==> w.fresh@.contains_key(token@),
        plain is Some ==> plain->0 == w.fresh@[token@],
        r is Available <==> plain is Some,
        r is Available ==> r->book == plain->0,
        r is Skip ==> r->reason == SkipReason::Stale && r->token_id@ == token@,
{
}

/// A hit of the newer cache is taken with its age. A miss skips the tick for the reason of the
/// miss, and asks for a new subscription where the last book is older than the hard limit.
pub proof fn law_newer_book_is_taken_or_skipped(
    h: HftBookCache,
    token: &str,
    c: StalenessConfig,
    r: (BookResult, bool),
)
    requires
        call_ensures(get_book_hft, (&h, token, &c), r),
        h.max_stale_ms == c.max_stale_ms,
    ensures
        ({
            let known = h.answers@.contains_key(token@);
            let a = h.answers@[token@];
            let s = (r.0)->reason;
            &&& known && a is Hit ==> r.0 is Available && (r.0)->book == a->book && (r.0)->age_ms == a->age_ms && !r.1
            &&& !known ==> r.0 is Skip && s == SkipReason::NeverSeen && !r.1
            &&& known && a is Miss ==> r.0 is Skip && (r.0)->token_id@ == token@
            &&& known && a is Miss && a->reason is NotSubscribed ==> s is NotSubscribed
            &&& known && a is Miss && a->reason is NotReady ==> s is NotReady
            &&& known && a is Miss && a->reason is Stale ==> s is Stale
            &&& known && a is Miss && a->reason is NeverSeen ==> s is NeverSeen
            &&& known && a is Miss && a->reason is BookCrossed ==> s is InvalidState
            &&& known && a is Miss ==> (r.1 <==> a->last_age_ms is Some && a->last_age_ms->0 > c.hard_stale_ms)
        }),
{
}

/// The newer cache is asked where it is there, and the older one elsewhere.
pub proof fn law_newer_cache_goes_first(
    h: HftBookCache,
    w: PolymarketMarketWsCache,
    token: &str,
    c: StalenessConfig,
    both: (Option<Arc<OrderBook>>, bool),
    older: (Option<Arc<OrderBook>>, bool),
    with_newer: BookCaches,
    without: BookCaches,
)
    requires
        with_newer == (BookCaches { hft: Some(h), legacy: w }),
        without == (BookCaches { hft: None, legacy: w }),
        call_ensures(get_book_auto::<BookCaches>, (&with_newer, token, &c), both),
        call_ensures(get_book_auto::<BookCaches>, (&without, token, &c), older),
        h.max_stale_ms == c.max_stale_ms,
        w.max_stale_ms == c.max_stale_ms,
    ensures
        h.answers@.contains_key(token@) && h.answers@[token@] is Hit ==> both.0 == Some(h.answers@[token@]->book) && !both.1,
        !h.answers@.contains_key(token@) ==> both.0 is None && !both.1,
        w.fresh@.contains_key(token@) ==> older.0 == Some(w.fresh@[token@]),
        !w.fresh@.contains_key(token@) ==> older.0 is None,
        !older.1,
{
}

/// The best prices are those of the first levels, bids for the bid and asks for the ask; a
/// spread needs both and a bid above zero.
pub proof fn law_tops_are_first_levels(b: OrderBook, bid: Option<Scalar>, ask: Option<Scalar>, t: TopOfBook)
    requires
        call_ensures(OrderBook::best_bid, (&b,), bid),
        call_ensures(OrderBook::best_ask, (&b,), ask),
        call_ensures(OrderBook::top_of_book, (&b,), t),
    ensures
        bid is Some <==> b.bids.len() > 0,
        bid is Some ==> bid->0 == b.bids[0].price,
        ask is Some <==> b.asks.len() > 0,
        ask is Some ==> ask->0 == b.asks[0].price,
        t.bid == bid && t.ask == ask,
        t.spread_of is Some <==> bid is Some && ask is Some && Scalar::Rank(0).spec_lt(bid->0),
        t.spread_of is Some ==> t.spread_of->0 == (bid->0, ask->0),
        t.best_ask is Some <==> ask is Some,
        t.best_ask is Some ==> t.best_ask->0 == b.asks[0],
{
}

/// The prices of a token are those of its book; without a book there are none.
pub proof fn law_prices_are_those_of_the_book(
    w: PolymarketMarketWsCache,
    h: HftBookCache,
    token: &str,
    c: StalenessConfig,
    x: Scalar,
    ask: Option<Scalar>,
    bid: Option<Scalar>,
    mid: Option<Scalar>,
    spread: Option<Scalar>,
    t: TopOfBook,
    ask_h: Option<Scalar>,
    bid_h: Option<Scalar>,
    t_h: TopOfBook,
    plain: Option<Arc<OrderBook>>,
)
    requires
        call_ensures(best_ask_cached, (&w, token, &c), ask),
        call_ensures(best_bid_cached, (&w, token, &c), bid),
        call_ensures(mid_price_cached, (&w, token, &c, x), mid),
        call_ensures(spread_bps_cached, (&w, token, &c, x), spread),
        call_ensures(bid_ask_spread_cached, (&w, token, &c), t),
        call_ensures(best_ask_hft, (&h, token, &c), ask_h),
        call_ensures(best_bid_hft, (&h, token, &c), bid_h),
        call_ensures(bid_ask_spread_hft, (&h, token, &c), t_h),
        call_ensures(get_book_cached, (&w, token, &c), plain),
        h.max_stale_ms == c.max_stale_ms,
    ensures
        ({
            let b = plain->0;
            let a = h.answers@[token@];
            let hit = h.answers@.contains_key(token@) && a is Hit;
            &&& plain is None ==> ask is None && bid is None && mid is None && spread is None && t.bid is None && t.ask is None
            &&& plain is Some && b.asks.len() > 0 ==> ask == Some(b.asks[0].price) && t.ask == ask
            &&& plain is Some && b.bids.len() > 0 ==> bid == Some(b.bids[0].price) && t.bid == bid
            &&& ask is Some && bid is Some <==> mid is Some
            &&& mid is Some ==> mid->0 == x
            &&& spread is Some ==> spread->0 == x && mid is Some
            &&& mid is Some && bid->0 is Rank ==> (spread is Some <==> Scalar::Rank(0).spec_lt(bid->0))
            &&& hit && a->book.asks.len() > 0 ==> ask_h == Some(a->book.asks[0].price) && t_h.ask == ask_h
            &&& hit && a->book.bids.len() > 0 ==> bid_h == Some(a->book.bids[0].price) && t_h.bid == bid_h
            &&& !hit ==> ask_h is None && bid_h is None && t_h.ask is None && t_h.bid is None && t_h.spread_of is None
        }),
{
}

} // verus!
