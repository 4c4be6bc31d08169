//! A wallet's trades replayed day by day, each day's holdings at that day's prices.
use super::copy_trading::{
    bucket_of,
    closed_tokens,
    closes,
    day_bucket,
    deal,
    deal_of,
    is_tradable,
    learned,
    left_over,
    names,
    negligible,
    picked,
    tradable,
    DayAmount,
    Deal,
    SideKind,
    WalletActivity,
    WalletOrder,
};
use crate::base::clock::less_than_apart;
use crate::base::order::{
    is_stable_order,
    law_stable_order_is_a_permutation,
    stable_order,
    stands_before,
};
use crate::base::ranks::{R_1E_MINUS_12, R_1_5};
use crate::base::scalar::{Scalar, ONE_RANK};
use crate::base::table::Table;
use crate::base::text::{joined, same, trimmed, views};
use vstd::prelude::*;

verus! {

/// How many conditions are priced at most.
pub const MAX_CONDITIONS: usize = 40;

/// How far back prices are asked for, in days.
pub const CANDLE_LOOKBACK_DAYS: i64 = 200;

/// How many seconds prices are remembered.
pub const CANDLE_CACHE_TTL_SECONDS: i64 = 21_600;

/// The value of an account at an instant.
#[derive(Clone, Copy, Debug, PartialEq, Eq, Structural)]
pub struct EquityPoint {
    pub timestamp: i64,
    pub value: Scalar,
}

/// The conditions of the orders within a stretch of time, the latest first, each once.
pub open spec fn conditions_from(orders: Seq<WalletOrder>, from: i64, to: i64) -> Seq<Seq<char>>
    decreases orders.len(),
{
    if orders.len() == 0 {
        Seq::empty()
    } else {
        let o = orders.first();
        let before = conditions_from(orders.drop_first(), from, to);
        if from <= o.timestamp <= to && !before.contains(o.condition_id@) {
            before.push(o.condition_id@)
        } else {
            before
        }
    }
}

/// The conditions that are priced: the latest ones, so many at most.
pub open spec fn priced_conditions(orders: Seq<WalletOrder>, from: i64, to: i64) -> Seq<Seq<char>> {
    let all = conditions_from(orders, from, to);
    if all.len() <= MAX_CONDITIONS {
        all
    } else {
        all.take(MAX_CONDITIONS as int)
    }
}

proof fn lemma_conditions_grow(orders: Seq<WalletOrder>, from: i64, to: i64, k: int)
    requires
        0 <= k <= orders.len(),
    ensures
        conditions_from(orders.skip(k), from, to).is_prefix_of(conditions_from(orders, from, to)),
    decreases k,
{
    if k == 0 {
        assert(orders.skip(0) =~= orders);
    } else {
        assert(orders.skip(k) =~= orders.drop_first().skip(k - 1));
        lemma_conditions_grow(orders.drop_first(), from, to, k - 1);
    }
}

fn among(list: &Vec<String>, t: &str) -> (r: bool)
    ensures
        r == views(list@).contains(t@),
{
    let mut i: usize = 0;
    while i < list.len()
        invariant
            i <= list.len(),
            forall|j: int| #![trigger list[j]] 0 <= j < i ==> list[j]@ != t@,
        decreases list.len() - i,
    {
        if same(list[i].as_str(), t) {
            assert(views(list@)[i as int] == t@);
            return true;
        }
        i = i + 1;
    }
    proof {
        if views(list@).contains(t@) {
            let j = choose|j: int| 0 <= j < views(list@).len() && views(list@)[j] == t@;
            assert(list[j]@ == t@);
        }
    }
    false
}

/// The conditions whose prices are asked for.
pub fn recent_conditions(orders: &Vec<WalletOrder>, from: i64, to: i64) -> (r: Vec<String>)
    ensures
        views(r@) == priced_conditions(orders@, from, to),
{
    let mut r: Vec<String> = Vec::new();
    let mut i: usize = orders.len();
    assert(orders@.skip(i as int) =~= Seq::<WalletOrder>::empty());
    assert(views(r@) =~= conditions_from(orders@.skip(i as int), from, to));
    while i > 0
        invariant
            i <= orders.len(),
            r.len() < MAX_CONDITIONS,
            views(r@) == conditions_from(orders@.skip(i as int), from, to),
        decreases i,
    {
        i = i - 1;
        let ghost rest = orders@.skip(i as int);
        assert(rest.drop_first() =~= orders@.skip(i as int + 1));
        let o = &orders[i];
        if from <= o.timestamp && o.timestamp <= to {
            if !among(&r, o.condition_id.as_str()) {
                let ghost before = r@;
                r.push(o.condition_id.clone());
                assert(views(r@) =~= views(before).push(o.condition_id@));
                if r.len() >= MAX_CONDITIONS {
                    proof {
                        lemma_conditions_grow(orders@, from, to, i as int);
                        assert(views(r@).len() == MAX_CONDITIONS);
                        assert(views(r@) =~= priced_conditions(orders@, from, to));
                    }
                    return r;
                }
            }
        }
    }
    assert(orders@.skip(0) =~= orders@);
    r
}

/// Since when prices are asked for.
pub fn candle_start(now: i64) -> (r: i64)
    requires
        now >= i64::MIN + 17_280_000,
    ensures
        r == now - 17_280_000,
{
    now - CANDLE_LOOKBACK_DAYS * 86_400
}

/// Where the prices of a condition are remembered.
pub fn candle_key(condition_id: &str) -> (r: String)
    ensures
        r@ == "candles_day_v1:"@ + condition_id@,
{
    joined("candles_day_v1:", condition_id)
}

/// Whether prices that came at an instant are still remembered.
pub fn candles_fresh(now: i64, fetched_at: i64) -> (r: bool)
    ensures
        r == (now - fetched_at < CANDLE_CACHE_TTL_SECONDS),
{
    less_than_apart(now, fetched_at, CANDLE_CACHE_TTL_SECONDS)
}

/// A candlestick: when it ended, by either name; its closing price in dollars; and that in
/// a unit that may be cents, with the hundredth part of it.
#[derive(Clone, Copy, Debug, PartialEq, Eq, Structural)]
pub struct Candle {
    pub end_period_ts: Option<i64>,
    pub timestamp: Option<i64>,
    pub close_dollars: Option<Scalar>,
    pub close: Option<Scalar>,
    pub close_hundredth: Scalar,
}

/// The candlesticks of a token, as far as both are there.
#[derive(Debug)]
pub struct CandleSeries {
    pub token_id: Option<String>,
    pub candles: Option<Vec<Candle>>,
}

/// When a candlestick ended.
pub open spec fn candle_time(c: Candle) -> Option<i64> {
    match c.end_period_ts {
        Some(t) => Some(t),
        None => c.timestamp,
    }
}

/// The closing price of a candlestick: more than one and a half is told in cents.
pub open spec fn candle_close(c: Candle) -> Option<Scalar> {
    match c.close_dollars {
        Some(p) => Some(p),
        None => match c.close {
            Some(p) => if Scalar::Rank(R_1_5).spec_lt(p) {
                Some(c.close_hundredth)
            } else {
                Some(p)
            },
            None => None,
        },
    }
}

/// What a candlestick says: the closing price of a day.
pub open spec fn candle_day(c: Candle) -> Option<DayAmount> {
    match (candle_time(c), candle_close(c)) {
        (Some(t), Some(p)) => if p.spec_is_finite() {
            Some(DayAmount { day: bucket_of(t as int) as i64, amount: p })
        } else {
            None
        },
        _ => None,
    }
}

/// The closing prices of days, as they were told.
pub open spec fn daily_closes(candles: Seq<Candle>) -> Seq<DayAmount>
    decreases candles.len(),
{
    if candles.len() == 0 {
        Seq::empty()
    } else {
        match candle_day(candles.last()) {
            Some(d) => daily_closes(candles.drop_last()).push(d),
            None => daily_closes(candles.drop_last()),
        }
    }
}

/// Reads the closing prices of days.
pub fn read_closes(candles: &Vec<Candle>) -> (r: Vec<DayAmount>)
    ensures
        r@ == daily_closes(candles@),
{
    let mut r: Vec<DayAmount> = Vec::new();
    let mut i: usize = 0;
    while i < candles.len()
        invariant
            i <= candles.len(),
            r@ == daily_closes(candles@.take(i as int)),
        decreases candles.len() - i,
    {
        assert(candles@.take(i as int + 1).drop_last() =~= candles@.take(i as int));
        let c = candles[i];
        let ts = match c.end_period_ts {
            Some(t) => Some(t),
            None => c.timestamp,
        };
        let close = match c.close_dollars {
            Some(p) => Some(p),
            None => match c.close {
                Some(p) => if Scalar::Rank(R_1_5).lt(p) {
                    Some(c.close_hundredth)
                } else {
                    Some(p)
                },
                None => None,
            },
        };
        match (ts, close) {
            (Some(t), Some(p)) => {
                if p.is_finite() {
                    r.push(DayAmount { day: day_bucket(t), amount: p });
                }
            },
            _ => {},
        }
        i = i + 1;
    }
    assert(candles@.take(i as int) =~= candles@);
    r
}

/// The price that was told last for a day.
pub open spec fn close_on(closes: Seq<DayAmount>, day: i64) -> Option<Scalar>
    decreases closes.len(),
{
    if closes.len() == 0 {
        None
    } else if closes.last().day == day {
        Some(closes.last().amount)
    } else {
        close_on(closes.drop_last(), day)
    }
}

/// The closing prices of tokens by day.
pub open spec fn token_closes(series: Seq<CandleSeries>) -> Map<Seq<char>, Seq<DayAmount>>
    decreases series.len(),
{
    if series.len() == 0 {
        Map::empty()
    } else {
        let before = token_closes(series.drop_last());
        match (series.last().candles, series.last().token_id) {
            (Some(c), Some(t)) => if daily_closes(c@).len() > 0 {
                before.insert(t@, daily_closes(c@))
            } else {
                before
            },
            _ => before,
        }
    }
}

/// What a table of lists holds.
pub open spec fn lists(m: Map<Seq<char>, Vec<DayAmount>>) -> Map<Seq<char>, Seq<DayAmount>> {
    m.map_values(|v: Vec<DayAmount>| v@)
}

/// Reads the closing prices of tokens.
pub fn parse_token_daily_closes(series: &Vec<CandleSeries>) -> (r: Table<Vec<DayAmount>>)
    ensures
        lists(r@) == token_closes(series@),
{
    let mut r: Table<Vec<DayAmount>> = Table::new();
    let mut i: usize = 0;
    assert(lists(r@) =~= Map::<Seq<char>, Seq<DayAmount>>::empty());
    while i < series.len()
        invariant
            i <= series.len(),
            lists(r@) == token_closes(series@.take(i as int)),
        decreases series.len() - i,
    {
        assert(series@.take(i as int + 1).drop_last() =~= series@.take(i as int));
        match (&series[i].candles, &series[i].token_id) {
            (Some(c), Some(t)) => {
                let by_day = read_closes(c);
                if by_day.len() > 0 {
                    let ghost before = r@;
                    r.insert(t.clone(), by_day);
                    assert(lists(r@) =~= lists(before).insert(t@, by_day@));
                }
            },
            _ => {},
        }
        i = i + 1;
    }
    assert(series@.take(i as int) =~= series@);
    r
}

/// Prices that came later stand after those that are known, and count instead of them.
pub fn extend_closes(known: &mut Table<Vec<DayAmount>>, token: &str, more: &Vec<DayAmount>)
    ensures
        lists(final(known)@) == if more.len() == 0 {
            lists(old(known)@)
        } else {
            lists(old(known)@).insert(
                token@,
                if old(known)@.contains_key(token@) {
                    old(known)@[token@]@ + more@
                } else {
                    more@
                },
            )
        },
{
    if more.len() == 0 {
        return;
    }
    let ghost before = known@;
    let mut all: Vec<DayAmount> = match known.get(token) {
        Some(v) => copy_amounts(v),
        None => Vec::new(),
    };
    let ghost first = all@;
    let mut i: usize = 0;
    assert(all@ =~= first + more@.take(0));
    while i < more.len()
        invariant
            i <= more.len(),
            all@ == first + more@.take(i as int),
        decreases more.len() - i,
    {
        all.push(more[i]);
        assert(all@ =~= first + more@.take(i as int + 1));
        i = i + 1;
    }
    assert(more@.take(i as int) =~= more@);
    assert(all@ =~= if before.contains_key(token@) {
        before[token@]@ + more@
    } else {
        more@
    });
    known.insert(token.to_owned(), all);
    assert(lists(known@) =~= lists(before).insert(token@, all@));
}

fn copy_amounts(v: &Vec<DayAmount>) -> (r: Vec<DayAmount>)
    ensures
        r@ == v@,
{
    let mut r: Vec<DayAmount> = Vec::new();
    let mut i: usize = 0;
    while i < v.len()
        invariant
            i <= v.len(),
            r@ == v@.take(i as int),
        decreases v.len() - i,
    {
        r.push(v[i]);
        assert(r@ =~= v@.take(i as int + 1));
        i = i + 1;
    }
    assert(r@ =~= v@);
    r
}

/// The price told last for a day.
pub fn find_close(v: &Vec<DayAmount>, day: i64) -> (r: Option<Scalar>)
    ensures
        r == close_on(v@, day),
{
    let mut i: usize = v.len();
    assert(v@.take(i as int) =~= v@);
    while i > 0
        invariant
            i <= v.len(),
            close_on(v@, day) == close_on(v@.take(i as int), day),
        decreases i,
    {
        assert(v@.take(i as int).drop_last() =~= v@.take(i - 1));
        i = i - 1;
        if v[i].day == day {
            return Some(v[i].amount);
        }
    }
    None
}

/// A holding of a token.
#[derive(Debug)]
pub struct TokenPosition {
    pub condition_id: String,
    pub shares: Scalar,
    pub cost_usd: Scalar,
    pub last_price: Scalar,
}

/// The follower's account during the replay.
pub struct MtmBook {
    pub positions: Table<TokenPosition>,
    pub conditions: Table<String>,
    pub realized_total: Scalar,
    pub friction_total: Scalar,
    pub window_friction: Scalar,
    pub trade_count: u64,
    pub buy_count: u64,
}

/// The figures of a deal: the holding after a purchase and after a sale, and what is
/// realized and paid in all.
#[derive(Clone, Copy, Debug, PartialEq, Eq, Structural)]
pub struct MtmNumbers {
    pub bought_shares: Scalar,
    pub bought_cost: Scalar,
    pub rest_shares: Scalar,
    pub rest_cost: Scalar,
    pub realized_total: Scalar,
    pub friction_total: Scalar,
    pub window_friction: Scalar,
}

/// The holding of the order's token, empty where there is none.
pub open spec fn position_for(m: Map<Seq<char>, TokenPosition>, o: WalletOrder) -> TokenPosition {
    if m.contains_key(o.token_id@) {
        m[o.token_id@]
    } else {
        TokenPosition {
            condition_id: o.condition_id,
            shares: Scalar::Rank(0),
            cost_usd: Scalar::Rank(0),
            last_price: Scalar::Rank(0),
        }
    }
}

/// The holding after a deal.
pub open spec fn position_after(p: TokenPosition, price: Scalar, d: Deal, n: MtmNumbers) -> TokenPosition {
    match d {
        Deal::Nothing => TokenPosition { last_price: price, ..p },
        Deal::Buy => TokenPosition {
            last_price: price,
            shares: n.bought_shares,
            cost_usd: n.bought_cost,
            ..p
        },
        Deal::Sell(_) => TokenPosition {
            last_price: price,
            shares: left_over(n.rest_shares),
            cost_usd: if negligible(n.rest_shares) {
                Scalar::Rank(0)
            } else {
                n.rest_cost
            },
            ..p
        },
    }
}

/// Whether an order can be followed at all.
pub open spec fn followable(o: WalletOrder, scaled: Scalar) -> bool {
    tradable(o.price) && tradable(o.shares_normalized) && tradable(scaled)
}

/// Whether a redemption closes a holding that is there.
pub open spec fn redeems(b: MtmBook, a: WalletActivity, t: Seq<char>) -> bool {
    closes(b.conditions@, a, t) && b.positions@.contains_key(t) && !negligible(b.positions@[t].shares)
}

/// The price that a redemption pays, one where it says none.
pub open spec fn redeem_price_of(price: Scalar) -> Scalar {
    if price.spec_is_finite() && Scalar::Rank(0).spec_le(price) {
        price
    } else {
        Scalar::Rank(ONE_RANK)
    }
}

pub fn redeem_price(price: Scalar) -> (r: Scalar)
    ensures
        r == redeem_price_of(price),
{
    if price.is_finite() && Scalar::Rank(0).le(price) {
        price
    } else {
        Scalar::Rank(ONE_RANK)
    }
}

/// A holding at a price.
#[derive(Clone, Copy, Debug, PartialEq, Eq, Structural)]
pub struct Mark {
    pub shares: Scalar,
    pub price: Scalar,
    pub cost_usd: Scalar,
}

/// A holding at the price of a day, or at the last one; none where it is negligible or the
/// price is no price.
pub open spec fn mark_of(
    p: TokenPosition,
    closes: Option<Seq<DayAmount>>,
    day: i64,
) -> Option<Mark> {
    let told = match closes {
        Some(c) => close_on(c, day),
        None => None,
    };
    let price = match told {
        Some(x) => x,
        None => p.last_price,
    };
    if negligible(p.shares) || !price.spec_is_finite() || price.spec_lt(Scalar::Rank(0)) {
        None
    } else {
        Some(Mark { shares: p.shares, price, cost_usd: p.cost_usd })
    }
}

/// The prices of a token.
pub open spec fn closes_of(m: Map<Seq<char>, Vec<DayAmount>>, t: Seq<char>) -> Option<Seq<DayAmount>> {
    if m.contains_key(t) {
        Some(m[t]@)
    } else {
        None
    }
}

/// The holdings at the prices of a day.
pub open spec fn marks_of(
    tokens: Seq<Seq<char>>,
    positions: Map<Seq<char>, TokenPosition>,
    closes: Map<Seq<char>, Vec<DayAmount>>,
    day: i64,
) -> Seq<Mark>
    decreases tokens.len(),
{
    if tokens.len() == 0 {
        Seq::empty()
    } else {
        let before = marks_of(tokens.drop_last(), positions, closes, day);
        match mark_of(positions[tokens.last()], closes_of(closes, tokens.last()), day) {
            Some(m) => before.push(m),
            None => before,
        }
    }
}

impl MtmBook {
    /// Nothing held, nothing earned.
    pub fn new() -> (r: MtmBook)
        ensures
            r.positions@ == Map::<Seq<char>, TokenPosition>::empty(),
            r.conditions@ == Map::<Seq<char>, String>::empty(),
            r.realized_total == Scalar::Rank(0),
            r.friction_total == Scalar::Rank(0),
            r.window_friction == Scalar::Rank(0),
            r.trade_count == 0,
            r.buy_count == 0,
    {
        MtmBook {
            positions: Table::new(),
            conditions: Table::new(),
            realized_total: Scalar::Rank(0),
            friction_total: Scalar::Rank(0),
            window_friction: Scalar::Rank(0),
            trade_count: 0,
            buy_count: 0,
        }
    }

    /// The shares and the cost of a holding.
    pub fn holding(&self, token: &str) -> (r: (Scalar, Scalar))
        ensures
            r == if self.positions@.contains_key(token@) {
                (self.positions@[token@].shares, self.positions@[token@].cost_usd)
            } else {
                (Scalar::Rank(0), Scalar::Rank(0))
            },
    {
        match self.positions.get(token) {
            Some(p) => (p.shares, p.cost_usd),
            None => (Scalar::Rank(0), Scalar::Rank(0)),
        }
    }

    /// What an order that led to a deal leaves of the account.
    pub open spec fn order_followed(
        self,
        after: MtmBook,
        o: WalletOrder,
        start_time: i64,
        scaled: Scalar,
        n: MtmNumbers,
        d: Deal,
    ) -> bool {
        let counts = o.timestamp >= start_time && !(d is Nothing);
        &&& after.conditions@ == if followable(o, scaled) {
            learned(self.conditions@, o)
        } else {
            self.conditions@
        }
        &&& after.positions@ == if followable(o, scaled) {
            self.positions@.insert(
                o.token_id@,
                position_after(position_for(self.positions@, o), o.price, d, n),
            )
        } else {
            self.positions@
        }
        &&& after.realized_total == if d is Sell {
            n.realized_total
        } else {
            self.realized_total
        }
        &&& after.friction_total == if d is Nothing {
            self.friction_total
        } else {
            n.friction_total
        }
        &&& after.window_friction == if counts {
            n.window_friction
        } else {
            self.window_friction
        }
        &&& after.trade_count == self.trade_count + if counts {
            1int
        } else {
            0
        }
        &&& after.buy_count == self.buy_count + if counts && d is Buy {
            1int
        } else {
            0
        }
    }

    /// What a redemption leaves of the account; it is no trade.
    pub open spec fn redeem_followed(self, after: MtmBook, a: WalletActivity, realized_total: Scalar) -> bool {
        &&& after.conditions@ == self.conditions@
        &&& after.positions@.dom() == self.positions@.dom()
        &&& forall|t: Seq<char>| #[trigger]
            self.positions@.contains_key(t) ==> after.positions@[t] == if redeems(self, a, t) {
                TokenPosition { shares: Scalar::Rank(0), cost_usd: Scalar::Rank(0), ..self.positions@[t] }
            } else {
                self.positions@[t]
            }
        &&& after.realized_total == if exists|t: Seq<char>| #[trigger] redeems(self, a, t) {
            realized_total
        } else {
            self.realized_total
        }
        &&& after.friction_total == self.friction_total
        &&& after.window_friction == self.window_friction
        &&& after.trade_count == self.trade_count
        &&& after.buy_count == self.buy_count
    }

    /// Follows an order. What happens from `start_time` on is counted.
    pub fn on_order(
        &mut self,
        o: &WalletOrder,
        kind: SideKind,
        start_time: i64,
        scaled: Scalar,
        n: &MtmNumbers,
    ) -> (r: Deal)
        requires
            old(self).trade_count < u64::MAX,
            old(self).buy_count < u64::MAX,
        ensures
            r == deal_of(position_for(old(self).positions@, *o).shares, *o, kind, scaled),
            old(self).order_followed(*final(self), *o, start_time, scaled, *n, r),
    {
        let (held, _) = self.holding(o.token_id.as_str());
        let r = deal(held, o, kind, scaled);
        if !is_tradable(o.price) || !is_tradable(o.shares_normalized) || !is_tradable(scaled) {
            return r;
        }
        if !self.conditions.contains(o.token_id.as_str()) {
            self.conditions.insert(o.token_id.clone(), o.condition_id.clone());
        }
        let ghost before = self.positions@;
        let mut p = match self.positions.remove(o.token_id.as_str()) {
            Some(p) => p,
            None => TokenPosition {
                condition_id: o.condition_id.clone(),
                shares: Scalar::Rank(0),
                cost_usd: Scalar::Rank(0),
                last_price: Scalar::Rank(0),
            },
        };
        assert(p == position_for(before, *o));
        p.last_price = o.price;
        match r {
            Deal::Nothing => {},
            Deal::Buy => {
                p.shares = n.bought_shares;
                p.cost_usd = n.bought_cost;
                self.friction_total = n.friction_total;
                if o.timestamp >= start_time {
                    self.buy_count = self.buy_count + 1;
                    self.trade_count = self.trade_count + 1;
                    self.window_friction = n.window_friction;
                }
            },
            Deal::Sell(_) => {
                if n.rest_shares.le(Scalar::Rank(R_1E_MINUS_12)) {
                    p.shares = Scalar::Rank(0);
                    p.cost_usd = Scalar::Rank(0);
                } else {
                    p.shares = n.rest_shares;
                    p.cost_usd = n.rest_cost;
                }
                self.realized_total = n.realized_total;
                self.friction_total = n.friction_total;
                if o.timestamp >= start_time {
                    self.trade_count = self.trade_count + 1;
                    self.window_friction = n.window_friction;
                }
            },
        }
        self.positions.insert(o.token_id.clone(), p);
        assert(self.positions@ =~= before.insert(
            o.token_id@,
            position_after(position_for(before, *o), o.price, r, *n),
        ));
        r
    }

    /// The holdings that a redemption closes: each once.
    pub fn redeemed(&self, a: &WalletActivity) -> (r: Vec<String>)
        ensures
            forall|t: Seq<char>| #[trigger] names(r@, t) <==> redeems(*self, *a, t),
            forall|i: int, j: int| #![trigger r[i], r[j]] 0 <= i < j < r.len() ==> r[i]@ != r[j]@,
    {
        let tokens = closed_tokens(&self.conditions, a);
        let mut r: Vec<String> = Vec::new();
        let mut i: usize = 0;
        while i < tokens.len()
            invariant
                i <= tokens.len(),
                forall|t: Seq<char>| #[trigger] names(tokens@, t) <==> closes(self.conditions@, *a, t),
                forall|j: int, k: int|
                    #![trigger tokens[j], tokens[k]]
                    0 <= j < k < tokens.len() ==> tokens[j]@ != tokens[k]@,
                forall|j: int|
                    #![trigger r[j]]
                    0 <= j < r.len() ==> redeems(*self, *a, r[j]@) && exists|k: int|
                        0 <= k < i && #[trigger] tokens[k]@ == r[j]@,
                forall|k: int|
                    #![trigger tokens[k]]
                    0 <= k < i && redeems(*self, *a, tokens[k]@) ==> names(r@, tokens[k]@),
                forall|j: int, k: int| #![trigger r[j], r[k]] 0 <= j < k < r.len() ==> r[j]@ != r[k]@,
            decreases tokens.len() - i,
        {
            assert(names(tokens@, tokens[i as int]@));
            let open = match self.positions.get(tokens[i].as_str()) {
                Some(p) => !p.shares.le(Scalar::Rank(R_1E_MINUS_12)),
                None => false,
            };
            if open {
                let ghost before = r@;
                r.push(tokens[i].clone());
                assert forall|k: int|
                    #![trigger tokens[k]]
                    0 <= k < i + 1 && redeems(*self, *a, tokens[k]@) implies names(r@, tokens[k]@) by {
                    if k < i {
                        let w = choose|w: int| 0 <= w < before.len() && #[trigger] before[w]@ == tokens[k]@;
                        assert(r[w]@ == tokens[k]@);
                    } else {
                        assert(r[before.len() as int]@ == tokens[k]@);
                    }
                }
                assert forall|j: int|
                    #![trigger r[j]]
                    0 <= j < r.len() implies redeems(*self, *a, r[j]@) && exists|k: int|
                    0 <= k < i + 1 && #[trigger] tokens[k]@ == r[j]@ by {
                    if j == before.len() {
                        assert(tokens[i as int]@ == r[j]@);
                    } else {
                        assert(r[j] == before[j]);
                    }
                }
            }
            i = i + 1;
        }
        assert forall|t: Seq<char>| #[trigger] names(r@, t) <==> redeems(*self, *a, t) by {
            if redeems(*self, *a, t) {
                assert(names(tokens@, t));
                let k = choose|k: int| 0 <= k < tokens.len() && #[trigger] tokens[k]@ == t;
                assert(names(r@, tokens[k]@));
            }
            if names(r@, t) {
                let w = choose|w: int| 0 <= w < r.len() && #[trigger] r[w]@ == t;
                assert(redeems(*self, *a, r[w]@));
            }
        }
        r
    }

    /// Follows a redemption; it is no trade.
    pub fn on_redeem(&mut self, a: &WalletActivity, realized_total: Scalar)
        ensures
            old(self).redeem_followed(*final(self), *a, realized_total),
    {
        let tokens = self.redeemed(a);
        let ghost before = self.positions@;
        let mut i: usize = 0;
        while i < tokens.len()
            invariant
                i <= tokens.len(),
                before == old(self).positions@,
                forall|t: Seq<char>| #[trigger] names(tokens@, t) <==> redeems(*old(self), *a, t),
                forall|j: int, k: int|
                    #![trigger tokens[j], tokens[k]]
                    0 <= j < k < tokens.len() ==> tokens[j]@ != tokens[k]@,
                self.conditions@ == old(self).conditions@,
                self.realized_total == old(self).realized_total,
                self.friction_total == old(self).friction_total,
                self.window_friction == old(self).window_friction,
                self.trade_count == old(self).trade_count,
                self.buy_count == old(self).buy_count,
                self.positions@.dom() == before.dom(),
                forall|t: Seq<char>| #[trigger]
                    before.contains_key(t) ==> self.positions@[t] == if names(
                        tokens@.take(i as int),
                        t,
                    ) {
                        TokenPosition {
                            shares: Scalar::Rank(0),
                            cost_usd: Scalar::Rank(0),
                            ..before[t]
                        }
                    } else {
                        before[t]
                    },
            decreases tokens.len() - i,
        {
            let ghost k = tokens[i as int]@;
            let ghost prior = self.positions@;
            assert(names(tokens@, k));
            assert(!names(tokens@.take(i as int), k)) by {
                if names(tokens@.take(i as int), k) {
                    let w = choose|w: int|
                        0 <= w < tokens@.take(i as int).len() && #[trigger] tokens@.take(i as int)[w]@ == k;
                    assert(tokens[w]@ == tokens[i as int]@);
                }
            }
            assert(before.contains_key(k));
            assert(prior.dom().contains(k));
            match self.positions.remove(tokens[i].as_str()) {
                Some(mut p) => {
                    p.shares = Scalar::Rank(0);
                    p.cost_usd = Scalar::Rank(0);
                    self.positions.insert(tokens[i].clone(), p);
                },
                None => {},
            }
            assert(self.positions@.dom() =~= before.dom());
            assert forall|t: Seq<char>| #[trigger] before.contains_key(t) implies self.positions@[t]
                == if names(tokens@.take(i as int + 1), t) {
                TokenPosition { shares: Scalar::Rank(0), cost_usd: Scalar::Rank(0), ..before[t] }
            } else {
                before[t]
            } by {
                super::copy_trading::lemma_names_step(tokens@, i as int, t);
                if t != k {
                    assert(self.positions@[t] == prior[t]);
                }
            }
            i = i + 1;
        }
        assert(tokens@.take(i as int) =~= tokens@);
        if tokens.len() > 0 {
            assert(names(tokens@, tokens[0]@));
            assert(redeems(*old(self), *a, tokens[0]@));
            self.realized_total = realized_total;
        } else {
            assert forall|t: Seq<char>| !(#[trigger] redeems(*old(self), *a, t)) by {
                assert(!names(tokens@, t));
            }
        }
        assert forall|t: Seq<char>| #[trigger] old(self).positions@.contains_key(t) implies self.positions@[t]
            == if redeems(*old(self), *a, t) {
            TokenPosition {
                shares: Scalar::Rank(0),
                cost_usd: Scalar::Rank(0),
                ..old(self).positions@[t]
            }
        } else {
            old(self).positions@[t]
        } by {
            assert(before.contains_key(t));
            assert(names(tokens@, t) <==> redeems(*old(self), *a, t));
        }
    }

    /// The holdings at the prices of a day.
    pub fn marks(&self, closes: &Table<Vec<DayAmount>>, day: i64) -> (r: Vec<Mark>)
        ensures
            r@ == marks_of(self.positions.order(), self.positions@, closes@, day),
    {
        let ghost order = self.positions.order();
        let n: usize = self.positions.len();
        let mut r: Vec<Mark> = Vec::new();
        let mut i: usize = 0;
        while i < n
            invariant
                i <= n,
                n == order.len(),
                order == self.positions.order(),
                r@ == marks_of(order.take(i as int), self.positions@, closes@, day),
            decreases n - i,
        {
            assert(order.take(i as int + 1).drop_last() =~= order.take(i as int));
            let token = self.positions.key_at(i);
            let p = self.positions.value_at(i);
            let told = match closes.get(token.as_str()) {
                Some(v) => find_close(v, day),
                None => None,
            };
            let price = match told {
                Some(x) => x,
                None => p.last_price,
            };
            if !p.shares.le(Scalar::Rank(R_1E_MINUS_12)) && price.is_finite() && !price.lt(
                Scalar::Rank(0),
            ) {
                r.push(Mark { shares: p.shares, price, cost_usd: p.cost_usd });
            }
            i = i + 1;
        }
        assert(order.take(i as int) =~= order);
        r
    }
}

/// What the replay does next.
#[derive(Clone, Copy, Debug, PartialEq, Eq, Structural)]
pub enum ReplayTask {
    /// Follows the event at a place.
    Follow(usize),
    /// Closes a day.
    CloseDay(i64),
    Done,
}

/// The replay: the days of the events, the event that comes next, and the days from the
/// current one to the last one that are not closed.
#[derive(Debug)]
pub struct Replay {
    pub event_days: Vec<i64>,
    pub next: usize,
    pub day: i64,
    pub end_day: i64,
    pub over: bool,
}

impl Replay {
    /// Whether the replay is within its events and days, and its last day comes in turn.
    pub open spec fn wf(self) -> bool {
        &&& self.next <= self.event_days.len()
        &&& self.day <= self.end_day
        &&& (self.end_day - self.day) % 86_400 == 0
    }

    /// What comes next: every event up to the end of the current day, then its close.
    pub open spec fn task(self) -> ReplayTask {
        if self.over {
            ReplayTask::Done
        } else if self.next < self.event_days.len() && self.event_days[self.next as int] <= self.day {
            ReplayTask::Follow(self.next)
        } else {
            ReplayTask::CloseDay(self.day)
        }
    }

    /// The replay after its next task.
    pub open spec fn after_task(self) -> Replay {
        match self.task() {
            ReplayTask::Follow(_) => Replay { next: (self.next + 1) as usize, ..self },
            ReplayTask::CloseDay(_) => if self.day + 86_400 <= self.end_day {
                Replay { day: (self.day + 86_400) as i64, ..self }
            } else {
                Replay { over: true, ..self }
            },
            ReplayTask::Done => self,
        }
    }

    /// A replay from the day of one instant to that of another; none where there is no day
    /// between them.
    pub fn new(times: &Vec<i64>, from: i64, to: i64) -> (r: Option<Replay>)
        ensures
            match r {
                None => bucket_of(to as int) < bucket_of(from as int),
                Some(p) => {
                    &&& bucket_of(from as int) <= bucket_of(to as int)
                    &&& p.wf()
                    &&& p.event_days.len() == times.len()
                    &&& forall|i: int|
                        #![trigger p.event_days[i]]
                        0 <= i < times.len() ==> p.event_days[i] == bucket_of(times[i] as int)
                    &&& p.next == 0
                    &&& p.day == bucket_of(from as int)
                    &&& p.end_day == bucket_of(to as int)
                    &&& !p.over
                },
            },
    {
        let day: i64 = day_bucket(from);
        let end_day: i64 = day_bucket(to);
        if end_day < day {
            return None;
        }
        let mut event_days: Vec<i64> = Vec::new();
        let mut i: usize = 0;
        while i < times.len()
            invariant
                i <= times.len(),
                event_days.len() == i,
                forall|j: int|
                    #![trigger event_days[j]]
                    0 <= j < i ==> event_days[j] == bucket_of(times[j] as int),
            decreases times.len() - i,
        {
            event_days.push(day_bucket(times[i]));
            i = i + 1;
        }
        Some(Replay { event_days, next: 0, day, end_day, over: false })
    }

    /// Takes the next task.
    pub fn step(&mut self) -> (r: ReplayTask)
        requires
            old(self).wf(),
        ensures
            final(self).wf(),
            r == old(self).task(),
            *final(self) == old(self).after_task(),
    {
        if self.over {
            return ReplayTask::Done;
        }
        if self.next < self.event_days.len() && self.event_days[self.next] <= self.day {
            let at: usize = self.next;
            self.next = at + 1;
            return ReplayTask::Follow(at);
        }
        let day: i64 = self.day;
        if less_than_apart(self.end_day, day, 86_400) {
            self.over = true;
        } else {
            self.day = day + 86_400;
        }
        ReplayTask::CloseDay(day)
    }
}

/// The points from a day on.
pub open spec fn points_from(curve: Seq<EquityPoint>, start_day: i64) -> Seq<EquityPoint>
    decreases curve.len(),
{
    if curve.len() == 0 {
        Seq::empty()
    } else if curve.last().timestamp >= start_day {
        points_from(curve.drop_last(), start_day).push(curve.last())
    } else {
        points_from(curve.drop_last(), start_day)
    }
}

/// The instants of points.
pub open spec fn point_times(curve: Seq<EquityPoint>) -> Seq<i64> {
    curve.map_values(|p: EquityPoint| p.timestamp)
}

/// The same points by their instants, those of one instant as they stood.
pub open spec fn is_sorted_curve(curve: Seq<EquityPoint>, r: Seq<EquityPoint>) -> bool {
    exists|perm: Seq<usize>| #[trigger]
        is_stable_order(point_times(curve), perm) && r == picked(curve, perm)
}

/// Sorts points by their instants.
pub fn sort_curve(curve: &Vec<EquityPoint>) -> (r: Vec<EquityPoint>)
    ensures
        is_sorted_curve(curve@, r@),
        r.len() == curve.len(),
{
    let mut times: Vec<i64> = Vec::new();
    let mut i: usize = 0;
    while i < curve.len()
        invariant
            i <= curve.len(),
            times@ == point_times(curve@).take(i as int),
        decreases curve.len() - i,
    {
        times.push(curve[i].timestamp);
        assert(times@ =~= point_times(curve@).take(i as int + 1));
        i = i + 1;
    }
    assert(times@ =~= point_times(curve@));
    let perm = stable_order(&times);
    let mut r: Vec<EquityPoint> = Vec::new();
    let mut k: usize = 0;
    while k < perm.len()
        invariant
            k <= perm.len(),
            times.len() == curve.len(),
            is_stable_order(times@, perm@),
            r@ == picked(curve@, perm@).take(k as int),
        decreases perm.len() - k,
    {
        assert(0 <= perm[k as int] < curve.len());
        r.push(curve[perm[k]]);
        assert(r@ =~= picked(curve@, perm@).take(k as int + 1));
        k = k + 1;
    }
    assert(r@ =~= picked(curve@, perm@));
    r
}

/// The value at an instant, or the first value.
pub open spec fn base_of(points: Seq<EquityPoint>, start_day: i64) -> Scalar {
    if exists|i: int| 0 <= i < points.len() && #[trigger] points[i].timestamp == start_day {
        first_at(points, start_day)
    } else {
        points[0].value
    }
}

/// The first value at an instant.
pub open spec fn first_at(points: Seq<EquityPoint>, at: i64) -> Scalar
    decreases points.len(),
{
    if points.len() == 0 {
        Scalar::Rank(0)
    } else if points.first().timestamp == at {
        points.first().value
    } else {
        first_at(points.drop_first(), at)
    }
}

/// A stretch of a curve, and the value from which it is counted.
#[derive(Debug)]
pub struct CurveWindow {
    pub points: Vec<EquityPoint>,
    pub base: Scalar,
}

/// The curve from a day on, where it has two points at least.
pub fn window_curve(curve: &Vec<EquityPoint>, start_day: i64) -> (r: Option<CurveWindow>)
    ensures
        match r {
            None => points_from(curve@, start_day).len() < 2,
            Some(w) => {
                &&& points_from(curve@, start_day).len() >= 2
                &&& is_sorted_curve(points_from(curve@, start_day), w.points@)
                &&& w.points.len() >= 2
                &&& w.base == base_of(w.points@, start_day)
            },
        },
{
    let mut kept: Vec<EquityPoint> = Vec::new();
    let mut i: usize = 0;
    while i < curve.len()
        invariant
            i <= curve.len(),
            kept@ == points_from(curve@.take(i as int), start_day),
        decreases curve.len() - i,
    {
        assert(curve@.take(i as int + 1).drop_last() =~= curve@.take(i as int));
        if curve[i].timestamp >= start_day {
            kept.push(curve[i]);
        }
        i = i + 1;
    }
    assert(curve@.take(i as int) =~= curve@);
    if kept.len() < 2 {
        return None;
    }
    let points = sort_curve(&kept);
    let mut base = points[0].value;
    let mut j: usize = 0;
    assert(points@.skip(0) =~= points@);
    while j < points.len() && points[j].timestamp != start_day
        invariant
            j <= points.len(),
            forall|k: int| #![trigger points[k]] 0 <= k < j ==> points[k].timestamp != start_day,
            first_at(points@, start_day) == first_at(points@.skip(j as int), start_day),
        decreases points.len() - j,
    {
        assert(points@.skip(j as int).drop_first() =~= points@.skip(j as int + 1));
        j = j + 1;
    }
    if j < points.len() {
        assert(points@.skip(j as int).first() == points[j as int]);
        base = points[j].value;
    }
    Some(CurveWindow { points, base })
}

/// A curve counted from a value: the differences, where the value is finite.
pub fn shift_window(w: CurveWindow, shifted: &Vec<Scalar>) -> (r: Vec<EquityPoint>)
    requires
        shifted.len() == w.points.len(),
    ensures
        r.len() == w.points.len(),
        forall|i: int|
            #![trigger r[i]]
            0 <= i < r.len() ==> r[i] == if w.base.spec_is_finite() {
                EquityPoint { timestamp: w.points[i].timestamp, value: shifted[i] }
            } else {
                w.points[i]
            },
{
    if !w.base.is_finite() {
        return w.points;
    }
    let mut r: Vec<EquityPoint> = Vec::new();
    let mut i: usize = 0;
    while i < w.points.len()
        invariant
            i <= w.points.len(),
            shifted.len() == w.points.len(),
            r.len() == i,
            forall|j: int|
                #![trigger r[j]]
                0 <= j < i ==> r[j] == (EquityPoint {
                    timestamp: w.points[j].timestamp,
                    value: shifted[j],
                }),
        decreases w.points.len() - i,
    {
        r.push(EquityPoint { timestamp: w.points[i].timestamp, value: shifted[i] });
        i = i + 1;
    }
    r
}

impl Replay {
    /// How many days are not closed yet.
    pub open spec fn days_left(self) -> nat {
        if self.over {
            0
        } else {
            ((self.end_day - self.day) / 86_400 + 1) as nat
        }
    }

    /// How many tasks there are at most.
    pub open spec fn tasks_left(self) -> nat {
        if self.over {
            0
        } else {
            (self.event_days.len() - self.next) as nat + self.days_left()
        }
    }

    /// The replay after so many tasks.
    pub open spec fn after_tasks(self, n: nat) -> Replay
        decreases n,
    {
        if n == 0 {
            self
        } else {
            self.after_task().after_tasks((n - 1) as nat)
        }
    }

    /// The days that so many tasks close.
    pub open spec fn closed_days(self, n: nat) -> Seq<int>
        decreases n,
    {
        if n == 0 {
            Seq::empty()
        } else {
            let rest = self.after_task().closed_days((n - 1) as nat);
            match self.task() {
                ReplayTask::CloseDay(d) => seq![d as int] + rest,
                _ => rest,
            }
        }
    }

    /// The places of the events that so many tasks follow.
    pub open spec fn followed_events(self, n: nat) -> Seq<int>
        decreases n,
    {
        if n == 0 {
            Seq::empty()
        } else {
            let rest = self.after_task().followed_events((n - 1) as nat);
            match self.task() {
                ReplayTask::Follow(i) => seq![i as int] + rest,
                _ => rest,
            }
        }
    }
}

/// A replay ends. It closes each of its days once, in order, and follows events in the
/// order in which they stand, each once; those that it leaves out come after its last day.
pub proof fn law_replay_closes_each_day_once(p: Replay, n: nat)
    requires
        p.wf(),
        n >= p.tasks_left(),
    ensures
        p.after_tasks(n).over,
        p.closed_days(n) == Seq::new(p.days_left(), |k: int| p.day + k * 86_400),
        p.next <= p.after_tasks(n).next <= p.event_days.len(),
        p.followed_events(n) == Seq::new((p.after_tasks(n).next - p.next) as nat, |k: int| p.next + k),
        forall|i: int|
            #![trigger p.event_days[i]]
            p.next <= i < p.after_tasks(n).next ==> p.event_days[i] <= p.end_day,
        !p.over && p.after_tasks(n).next < p.event_days.len() ==> p.event_days[p.after_tasks(
            n,
        ).next as int] > p.end_day,
    decreases n,
{
    let q = p.after_task();
    if p.over {
        if n > 0 {
            law_replay_closes_each_day_once(q, (n - 1) as nat);
        }
        assert(p.closed_days(n) =~= Seq::new(p.days_left(), |k: int| p.day + k * 86_400));
        assert(p.followed_events(n) =~= Seq::new(
            (p.after_tasks(n).next - p.next) as nat,
            |k: int| p.next + k,
        ));
    } else {
        assert(q.wf());
        law_replay_closes_each_day_once(q, (n - 1) as nat);
        let days = Seq::new(p.days_left(), |k: int| p.day + k * 86_400);
        let events = Seq::new((p.after_tasks(n).next - p.next) as nat, |k: int| p.next + k);
        assert(p.closed_days(n) =~= days);
        assert(p.followed_events(n) =~= events);
    }
}

/// When a day is closed, every event up to it has been followed and none after it.
pub proof fn law_a_day_is_closed_after_its_events(p: Replay)
    requires
        p.wf(),
        p.task() is CloseDay,
        forall|i: int, j: int|
            #![trigger p.event_days[i], p.event_days[j]]
            0 <= i <= j < p.event_days.len() ==> p.event_days[i] <= p.event_days[j],
    ensures
        forall|i: int|
            #![trigger p.event_days[i]]
            p.next <= i < p.event_days.len() ==> p.event_days[i] > p.day,
{
}

/// No condition is asked for twice, and so many at most.
pub proof fn law_conditions_are_asked_for_once(orders: Seq<WalletOrder>, from: i64, to: i64)
    ensures
        priced_conditions(orders, from, to).no_duplicates(),
        priced_conditions(orders, from, to).len() <= MAX_CONDITIONS,
{
    lemma_conditions_once(orders, from, to);
}

proof fn lemma_conditions_once(orders: Seq<WalletOrder>, from: i64, to: i64)
    ensures
        conditions_from(orders, from, to).no_duplicates(),
    decreases orders.len(),
{
    if orders.len() > 0 {
        lemma_conditions_once(orders.drop_first(), from, to);
    }
}

/// An event that is followed, with its figures: an order, or a redemption.
pub enum MtmEvent {
    Order(WalletOrder, SideKind, Scalar, MtmNumbers),
    Redeem(WalletActivity, Scalar),
}

/// Whether an account follows from another by an event.
pub open spec fn mtm_follows(before: MtmBook, after: MtmBook, e: MtmEvent, start_time: i64) -> bool {
    match e {
        MtmEvent::Order(o, kind, scaled, n) => before.order_followed(
            after,
            o,
            start_time,
            scaled,
            n,
            deal_of(position_for(before.positions@, o).shares, o, kind, scaled),
        ),
        MtmEvent::Redeem(a, realized_total) => before.redeem_followed(after, a, realized_total),
    }
}

/// Whether each account follows from the one before it, and the first is empty.
pub open spec fn is_mtm_run(books: Seq<MtmBook>, events: Seq<MtmEvent>, start_time: i64) -> bool {
    &&& books.len() == events.len() + 1
    &&& books[0].trade_count == 0
    &&& books[0].buy_count == 0
    &&& books[0].positions@ == Map::<Seq<char>, TokenPosition>::empty()
    &&& forall|i: int|
        0 <= i < events.len() ==> mtm_follows(#[trigger] books[i], books[i + 1], events[i], start_time)
}

/// Whether an event is a purchase that is followed and counts.
pub open spec fn is_counted_purchase(e: MtmEvent, start_time: i64) -> bool {
    e matches MtmEvent::Order(o, kind, scaled, n) && kind == SideKind::Buy && followable(o, scaled)
        && o.timestamp >= start_time
}

/// How many events are purchases that are followed and count.
pub open spec fn counted_purchases(events: Seq<MtmEvent>, start_time: i64) -> nat
    decreases events.len(),
{
    if events.len() == 0 {
        0
    } else {
        counted_purchases(events.drop_last(), start_time) + if is_counted_purchase(events.last(), start_time) {
            1nat
        } else {
            0nat
        }
    }
}

/// How many events are orders from the first instant on that counts.
pub open spec fn late_orders(events: Seq<MtmEvent>, start_time: i64) -> nat
    decreases events.len(),
{
    if events.len() == 0 {
        0
    } else {
        late_orders(events.drop_last(), start_time) + if (events.last() matches MtmEvent::Order(o, kind, scaled, n)
            && o.timestamp >= start_time) {
            1nat
        } else {
            0nat
        }
    }
}

/// Whether an event can make a token held.
pub open spec fn is_order_for(e: MtmEvent, t: Seq<char>) -> bool {
    e matches MtmEvent::Order(o, kind, scaled, n) && o.token_id@ == t
}

/// Whatever a wallet does, the replay has bought as often as there were purchases to
/// follow that count; it has traded at least as often, and no more often than there were
/// orders that count; and it holds only tokens that an order was for.
pub proof fn law_replay_counts_its_trades(books: Seq<MtmBook>, events: Seq<MtmEvent>, start_time: i64)
    requires
        is_mtm_run(books, events, start_time),
    ensures
        books.last().buy_count == counted_purchases(events, start_time),
        books.last().buy_count <= books.last().trade_count <= late_orders(events, start_time),
        forall|t: Seq<char>| #[trigger]
            books.last().positions@.contains_key(t) ==> exists|i: int|
                0 <= i < events.len() && is_order_for(#[trigger] events[i], t),
    decreases events.len(),
{
    if events.len() > 0 {
        let n = events.len() - 1;
        let b = books.drop_last();
        let e = events.drop_last();
        assert forall|i: int| 0 <= i < e.len() implies mtm_follows(#[trigger] b[i], b[i + 1], e[i], start_time) by {
            assert(mtm_follows(books[i], books[i + 1], events[i], start_time));
        }
        law_replay_counts_its_trades(b, e, start_time);
        assert(mtm_follows(books[n], books[n + 1], events[n], start_time));
        assert forall|t: Seq<char>| #[trigger]
            books.last().positions@.contains_key(t) implies exists|i: int|
            0 <= i < events.len() && is_order_for(#[trigger] events[i], t) by {
            if books[n].positions@.contains_key(t) {
                assert(b.last().positions@.contains_key(t));
                let i = choose|i: int| 0 <= i < e.len() && is_order_for(#[trigger] e[i], t);
                assert(is_order_for(events[i], t));
            } else {
                assert(books[n + 1].positions@.dom().contains(t));
                assert(is_order_for(events[n], t));
            }
        }
    }
}

/// A replayed holding is what its deal leaves: all that was bought with its cost, exactly
/// the shares and the cost that were not sold, and nothing of either where the rest is
/// negligible. The last price is that of the last order that could be followed.
pub proof fn law_replayed_holding_is_what_a_deal_leaves(
    book: &mut MtmBook,
    o: WalletOrder,
    kind: SideKind,
    start_time: i64,
    scaled: Scalar,
    n: MtmNumbers,
    r: Deal,
    before: MtmBook,
    held: (Scalar, Scalar),
    after: MtmBook,
    left: (Scalar, Scalar),
    token: &str,
)
    requires
        call_ensures(MtmBook::on_order, (book, &o, kind, start_time, scaled, &n), r),
        before == *old(book),
        after == *final(book),
        token@ == o.token_id@,
        call_ensures(MtmBook::holding, (&before, token), held),
        call_ensures(MtmBook::holding, (&after, token), left),
        held.0 is Rank,
        n.rest_shares is Rank,
    ensures
        ({
            let fit = o.price.spec_is_finite() && Scalar::Rank(0).spec_lt(o.price)
                && o.shares_normalized.spec_is_finite() && Scalar::Rank(0).spec_lt(o.shares_normalized)
                && scaled.spec_is_finite() && Scalar::Rank(0).spec_lt(scaled);
            let least = Scalar::Rank(R_1E_MINUS_12);
            &&& r is Buy <==> fit && kind == SideKind::Buy
            &&& r is Sell <==> fit && kind == SideKind::Sell && least.spec_lt(held.0) && least.spec_lt(scaled)
            &&& r is Sell ==> r->Sell_0.spec_le(held.0) && r->Sell_0.spec_le(scaled)
            &&& r is Buy ==> left == (n.bought_shares, n.bought_cost)
            &&& r is Sell && least.spec_lt(n.rest_shares) ==> left == (n.rest_shares, n.rest_cost)
            &&& r is Sell && n.rest_shares.spec_le(least) ==> left == (Scalar::Rank(0), Scalar::Rank(0))
            &&& r is Nothing ==> left == held
            &&& fit ==> after.positions@[o.token_id@].last_price == o.price
            &&& r is Sell ==> after.realized_total == n.realized_total
            &&& !(r is Sell) ==> after.realized_total == before.realized_total
            &&& r is Nothing ==> after.friction_total == before.friction_total
            &&& !(r is Nothing) ==> after.friction_total == n.friction_total
            &&& !(r is Nothing) && o.timestamp >= start_time ==> after.window_friction == n.window_friction
                && after.trade_count == before.trade_count + 1
            &&& r is Nothing || o.timestamp < start_time ==> after.window_friction == before.window_friction
                && after.trade_count == before.trade_count
            &&& r is Buy && o.timestamp >= start_time ==> after.buy_count == before.buy_count + 1
            &&& !(r is Buy) ==> after.buy_count == before.buy_count
        }),
{
}

/// An order leaves the holdings of the other tokens alone.
pub proof fn law_order_leaves_other_tokens(
    book: &mut MtmBook,
    o: WalletOrder,
    kind: SideKind,
    start_time: i64,
    scaled: Scalar,
    n: MtmNumbers,
    r: Deal,
    before: MtmBook,
    after: MtmBook,
    other: &str,
    held: (Scalar, Scalar),
    left: (Scalar, Scalar),
)
    requires
        call_ensures(MtmBook::on_order, (book, &o, kind, start_time, scaled, &n), r),
        before == *old(book),
        after == *final(book),
        other@ != o.token_id@,
        call_ensures(MtmBook::holding, (&before, other), held),
        call_ensures(MtmBook::holding, (&after, other), left),
    ensures
        left == held,
{
}

/// A redemption closes the open holdings of its token, or of its condition where it names no
/// token, and no other; it is no trade and costs no friction.
pub proof fn law_redemption_closes_what_it_names(
    book: &mut MtmBook,
    a: WalletActivity,
    realized_total: Scalar,
    before: MtmBook,
    after: MtmBook,
    token: &str,
    held: (Scalar, Scalar),
    left: (Scalar, Scalar),
)
    requires
        call_ensures(MtmBook::on_redeem, (book, &a, realized_total), ()),
        before == *old(book),
        after == *final(book),
        call_ensures(MtmBook::holding, (&before, token), held),
        call_ensures(MtmBook::holding, (&after, token), left),
        held.0 is Rank,
    ensures
        ({
            let named = if trimmed(a.token_id@).len() > 0 {
                token@ == a.token_id@
            } else {
                before.conditions@.contains_key(token@) && before.conditions@[token@]@ == a.condition_id@
            };
            let open = Scalar::Rank(R_1E_MINUS_12).spec_lt(held.0);
            &&& named && open ==> left == (Scalar::Rank(0), Scalar::Rank(0)) && after.realized_total == realized_total
            &&& !named || !open ==> left == held
        }),
        after.trade_count == before.trade_count && after.buy_count == before.buy_count,
        after.friction_total == before.friction_total && after.window_friction == before.window_friction,
{
    if before.positions@.contains_key(token@) {
        assert(after.positions@.dom().contains(token@));
        if redeems(before, a, token@) {
            assert(exists|t: Seq<char>| #[trigger] redeems(before, a, t));
        }
    } else {
        assert(!after.positions@.dom().contains(token@));
    }
}

proof fn lemma_marks(
    tokens: Seq<Seq<char>>,
    positions: Map<Seq<char>, TokenPosition>,
    closes: Map<Seq<char>, Vec<DayAmount>>,
    day: i64,
    k: int,
)
    requires
        0 <= k < tokens.len(),
        mark_of(positions[tokens[k]], closes_of(closes, tokens[k]), day) is Some,
    ensures
        marks_of(tokens, positions, closes, day).contains(
            mark_of(positions[tokens[k]], closes_of(closes, tokens[k]), day)->0,
        ),
    decreases tokens.len(),
{
    let before = marks_of(tokens.drop_last(), positions, closes, day);
    let all = marks_of(tokens, positions, closes, day);
    let m = mark_of(positions[tokens[k]], closes_of(closes, tokens[k]), day)->0;
    if k == tokens.len() - 1 {
        assert(all[before.len() as int] == m);
    } else {
        lemma_marks(tokens.drop_last(), positions, closes, day, k);
        let i = choose|i: int| 0 <= i < before.len() && before[i] == m;
        assert(all[i] == m);
    }
}

/// Every open holding is marked at the price that was told last for the day, and at its last
/// price where none was told.
pub proof fn law_holdings_are_marked_at_the_day(
    book: MtmBook,
    closes: Table<Vec<DayAmount>>,
    day: i64,
    r: Vec<Mark>,
    k: int,
    price: Option<Scalar>,
)
    requires
        call_ensures(MtmBook::marks, (&book, &closes, day), r),
        0 <= k < book.positions.order().len(),
        ({
            let token = book.positions.order()[k];
            if closes@.contains_key(token) {
                call_ensures(find_close, (&closes@[token], day), price)
            } else {
                price is None
            }
        }),
    ensures
        ({
            let token = book.positions.order()[k];
            let p = book.positions@[token];
            let at = if price is Some {
                price->0
            } else {
                p.last_price
            };
            Scalar::Rank(R_1E_MINUS_12).spec_lt(p.shares) && at.spec_is_finite() && Scalar::Rank(0).spec_le(at)
                ==> r@.contains(Mark { shares: p.shares, price: at, cost_usd: p.cost_usd })
        }),
        forall|i: int| 0 <= i < r.len() ==> !(#[trigger] r[i]).price.spec_lt(Scalar::Rank(0)) && r[i].price.spec_is_finite(),
{
    let token = book.positions.order()[k];
    if mark_of(book.positions@[token], closes_of(closes@, token), day) is Some {
        lemma_marks(book.positions.order(), book.positions@, closes@, day, k);
    }
    lemma_marks_are_prices(book.positions.order(), book.positions@, closes@, day);
}

proof fn lemma_marks_are_prices(
    tokens: Seq<Seq<char>>,
    positions: Map<Seq<char>, TokenPosition>,
    closes: Map<Seq<char>, Vec<DayAmount>>,
    day: i64,
)
    ensures
        forall|i: int|
            0 <= i < marks_of(tokens, positions, closes, day).len() ==> !(#[trigger] marks_of(
                tokens,
                positions,
                closes,
                day,
            )[i]).price.spec_lt(Scalar::Rank(0)) && marks_of(tokens, positions, closes, day)[i].price.spec_is_finite(),
    decreases tokens.len(),
{
    if tokens.len() > 0 {
        lemma_marks_are_prices(tokens.drop_last(), positions, closes, day);
    }
}

/// The price of a day is the one that was told last for it, and none where none was told.
pub proof fn law_last_price_of_a_day_counts(v: Vec<DayAmount>, day: i64, r: Option<Scalar>)
    requires
        call_ensures(find_close, (&v, day), r),
    ensures
        r matches Some(x) ==> exists|i: int|
            0 <= i < v.len() && (#[trigger] v[i]).day == day && v[i].amount == x && forall|j: int|
                i < j < v.len() ==> (#[trigger] v[j]).day != day,
        r is None ==> forall|i: int| 0 <= i < v.len() ==> (#[trigger] v[i]).day != day,
{
    lemma_close_on(v@, day);
}

proof fn lemma_close_on(s: Seq<DayAmount>, day: i64)
    ensures
        close_on(s, day) matches Some(x) ==> exists|i: int|
            0 <= i < s.len() && (#[trigger] s[i]).day == day && s[i].amount == x && forall|j: int|
                i < j < s.len() ==> (#[trigger] s[j]).day != day,
        close_on(s, day) is None ==> forall|i: int| 0 <= i < s.len() ==> (#[trigger] s[i]).day != day,
    decreases s.len(),
{
    if s.len() > 0 {
        let front = s.drop_last();
        if s.last().day == day {
            assert(s[s.len() - 1].day == day);
        } else {
            lemma_close_on(front, day);
            if close_on(front, day) is Some {
                let i = choose|i: int|
                    0 <= i < front.len() && (#[trigger] front[i]).day == day && front[i].amount == close_on(front, day)->0
                        && forall|j: int| i < j < front.len() ==> (#[trigger] front[j]).day != day;
                assert(s[i].day == day && s[i].amount == close_on(s, day)->0);
                assert forall|j: int| i < j < s.len() implies (#[trigger] s[j]).day != day by {
                    if j < front.len() {
                        assert(front[j] == s[j]);
                    }
                }
            } else {
                assert forall|i: int| 0 <= i < s.len() implies (#[trigger] s[i]).day != day by {
                    if i < front.len() {
                        assert(front[i] == s[i]);
                    }
                }
            }
        }
    }
}

/// A candlestick tells the price of the day on which it ended: its price in dollars where it
/// has one, else its price, which is in cents where it is above one and a half. Without a
/// time or a finite price it tells nothing.
pub proof fn law_candle_tells_its_day(c: Candle, v: Vec<Candle>, r: Vec<DayAmount>)
    requires
        v@ == seq![c],
        call_ensures(read_closes, (&v,), r),
    ensures
        c.end_period_ts is None && c.timestamp is None ==> r.len() == 0,
        c.close_dollars is None && c.close is None ==> r.len() == 0,
        r.len() <= 1,
        r.len() == 1 ==> {
            &&& r[0].amount.spec_is_finite()
            &&& r[0].day % 86_400 == 0
            &&& c.end_period_ts is Some && c.end_period_ts->0 >= 0 ==> r[0].day <= c.end_period_ts->0 < r[0].day + 86_400
            &&& c.end_period_ts is None && c.timestamp->0 >= 0 ==> r[0].day <= c.timestamp->0 < r[0].day + 86_400
            &&& c.close_dollars is Some ==> r[0].amount == c.close_dollars->0
            &&& c.close_dollars is None && Scalar::Rank(R_1_5).spec_lt(c.close->0) ==> r[0].amount == c.close_hundredth
            &&& c.close_dollars is None && c.close->0.spec_le(Scalar::Rank(R_1_5)) ==> r[0].amount == c.close->0
        },
        (c.end_period_ts is Some || c.timestamp is Some) && c.close_dollars is Some && c.close_dollars->0.spec_is_finite()
            ==> r.len() == 1,
{
    reveal_with_fuel(daily_closes, 2);
    assert(v@.drop_last() =~= Seq::<Candle>::empty());
    assert(v@.last() == c);
}

/// Reading candlesticks one after the other is reading each: what came before stays, in
/// order.
pub proof fn law_candles_are_read_in_order(v: Vec<Candle>, w: Vec<Candle>, r: Vec<DayAmount>, s: Vec<DayAmount>)
    requires
        v.len() > 0,
        w@ == v@.drop_last(),
        call_ensures(read_closes, (&v,), r),
        call_ensures(read_closes, (&w,), s),
    ensures
        s@.is_prefix_of(r@),
        r.len() <= s.len() + 1,
{
}

/// Prices that came later stand behind those that are known of the token, and the prices of
/// other tokens stay.
pub proof fn law_later_prices_stand_behind(
    known: &mut Table<Vec<DayAmount>>,
    token: &str,
    more: Vec<DayAmount>,
    other: Seq<char>,
)
    requires
        call_ensures(extend_closes, (known, token, &more), ()),
        other != token@,
    ensures
        more.len() > 0 ==> final(known)@.contains_key(token@),
        more.len() > 0 && old(known)@.contains_key(token@) ==> final(known)@[token@]@ == old(known)@[token@]@ + more@,
        more.len() > 0 && !old(known)@.contains_key(token@) ==> final(known)@[token@]@ == more@,
        old(known)@.contains_key(other) <==> final(known)@.contains_key(other),
        old(known)@.contains_key(other) ==> final(known)@[other]@ == old(known)@[other]@,
{
    let a = lists(old(known)@);
    let b = lists(final(known)@);
    assert(forall|k: Seq<char>| #[trigger] a.contains_key(k) <==> old(known)@.contains_key(k));
    assert(forall|k: Seq<char>| #[trigger] b.contains_key(k) <==> final(known)@.contains_key(k));
    assert(b.contains_key(other) <==> a.contains_key(other));
    if a.contains_key(other) {
        assert(b[other] == a[other]);
        assert(a[other] == old(known)@[other]@);
        assert(b[other] == final(known)@[other]@);
    }
    if more.len() > 0 {
        assert(b.contains_key(token@));
        assert(b[token@] == final(known)@[token@]@);
    }
}

/// Prices are asked for of the conditions of orders within the stretch, at most forty of
/// them, the latest first; they reach two hundred days back and are remembered for six hours
/// under their condition.
pub proof fn law_prices_are_asked_for(
    orders: Vec<WalletOrder>,
    from: i64,
    to: i64,
    r: Vec<String>,
    now: i64,
    start: i64,
    fetched_at: i64,
    fresh: bool,
    condition: &str,
    key: String,
)
    requires
        now >= i64::MIN + 17_280_000,
        call_ensures(recent_conditions, (&orders, from, to), r),
        call_ensures(candle_start, (now,), start),
        call_ensures(candles_fresh, (now, fetched_at), fresh),
        call_ensures(candle_key, (condition,), key),
    ensures
        r.len() <= 40,
        orders.len() > 0 && from <= orders@.last().timestamp <= to ==> r.len() > 0 && r[0]@
            == orders@.last().condition_id@,
        forall|i: int|
            0 <= i < r.len() ==> exists|k: int|
                0 <= k < orders.len() && (#[trigger] orders[k]).condition_id@ == (#[trigger] r[i])@ && from
                    <= orders[k].timestamp <= to,
        now - start == 200 * 86_400,
        fresh <==> now < fetched_at + 6 * 3600,
        key@ == "candles_day_v1:"@ + condition@,
{
    let all = conditions_from(orders@, from, to);
    assert(views(r@).len() == r.len());
    if orders.len() > 0 && from <= orders@.last().timestamp <= to {
        lemma_conditions_grow(orders@, from, to, orders.len() - 1);
        let one = orders@.skip(orders.len() - 1);
        assert(one.drop_first() =~= Seq::<WalletOrder>::empty());
        assert(one.first() == orders@.last());
        reveal_with_fuel(conditions_from, 2);
        assert(conditions_from(one, from, to)[0] == orders@.last().condition_id@);
        assert(all[0] == orders@.last().condition_id@);
        assert(views(r@)[0] == r[0]@);
    }
    assert forall|i: int| 0 <= i < r.len() implies exists|k: int|
        0 <= k < orders.len() && (#[trigger] orders[k]).condition_id@ == (#[trigger] r[i])@ && from
            <= orders[k].timestamp <= to by {
        assert(views(r@)[i] == r[i]@);
        lemma_conditions_are_of_orders(orders@, from, to, i);
        let k = choose|k: int|
            0 <= k < orders@.len() && (#[trigger] orders@[k]).condition_id@ == all[i] && from <= orders@[k].timestamp
                <= to;
        assert(orders[k].condition_id@ == r[i]@);
    }
}

proof fn lemma_conditions_are_of_orders(orders: Seq<WalletOrder>, from: i64, to: i64, i: int)
    requires
        0 <= i < conditions_from(orders, from, to).len(),
    ensures
        exists|k: int|
            0 <= k < orders.len() && (#[trigger] orders[k]).condition_id@ == conditions_from(orders, from, to)[i]
                && from <= orders[k].timestamp <= to,
    decreases orders.len(),
{
    let before = conditions_from(orders.drop_first(), from, to);
    if i < before.len() {
        lemma_conditions_are_of_orders(orders.drop_first(), from, to, i);
        let rest = orders.drop_first();
        let k = choose|k: int|
            0 <= k < rest.len() && (#[trigger] rest[k]).condition_id@ == before[i] && from <= rest[k].timestamp <= to;
        assert(orders[k + 1] == rest[k]);
    } else {
        assert(orders[0] == orders.first());
    }
}

/// The replay follows every event up to the end of a day before it closes the day, and goes
/// on with the next day until the last one is closed.
pub proof fn law_replay_goes_day_by_day(p: &mut Replay, r: ReplayTask)
    requires
        old(p).wf(),
        call_ensures(Replay::step, (p,), r),
    ensures
        r matches ReplayTask::Follow(i) ==> i == old(p).next && i < old(p).event_days.len() && old(p).event_days[i as int]
            <= old(p).day && final(p).next == i + 1 && final(p).day == old(p).day,
        r matches ReplayTask::CloseDay(d) ==> d == old(p).day && (old(p).next < old(p).event_days.len() ==> old(
            p,
        ).event_days[old(p).next as int] > d) && final(p).next == old(p).next && (d < old(p).end_day ==> final(p).day == d
            + 86_400 && !final(p).over) && (d == old(p).end_day ==> final(p).over),
        r is Done <==> old(p).over,
        final(p).event_days == old(p).event_days && final(p).end_day == old(p).end_day,
{
}

/// A redemption pays what it says, where that is a price, and one elsewhere.
pub proof fn law_redemption_pays_its_price(price: Scalar, r: Scalar)
    requires
        call_ensures(redeem_price, (price,), r),
    ensures
        price.spec_is_finite() && Scalar::Rank(0).spec_le(price) ==> r == price,
        !price.spec_is_finite() || price.spec_lt(Scalar::Rank(0)) ==> r == Scalar::Rank(ONE_RANK),
{
}

/// A sorted curve has the same points, each no earlier than the one before.
pub proof fn law_curve_is_sorted_by_time(curve: Vec<EquityPoint>, r: Vec<EquityPoint>, i: int, j: int)
    requires
        call_ensures(sort_curve, (&curve,), r),
        0 <= i < j < r.len(),
    ensures
        r[i].timestamp <= r[j].timestamp,
        curve@.contains(r[i]),
        r@.contains(curve[i]),
        r.len() == curve.len(),
{
    let times = point_times(curve@);
    let perm = choose|perm: Seq<usize>| #[trigger] is_stable_order(times, perm) && r@ == picked(curve@, perm);
    law_stable_order_is_a_permutation(times, perm);
    assert(stands_before(times, perm[i] as int, perm[j] as int));
    assert(r[i] == curve[perm[i] as int]);
    assert(r[j] == curve[perm[j] as int]);
    assert(perm.contains(i as usize));
    let w = choose|w: int| 0 <= w < perm.len() && perm[w] == i as usize;
    assert(r@[w] == curve[i]);
}

/// The curve of a stretch has the points from its first day on, in order, where there are
/// two at least; it is counted from its value on that day, or from its first one.
pub proof fn law_stretch_starts_on_its_day(
    curve: Vec<EquityPoint>,
    start_day: i64,
    r: Option<CurveWindow>,
    k: int,
)
    requires
        call_ensures(window_curve, (&curve, start_day), r),
    ensures
        r matches Some(w) ==> {
            &&& w.points.len() >= 2
            &&& forall|i: int| 0 <= i < w.points.len() ==> (#[trigger] w.points[i]).timestamp >= start_day
            &&& w.points[0].timestamp == start_day ==> w.base == w.points[0].value
            &&& (forall|i: int| 0 <= i < w.points.len() ==> (#[trigger] w.points[i]).timestamp != start_day) ==> w.base
                == w.points[0].value
            &&& 0 <= k < curve.len() && curve[k].timestamp >= start_day ==> w.points@.contains(curve[k])
        },
{
    if r is Some {
        let w = r->0;
        let kept = points_from(curve@, start_day);
        let times = point_times(kept);
        let perm = choose|perm: Seq<usize>| #[trigger] is_stable_order(times, perm) && w.points@ == picked(kept, perm);
        law_stable_order_is_a_permutation(times, perm);
        lemma_points_from(curve@, start_day, k);
        assert forall|i: int| 0 <= i < w.points.len() implies (#[trigger] w.points[i]).timestamp >= start_day by {
            assert(w.points[i] == kept[perm[i] as int]);
        }
        if 0 <= k < curve.len() && curve[k].timestamp >= start_day {
            let m = choose|m: int| 0 <= m < kept.len() && kept[m] == curve[k];
            assert(w.points.len() == kept.len());
            assert(perm.contains(m as usize));
            assert((m as usize) as int == m);
            let v = choose|v: int| 0 <= v < perm.len() && perm[v] == m as usize;
            assert(w.points@[v] == curve[k]);
        }
        if w.points[0].timestamp == start_day {
            assert(w.points@.first() == w.points@[0]);
        }
    }
}

proof fn lemma_points_from(curve: Seq<EquityPoint>, start_day: i64, k: int)
    ensures
        forall|i: int|
            0 <= i < points_from(curve, start_day).len() ==> (#[trigger] points_from(curve, start_day)[i]).timestamp
                >= start_day,
        0 <= k < curve.len() && curve[k].timestamp >= start_day ==> points_from(curve, start_day).contains(curve[k]),
    decreases curve.len(),
{
    if curve.len() > 0 {
        let front = curve.drop_last();
        let before = points_from(front, start_day);
        let all = points_from(curve, start_day);
        lemma_points_from(front, start_day, k);
        if 0 <= k < curve.len() && curve[k].timestamp >= start_day {
            if k < front.len() {
                assert(front[k] == curve[k]);
                let i = choose|i: int| 0 <= i < before.len() && before[i] == curve[k];
                assert(all[i] == curve[k]);
            } else {
                assert(all[before.len() as int] == curve[k]);
            }
        }
    }
}

/// A stretch is counted from its base: each point keeps its instant and has its difference,
/// and stays where there is no base.
pub proof fn law_stretch_is_counted_from_its_base(w: CurveWindow, shifted: Vec<Scalar>, r: Vec<EquityPoint>, i: int)
    requires
        shifted.len() == w.points.len(),
        call_ensures(shift_window, (w, &shifted), r),
        0 <= i < w.points.len(),
    ensures
        r.len() == w.points.len(),
        r[i].timestamp == w.points[i].timestamp,
        w.base.spec_is_finite() ==> r[i].value == shifted[i],
        !w.base.spec_is_finite() ==> r[i].value == w.points[i].value,
{
}

/// A replay runs over the days from the first to the last, with each event on its day; where
/// the last day comes before the first there is none.
pub proof fn law_replay_runs_over_its_days(times: Vec<i64>, from: i64, to: i64, r: Option<Replay>, i: int)
    requires
        call_ensures(Replay::new, (&times, from, to), r),
        0 <= from && 0 <= to,
        0 <= i < times.len(),
        times[i] >= 0,
    ensures
        r is Some <==> to as int / 86_400 >= from as int / 86_400,
        r is Some ==> {
            let p = r->0;
            &&& p.day <= from < p.day + 86_400 && p.day % 86_400 == 0
            &&& p.end_day <= to < p.end_day + 86_400 && p.end_day % 86_400 == 0
            &&& p.event_days.len() == times.len()
            &&& p.event_days[i] <= times[i] < p.event_days[i] + 86_400
            &&& p.next == 0 && !p.over
        },
{
    if r is Some {
        assert(r->0.event_days[i] == bucket_of(times[i] as int));
    }
}

/// A new book holds nothing. A redemption names each open holding that it closes once.
pub proof fn law_redemption_names_open_holdings(b: MtmBook, a: WalletActivity, r: Vec<String>, i: int, fresh: MtmBook, t: Seq<char>)
    requires
        call_ensures(MtmBook::redeemed, (&b, &a), r),
        call_ensures(MtmBook::new, (), fresh),
        0 <= i < r.len(),
    ensures
        b.positions@.contains_key(r[i]@) && !b.positions@[r[i]@].shares.spec_le(Scalar::Rank(R_1E_MINUS_12)),
        trimmed(a.token_id@).len() > 0 ==> r[i]@ == a.token_id@,
        trimmed(a.token_id@).len() == 0 ==> b.conditions@.contains_key(r[i]@) && b.conditions@[r[i]@]@ == a.condition_id@,
        !fresh.positions@.contains_key(t) && fresh.trade_count == 0 && fresh.buy_count == 0,
        fresh.realized_total == Scalar::Rank(0) && fresh.friction_total == Scalar::Rank(0),
{
    assert(names(r@, r@[i]@));
}

} // verus!
