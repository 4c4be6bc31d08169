//! A follower that puts a fixed amount into each order of a wallet.
use super::copy_replay::EquityPoint;
use super::copy_trading::{
    bucket_of,
    day_bucket,
    is_tradable,
    law_days_keep_the_order,
    tradable,
    DayAmount,
    SideKind,
    WalletActivity,
    WalletOrder,
};
use super::days::{are_groups, group_by_day, has_day, places_on, DayGroup};
use crate::base::clock::less_than_apart;
use crate::base::ranks::R_1E_MINUS_09;
use crate::base::scalar::{Scalar, ONE_RANK};
use crate::base::table::Table;
use crate::base::text::{joined, lowercase, same, to_lower, views};
use crate::vault::records::{text_copy, text_view};
use vstd::prelude::*;

verus! {

/// A holding of a condition: its shares, what they cost, which side the wallet bet on, and
/// the last price.
#[derive(Debug)]
pub struct Position {
    pub shares: Scalar,
    pub cost_usd: Scalar,
    pub token_label: Option<String>,
    pub last_price: Scalar,
}

/// No holding.
pub open spec fn no_position() -> Position {
    Position {
        shares: Scalar::Rank(0),
        cost_usd: Scalar::Rank(0),
        token_label: None,
        last_price: Scalar::Rank(0),
    }
}

impl Default for Position {
    fn default() -> (r: Position)
        ensures
            r == no_position(),
    {
        Position {
            shares: Scalar::Rank(0),
            cost_usd: Scalar::Rank(0),
            token_label: None,
            last_price: Scalar::Rank(0),
        }
    }
}

/// The holding of a condition.
pub open spec fn position_in(m: Map<Seq<char>, Position>, c: Seq<char>) -> Position {
    if m.contains_key(c) {
        m[c]
    } else {
        no_position()
    }
}

/// What the follower does with an event.
#[derive(Clone, Copy, Debug, PartialEq, Eq, Structural)]
pub enum Move {
    Nothing,
    Buy,
    /// Sells so many shares.
    Sell(Scalar),
    /// Closes the holding.
    Close,
}

/// The figures of a move: the holding after a purchase, the shares that the fixed amount
/// is worth, the holding after a sale, what the move realizes, and what is paid and
/// realized in all.
#[derive(Clone, Copy, Debug, PartialEq, Eq, Structural)]
pub struct MoveNumbers {
    pub bought_shares: Scalar,
    pub bought_cost: Scalar,
    pub rest_shares: Scalar,
    pub rest_cost: Scalar,
    pub realized: Scalar,
    pub realized_total: Scalar,
    pub friction_total: Scalar,
}

/// What the follower does with an order, when the fixed amount is worth `desired` shares.
pub open spec fn move_of(held: Scalar, price: Scalar, kind: SideKind, desired: Scalar) -> Move {
    let sold = desired.spec_max(Scalar::Rank(0)).spec_min(held);
    if !tradable(price) {
        Move::Nothing
    } else if kind == SideKind::Buy {
        Move::Buy
    } else if kind == SideKind::Sell && !held.spec_le(Scalar::Rank(0)) && !sold.spec_le(
        Scalar::Rank(0),
    ) {
        Move::Sell(sold)
    } else {
        Move::Nothing
    }
}

pub fn follow_order(held: Scalar, price: Scalar, kind: SideKind, desired: Scalar) -> (r: Move)
    ensures
        r == move_of(held, price, kind, desired),
{
    if !is_tradable(price) {
        return Move::Nothing;
    }
    match kind {
        SideKind::Buy => Move::Buy,
        SideKind::Sell => {
            if held.le(Scalar::Rank(0)) {
                return Move::Nothing;
            }
            let sold = desired.max(Scalar::Rank(0)).min(held);
            if sold.le(Scalar::Rank(0)) {
                Move::Nothing
            } else {
                Move::Sell(sold)
            }
        },
        SideKind::Redeem => Move::Nothing,
        SideKind::Other => Move::Nothing,
    }
}

/// The holding after a move.
pub open spec fn position_moved(p: Position, o: WalletOrder, m: Move, n: MoveNumbers) -> Position {
    match m {
        Move::Nothing => p,
        Move::Buy => Position {
            shares: n.bought_shares,
            cost_usd: n.bought_cost,
            token_label: if p.token_label is None {
                o.token_label
            } else {
                p.token_label
            },
            last_price: o.price,
        },
        Move::Sell(_) => if n.rest_shares.spec_le(Scalar::Rank(0)) {
            Position { shares: Scalar::Rank(0), cost_usd: Scalar::Rank(0), ..p }
        } else {
            Position { shares: n.rest_shares, cost_usd: n.rest_cost, ..p }
        },
        Move::Close => Position { shares: Scalar::Rank(0), cost_usd: Scalar::Rank(0), ..p },
    }
}

/// The price that a redemption pays, one where it says none.
pub fn close_price(price: Scalar) -> (r: Scalar)
    ensures
        r == if price.spec_is_finite() {
            price
        } else {
            Scalar::Rank(ONE_RANK)
        },
{
    if price.is_finite() {
        price
    } else {
        Scalar::Rank(ONE_RANK)
    }
}

/// The follower's account.
pub struct FollowerBook {
    pub positions: Table<Position>,
    pub realized: Vec<DayAmount>,
    pub realized_total: Scalar,
    pub friction_total: Scalar,
    pub trade_count: u64,
}

/// What was realized, with what a move realizes where it counts.
pub open spec fn booked(s: Seq<DayAmount>, counts: bool, at: i64, amount: Scalar) -> Seq<DayAmount> {
    if counts {
        s.push(DayAmount { day: bucket_of(at as int) as i64, amount })
    } else {
        s
    }
}

impl FollowerBook {
    /// Nothing held, nothing earned.
    pub fn new() -> (r: FollowerBook)
        ensures
            r.positions@ == Map::<Seq<char>, Position>::empty(),
            r.realized@ == Seq::<DayAmount>::empty(),
            r.realized_total == Scalar::Rank(0),
            r.friction_total == Scalar::Rank(0),
            r.trade_count == 0,
    {
        FollowerBook {
            positions: Table::new(),
            realized: Vec::new(),
            realized_total: Scalar::Rank(0),
            friction_total: Scalar::Rank(0),
            trade_count: 0,
        }
    }

    /// The shares and the cost of a holding.
    pub fn holding(&self, condition: &str) -> (r: (Scalar, Scalar))
        ensures
            r.0 == position_in(self.positions@, condition@).shares,
            r.1 == position_in(self.positions@, condition@).cost_usd,
    {
        match self.positions.get(condition) {
            Some(p) => (p.shares, p.cost_usd),
            None => (Scalar::Rank(0), Scalar::Rank(0)),
        }
    }

    fn replace(&mut self, condition: &String, o: &WalletOrder, m: Move, n: &MoveNumbers)
        ensures
            forall|c: Seq<char>| #[trigger]
                position_in(final(self).positions@, c) == if c == condition@ {
                    position_moved(position_in(old(self).positions@, c), *o, m, *n)
                } else {
                    position_in(old(self).positions@, c)
                },
            final(self).realized == old(self).realized,
            final(self).realized_total == old(self).realized_total,
            final(self).friction_total == old(self).friction_total,
            final(self).trade_count == old(self).trade_count,
    {
        let mut p = match self.positions.remove(condition.as_str()) {
            Some(p) => p,
            None => Position::default(),
        };
        assert(p == position_in(old(self).positions@, condition@));
        match m {
            Move::Nothing => {},
            Move::Buy => {
                p.shares = n.bought_shares;
                p.cost_usd = n.bought_cost;
                p.last_price = o.price;
                if p.token_label.is_none() {
                    p.token_label = text_copy(&o.token_label);
                }
            },
            Move::Sell(_) => {
                if n.rest_shares.le(Scalar::Rank(0)) {
                    p.shares = Scalar::Rank(0);
                    p.cost_usd = Scalar::Rank(0);
                } else {
                    p.shares = n.rest_shares;
                    p.cost_usd = n.rest_cost;
                }
            },
            Move::Close => {
                p.shares = Scalar::Rank(0);
                p.cost_usd = Scalar::Rank(0);
            },
        }
        self.positions.insert(condition.clone(), p);
    }

    /// What an order that led to a move leaves of the account.
    pub open spec fn order_followed(
        self,
        after: FollowerBook,
        o: WalletOrder,
        since: i64,
        n: MoveNumbers,
        m: Move,
    ) -> bool {
        let counts = m is Sell && o.timestamp >= since;
        &&& forall|c: Seq<char>| #[trigger]
            position_in(after.positions@, c) == if c == o.condition_id@ {
                position_moved(position_in(self.positions@, c), o, m, n)
            } else {
                position_in(self.positions@, c)
            }
        &&& after.realized@ == booked(self.realized@, counts, o.timestamp, n.realized)
        &&& after.realized_total == if counts {
            n.realized_total
        } else {
            self.realized_total
        }
        &&& after.friction_total == if m is Buy {
            n.friction_total
        } else {
            self.friction_total
        }
        &&& after.trade_count == self.trade_count + if m is Buy {
            1int
        } else {
            0
        }
    }

    /// What a redemption leaves of the account.
    pub open spec fn redeem_followed(
        self,
        after: FollowerBook,
        a: WalletActivity,
        since: i64,
        realized: Scalar,
        realized_total: Scalar,
        closed: bool,
    ) -> bool {
        let counts = closed && a.timestamp >= since;
        &&& forall|c: Seq<char>| #[trigger]
            position_in(after.positions@, c) == if closed && c == a.condition_id@ {
                Position {
                    shares: Scalar::Rank(0),
                    cost_usd: Scalar::Rank(0),
                    ..position_in(self.positions@, c)
                }
            } else {
                position_in(self.positions@, c)
            }
        &&& after.realized@ == booked(self.realized@, counts, a.timestamp, realized)
        &&& after.realized_total == if counts {
            realized_total
        } else {
            self.realized_total
        }
        &&& after.friction_total == self.friction_total
        &&& after.trade_count == self.trade_count
    }

    /// Follows an order. What is realized from `since` on is counted.
    pub fn on_order(
        &mut self,
        o: &WalletOrder,
        kind: SideKind,
        since: i64,
        desired: Scalar,
        n: &MoveNumbers,
    ) -> (r: Move)
        requires
            old(self).trade_count < u64::MAX,
        ensures
            r == move_of(
                position_in(old(self).positions@, o.condition_id@).shares,
                o.price,
                kind,
                desired,
            ),
            old(self).order_followed(*final(self), *o, since, *n, r),
    {
        let (held, _) = self.holding(o.condition_id.as_str());
        let r = follow_order(held, o.price, kind, desired);
        self.replace(&o.condition_id, o, r, n);
        match r {
            Move::Buy => {
                self.friction_total = n.friction_total;
                self.trade_count = self.trade_count + 1;
            },
            Move::Sell(_) => {
                if o.timestamp >= since {
                    self.realized_total = n.realized_total;
                    self.realized.push(
                        DayAmount { day: day_bucket(o.timestamp), amount: n.realized },
                    );
                }
            },
            Move::Nothing => {},
            Move::Close => {},
        }
        r
    }

    /// Follows a redemption: what is held of the condition is closed.
    pub fn on_redeem(&mut self, a: &WalletActivity, since: i64, realized: Scalar, realized_total: Scalar) -> (r: bool)
        ensures
            r == !position_in(old(self).positions@, a.condition_id@).shares.spec_le(Scalar::Rank(0)),
            old(self).redeem_followed(*final(self), *a, since, realized, realized_total, r),
    {
        let (held, _) = self.holding(a.condition_id.as_str());
        if held.le(Scalar::Rank(0)) {
            return false;
        }
        let mut p = match self.positions.remove(a.condition_id.as_str()) {
            Some(p) => p,
            None => Position::default(),
        };
        assert(p == position_in(old(self).positions@, a.condition_id@));
        p.shares = Scalar::Rank(0);
        p.cost_usd = Scalar::Rank(0);
        self.positions.insert(a.condition_id.clone(), p);
        if a.timestamp >= since {
            self.realized_total = realized_total;
            self.realized.push(DayAmount { day: day_bucket(a.timestamp), amount: realized });
        }
        true
    }

    /// The conditions of which something is left.
    pub fn open_positions(&self) -> (r: Vec<String>)
        ensures
            views(r@) == open_in(self.positions.order(), self.positions@),
    {
        let ghost order = self.positions.order();
        let n: usize = self.positions.len();
        let mut r: Vec<String> = Vec::new();
        let mut i: usize = 0;
        assert(views(r@) =~= Seq::<Seq<char>>::empty());
        while i < n
            invariant
                i <= n,
                n == order.len(),
                order == self.positions.order(),
                views(r@) == open_in(order.take(i as int), self.positions@),
            decreases n - i,
        {
            assert(order.take(i as int + 1).drop_last() =~= order.take(i as int));
            let c = self.positions.key_at(i);
            let p = self.positions.value_at(i);
            if Scalar::Rank(R_1E_MINUS_09).lt(p.shares) {
                let ghost before = r@;
                r.push(c.clone());
                assert(views(r@) =~= views(before).push(c@));
            }
            i = i + 1;
        }
        assert(order.take(i as int) =~= order);
        r
    }
}

/// The conditions of which more than a billionth of a share is held.
pub open spec fn open_in(order: Seq<Seq<char>>, m: Map<Seq<char>, Position>) -> Seq<Seq<char>>
    decreases order.len(),
{
    if order.len() == 0 {
        Seq::empty()
    } else {
        let before = open_in(order.drop_last(), m);
        if Scalar::Rank(R_1E_MINUS_09).spec_lt(m[order.last()].shares) {
            before.push(order.last())
        } else {
            before
        }
    }
}

/// A flat curve from one day to another, with a last value.
pub open spec fn flat_curve(from: i64, to: i64, last: Scalar) -> Seq<EquityPoint> {
    let start = EquityPoint { timestamp: bucket_of(from as int) as i64, value: Scalar::Rank(0) };
    let end = EquityPoint { timestamp: bucket_of(to as int) as i64, value: last };
    if bucket_of(from as int) == bucket_of(to as int) {
        seq![start]
    } else {
        seq![start, end]
    }
}

/// A curve that can be drawn: where there is none, a flat one.
pub fn drawable(curve: Vec<EquityPoint>, from: i64, to: i64, last: Scalar) -> (r: Vec<EquityPoint>)
    ensures
        r@ == if curve.len() == 0 {
            flat_curve(from, to, last)
        } else {
            curve@
        },
        r.len() > 0,
{
    if curve.len() > 0 {
        return curve;
    }
    let start: i64 = day_bucket(from);
    let end: i64 = day_bucket(to);
    let mut r: Vec<EquityPoint> = Vec::new();
    r.push(EquityPoint { timestamp: start, value: Scalar::Rank(0) });
    if end != start {
        r.push(EquityPoint { timestamp: end, value: last });
    }
    assert(r@ =~= flat_curve(from, to, last));
    r
}

/// The curve of an account that has so much after each of its days: a point for each day,
/// and a flat curve where it has none.
pub open spec fn drawn(days: Seq<DayGroup>, equity: Seq<Scalar>, from: i64, to: i64, last: Scalar) -> Seq<
    EquityPoint,
> {
    if days.len() == 0 {
        flat_curve(from, to, last)
    } else {
        Seq::new(days.len(), |i: int| EquityPoint { timestamp: days[i].day, value: equity[i] })
    }
}

/// Draws the curve of an account; `equity` is what it has after each day.
pub fn drawn_curve(
    days: &Vec<DayGroup>,
    equity: &Vec<Scalar>,
    from: i64,
    to: i64,
    last: Scalar,
) -> (r: Vec<EquityPoint>)
    requires
        equity.len() == days.len(),
    ensures
        r.len() > 0,
        r@ == drawn(days@, equity@, from, to, last),
{
    let mut r: Vec<EquityPoint> = Vec::new();
    let mut i: usize = 0;
    while i < days.len()
        invariant
            i <= days.len(),
            equity.len() == days.len(),
            r.len() == i,
            forall|j: int|
                #![trigger r[j]]
                0 <= j < i ==> r[j] == (EquityPoint { timestamp: days[j].day, value: equity[j] }),
        decreases days.len() - i,
    {
        r.push(EquityPoint { timestamp: days[i].day, value: equity[i] });
        i = i + 1;
    }
    let r = drawable(r, from, to, last);
    assert(r@ =~= drawn(days@, equity@, from, to, last));
    r
}

/// A side of a market.
#[derive(Debug)]
pub struct MarketSide {
    pub id: String,
    pub label: String,
}

/// How a market was decided, as far as that is known.
#[derive(Debug)]
pub struct MarketResolution {
    pub winning_side: Option<String>,
    pub side_a: Option<MarketSide>,
    pub side_b: Option<MarketSide>,
    pub completed_time: Option<i64>,
}

/// The label of the winning side: the winner is named by a letter, in any case, or by the
/// identity of a side.
pub open spec fn winning_label_of(m: MarketResolution, lower: Seq<char>) -> Option<Seq<char>> {
    match (m.winning_side, m.side_a, m.side_b) {
        (Some(w), Some(a), Some(b)) => if lower == "a"@ || w@ == a.id@ {
            Some(a.label@)
        } else if lower == "b"@ || w@ == b.id@ {
            Some(b.label@)
        } else {
            None
        },
        _ => None,
    }
}

/// Finds the label of the winning side, when the winner is known in small letters.
pub fn winning_label_under(m: &MarketResolution, lower: &str) -> (r: Option<String>)
    ensures
        text_view(r) == winning_label_of(*m, lower@),
{
    match (&m.winning_side, &m.side_a, &m.side_b) {
        (Some(w), Some(a), Some(b)) => {
            if same(lower, "a") || same(w.as_str(), a.id.as_str()) {
                Some(a.label.clone())
            } else if same(lower, "b") || same(w.as_str(), b.id.as_str()) {
                Some(b.label.clone())
            } else {
                None
            }
        },
        _ => None,
    }
}

/// The label of the winning side.
pub fn winning_label(m: &MarketResolution) -> (r: Option<String>)
    ensures
        text_view(r) == winning_label_of(
            *m,
            match m.winning_side {
                Some(w) => lowercase(w@),
                None => Seq::empty(),
            },
        ),
{
    match &m.winning_side {
        Some(w) => {
            let lower = to_lower(w.as_str());
            winning_label_under(m, lower.as_str())
        },
        None => None,
    }
}

/// How a holding ends: at one where its side won, at zero where it lost, on the day the
/// market was completed or today.
#[derive(Clone, Copy, Debug, PartialEq, Eq, Structural)]
pub struct Settlement {
    pub price: Scalar,
    pub day: i64,
}

/// How a holding ends when its side is known in small letters, and the winner's too.
pub open spec fn settlement_of(
    shares: Scalar,
    winner: Option<Seq<char>>,
    label: Option<Seq<char>>,
    completed: Option<i64>,
    now: i64,
) -> Option<Settlement> {
    match winner {
        Some(w) => if shares.spec_le(Scalar::Rank(R_1E_MINUS_09)) {
            None
        } else {
            Some(
                Settlement {
                    price: if label == Some(w) {
                        Scalar::Rank(ONE_RANK)
                    } else {
                        Scalar::Rank(0)
                    },
                    day: bucket_of(
                        match completed {
                            Some(t) => t as int,
                            None => now as int,
                        },
                    ) as i64,
                },
            )
        },
        None => None,
    }
}

/// Settles a holding whose side and the winning one are known in small letters.
pub fn settle_under(
    shares: Scalar,
    winner: &Option<String>,
    label: &Option<String>,
    completed: Option<i64>,
    now: i64,
) -> (r: Option<Settlement>)
    ensures
        r == settlement_of(shares, text_view(*winner), text_view(*label), completed, now),
{
    match winner {
        Some(w) => {
            if shares.le(Scalar::Rank(R_1E_MINUS_09)) {
                return None;
            }
            let won = match label {
                Some(l) => same(l.as_str(), w.as_str()),
                None => false,
            };
            let at: i64 = match completed {
                Some(t) => t,
                None => now,
            };
            let price = if won {
                Scalar::Rank(ONE_RANK)
            } else {
                Scalar::Rank(0)
            };
            Some(Settlement { price, day: day_bucket(at) })
        },
        None => None,
    }
}

/// A text in small letters.
pub open spec fn lowered(t: Option<Seq<char>>) -> Option<Seq<char>> {
    match t {
        Some(s) => Some(lowercase(s)),
        None => None,
    }
}

fn lower_text(t: &Option<String>) -> (r: Option<String>)
    ensures
        text_view(r) == lowered(text_view(*t)),
{
    match t {
        Some(s) => Some(to_lower(s.as_str())),
        None => None,
    }
}

/// Settles a holding by what is known of its market.
pub fn settle_open_position(p: &Position, market: &MarketResolution, now: i64) -> (r: Option<Settlement>)
    ensures
        r == settlement_of(
            p.shares,
            lowered(
                winning_label_of(
                    *market,
                    match market.winning_side {
                        Some(w) => lowercase(w@),
                        None => Seq::empty(),
                    },
                ),
            ),
            lowered(text_view(p.token_label)),
            market.completed_time,
            now,
        ),
{
    let winner = lower_text(&winning_label(market));
    let label = lower_text(&p.token_label);
    settle_under(p.shares, &winner, &label, market.completed_time, now)
}

/// What the open holdings of an account brought: each amount on the day its market was
/// decided, and all of them together.
pub struct Settlements {
    pub settled: Vec<DayAmount>,
    pub total: Scalar,
}

impl Settlements {
    /// Nothing settled.
    pub fn new() -> (r: Settlements)
        ensures
            r.settled@ == Seq::<DayAmount>::empty(),
            r.total == Scalar::Rank(0),
    {
        Settlements { settled: Vec::new(), total: Scalar::Rank(0) }
    }

    /// Books what a holding brought; `total` is what all did with it.
    pub fn on_settled(&mut self, s: &Settlement, realized: Scalar, total: Scalar)
        ensures
            final(self).settled@ == old(self).settled@.push(DayAmount { day: s.day, amount: realized }),
            final(self).total == total,
    {
        self.settled.push(DayAmount { day: s.day, amount: realized });
        self.total = total;
    }

    /// The days on which holdings were settled, with the places of their amounts.
    pub fn days(&self) -> (r: Vec<DayGroup>)
        ensures
            are_groups(self.settled@, r@),
    {
        group_by_day(&self.settled)
    }
}

/// Where the resolution of a market is remembered.
pub fn resolution_key(condition_id: &str) -> (r: String)
    ensures
        r@ == "market_resolution_v1:"@ + condition_id@,
{
    joined("market_resolution_v1:", condition_id)
}

/// Whether a resolution that came at an instant is still remembered: for less than an hour.
pub fn resolution_fresh(now: i64, fetched_at: i64) -> (r: bool)
    ensures
        r == (now - fetched_at < 3600),
{
    less_than_apart(now, fetched_at, 3600)
}

/// A sale sells something, and no more than is held.
pub proof fn law_sale_is_of_what_is_held(held: Scalar, price: Scalar, kind: SideKind, desired: Scalar)
    requires
        held is Rank,
    ensures
        move_of(held, price, kind, desired) matches Move::Sell(x) ==> Scalar::Rank(0).spec_lt(x)
            && x.spec_le(held),
{
}

/// A holding without a label never wins.
pub proof fn law_unlabelled_holding_is_worth_nothing(
    shares: Scalar,
    winner: Option<Seq<char>>,
    completed: Option<i64>,
    now: i64,
)
    ensures
        settlement_of(shares, winner, None, completed, now) matches Some(s) ==> s.price == Scalar::Rank(0),
{
}

/// An event that a follower follows, with its figures: an order, or a redemption.
pub enum FollowerEvent {
    Order(WalletOrder, SideKind, Scalar, MoveNumbers),
    Redeem(WalletActivity, Scalar, Scalar),
}

/// Whether an account follows from another by an event.
pub open spec fn follows(before: FollowerBook, after: FollowerBook, e: FollowerEvent, since: i64) -> bool {
    match e {
        FollowerEvent::Order(o, kind, desired, n) => before.order_followed(
            after,
            o,
            since,
            n,
            move_of(position_in(before.positions@, o.condition_id@).shares, o.price, kind, desired),
        ),
        FollowerEvent::Redeem(a, realized, realized_total) => before.redeem_followed(
            after,
            a,
            since,
            realized,
            realized_total,
            !position_in(before.positions@, a.condition_id@).shares.spec_le(Scalar::Rank(0)),
        ),
    }
}

/// Whether each account follows from the one before it, and the first is empty.
pub open spec fn is_follower_run(books: Seq<FollowerBook>, events: Seq<FollowerEvent>, since: i64) -> bool {
    &&& books.len() == events.len() + 1
    &&& books[0].trade_count == 0
    &&& books[0].realized_total == Scalar::Rank(0)
    &&& books[0].realized@ == Seq::<DayAmount>::empty()
    &&& books[0].positions@ == Map::<Seq<char>, Position>::empty()
    &&& forall|i: int|
        0 <= i < events.len() ==> follows(#[trigger] books[i], books[i + 1], events[i], since)
}

/// Whether an event is a purchase that is followed.
pub open spec fn is_purchase(e: FollowerEvent) -> bool {
    e matches FollowerEvent::Order(o, kind, desired, n) && kind == SideKind::Buy && tradable(o.price)
}

/// How many events are purchases that are followed.
pub open spec fn purchases(events: Seq<FollowerEvent>) -> nat
    decreases events.len(),
{
    if events.len() == 0 {
        0
    } else {
        purchases(events.drop_last()) + if is_purchase(events.last()) {
            1nat
        } else {
            0nat
        }
    }
}

/// Whether an event is about a condition.
pub open spec fn is_about(e: FollowerEvent, c: Seq<char>) -> bool {
    match e {
        FollowerEvent::Order(o, _, _, _) => o.condition_id@ == c,
        FollowerEvent::Redeem(a, _, _) => a.condition_id@ == c,
    }
}

/// Whatever a wallet does, a follower has traded as often as there were purchases to
/// follow; what it realized is counted on whole days and on none before the first that
/// counts, no more often than it sold or redeemed, and is nothing where nothing counts; and
/// it holds nothing of a condition that no event was about.
pub proof fn law_follower_counts_its_trades(books: Seq<FollowerBook>, events: Seq<FollowerEvent>, since: i64)
    requires
        is_follower_run(books, events, since),
    ensures
        books.last().trade_count == purchases(events),
        books.last().realized@.len() + purchases(events) <= events.len(),
        forall|i: int|
            0 <= i < books.last().realized@.len() ==> (#[trigger] books.last().realized@[i]).day >= bucket_of(
                since as int,
            ) && books.last().realized@[i].day % 86_400 == 0,
        books.last().realized@.len() == 0 ==> books.last().realized_total == Scalar::Rank(0),
        forall|c: Seq<char>|
            (forall|i: int| 0 <= i < events.len() ==> !is_about(#[trigger] events[i], c)) ==> #[trigger] position_in(
                books.last().positions@,
                c,
            ) == no_position(),
    decreases events.len(),
{
    if events.len() > 0 {
        let n = events.len() - 1;
        let b = books.drop_last();
        let e = events.drop_last();
        assert forall|i: int| 0 <= i < e.len() implies follows(#[trigger] b[i], b[i + 1], e[i], since) by {
            assert(follows(books[i], books[i + 1], events[i], since));
        }
        law_follower_counts_its_trades(b, e, since);
        assert(follows(books[n], books[n + 1], events[n], since));
        match events[n] {
            FollowerEvent::Order(o, _, _, _) => {
                if o.timestamp >= since {
                    law_days_keep_the_order(since as int, o.timestamp as int);
                }
            },
            FollowerEvent::Redeem(a, _, _) => {
                if a.timestamp >= since {
                    law_days_keep_the_order(since as int, a.timestamp as int);
                }
            },
        }
        let before = books[n].realized@;
        let after = books[n + 1].realized@;
        assert forall|i: int| 0 <= i < after.len() implies (#[trigger] after[i]).day >= bucket_of(since as int)
            && after[i].day % 86_400 == 0 by {
            if i < before.len() {
                assert(after[i] == before[i]);
            }
        }
        assert forall|c: Seq<char>|
            (forall|i: int| 0 <= i < events.len() ==> !is_about(#[trigger] events[i], c)) implies #[trigger] position_in(
            books.last().positions@,
            c,
        ) == no_position() by {
            assert forall|i: int| 0 <= i < e.len() implies !is_about(#[trigger] e[i], c) by {
                assert(e[i] == events[i]);
            }
            assert(!is_about(events[n], c));
            assert(position_in(b.last().positions@, c) == no_position());
        }
    }
}

/// Whatever a wallet does, the curve of its follower has a point, its points go from one
/// whole day to a later one, and where something was realized each is of a day on which
/// something was, and each such day has one.
pub proof fn law_curve_goes_from_day_to_day(
    books: Seq<FollowerBook>,
    events: Seq<FollowerEvent>,
    since: i64,
    now: i64,
    days: Seq<DayGroup>,
    equity: Seq<Scalar>,
)
    requires
        is_follower_run(books, events, since),
        since <= now,
        are_groups(books.last().realized@, days),
        equity.len() == days.len(),
    ensures
        ({
            let curve = drawn(days, equity, since, now, books.last().realized_total);
            &&& curve.len() > 0
            &&& forall|i: int, j: int|
                #![trigger curve[i], curve[j]]
                0 <= i < j < curve.len() ==> curve[i].timestamp < curve[j].timestamp
            &&& forall|i: int|
                #![trigger curve[i]]
                0 <= i < curve.len() ==> curve[i].timestamp % 86_400 == 0 && curve[i].timestamp >= bucket_of(
                    since as int,
                )
            &&& books.last().realized@.len() > 0 ==> curve.len() == days.len() && forall|k: int|
                #![trigger books.last().realized@[k]]
                0 <= k < books.last().realized@.len() ==> exists|i: int|
                    0 <= i < curve.len() && (#[trigger] curve[i]).timestamp == books.last().realized@[k].day
            &&& books.last().realized@.len() == 0 ==> forall|i: int|
                #![trigger curve[i]]
                0 <= i < curve.len() ==> curve[i].value == Scalar::Rank(0)
        }),
{
    let realized = books.last().realized@;
    let curve = drawn(days, equity, since, now, books.last().realized_total);
    law_follower_counts_its_trades(books, events, since);
    law_days_keep_the_order(since as int, now as int);
    assert forall|i: int| #![trigger days[i]] 0 <= i < days.len() implies exists|k: int|
        0 <= k < realized.len() && (#[trigger] realized[k]).day == days[i].day by {
        lemma_group_has_an_amount(realized, days[i].day);
    }
    if realized.len() > 0 {
        assert(has_day(days, realized[0].day));
        assert forall|i: int| #![trigger curve[i]] 0 <= i < curve.len() implies curve[i].timestamp % 86_400 == 0
            && curve[i].timestamp >= bucket_of(since as int) by {
            assert(curve[i].timestamp == days[i].day);
        }
        assert forall|k: int| #![trigger realized[k]] 0 <= k < realized.len() implies exists|i: int|
            0 <= i < curve.len() && (#[trigger] curve[i]).timestamp == realized[k].day by {
            assert(has_day(days, realized[k].day));
            let i = choose|i: int| 0 <= i < days.len() && (#[trigger] days[i]).day == realized[k].day;
            assert(curve[i].timestamp == realized[k].day);
        }
    } else if days.len() > 0 {
        lemma_group_has_an_amount(realized, days[0].day);
    }
}

/// Where a day has places, it has an amount.
proof fn lemma_group_has_an_amount(parts: Seq<DayAmount>, day: i64)
    requires
        places_on(parts, day).len() > 0,
    ensures
        exists|k: int| 0 <= k < parts.len() && (#[trigger] parts[k]).day == day,
    decreases parts.len(),
{
    if parts.last().day == day {
        assert(parts[parts.len() - 1].day == day);
    } else {
        lemma_group_has_an_amount(parts.drop_last(), day);
        let k = choose|k: int| 0 <= k < parts.len() - 1 && (#[trigger] parts.drop_last()[k]).day == day;
        assert(parts[k].day == day);
    }
}

/// A holding is settled on a whole day.
pub proof fn law_settled_on_a_whole_day(
    shares: Scalar,
    winner: Option<Seq<char>>,
    label: Option<Seq<char>>,
    completed: Option<i64>,
    now: i64,
)
    ensures
        settlement_of(shares, winner, label, completed, now) matches Some(s) ==> s.day % 86_400 == 0,
{
}

/// After an order the holding is what the move leaves: a purchase leaves the shares and the
/// cost with those bought, a sale exactly the shares and the cost that were not sold, none
/// of either where no share is left, and an order that is not followed leaves both alone. A
/// purchase is made of every order that buys at a price, a sale only of what is held.
pub proof fn law_holding_is_what_a_move_leaves(
    book: &mut FollowerBook,
    o: WalletOrder,
    kind: SideKind,
    since: i64,
    desired: Scalar,
    n: MoveNumbers,
    r: Move,
    before: FollowerBook,
    held: (Scalar, Scalar),
    after: FollowerBook,
    condition: &str,
    left: (Scalar, Scalar),
)
    requires
        call_ensures(FollowerBook::on_order, (book, &o, kind, since, desired, &n), r),
        before == *old(book),
        after == *final(book),
        condition@ == o.condition_id@,
        call_ensures(FollowerBook::holding, (&before, condition), held),
        call_ensures(FollowerBook::holding, (&after, condition), left),
    ensures
        r is Buy ==> left == (n.bought_shares, n.bought_cost),
        r is Sell && Scalar::Rank(0).spec_lt(n.rest_shares) ==> left == (n.rest_shares, n.rest_cost),
        r is Sell && n.rest_shares.spec_le(Scalar::Rank(0)) ==> left == (Scalar::Rank(0), Scalar::Rank(0)),
        r is Nothing ==> left == held,
        !(r is Close),
        r is Buy <==> kind == SideKind::Buy && o.price.spec_is_finite() && Scalar::Rank(0).spec_lt(o.price),
        r is Sell ==> kind == SideKind::Sell && !held.0.spec_le(Scalar::Rank(0)) && o.price.spec_is_finite()
            && Scalar::Rank(0).spec_lt(o.price),
        r is Sell && held.0 is Rank ==> Scalar::Rank(0).spec_lt(r->Sell_0) && r->Sell_0.spec_le(held.0) && (
        desired is Rank ==> r->Sell_0 == desired || r->Sell_0 == held.0),
        r is Sell && held.0 is Rank && desired is Rank ==> r->Sell_0.spec_le(desired),
        kind == SideKind::Sell && o.price.spec_is_finite() && Scalar::Rank(0).spec_lt(o.price)
            && Scalar::Rank(0).spec_lt(held.0) && Scalar::Rank(0).spec_lt(desired) ==> r is Sell,
        kind == SideKind::Redeem || kind == SideKind::Other ==> r is Nothing,
{
}

/// What an order does not concern stays: the holdings of other conditions, and the totals
/// where nothing is bought or sold. What a sale realizes counts from an instant on, on its
/// day; what a purchase costs in friction counts always, and only purchases are counted.
pub proof fn law_order_counts_where_it_belongs(
    book: &mut FollowerBook,
    o: WalletOrder,
    kind: SideKind,
    since: i64,
    desired: Scalar,
    n: MoveNumbers,
    r: Move,
    before: FollowerBook,
    after: FollowerBook,
    other: &str,
    held: (Scalar, Scalar),
    left: (Scalar, Scalar),
)
    requires
        call_ensures(FollowerBook::on_order, (book, &o, kind, since, desired, &n), r),
        before == *old(book),
        after == *final(book),
        other@ != o.condition_id@,
        call_ensures(FollowerBook::holding, (&before, other), held),
        call_ensures(FollowerBook::holding, (&after, other), left),
    ensures
        left == held,
        r is Buy ==> after.trade_count == before.trade_count + 1 && after.friction_total == n.friction_total,
        !(r is Buy) ==> after.trade_count == before.trade_count && after.friction_total == before.friction_total,
        r is Sell && o.timestamp >= since ==> after.realized_total == n.realized_total && after.realized@.len()
            == before.realized@.len() + 1 && after.realized@.drop_last() == before.realized@
            && after.realized@.last().amount == n.realized && after.realized@.last().day % 86_400 == 0,
        r is Sell && 0 <= since <= o.timestamp ==> after.realized@.last().day <= o.timestamp
            < after.realized@.last().day + 86_400,
        !(r is Sell) || o.timestamp < since ==> after.realized_total == before.realized_total && after.realized@
            == before.realized@,
{
    assert(after.realized@.len() > before.realized@.len() ==> after.realized@.drop_last() =~= before.realized@);
}

/// A redemption closes what is held of its condition and nothing else; what it realizes
/// counts from an instant on, and without a holding nothing happens.
pub proof fn law_redemption_closes_the_holding(
    book: &mut FollowerBook,
    a: WalletActivity,
    since: i64,
    realized: Scalar,
    realized_total: Scalar,
    r: bool,
    before: FollowerBook,
    after: FollowerBook,
    condition: &str,
    held: (Scalar, Scalar),
    left: (Scalar, Scalar),
)
    requires
        call_ensures(FollowerBook::on_redeem, (book, &a, since, realized, realized_total), r),
        before == *old(book),
        after == *final(book),
        call_ensures(FollowerBook::holding, (&before, condition), held),
        call_ensures(FollowerBook::holding, (&after, condition), left),
    ensures
        condition@ == a.condition_id@ ==> (r <==> !held.0.spec_le(Scalar::Rank(0))),
        condition@ == a.condition_id@ && r ==> left == (Scalar::Rank(0), Scalar::Rank(0)),
        condition@ != a.condition_id@ || !r ==> left == held,
        r && a.timestamp >= since ==> after.realized_total == realized_total && after.realized@.len()
            == before.realized@.len() + 1 && after.realized@.drop_last() == before.realized@
            && after.realized@.last().amount == realized && after.realized@.last().day % 86_400 == 0,
        !r || a.timestamp < since ==> after.realized_total == before.realized_total && after.realized@
            == before.realized@,
        after.trade_count == before.trade_count,
        after.friction_total == before.friction_total,
{
    assert(after.realized@.len() > before.realized@.len() ==> after.realized@.drop_last() =~= before.realized@);
}

/// The first side that is bought is the side of the holding, and the last price bought at
/// is its last price.
pub proof fn law_purchase_marks_the_holding(
    book: &mut FollowerBook,
    o: WalletOrder,
    kind: SideKind,
    since: i64,
    desired: Scalar,
    n: MoveNumbers,
    r: Move,
)
    requires
        call_ensures(FollowerBook::on_order, (book, &o, kind, since, desired, &n), r),
        r is Buy,
    ensures
        ({
            let before = position_in(old(book).positions@, o.condition_id@);
            let after = position_in(final(book).positions@, o.condition_id@);
            &&& before.token_label is Some ==> after.token_label == before.token_label
            &&& before.token_label is None ==> after.token_label == o.token_label
            &&& after.last_price == o.price
        }),
{
}

/// Of a holding more than a billionth of a share is open, and nothing else.
pub proof fn law_open_holdings_have_shares(book: FollowerBook, r: Vec<String>, i: int)
    requires
        call_ensures(FollowerBook::open_positions, (&book,), r),
        0 <= i < r.len(),
    ensures
        book.positions.order().contains(r[i]@),
        Scalar::Rank(R_1E_MINUS_09).spec_lt(book.positions@[r[i]@].shares),
{
    lemma_open_in(book.positions.order(), book.positions@, i);
    assert(views(r@)[i] == r[i]@);
}

proof fn lemma_open_in(order: Seq<Seq<char>>, m: Map<Seq<char>, Position>, i: int)
    requires
        0 <= i < open_in(order, m).len(),
    ensures
        order.contains(open_in(order, m)[i]),
        Scalar::Rank(R_1E_MINUS_09).spec_lt(m[open_in(order, m)[i]].shares),
    decreases order.len(),
{
    let before = open_in(order.drop_last(), m);
    if i < before.len() {
        lemma_open_in(order.drop_last(), m, i);
        let k = choose|k: int| 0 <= k < order.drop_last().len() && order.drop_last()[k] == before[i];
        assert(order[k] == before[i]);
    } else {
        assert(order[order.len() - 1] == order.last());
    }
}

/// Every holding of more than a billionth of a share is open.
pub proof fn law_no_open_holding_is_missed(book: FollowerBook, r: Vec<String>, k: int)
    requires
        call_ensures(FollowerBook::open_positions, (&book,), r),
        0 <= k < book.positions.order().len(),
        Scalar::Rank(R_1E_MINUS_09).spec_lt(book.positions@[book.positions.order()[k]].shares),
    ensures
        exists|i: int| 0 <= i < r.len() && (#[trigger] r[i])@ == book.positions.order()[k],
{
    let order = book.positions.order();
    lemma_open_has(order, book.positions@, k);
    let i = choose|i: int|
        0 <= i < open_in(order, book.positions@).len() && #[trigger] open_in(order, book.positions@)[i] == order[k];
    assert(views(r@)[i] == r[i]@);
}

proof fn lemma_open_has(order: Seq<Seq<char>>, m: Map<Seq<char>, Position>, k: int)
    requires
        0 <= k < order.len(),
        Scalar::Rank(R_1E_MINUS_09).spec_lt(m[order[k]].shares),
    ensures
        exists|i: int| 0 <= i < open_in(order, m).len() && #[trigger] open_in(order, m)[i] == order[k],
    decreases order.len(),
{
    let before = open_in(order.drop_last(), m);
    if k == order.len() - 1 {
        assert(open_in(order, m)[before.len() as int] == order[k]);
    } else {
        lemma_open_has(order.drop_last(), m, k);
        let i = choose|i: int| 0 <= i < before.len() && #[trigger] before[i] == order.drop_last()[k];
        assert(open_in(order, m)[i] == order[k]);
    }
}

/// A holding on the winning side ends at one and any other at zero, on the day its market
/// was completed or on the day of now; a market without a winner, and less than a billionth
/// of a share, settle nothing.
pub proof fn law_winner_is_paid_one(
    shares: Scalar,
    winner: Option<String>,
    label: Option<String>,
    completed: Option<i64>,
    now: i64,
    r: Option<Settlement>,
)
    requires
        shares is Rank,
        call_ensures(settle_under, (shares, &winner, &label, completed, now), r),
    ensures
        r is Some <==> winner is Some && Scalar::Rank(R_1E_MINUS_09).spec_lt(shares),
        r matches Some(s) ==> {
            &&& label is Some && label->0@ == winner->0@ ==> s.price == Scalar::Rank(ONE_RANK)
            &&& label is None || label->0@ != winner->0@ ==> s.price == Scalar::Rank(0)
            &&& s.day % 86_400 == 0
            &&& completed is Some && completed->0 >= 0 ==> s.day <= completed->0 < s.day + 86_400
            &&& completed is None && now >= 0 ==> s.day <= now < s.day + 86_400
        },
{
}

/// The winner is named by a letter or by the identity of a side; where it is neither, or a
/// side is missing, nobody has won.
pub proof fn law_winner_is_a_side(m: MarketResolution, lower: &str, r: Option<String>)
    requires
        call_ensures(winning_label_under, (&m, lower), r),
    ensures
        m.winning_side is None || m.side_a is None || m.side_b is None ==> r is None,
        m.winning_side is Some && m.side_a is Some && m.side_b is Some ==> {
            let w = m.winning_side->0@;
            let a = m.side_a->0;
            let b = m.side_b->0;
            &&& lower@ == "a"@ || w == a.id@ ==> r is Some && r->0@ == a.label@
            &&& lower@ != "a"@ && w != a.id@ && (lower@ == "b"@ || w == b.id@) ==> r is Some && r->0@ == b.label@
            &&& lower@ != "a"@ && lower@ != "b"@ && w != a.id@ && w != b.id@ ==> r is None
        },
{
}

/// A redemption pays what it says, and one where that is no number.
pub proof fn law_redemption_pays_one_at_least_where_unsaid(price: Scalar, r: Scalar)
    requires
        call_ensures(close_price, (price,), r),
    ensures
        price.spec_is_finite() ==> r == price,
        !price.spec_is_finite() ==> r == Scalar::Rank(ONE_RANK),
{
}

/// A resolution is remembered for less than an hour, under a key of its own market.
pub proof fn law_resolution_is_remembered_for_an_hour(now: i64, fetched_at: i64, fresh: bool, condition: &str, key: String)
    requires
        call_ensures(resolution_fresh, (now, fetched_at), fresh),
        call_ensures(resolution_key, (condition,), key),
    ensures
        fresh <==> now < fetched_at + 3600,
        key@ == "market_resolution_v1:"@ + condition@,
{
}

/// An empty account holds nothing.
pub proof fn law_empty_account_holds_nothing(book: FollowerBook, condition: &str, r: (Scalar, Scalar))
    requires
        call_ensures(FollowerBook::new, (), book),
        call_ensures(FollowerBook::holding, (&book, condition), r),
    ensures
        r == (Scalar::Rank(0), Scalar::Rank(0)),
        book.trade_count == 0,
        book.realized@.len() == 0,
        book.realized_total == Scalar::Rank(0) && book.friction_total == Scalar::Rank(0),
{
}

/// A curve that is there is drawn as it is; where there is none, it starts at nothing on the
/// first day and ends with the last value on another day.
pub proof fn law_flat_curve_spans_its_days(curve: Vec<EquityPoint>, from: i64, to: i64, last: Scalar, r: Vec<EquityPoint>)
    requires
        call_ensures(drawable, (curve, from, to, last), r),
        0 <= from <= to,
    ensures
        curve.len() > 0 ==> r@ == curve@,
        curve.len() == 0 ==> {
            &&& 1 <= r.len() <= 2
            &&& r[0].value == Scalar::Rank(0)
            &&& r[0].timestamp % 86_400 == 0 && r[0].timestamp <= from < r[0].timestamp + 86_400
            &&& r.len() == 2 ==> r[1].value == last && r[1].timestamp % 86_400 == 0 && r[1].timestamp <= to
                < r[1].timestamp + 86_400 && r[0].timestamp < r[1].timestamp
            &&& r.len() == 1 ==> to < r[0].timestamp + 86_400
        },
{
}

/// A drawn curve has a point for each day with its worth.
pub proof fn law_drawn_curve_has_each_day(
    days: Vec<DayGroup>,
    equity: Vec<Scalar>,
    from: i64,
    to: i64,
    last: Scalar,
    r: Vec<EquityPoint>,
    i: int,
)
    requires
        equity.len() == days.len(),
        call_ensures(drawn_curve, (&days, &equity, from, to, last), r),
        0 <= i < days.len(),
    ensures
        r.len() == days.len(),
        r[i].timestamp == days[i].day && r[i].value == equity[i],
{
    assert(r@[i] == EquityPoint { timestamp: days[i].day, value: equity[i] });
}

/// What is settled falls on the day of its settlement, behind what was settled before.
pub proof fn law_settled_amounts_stand_in_order(
    s: &mut Settlements,
    x: Settlement,
    realized: Scalar,
    total: Scalar,
    after: Settlements,
    days: Vec<DayGroup>,
    g: int,
    fresh: Settlements,
)
    requires
        call_ensures(Settlements::on_settled, (s, &x, realized, total), ()),
        after == *final(s),
        call_ensures(Settlements::days, (&after,), days),
        call_ensures(Settlements::new, (), fresh),
        0 <= g < days.len() - 1,
    ensures
        after.total == total,
        after.settled.len() == old(s).settled.len() + 1,
        after.settled@.last().day == x.day && after.settled@.last().amount == realized,
        after.settled@.drop_last() == old(s).settled@,
        days[g].day < days[g + 1].day,
        fresh.settled.len() == 0 && fresh.total == Scalar::Rank(0),
{
    assert(days@[g].day < days@[g + 1].day);
}

/// A holding that stays is settled as its market was decided: by the label of the winner in
/// small letters, against its own.
pub proof fn law_holding_is_settled_by_its_label(p: Position, m: MarketResolution, now: i64, r: Option<Settlement>)
    requires
        call_ensures(settle_open_position, (&p, &m, now), r),
        p.shares is Rank,
        m.winning_side is Some && m.side_a is Some && m.side_b is Some,
    ensures
        ({
            let w = m.winning_side->0@;
            let a = m.side_a->0;
            let b = m.side_b->0;
            let first = lowercase(w) == "a"@ || w == a.id@;
            let second = !first && (lowercase(w) == "b"@ || w == b.id@);
            let label = if first {
                a.label@
            } else {
                b.label@
            };
            let held = p.token_label is Some && lowercase(p.token_label->0@) == lowercase(label);
            &&& r is Some <==> (first || second) && Scalar::Rank(R_1E_MINUS_09).spec_lt(p.shares)
            &&& r is Some && held ==> r->0.price == Scalar::Rank(ONE_RANK)
            &&& r is Some && !held ==> r->0.price == Scalar::Rank(0)
            &&& r is Some && m.completed_time is Some && m.completed_time->0 >= 0 ==> r->0.day <= m.completed_time->0
                < r->0.day + 86_400
            &&& r is Some && m.completed_time is None && now >= 0 ==> r->0.day <= now < r->0.day + 86_400
        }),
{
}

/// An order is followed where its price and amount are above zero, and a sale by no more than
/// is held.
pub proof fn law_order_is_followed_by_its_side(held: Scalar, price: Scalar, kind: SideKind, desired: Scalar, r: Move)
    requires
        call_ensures(follow_order, (held, price, kind, desired), r),
        held is Rank && price is Rank && desired is Rank,
    ensures
        r is Buy <==> kind == SideKind::Buy && price.spec_is_finite() && Scalar::Rank(0).spec_lt(price),
        r is Sell <==> kind == SideKind::Sell && price.spec_is_finite() && Scalar::Rank(0).spec_lt(price)
            && Scalar::Rank(0).spec_lt(held) && Scalar::Rank(0).spec_lt(desired),
        r is Sell ==> r->Sell_0.spec_le(held) && r->Sell_0.spec_le(desired) && (r->Sell_0 == held || r->Sell_0 == desired),
        !(r is Close),
{
}

} // verus!
