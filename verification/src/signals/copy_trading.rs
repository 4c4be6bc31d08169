//! What a follower of a wallet would have traded, held and earned.
use crate::base::clock::{div_toward_zero, toward_zero, DAY_SECS};
use crate::base::order::{
    is_stable_order,
    law_stable_order_is_a_permutation,
    stable_order,
    stands_before,
};
use crate::base::ranks::R_1E_MINUS_12;
use crate::base::scalar::Scalar;
use crate::base::table::Table;
use crate::base::text::{chars_of, same, to_upper, trim, trimmed, uppercase};
use vstd::prelude::*;

verus! {

/// The first second of the day of an instant, towards the epoch.
pub open spec fn bucket_of(ts: int) -> int {
    toward_zero(ts, 86_400) * 86_400
}

pub fn day_bucket(ts: i64) -> (r: i64)
    ensures
        r == bucket_of(ts as int),
{
    let days: i64 = div_toward_zero(ts, DAY_SECS);
    assert(days * 86_400 == bucket_of(ts as int));
    days * 86_400
}

/// A later instant is in no earlier day.
pub proof fn law_days_keep_the_order(a: int, b: int)
    requires
        a <= b,
    ensures
        bucket_of(a) <= bucket_of(b),
{
}

/// The day of a bucket is the bucket.
pub proof fn law_a_day_is_its_own_bucket(ts: int)
    ensures
        bucket_of(bucket_of(ts)) == bucket_of(ts),
{
}

/// An order of the wallet.
#[derive(Clone, Debug)]
pub struct WalletOrder {
    pub token_id: String,
    pub condition_id: String,
    pub token_label: Option<String>,
    pub side: String,
    pub price: Scalar,
    pub shares_normalized: Scalar,
    pub timestamp: i64,
}

/// Something else that the wallet did.
#[derive(Clone, Debug)]
pub struct WalletActivity {
    pub token_id: String,
    pub condition_id: String,
    pub side: String,
    pub price: Scalar,
    pub timestamp: i64,
}

/// What a side means.
#[derive(Clone, Copy, Debug, PartialEq, Eq, Structural)]
pub enum SideKind {
    Buy,
    Sell,
    Redeem,
    Other,
}

/// What a side in capitals means.
pub open spec fn kind_of(upper: Seq<char>) -> SideKind {
    if upper == "BUY"@ {
        SideKind::Buy
    } else if upper == "SELL"@ {
        SideKind::Sell
    } else if upper == "REDEEM"@ {
        SideKind::Redeem
    } else {
        SideKind::Other
    }
}

pub fn side_kind(upper: &str) -> (r: SideKind)
    ensures
        r == kind_of(upper@),
{
    if same(upper, "BUY") {
        SideKind::Buy
    } else if same(upper, "SELL") {
        SideKind::Sell
    } else if same(upper, "REDEEM") {
        SideKind::Redeem
    } else {
        SideKind::Other
    }
}

/// What the sides of orders mean.
pub fn order_kinds(orders: &Vec<WalletOrder>) -> (r: Vec<SideKind>)
    ensures
        r.len() == orders.len(),
        forall|i: int|
            #![trigger r[i]]
            0 <= i < orders.len() ==> r[i] == kind_of(uppercase(orders[i].side@)),
{
    let mut r: Vec<SideKind> = Vec::new();
    let mut i: usize = 0;
    while i < orders.len()
        invariant
            i <= orders.len(),
            r.len() == i,
            forall|j: int|
                #![trigger r[j]]
                0 <= j < i ==> r[j] == kind_of(uppercase(orders[j].side@)),
        decreases orders.len() - i,
    {
        let upper = to_upper(orders[i].side.as_str());
        r.push(side_kind(upper.as_str()));
        i = i + 1;
    }
    r
}

/// What the sides of activities mean.
pub fn activity_kinds(activities: &Vec<WalletActivity>) -> (r: Vec<SideKind>)
    ensures
        r.len() == activities.len(),
        forall|i: int|
            #![trigger r[i]]
            0 <= i < activities.len() ==> r[i] == kind_of(uppercase(activities[i].side@)),
{
    let mut r: Vec<SideKind> = Vec::new();
    let mut i: usize = 0;
    while i < activities.len()
        invariant
            i <= activities.len(),
            r.len() == i,
            forall|j: int|
                #![trigger r[j]]
                0 <= j < i ==> r[j] == kind_of(uppercase(activities[j].side@)),
        decreases activities.len() - i,
    {
        let upper = to_upper(activities[i].side.as_str());
        r.push(side_kind(upper.as_str()));
        i = i + 1;
    }
    r
}

/// Something that the follower reacts to: an order or a redemption, by its place.
#[derive(Clone, Copy, Debug, PartialEq, Eq, Structural)]
pub enum CopyEvent {
    Order(usize),
    Redeem(usize),
}

/// The orders within a stretch of time.
pub open spec fn order_events(orders: Seq<WalletOrder>, from: i64, to: i64) -> Seq<CopyEvent>
    decreases orders.len(),
{
    if orders.len() == 0 {
        Seq::empty()
    } else {
        let before = order_events(orders.drop_last(), from, to);
        if from <= orders.last().timestamp <= to {
            before.push(CopyEvent::Order((orders.len() - 1) as usize))
        } else {
            before
        }
    }
}

/// The redemptions within a stretch of time.
pub open spec fn redeem_events(
    activities: Seq<WalletActivity>,
    kinds: Seq<SideKind>,
    from: i64,
    to: i64,
) -> Seq<CopyEvent>
    decreases activities.len(),
{
    if activities.len() == 0 {
        Seq::empty()
    } else {
        let before = redeem_events(activities.drop_last(), kinds, from, to);
        let i = activities.len() - 1;
        if from <= activities[i].timestamp <= to && kinds[i] == SideKind::Redeem {
            before.push(CopyEvent::Redeem(i as usize))
        } else {
            before
        }
    }
}

/// When an event was.
pub open spec fn event_time(
    orders: Seq<WalletOrder>,
    activities: Seq<WalletActivity>,
    e: CopyEvent,
) -> i64 {
    match e {
        CopyEvent::Order(i) => orders[i as int].timestamp,
        CopyEvent::Redeem(i) => activities[i as int].timestamp,
    }
}

/// When events were.
pub open spec fn event_times(
    orders: Seq<WalletOrder>,
    activities: Seq<WalletActivity>,
    events: Seq<CopyEvent>,
) -> Seq<i64> {
    events.map_values(|e: CopyEvent| event_time(orders, activities, e))
}

/// An event names an order or an activity that is there.
pub open spec fn names_one(orders: nat, activities: nat, e: CopyEvent) -> bool {
    match e {
        CopyEvent::Order(i) => i < orders,
        CopyEvent::Redeem(i) => i < activities,
    }
}

/// Items in the order of `perm`.
pub open spec fn picked<T>(items: Seq<T>, perm: Seq<usize>) -> Seq<T> {
    Seq::new(perm.len(), |i: int| items[perm[i] as int])
}

/// The same events in the order in which they were, those of one instant as they stood.
pub open spec fn in_order_of_time(
    orders: Seq<WalletOrder>,
    activities: Seq<WalletActivity>,
    all: Seq<CopyEvent>,
    r: Seq<CopyEvent>,
) -> bool {
    exists|perm: Seq<usize>| #[trigger]
        is_stable_order(event_times(orders, activities, all), perm) && r == picked(all, perm)
}

/// The orders and redemptions within a stretch of time, as they came.
pub fn copy_events(
    orders: &Vec<WalletOrder>,
    activities: &Vec<WalletActivity>,
    kinds: &Vec<SideKind>,
    from: i64,
    to: i64,
) -> (r: Vec<CopyEvent>)
    requires
        kinds.len() == activities.len(),
    ensures
        in_order_of_time(
            orders@,
            activities@,
            order_events(orders@, from, to) + redeem_events(activities@, kinds@, from, to),
            r@,
        ),
        forall|i: int|
            #![trigger r[i]]
            0 <= i < r.len() ==> names_one(orders.len() as nat, activities.len() as nat, r[i]),
{
    let mut all: Vec<CopyEvent> = Vec::new();
    let mut times: Vec<i64> = Vec::new();
    let mut i: usize = 0;
    assert(times@ =~= event_times(orders@, activities@, all@));
    while i < orders.len()
        invariant
            i <= orders.len(),
            all@ == order_events(orders@.take(i as int), from, to),
            times@ == event_times(orders@, activities@, all@),
            forall|k: int|
                #![trigger all[k]]
                0 <= k < all.len() ==> names_one(orders.len() as nat, activities.len() as nat, all[k]),
        decreases orders.len() - i,
    {
        assert(orders@.take(i as int + 1).drop_last() =~= orders@.take(i as int));
        if from <= orders[i].timestamp && orders[i].timestamp <= to {
            all.push(CopyEvent::Order(i));
            times.push(orders[i].timestamp);
            assert(times@ =~= event_times(orders@, activities@, all@));
        }
        i = i + 1;
    }
    assert(orders@.take(i as int) =~= orders@);
    let ghost firsts = all@;
    let mut j: usize = 0;
    assert(all@ =~= firsts + redeem_events(activities@.take(0), kinds@, from, to));
    while j < activities.len()
        invariant
            j <= activities.len(),
            kinds.len() == activities.len(),
            all@ == firsts + redeem_events(activities@.take(j as int), kinds@, from, to),
            times@ == event_times(orders@, activities@, all@),
            forall|k: int|
                #![trigger all[k]]
                0 <= k < all.len() ==> names_one(orders.len() as nat, activities.len() as nat, all[k]),
        decreases activities.len() - j,
    {
        let ghost next = activities@.take(j as int + 1);
        assert(next.drop_last() =~= activities@.take(j as int));
        assert(next[j as int] == activities[j as int]);
        if from <= activities[j].timestamp && activities[j].timestamp <= to && kinds[j]
            == SideKind::Redeem {
            all.push(CopyEvent::Redeem(j));
            times.push(activities[j].timestamp);
            assert(times@ =~= event_times(orders@, activities@, all@));
            assert(all@ =~= firsts + redeem_events(next, kinds@, from, to));
        }
        j = j + 1;
    }
    assert(activities@.take(j as int) =~= activities@);
    let perm = stable_order(&times);
    let mut r: Vec<CopyEvent> = Vec::new();
    let mut k: usize = 0;
    assert(r@ =~= picked(all@, perm@).take(0));
    while k < perm.len()
        invariant
            k <= perm.len(),
            times.len() == all.len(),
            is_stable_order(times@, perm@),
            r@ == picked(all@, perm@).take(k as int),
            r.len() == k,
            forall|m: int|
                #![trigger all[m]]
                0 <= m < all.len() ==> names_one(orders.len() as nat, activities.len() as nat, all[m]),
            forall|m: int|
                #![trigger r[m]]
                0 <= m < r.len() ==> names_one(orders.len() as nat, activities.len() as nat, r[m]),
        decreases perm.len() - k,
    {
        assert(0 <= perm[k as int] < all.len());
        r.push(all[perm[k]]);
        assert(r@ =~= picked(all@, perm@).take(k as int + 1));
        k = k + 1;
    }
    assert(r@ =~= picked(all@, perm@));
    r
}

/// A number that can be traded with.
pub open spec fn tradable(x: Scalar) -> bool {
    x.spec_is_finite() && Scalar::Rank(0).spec_lt(x)
}

pub fn is_tradable(x: Scalar) -> (r: bool)
    ensures
        r == tradable(x),
{
    x.is_finite() && Scalar::Rank(0).lt(x)
}

/// What the follower does with an order.
#[derive(Clone, Copy, Debug, PartialEq, Eq, Structural)]
pub enum Deal {
    Nothing,
    Buy,
    /// Sells so many shares.
    Sell(Scalar),
}

/// Too few shares to count.
pub open spec fn negligible(x: Scalar) -> bool {
    x.spec_le(Scalar::Rank(R_1E_MINUS_12))
}

/// What the follower does with an order whose price, shares and scaled shares can be traded
/// with: buys, or sells what it holds of it.
pub open spec fn deal_of(held: Scalar, o: WalletOrder, kind: SideKind, scaled: Scalar) -> Deal {
    if !tradable(o.price) || !tradable(o.shares_normalized) || !tradable(scaled) {
        Deal::Nothing
    } else if kind == SideKind::Buy {
        Deal::Buy
    } else if kind == SideKind::Sell && !negligible(held) && !negligible(scaled.spec_min(held)) {
        Deal::Sell(scaled.spec_min(held))
    } else {
        Deal::Nothing
    }
}

pub fn deal(held: Scalar, o: &WalletOrder, kind: SideKind, scaled: Scalar) -> (r: Deal)
    ensures
        r == deal_of(held, *o, kind, scaled),
{
    let least = Scalar::Rank(R_1E_MINUS_12);
    if !is_tradable(o.price) || !is_tradable(o.shares_normalized) || !is_tradable(scaled) {
        return Deal::Nothing;
    }
    match kind {
        SideKind::Buy => Deal::Buy,
        SideKind::Sell => {
            if held.le(least) {
                return Deal::Nothing;
            }
            let sold = scaled.min(held);
            if sold.le(least) {
                Deal::Nothing
            } else {
                Deal::Sell(sold)
            }
        },
        SideKind::Redeem => Deal::Nothing,
        SideKind::Other => Deal::Nothing,
    }
}

/// An amount on a day.
#[derive(Clone, Copy, Debug, PartialEq, Eq, Structural)]
pub struct DayAmount {
    pub day: i64,
    pub amount: Scalar,
}

/// Whether a redemption closes a token: the one that it names, or each of its condition
/// where it names none.
pub open spec fn closes(conditions: Map<Seq<char>, String>, a: WalletActivity, token: Seq<char>) -> bool {
    if trimmed(a.token_id@).len() > 0 {
        token == a.token_id@
    } else {
        conditions.contains_key(token) && conditions[token]@ == a.condition_id@
    }
}

fn is_blank(t: &str) -> (r: bool)
    ensures
        r == (trimmed(t@).len() == 0),
{
    let cut = trim(t);
    chars_of(cut.as_str()).len() == 0
}

/// The tokens that a redemption closes: each once.
pub fn closed_tokens(conditions: &Table<String>, a: &WalletActivity) -> (r: Vec<String>)
    ensures
        forall|t: Seq<char>| #[trigger]
            names(r@, t) <==> closes(conditions@, *a, t),
        forall|i: int, j: int| #![trigger r[i], r[j]] 0 <= i < j < r.len() ==> r[i]@ != r[j]@,
{
    let mut r: Vec<String> = Vec::new();
    if !is_blank(a.token_id.as_str()) {
        r.push(a.token_id.clone());
        assert forall|t: Seq<char>| #[trigger] names(r@, t) <==> closes(conditions@, *a, t) by {
            if t == a.token_id@ {
                assert(r[0]@ == t);
            }
        }
        return r;
    }
    let n: usize = conditions.len();
    let ghost order = conditions.order();
    let mut i: usize = 0;
    while i < n
        invariant
            i <= n,
            n == order.len(),
            order == conditions.order(),
            order.no_duplicates(),
            trimmed(a.token_id@).len() == 0,
            forall|j: int|
                #![trigger r[j]]
                0 <= j < r.len() ==> closes(conditions@, *a, r[j]@) && exists|k: int|
                    0 <= k < i && #[trigger] order[k] == r[j]@,
            forall|k: int|
                #![trigger order[k]]
                0 <= k < i && closes(conditions@, *a, order[k]) ==> names(r@, order[k]),
            forall|j: int, k: int| #![trigger r[j], r[k]] 0 <= j < k < r.len() ==> r[j]@ != r[k]@,
        decreases n - i,
    {
        let key = conditions.key_at(i);
        let value = conditions.value_at(i);
        if same(value.as_str(), a.condition_id.as_str()) {
            let ghost before = r@;
            r.push(key.clone());
            assert(r[r.len() - 1]@ == order[i as int]);
            assert forall|k: int|
                #![trigger order[k]]
                0 <= k < i + 1 && closes(conditions@, *a, order[k]) implies names(r@, order[k]) by {
                if k < i {
                    let w = choose|w: int| 0 <= w < before.len() && #[trigger] before[w]@ == order[k];
                    assert(r[w]@ == order[k]);
                } else {
                    assert(r[before.len() as int]@ == order[k]);
                }
            }
            assert forall|j: int|
                #![trigger r[j]]
                0 <= j < r.len() implies closes(conditions@, *a, r[j]@) && exists|k: int|
                0 <= k < i + 1 && #[trigger] order[k] == r[j]@ by {
                if j == before.len() {
                    assert(order[i as int] == r[j]@);
                } else {
                    assert(r[j] == before[j]);
                }
            }
        }
        i = i + 1;
    }
    assert forall|t: Seq<char>| #[trigger] names(r@, t) <==> closes(conditions@, *a, t) by {
        if closes(conditions@, *a, t) {
            assert(order.to_set().contains(t));
            let k = choose|k: int| 0 <= k < order.len() && order[k] == t;
            assert(names(r@, order[k]));
        }
        if names(r@, t) {
            let w = choose|w: int| 0 <= w < r.len() && #[trigger] r[w]@ == t;
            assert(closes(conditions@, *a, r[w]@));
        }
    }
    r
}

/// Whether a text is among texts.
pub open spec fn names(s: Seq<String>, t: Seq<char>) -> bool {
    exists|i: int| 0 <= i < s.len() && #[trigger] s[i]@ == t
}

/// The number of a token, zero where none is known.
pub open spec fn held_in(m: Map<Seq<char>, Scalar>, t: Seq<char>) -> Scalar {
    if m.contains_key(t) {
        m[t]
    } else {
        Scalar::Rank(0)
    }
}

/// The condition of a token, as it was first heard of.
pub open spec fn learned(m: Map<Seq<char>, String>, o: WalletOrder) -> Map<Seq<char>, String> {
    if m.contains_key(o.token_id@) {
        m
    } else {
        m.insert(o.token_id@, o.condition_id)
    }
}

fn learn(m: &mut Table<String>, o: &WalletOrder)
    ensures
        final(m)@ == learned(old(m)@, *o),
{
    if !m.contains(o.token_id.as_str()) {
        m.insert(o.token_id.clone(), o.condition_id.clone());
    }
}

/// The follower's trades: what it holds, which condition each token belongs to, and what
/// it traded on which day.
pub struct CopyTrades {
    pub shares: Table<Scalar>,
    pub conditions: Table<String>,
    pub traded: Vec<DayAmount>,
    pub trade_count: u64,
    pub buy_count: u64,
}

/// The figures of a deal: the shares after a purchase and what it cost, and the shares
/// after a sale and what it brought.
#[derive(Clone, Copy, Debug, PartialEq, Eq, Structural)]
pub struct DealNumbers {
    pub bought_shares: Scalar,
    pub bought_value: Scalar,
    pub rest_shares: Scalar,
    pub sold_value: Scalar,
}

/// Shares that are left over, none where they are negligible.
pub open spec fn left_over(rest: Scalar) -> Scalar {
    if negligible(rest) {
        Scalar::Rank(0)
    } else {
        rest
    }
}

impl CopyTrades {
    /// Nothing held, nothing traded.
    pub fn new() -> (r: CopyTrades)
        ensures
            r.shares@ == Map::<Seq<char>, Scalar>::empty(),
            r.conditions@ == Map::<Seq<char>, String>::empty(),
            r.traded@ == Seq::<DayAmount>::empty(),
            r.trade_count == 0,
            r.buy_count == 0,
    {
        CopyTrades {
            shares: Table::new(),
            conditions: Table::new(),
            traded: Vec::new(),
            trade_count: 0,
            buy_count: 0,
        }
    }

    /// How much of a token is held.
    pub fn held(&self, token: &str) -> (r: Scalar)
        ensures
            r == held_in(self.shares@, token@),
    {
        match self.shares.get(token) {
            Some(x) => *x,
            None => Scalar::Rank(0),
        }
    }

    /// Follows an order. What happens from `start_time` on is counted.
    pub fn on_order(
        &mut self,
        o: &WalletOrder,
        kind: SideKind,
        start_time: i64,
        scaled: Scalar,
        n: &DealNumbers,
    ) -> (r: Deal)
        requires
            old(self).trade_count < u64::MAX,
            old(self).buy_count < u64::MAX,
        ensures
            r == deal_of(held_in(old(self).shares@, o.token_id@), *o, kind, scaled),
            final(self).conditions@ == if tradable(o.price) && tradable(o.shares_normalized) {
                learned(old(self).conditions@, *o)
            } else {
                old(self).conditions@
            },
            forall|t: Seq<char>| #[trigger]
                held_in(final(self).shares@, t) == if t == o.token_id@ && r is Buy {
                    n.bought_shares
                } else if t == o.token_id@ && r is Sell {
                    left_over(n.rest_shares)
                } else {
                    held_in(old(self).shares@, t)
                },
            final(self).traded@ == if o.timestamp < start_time || r is Nothing {
                old(self).traded@
            } else {
                old(self).traded@.push(
                    DayAmount {
                        day: bucket_of(o.timestamp as int) as i64,
                        amount: if r is Buy {
                            n.bought_value
                        } else {
                            n.sold_value
                        },
                    },
                )
            },
            final(self).trade_count == old(self).trade_count + if o.timestamp >= start_time && !(r is Nothing) {
                1int
            } else {
                0
            },
            final(self).buy_count == old(self).buy_count + if o.timestamp >= start_time && r is Buy {
                1int
            } else {
                0
            },
    {
        let held = self.held(o.token_id.as_str());
        let r = deal(held, o, kind, scaled);
        if is_tradable(o.price) && is_tradable(o.shares_normalized) {
            learn(&mut self.conditions, o);
        }
        match r {
            Deal::Nothing => {},
            Deal::Buy => {
                self.shares.insert(o.token_id.clone(), n.bought_shares);
                if o.timestamp >= start_time {
                    self.buy_count = self.buy_count + 1;
                    self.trade_count = self.trade_count + 1;
                    self.traded.push(
                        DayAmount { day: day_bucket(o.timestamp), amount: n.bought_value },
                    );
                }
            },
            Deal::Sell(_) => {
                let rest = if n.rest_shares.le(Scalar::Rank(R_1E_MINUS_12)) {
                    Scalar::Rank(0)
                } else {
                    n.rest_shares
                };
                self.shares.insert(o.token_id.clone(), rest);
                if o.timestamp >= start_time {
                    self.trade_count = self.trade_count + 1;
                    self.traded.push(DayAmount { day: day_bucket(o.timestamp), amount: n.sold_value });
                }
            },
        }
        r
    }

    /// Follows a redemption.
    pub fn on_redeem(&mut self, a: &WalletActivity)
        ensures
            forall|t: Seq<char>| #[trigger]
                held_in(final(self).shares@, t) == if closes(old(self).conditions@, *a, t) {
                    Scalar::Rank(0)
                } else {
                    held_in(old(self).shares@, t)
                },
            final(self).conditions@ == old(self).conditions@,
            final(self).traded@ == old(self).traded@,
            final(self).trade_count == old(self).trade_count,
            final(self).buy_count == old(self).buy_count,
    {
        let tokens = closed_tokens(&self.conditions, a);
        let ghost before = self.shares@;
        let mut i: usize = 0;
        while i < tokens.len()
            invariant
                i <= tokens.len(),
                self.conditions@ == old(self).conditions@,
                self.traded@ == old(self).traded@,
                self.trade_count == old(self).trade_count,
                self.buy_count == old(self).buy_count,
                forall|t: Seq<char>| #[trigger]
                    held_in(self.shares@, t) == if names(tokens@.take(i as int), t) {
                        Scalar::Rank(0)
                    } else {
                        held_in(before, t)
                    },
            decreases tokens.len() - i,
        {
            let ghost prior = self.shares@;
            self.shares.insert(tokens[i].clone(), Scalar::Rank(0));
            assert forall|t: Seq<char>| #[trigger]
                held_in(self.shares@, t) == if names(tokens@.take(i as int + 1), t) {
                    Scalar::Rank(0)
                } else {
                    held_in(before, t)
                } by {
                lemma_names_step(tokens@, i as int, t);
                assert(held_in(prior, t) == if names(tokens@.take(i as int), t) {
                    Scalar::Rank(0)
                } else {
                    held_in(before, t)
                });
            }
            i = i + 1;
        }
        assert(tokens@.take(i as int) =~= tokens@);
        assert forall|t: Seq<char>| #[trigger]
            held_in(self.shares@, t) == if closes(old(self).conditions@, *a, t) {
                Scalar::Rank(0)
            } else {
                held_in(old(self).shares@, t)
            } by {
            assert(names(tokens@, t) <==> closes(old(self).conditions@, *a, t));
        }
    }
}

pub proof fn lemma_names_step(s: Seq<String>, i: int, t: Seq<char>)
    requires
        0 <= i < s.len(),
    ensures
        names(s.take(i + 1), t) <==> names(s.take(i), t) || s[i]@ == t,
{
    if names(s.take(i), t) {
        let w = choose|w: int| 0 <= w < s.take(i).len() && #[trigger] s.take(i)[w]@ == t;
        assert(s.take(i + 1)[w]@ == t);
    }
    if s[i]@ == t {
        assert(s.take(i + 1)[i]@ == t);
    }
    if names(s.take(i + 1), t) {
        let w = choose|w: int| 0 <= w < s.take(i + 1).len() && #[trigger] s.take(i + 1)[w]@ == t;
        if w < i {
            assert(s.take(i)[w]@ == t);
        }
    }
}

/// What is sold was held: a sale sells no more shares than the follower has, nor more than
/// the order asks for.
pub proof fn law_no_more_is_sold_than_held(held: Scalar, o: WalletOrder, kind: SideKind, scaled: Scalar)
    requires
        held is Rank,
    ensures
        deal_of(held, o, kind, scaled) matches Deal::Sell(x) ==> x.spec_le(held) && x.spec_le(scaled)
            && Scalar::Rank(R_1E_MINUS_12).spec_lt(x),
{
}

/// A day starts at a multiple of a day, no later than the instant that it holds and less
/// than a day before it, from the epoch on.
pub proof fn law_day_holds_its_instant(ts: i64, day: i64)
    requires
        ts >= 0,
        call_ensures(day_bucket, (ts,), day),
    ensures
        day % 86_400 == 0,
        day <= ts < day + 86_400,
{
}

/// What a side means goes by its word, in capitals: a purchase, a sale, a redemption, or
/// something else.
pub proof fn law_side_goes_by_its_word(upper: &str, r: SideKind)
    requires
        call_ensures(side_kind, (upper,), r),
    ensures
        upper@ == "BUY"@ <==> r == SideKind::Buy,
        upper@ == "SELL"@ <==> r == SideKind::Sell,
        upper@ == "REDEEM"@ <==> r == SideKind::Redeem,
        upper@ != "BUY"@ && upper@ != "SELL"@ && upper@ != "REDEEM"@ <==> r == SideKind::Other,
{
    reveal_strlit("BUY");
    reveal_strlit("SELL");
    reveal_strlit("REDEEM");
    assert("BUY"@.len() == 3 && "SELL"@.len() == 4 && "REDEEM"@.len() == 6);
}

/// Letters of any size make a purchase or a sale of an order.
pub proof fn law_orders_mean_what_their_sides_say(orders: Vec<WalletOrder>, r: Vec<SideKind>, i: int)
    requires
        call_ensures(order_kinds, (&orders,), r),
        0 <= i < orders.len(),
    ensures
        r.len() == orders.len(),
        uppercase(orders[i].side@) == "BUY"@ ==> r[i] == SideKind::Buy,
        uppercase(orders[i].side@) == "SELL"@ ==> r[i] == SideKind::Sell,
        uppercase(orders[i].side@) == "REDEEM"@ ==> r[i] == SideKind::Redeem,
        r[i] == SideKind::Buy ==> uppercase(orders[i].side@) == "BUY"@,
        r[i] == SideKind::Sell ==> uppercase(orders[i].side@) == "SELL"@,
{
    reveal_strlit("BUY");
    reveal_strlit("SELL");
    reveal_strlit("REDEEM");
    assert("BUY"@.len() == 3 && "SELL"@.len() == 4 && "REDEEM"@.len() == 6);
}

/// The same of what else the wallet did.
pub proof fn law_activities_mean_what_their_sides_say(activities: Vec<WalletActivity>, r: Vec<SideKind>, i: int)
    requires
        call_ensures(activity_kinds, (&activities,), r),
        0 <= i < activities.len(),
    ensures
        r.len() == activities.len(),
        r[i] == SideKind::Redeem <==> uppercase(activities[i].side@) == "REDEEM"@,
        r[i] == SideKind::Buy <==> uppercase(activities[i].side@) == "BUY"@,
        r[i] == SideKind::Sell <==> uppercase(activities[i].side@) == "SELL"@,
{
    reveal_strlit("BUY");
    reveal_strlit("SELL");
    reveal_strlit("REDEEM");
    assert("BUY"@.len() == 3 && "SELL"@.len() == 4 && "REDEEM"@.len() == 6);
}

proof fn lemma_order_events(orders: Seq<WalletOrder>, from: i64, to: i64, i: int)
    requires
        orders.len() <= usize::MAX,
        0 <= i < orders.len(),
    ensures
        order_events(orders, from, to).contains(CopyEvent::Order(i as usize)) <==> from <= orders[i].timestamp <= to,
        forall|k: int|
            0 <= k < order_events(orders, from, to).len() ==> (#[trigger] order_events(orders, from, to)[k]) is Order
                && order_events(orders, from, to)[k]->Order_0 < orders.len(),
    decreases orders.len(),
{
    let n = orders.len() - 1;
    let all = order_events(orders, from, to);
    let before = order_events(orders.drop_last(), from, to);
    if i < n {
        lemma_order_events(orders.drop_last(), from, to, i);
        assert(orders.drop_last()[i] == orders[i]);
    } else if n > 0 {
        lemma_order_events(orders.drop_last(), from, to, 0);
    }
    if all.len() > before.len() {
        assert(all[before.len() as int] == CopyEvent::Order(n as usize));
    }
    assert forall|k: int| 0 <= k < all.len() implies (#[trigger] all[k]) is Order && all[k]->Order_0 < orders.len() by {
        if k < before.len() {
            assert(all[k] == before[k]);
        }
    }
    let e = CopyEvent::Order(i as usize);
    if before.contains(e) {
        let k = choose|k: int| 0 <= k < before.len() && before[k] == e;
        assert(all[k] == e);
    }
    if all.contains(e) {
        let k = choose|k: int| 0 <= k < all.len() && all[k] == e;
        if k < before.len() {
            assert(before[k] == e);
        }
    }
}

proof fn lemma_redeem_events(activities: Seq<WalletActivity>, kinds: Seq<SideKind>, from: i64, to: i64, i: int)
    requires
        activities.len() <= usize::MAX,
        0 <= i < activities.len(),
        kinds.len() >= activities.len(),
    ensures
        redeem_events(activities, kinds, from, to).contains(CopyEvent::Redeem(i as usize)) <==> from
            <= activities[i].timestamp <= to && kinds[i] == SideKind::Redeem,
        forall|k: int|
            0 <= k < redeem_events(activities, kinds, from, to).len() ==> (#[trigger] redeem_events(
                activities,
                kinds,
                from,
                to,
            )[k]) is Redeem && redeem_events(activities, kinds, from, to)[k]->Redeem_0 < activities.len(),
    decreases activities.len(),
{
    let n = activities.len() - 1;
    let all = redeem_events(activities, kinds, from, to);
    let before = redeem_events(activities.drop_last(), kinds, from, to);
    if i < n {
        lemma_redeem_events(activities.drop_last(), kinds, from, to, i);
        assert(activities.drop_last()[i] == activities[i]);
    } else if n > 0 {
        lemma_redeem_events(activities.drop_last(), kinds, from, to, 0);
    }
    if all.len() > before.len() {
        assert(all[before.len() as int] == CopyEvent::Redeem(n as usize));
    }
    assert forall|k: int| 0 <= k < all.len() implies (#[trigger] all[k]) is Redeem && all[k]->Redeem_0
        < activities.len() by {
        if k < before.len() {
            assert(all[k] == before[k]);
        }
    }
    let e = CopyEvent::Redeem(i as usize);
    if before.contains(e) {
        let k = choose|k: int| 0 <= k < before.len() && before[k] == e;
        assert(all[k] == e);
    }
    if all.contains(e) {
        let k = choose|k: int| 0 <= k < all.len() && all[k] == e;
        if k < before.len() {
            assert(before[k] == e);
        }
    }
}

/// What a follower reacts to comes in the order of time: each event is no earlier than the
/// one before it, and at one instant an order comes before a redemption.
pub proof fn law_events_come_in_order_of_time(
    orders: Vec<WalletOrder>,
    activities: Vec<WalletActivity>,
    kinds: Vec<SideKind>,
    from: i64,
    to: i64,
    r: Vec<CopyEvent>,
    i: int,
    j: int,
)
    requires
        kinds.len() == activities.len(),
        call_ensures(copy_events, (&orders, &activities, &kinds, from, to), r),
        0 <= i < j < r.len(),
    ensures
        event_time(orders@, activities@, r[i]) <= event_time(orders@, activities@, r[j]),
        event_time(orders@, activities@, r[i]) == event_time(orders@, activities@, r[j]) && r[j] is Order ==> r[i] is Order,
{
    let firsts = order_events(orders@, from, to);
    let lasts = redeem_events(activities@, kinds@, from, to);
    let all = firsts + lasts;
    let times = event_times(orders@, activities@, all);
    let perm = choose|perm: Seq<usize>| #[trigger] is_stable_order(times, perm) && r@ == picked(all, perm);
    assert(r[i] == all[perm[i] as int] && r[j] == all[perm[j] as int]);
    assert(stands_before(times, perm[i] as int, perm[j] as int));
    if r[j] is Order && event_time(orders@, activities@, r[i]) == event_time(orders@, activities@, r[j]) {
        if activities@.len() > 0 {
            lemma_redeem_events(activities@, kinds@, from, to, 0);
        }
        if orders@.len() > 0 {
            lemma_order_events(orders@, from, to, 0);
        }
        let b = perm[j] as int;
        if b >= firsts.len() {
            assert(all[b] == lasts[b - firsts.len()]);
        }
    }
}

/// Every order within the stretch is followed and no other, and so is every redemption.
pub proof fn law_events_are_those_of_the_stretch(
    orders: Vec<WalletOrder>,
    activities: Vec<WalletActivity>,
    kinds: Vec<SideKind>,
    from: i64,
    to: i64,
    r: Vec<CopyEvent>,
    i: int,
    j: int,
)
    requires
        kinds.len() == activities.len(),
        call_ensures(copy_events, (&orders, &activities, &kinds, from, to), r),
        0 <= i < orders.len(),
        0 <= j < activities.len(),
    ensures
        r@.contains(CopyEvent::Order(i as usize)) <==> from <= orders[i].timestamp <= to,
        r@.contains(CopyEvent::Redeem(j as usize)) <==> from <= activities[j].timestamp <= to && kinds[j]
            == SideKind::Redeem,
{
    let firsts = order_events(orders@, from, to);
    let lasts = redeem_events(activities@, kinds@, from, to);
    let all = firsts + lasts;
    let times = event_times(orders@, activities@, all);
    let perm = choose|perm: Seq<usize>| #[trigger] is_stable_order(times, perm) && r@ == picked(all, perm);
    lemma_order_events(orders@, from, to, i);
    lemma_redeem_events(activities@, kinds@, from, to, j);
    law_stable_order_is_a_permutation(times, perm);
    let a = CopyEvent::Order(i as usize);
    let b = CopyEvent::Redeem(j as usize);
    assert(all.contains(a) <==> firsts.contains(a)) by {
        lemma_in_one_of(firsts, lasts, a);
    }
    assert(all.contains(b) <==> lasts.contains(b)) by {
        lemma_in_one_of(firsts, lasts, b);
    }
    assert forall|e: CopyEvent| #[trigger] r@.contains(e) <==> all.contains(e) by {
        if r@.contains(e) {
            let k = choose|k: int| 0 <= k < r@.len() && r@[k] == e;
            assert(all[perm[k] as int] == e);
        }
        if all.contains(e) {
            let k = choose|k: int| 0 <= k < all.len() && all[k] == e;
            assert(r.len() == all.len());
            assert(perm.contains(k as usize));
            assert((k as usize) as int == k);
            let w = choose|w: int| 0 <= w < perm.len() && perm[w] == k as usize;
            assert(r@[w] == e);
        }
    }
}

proof fn lemma_in_one_of(s: Seq<CopyEvent>, t: Seq<CopyEvent>, x: CopyEvent)
    ensures
        (s + t).contains(x) <==> s.contains(x) || t.contains(x),
{
    if s.contains(x) {
        let i = choose|i: int| 0 <= i < s.len() && s[i] == x;
        assert((s + t)[i] == x);
    }
    if t.contains(x) {
        let i = choose|i: int| 0 <= i < t.len() && t[i] == x;
        assert((s + t)[s.len() + i] == x);
    }
}

/// A follower buys whatever the wallet buys at a price, sells of what it holds as the wallet
/// sells, at most all of it, and does nothing else; its holding is what the deal leaves.
pub proof fn law_deal_goes_the_way_of_the_order(
    trades: &mut CopyTrades,
    o: WalletOrder,
    kind: SideKind,
    start_time: i64,
    scaled: Scalar,
    n: DealNumbers,
    r: Deal,
    before: CopyTrades,
    held: Scalar,
    after: CopyTrades,
    left: Scalar,
    token: &str,
)
    requires
        call_ensures(CopyTrades::on_order, (trades, &o, kind, start_time, scaled, &n), r),
        before == *old(trades),
        after == *final(trades),
        token@ == o.token_id@,
        call_ensures(CopyTrades::held, (&before, token), held),
        call_ensures(CopyTrades::held, (&after, token), left),
        held is Rank,
        n.rest_shares is Rank,
    ensures
        ({
            let fit = o.price.spec_is_finite() && Scalar::Rank(0).spec_lt(o.price)
                && o.shares_normalized.spec_is_finite() && Scalar::Rank(0).spec_lt(o.shares_normalized)
                && scaled.spec_is_finite() && Scalar::Rank(0).spec_lt(scaled);
            let least = Scalar::Rank(R_1E_MINUS_12);
            &&& r is Buy <==> fit && kind == SideKind::Buy
            &&& r is Sell <==> fit && kind == SideKind::Sell && least.spec_lt(held) && least.spec_lt(scaled)
            &&& r is Sell ==> r->Sell_0.spec_le(held) && r->Sell_0.spec_le(scaled) && (r->Sell_0 == held
                || r->Sell_0 == scaled)
            &&& r is Buy ==> left == n.bought_shares
            &&& r is Sell && least.spec_lt(n.rest_shares) ==> left == n.rest_shares
            &&& r is Sell && n.rest_shares.spec_le(least) ==> left == Scalar::Rank(0)
            &&& r is Nothing ==> left == held
        }),
{
}

/// Trades count from an instant on, on their days and at their worth; purchases are counted
/// among them.
pub proof fn law_trades_count_from_the_start(
    trades: &mut CopyTrades,
    o: WalletOrder,
    kind: SideKind,
    start_time: i64,
    scaled: Scalar,
    n: DealNumbers,
    r: Deal,
    other: Seq<char>,
)
    requires
        call_ensures(CopyTrades::on_order, (trades, &o, kind, start_time, scaled, &n), r),
        other != o.token_id@,
    ensures
        held_in(final(trades).shares@, other) == held_in(old(trades).shares@, other),
        r is Nothing || o.timestamp < start_time ==> final(trades).traded@ == old(trades).traded@
            && final(trades).trade_count == old(trades).trade_count && final(trades).buy_count == old(
            trades,
        ).buy_count,
        !(r is Nothing) && o.timestamp >= start_time ==> {
            let t = final(trades).traded@;
            &&& t.len() == old(trades).traded@.len() + 1
            &&& t.drop_last() == old(trades).traded@
            &&& t.last().amount == if r is Buy {
                n.bought_value
            } else {
                n.sold_value
            }
            &&& t.last().day % 86_400 == 0
            &&& o.timestamp >= 0 ==> t.last().day <= o.timestamp < t.last().day + 86_400
            &&& final(trades).trade_count == old(trades).trade_count + 1
            &&& r is Buy ==> final(trades).buy_count == old(trades).buy_count + 1
            &&& r is Sell ==> final(trades).buy_count == old(trades).buy_count
        },
{
    assert(final(trades).traded@.len() > old(trades).traded@.len() ==> final(trades).traded@.drop_last() =~= old(
        trades,
    ).traded@);
}

/// A redemption closes the token that it names, and every token of its condition where it
/// names none; it leaves the others and counts as no trade.
pub proof fn law_redemption_closes_its_tokens(trades: &mut CopyTrades, a: WalletActivity, t: Seq<char>)
    requires
        call_ensures(CopyTrades::on_redeem, (trades, &a), ()),
    ensures
        trimmed(a.token_id@).len() > 0 && t == a.token_id@ ==> held_in(final(trades).shares@, t) == Scalar::Rank(0),
        trimmed(a.token_id@).len() > 0 && t != a.token_id@ ==> held_in(final(trades).shares@, t) == held_in(
            old(trades).shares@,
            t,
        ),
        trimmed(a.token_id@).len() == 0 && old(trades).conditions@.contains_key(t) && old(
            trades,
        ).conditions@[t]@ == a.condition_id@ ==> held_in(final(trades).shares@, t) == Scalar::Rank(0),
        trimmed(a.token_id@).len() == 0 && (!old(trades).conditions@.contains_key(t) || old(
            trades,
        ).conditions@[t]@ != a.condition_id@) ==> held_in(final(trades).shares@, t) == held_in(
            old(trades).shares@,
            t,
        ),
        final(trades).trade_count == old(trades).trade_count,
        final(trades).traded@ == old(trades).traded@,
{
}

/// Tokens are closed by their name, or by their condition where none is named, each once.
pub proof fn law_tokens_are_closed_by_name(conditions: Table<String>, a: WalletActivity, r: Vec<String>, i: int, c: CopyTrades)
    requires
        call_ensures(closed_tokens, (&conditions, &a), r),
        call_ensures(CopyTrades::new, (), c),
        0 <= i < r.len(),
    ensures
        trimmed(a.token_id@).len() > 0 ==> r[i]@ == a.token_id@,
        trimmed(a.token_id@).len() == 0 ==> conditions@.contains_key(r[i]@) && conditions@[r[i]@]@ == a.condition_id@,
        c.trade_count == 0 && c.buy_count == 0 && c.traded.len() == 0,
{
    assert(names(r@, r@[i]@));
}

/// A deal needs a price, shares and a scaled amount above zero; a purchase is followed, and a
/// sale by no more than is held.
pub proof fn law_deal_is_of_what_is_held(held: Scalar, o: WalletOrder, kind: SideKind, scaled: Scalar, r: Deal)
    requires
        call_ensures(deal, (held, &o, kind, scaled), r),
        held is Rank,
    ensures
        ({
            let fit = o.price.spec_is_finite() && Scalar::Rank(0).spec_lt(o.price) && o.shares_normalized.spec_is_finite()
                && Scalar::Rank(0).spec_lt(o.shares_normalized) && scaled.spec_is_finite() && Scalar::Rank(0).spec_lt(scaled);
            let least = Scalar::Rank(R_1E_MINUS_12);
            &&& r is Buy <==> fit && kind == SideKind::Buy
            &&& r is Sell <==> fit && kind == SideKind::Sell && least.spec_lt(held) && least.spec_lt(scaled)
            &&& r is Sell ==> r->Sell_0.spec_le(held) && r->Sell_0.spec_le(scaled) && (r->Sell_0 == held || r->Sell_0
                == scaled)
        }),
{
}

} // verus!
