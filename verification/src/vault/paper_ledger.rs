//! The ledger of paper trades.
use crate::base::ranks::R_1E_MINUS_09;
use crate::base::scalar::{Scalar, ONE_RANK};
use crate::base::table::Table;
use vstd::prelude::*;

verus! {

/// The rank of 1e-9.
pub const DUST: i64 = 0x3E11_2E0B_E826_D695;

/// A position in an outcome.
#[derive(Debug)]
pub struct VaultPaperPosition {
    pub token_id: String,
    pub outcome: String,
    pub shares: Scalar,
    pub cost_usdc: Scalar,
    pub avg_price: Scalar,
}

/// Cash and positions.
pub struct VaultPaperLedger {
    pub cash_usdc: Scalar,
    pub positions: Table<VaultPaperPosition>,
    pub total_fees_usdc: Scalar,
    pub total_slippage_usdc: Scalar,
    pub trade_count: u64,
    pub reject_count: u64,
    pub partial_fill_count: u64,
}

/// The figures of a purchase, worked out from the ledger before it.
#[derive(Clone, Copy, Debug, PartialEq, Eq, Structural)]
pub struct BuyNumbers {
    /// The amount by its price.
    pub shares: Scalar,
    /// The cash less the amount and the fees.
    pub cash_left: Scalar,
    pub fees_total: Scalar,
    /// The cost, the shares and their quotient once the position has grown.
    pub cost_after: Scalar,
    pub shares_after: Scalar,
    pub avg_after: Scalar,
}

/// The figures of a sale, worked out from the ledger before it and from the shares
/// that are sold.
#[derive(Clone, Copy, Debug, PartialEq, Eq, Structural)]
pub struct SellNumbers {
    /// What is received less the fees.
    pub proceeds: Scalar,
    /// The cash and the proceeds together.
    pub cash_with_proceeds: Scalar,
    pub fees_total: Scalar,
    /// What is left of the shares and of the cost.
    pub shares_left: Scalar,
    pub cost_left: Scalar,
    /// The cost by the shares that are left.
    pub avg_after: Scalar,
}

/// A price and an amount that can be traded.
pub open spec fn tradable(price: Scalar, notional: Scalar) -> bool {
    &&& Scalar::Rank(0).spec_lt(price) && price.spec_lt(Scalar::Rank(ONE_RANK))
    &&& Scalar::Rank(0).spec_lt(notional)
}

fn is_tradable(price: Scalar, notional: Scalar) -> (r: bool)
    ensures
        r == tradable(price, notional),
{
    Scalar::Rank(0).lt(price) && price.lt(Scalar::Rank(ONE_RANK)) && Scalar::Rank(0).lt(notional)
}

/// The counters of a ledger.
#[derive(Clone, Copy, Debug, PartialEq, Eq, Structural)]
pub struct ExecutionStats {
    pub trade_count: u64,
    pub reject_count: u64,
    pub partial_fill_count: u64,
    pub total_fees_usdc: Scalar,
    pub total_slippage_usdc: Scalar,
    /// The orders of which the rejected ones are a share.
    pub order_count: u64,
}

impl VaultPaperLedger {
    /// A ledger with cash and nothing else.
    pub fn new(cash_usdc: Scalar) -> (r: VaultPaperLedger)
        ensures
            r.cash_usdc == cash_usdc,
            r.positions@ == Map::<Seq<char>, VaultPaperPosition>::empty(),
            r.total_fees_usdc == Scalar::Rank(0),
            r.total_slippage_usdc == Scalar::Rank(0),
            r.trade_count == 0 && r.reject_count == 0 && r.partial_fill_count == 0,
    {
        VaultPaperLedger {
            cash_usdc,
            positions: Table::new(),
            total_fees_usdc: Scalar::Rank(0),
            total_slippage_usdc: Scalar::Rank(0),
            trade_count: 0,
            reject_count: 0,
            partial_fill_count: 0,
        }
    }

    /// Nothing but what trades change differs.
    pub open spec fn same_tallies(self, other: VaultPaperLedger) -> bool {
        &&& self.total_slippage_usdc == other.total_slippage_usdc
        &&& self.reject_count == other.reject_count
        &&& self.partial_fill_count == other.partial_fill_count
    }

    /// Books a purchase and returns the shares that it brought; a price outside the
    /// unit interval or an amount that is not above zero changes nothing.
    pub fn apply_buy(
        &mut self,
        token_id: &str,
        outcome: &str,
        price: Scalar,
        notional: Scalar,
        n: &BuyNumbers,
    ) -> (r: Scalar)
        requires
            old(self).trade_count < u64::MAX,
        ensures
            !tradable(price, notional) ==> r == Scalar::Rank(0) && *final(self) == *old(self),
            tradable(price, notional) ==> {
                let held = old(self).positions@.contains_key(token_id@);
                &&& r == n.shares
                &&& final(self).same_tallies(*old(self))
                &&& final(self).cash_usdc == n.cash_left.spec_max(Scalar::Rank(0))
                &&& final(self).total_fees_usdc == n.fees_total
                &&& final(self).trade_count == old(self).trade_count + 1
                &&& final(self).positions@.dom() == old(self).positions@.dom().insert(token_id@)
                &&& forall|k: Seq<char>|
                    #![trigger final(self).positions@[k]]
                    k != token_id@ && old(self).positions@.contains_key(k) ==> final(self).positions@[k]
                        == old(self).positions@[k]
                &&& ({
                    let p = final(self).positions@[token_id@];
                    &&& p.token_id@ == if held {
                        old(self).positions@[token_id@].token_id@
                    } else {
                        token_id@
                    }
                    &&& p.outcome@ == if held {
                        old(self).positions@[token_id@].outcome@
                    } else {
                        outcome@
                    }
                    &&& p.shares == n.shares_after
                    &&& p.cost_usdc == n.cost_after
                    &&& p.avg_price == if Scalar::Rank(0).spec_lt(n.shares_after) {
                        n.avg_after
                    } else {
                        price
                    }
                })
            },
    {
        if !is_tradable(price, notional) {
            return Scalar::Rank(0);
        }
        self.cash_usdc = n.cash_left.max(Scalar::Rank(0));
        self.total_fees_usdc = n.fees_total;
        self.trade_count = self.trade_count + 1;
        let (id, name) = match self.positions.get(token_id) {
            Some(p) => (p.token_id.clone(), p.outcome.clone()),
            None => (token_id.to_owned(), outcome.to_owned()),
        };
        let avg_price = if Scalar::Rank(0).lt(n.shares_after) {
            n.avg_after
        } else {
            price
        };
        self.positions.insert(
            token_id.to_owned(),
            VaultPaperPosition {
                token_id: id,
                outcome: name,
                shares: n.shares_after,
                cost_usdc: n.cost_after,
                avg_price,
            },
        );
        n.shares
    }

    /// The shares that a sale takes out of a position: the amount by its price, at
    /// most what there is; nothing where there is nothing to sell.
    pub open spec fn sold(
        self,
        token_id: Seq<char>,
        price: Scalar,
        notional: Scalar,
        target_shares: Scalar,
    ) -> Option<Scalar> {
        if !tradable(price, notional) || !self.positions@.contains_key(token_id) {
            None
        } else {
            let held = self.positions@[token_id].shares;
            let take = target_shares.spec_min(held);
            if Scalar::Rank(0).spec_lt(held) && Scalar::Rank(0).spec_lt(take) {
                Some(take)
            } else {
                None
            }
        }
    }

    pub fn shares_sold(
        &self,
        token_id: &str,
        price: Scalar,
        notional: Scalar,
        target_shares: Scalar,
    ) -> (r: Option<Scalar>)
        ensures
            r == self.sold(token_id@, price, notional, target_shares),
    {
        if !is_tradable(price, notional) {
            return None;
        }
        match self.positions.get(token_id) {
            Some(p) => {
                let take = target_shares.min(p.shares);
                if Scalar::Rank(0).lt(p.shares) && Scalar::Rank(0).lt(take) {
                    Some(take)
                } else {
                    None
                }
            },
            None => None,
        }
    }

    /// Books a sale and returns the shares that it took; where there is nothing to
    /// sell, nothing changes. A position of which only dust is left is closed.
    pub fn apply_sell(
        &mut self,
        token_id: &str,
        price: Scalar,
        notional: Scalar,
        target_shares: Scalar,
        n: &SellNumbers,
    ) -> (r: Scalar)
        requires
            old(self).trade_count < u64::MAX,
        ensures
            match old(self).sold(token_id@, price, notional, target_shares) {
                None => r == Scalar::Rank(0) && *final(self) == *old(self),
                Some(take) => {
                    let shares = n.shares_left.spec_max(Scalar::Rank(0));
                    &&& r == take
                    &&& final(self).same_tallies(*old(self))
                    &&& final(self).cash_usdc == if Scalar::Rank(0).spec_lt(n.proceeds) {
                        n.cash_with_proceeds
                    } else {
                        old(self).cash_usdc
                    }
                    &&& final(self).total_fees_usdc == n.fees_total
                    &&& final(self).trade_count == old(self).trade_count + 1
                    &&& forall|k: Seq<char>|
                        #![trigger final(self).positions@[k]]
                        #![trigger final(self).positions@.contains_key(k)]
                        k != token_id@ ==> final(self).positions@.contains_key(k)
                            == old(self).positions@.contains_key(k) && final(self).positions@[k]
                            == old(self).positions@[k]
                    &&& if shares.spec_le(Scalar::Rank(DUST)) {
                        !final(self).positions@.contains_key(token_id@)
                    } else {
                        let p = final(self).positions@[token_id@];
                        let q = old(self).positions@[token_id@];
                        &&& final(self).positions@.contains_key(token_id@)
                        &&& p.token_id@ == q.token_id@
                        &&& p.outcome@ == q.outcome@
                        &&& p.shares == shares
                        &&& p.cost_usdc == n.cost_left.spec_max(Scalar::Rank(0))
                        &&& p.avg_price == if Scalar::Rank(0).spec_lt(shares) {
                            n.avg_after.spec_max(Scalar::Rank(DUST))
                        } else {
                            q.avg_price
                        }
                    }
                },
            },
    {
        let take = match self.shares_sold(token_id, price, notional, target_shares) {
            Some(x) => x,
            None => {
                return Scalar::Rank(0);
            },
        };
        let shares = n.shares_left.max(Scalar::Rank(0));
        let cost_usdc = n.cost_left.max(Scalar::Rank(0));
        if Scalar::Rank(0).lt(n.proceeds) {
            self.cash_usdc = n.cash_with_proceeds;
        }
        self.total_fees_usdc = n.fees_total;
        self.trade_count = self.trade_count + 1;
        let dust = shares.le(Scalar::Rank(DUST));
        let taken = self.positions.remove(token_id);
        match taken {
            Some(p) => {
                if !dust {
                    let avg_price = if Scalar::Rank(0).lt(shares) {
                        n.avg_after.max(Scalar::Rank(DUST))
                    } else {
                        p.avg_price
                    };
                    self.positions.insert(
                        token_id.to_owned(),
                        VaultPaperPosition {
                            token_id: p.token_id,
                            outcome: p.outcome,
                            shares,
                            cost_usdc,
                            avg_price,
                        },
                    );
                }
            },
            None => {},
        }
        take
    }

    /// Counts a rejected order.
    pub fn record_reject(&mut self)
        requires
            old(self).reject_count < u64::MAX,
        ensures
            *final(self) == (VaultPaperLedger {
                reject_count: (old(self).reject_count + 1) as u64,
                ..*old(self)
            }),
    {
        self.reject_count = self.reject_count + 1;
    }

    /// Counts a partial fill.
    pub fn record_partial_fill(&mut self)
        requires
            old(self).partial_fill_count < u64::MAX,
        ensures
            *final(self) == (VaultPaperLedger {
                partial_fill_count: (old(self).partial_fill_count + 1) as u64,
                ..*old(self)
            }),
    {
        self.partial_fill_count = self.partial_fill_count + 1;
    }

    /// Notes the slippage so far.
    pub fn record_slippage(&mut self, total_slippage_usdc: Scalar)
        ensures
            *final(self) == (VaultPaperLedger { total_slippage_usdc, ..*old(self) }),
    {
        self.total_slippage_usdc = total_slippage_usdc;
    }

    /// The counters; rates are the caller's to divide.
    pub fn execution_stats(&self) -> (r: ExecutionStats)
        requires
            self.trade_count + self.reject_count <= u64::MAX,
        ensures
            r == (ExecutionStats {
                trade_count: self.trade_count,
                reject_count: self.reject_count,
                partial_fill_count: self.partial_fill_count,
                total_fees_usdc: self.total_fees_usdc,
                total_slippage_usdc: self.total_slippage_usdc,
                order_count: (self.trade_count + self.reject_count) as u64,
            }),
    {
        ExecutionStats {
            trade_count: self.trade_count,
            reject_count: self.reject_count,
            partial_fill_count: self.partial_fill_count,
            total_fees_usdc: self.total_fees_usdc,
            total_slippage_usdc: self.total_slippage_usdc,
            order_count: self.trade_count + self.reject_count,
        }
    }
}

/// A purchase brings its shares to its token and to no other; cash never falls below
/// nothing. What cannot be traded changes nothing.
pub proof fn law_purchase_grows_its_position(
    s: &mut VaultPaperLedger,
    token: &str,
    outcome: &str,
    price: Scalar,
    notional: Scalar,
    n: BuyNumbers,
    r: Scalar,
    other: Seq<char>,
)
    requires
        call_ensures(VaultPaperLedger::apply_buy, (s, token, outcome, price, notional, &n), r),
        other != token@,
        n.cash_left is Rank,
        n.shares_after is Rank,
    ensures
        ({
            let fit = Scalar::Rank(0).spec_lt(price) && price.spec_lt(Scalar::Rank(ONE_RANK)) && Scalar::Rank(0).spec_lt(
                notional,
            );
            let held = old(s).positions@.contains_key(token@);
            let p = final(s).positions@[token@];
            &&& !fit ==> *final(s) == *old(s) && r == Scalar::Rank(0)
            &&& fit ==> {
                &&& final(s).positions@.contains_key(token@) && r == n.shares
                &&& p.shares == n.shares_after && p.cost_usdc == n.cost_after
                &&& Scalar::Rank(0).spec_lt(n.shares_after) ==> p.avg_price == n.avg_after
                &&& n.shares_after.spec_le(Scalar::Rank(0)) ==> p.avg_price == price
                &&& !held ==> p.outcome@ == outcome@ && p.token_id@ == token@
                &&& held ==> p.outcome@ == old(s).positions@[token@].outcome@
                &&& Scalar::Rank(0).spec_le(n.cash_left) ==> final(s).cash_usdc == n.cash_left
                &&& n.cash_left.spec_lt(Scalar::Rank(0)) ==> final(s).cash_usdc == Scalar::Rank(0)
                &&& final(s).total_fees_usdc == n.fees_total
                &&& final(s).trade_count == old(s).trade_count + 1
            }
            &&& final(s).positions@.contains_key(other) <==> old(s).positions@.contains_key(other)
            &&& old(s).positions@.contains_key(other) ==> final(s).positions@[other] == old(s).positions@[other]
            &&& final(s).reject_count == old(s).reject_count && final(s).partial_fill_count == old(s).partial_fill_count
        }),
{
    assert(final(s).positions@.dom().contains(token@) <==> final(s).positions@.contains_key(token@));
    assert(final(s).positions@.dom().contains(other) <==> final(s).positions@.contains_key(other));
    assert(old(s).positions@.dom().contains(other) <==> old(s).positions@.contains_key(other));
}

/// A sale takes no more shares than there are and leaves what was not sold; a position of
/// which only dust is left is closed, and no other position is touched.
pub proof fn law_sale_takes_what_there_is(
    s: &mut VaultPaperLedger,
    token: &str,
    price: Scalar,
    notional: Scalar,
    target: Scalar,
    n: SellNumbers,
    r: Scalar,
    other: Seq<char>,
)
    requires
        call_ensures(VaultPaperLedger::apply_sell, (s, token, price, notional, target, &n), r),
        other != token@,
        target is Rank && n.shares_left is Rank && n.cost_left is Rank,
        old(s).positions@.contains_key(token@) ==> old(s).positions@[token@].shares is Rank,
    ensures
        ({
            let nought = Scalar::Rank(0);
            let q = old(s).positions@[token@];
            let p = final(s).positions@[token@];
            let sells = nought.spec_lt(price) && price.spec_lt(Scalar::Rank(ONE_RANK)) && nought.spec_lt(notional) && old(s).positions@.contains_key(token@) && nought.spec_lt(q.shares) && nought.spec_lt(target);
            let dust = n.shares_left.spec_le(Scalar::Rank(R_1E_MINUS_09));
            &&& !sells ==> *final(s) == *old(s) && r == nought
            &&& sells ==> {
                &&& r.spec_le(q.shares) && r.spec_le(target) && (r == q.shares || r == target)
                &&& final(s).positions@.contains_key(token@) <==> !dust
                &&& !dust ==> p.shares == n.shares_left && p.outcome@ == q.outcome@ && p.token_id@ == q.token_id@
                &&& !dust && nought.spec_le(n.cost_left) ==> p.cost_usdc == n.cost_left
                &&& nought.spec_lt(n.proceeds) ==> final(s).cash_usdc == n.cash_with_proceeds
                &&& !nought.spec_lt(n.proceeds) ==> final(s).cash_usdc == old(s).cash_usdc
                &&& final(s).total_fees_usdc == n.fees_total
                &&& final(s).trade_count == old(s).trade_count + 1
            }
            &&& final(s).positions@.contains_key(other) <==> old(s).positions@.contains_key(other)
            &&& old(s).positions@.contains_key(other) ==> final(s).positions@[other] == old(s).positions@[other]
            &&& final(s).reject_count == old(s).reject_count && final(s).partial_fill_count == old(s).partial_fill_count
        }),
{
    let k = final(s).positions@.contains_key(other);
}

/// Each tally goes up by one and touches nothing else; orders are trades and rejections.
pub proof fn law_tallies_go_up_by_one(
    a: &mut VaultPaperLedger,
    b: &mut VaultPaperLedger,
    c: &mut VaultPaperLedger,
    slip: Scalar,
    l: VaultPaperLedger,
    stats: ExecutionStats,
)
    requires
        call_ensures(VaultPaperLedger::record_reject, (a,), ()),
        call_ensures(VaultPaperLedger::record_partial_fill, (b,), ()),
        call_ensures(VaultPaperLedger::record_slippage, (c, slip), ()),
        old(a).reject_count < u64::MAX,
        old(b).partial_fill_count < u64::MAX,
        l.trade_count + l.reject_count <= u64::MAX,
        call_ensures(VaultPaperLedger::execution_stats, (&l,), stats),
    ensures
        final(a).reject_count == old(a).reject_count + 1,
        final(a).cash_usdc == old(a).cash_usdc && final(a).positions == old(a).positions && final(a).trade_count == old(a).trade_count && final(a).partial_fill_count == old(a).partial_fill_count,
        final(b).partial_fill_count == old(b).partial_fill_count + 1,
        final(b).cash_usdc == old(b).cash_usdc && final(b).positions == old(b).positions && final(b).trade_count == old(b).trade_count && final(b).reject_count == old(b).reject_count,
        final(c).total_slippage_usdc == slip && final(c).cash_usdc == old(c).cash_usdc && final(c).positions == old(c).positions && final(c).total_fees_usdc == old(c).total_fees_usdc,
        stats.order_count == l.trade_count + l.reject_count,
        stats.trade_count == l.trade_count && stats.reject_count == l.reject_count && stats.partial_fill_count
            == l.partial_fill_count,
        stats.total_fees_usdc == l.total_fees_usdc && stats.total_slippage_usdc == l.total_slippage_usdc,
{
}

/// A new ledger has its cash and nothing else.
pub proof fn law_ledger_starts_with_its_cash(cash: Scalar, r: VaultPaperLedger, k: Seq<char>)
    requires
        call_ensures(VaultPaperLedger::new, (cash,), r),
    ensures
        r.cash_usdc == cash,
        !r.positions@.contains_key(k),
        r.trade_count == 0 && r.reject_count == 0 && r.partial_fill_count == 0,
        r.total_fees_usdc == Scalar::Rank(0) && r.total_slippage_usdc == Scalar::Rank(0),
{
}

/// Each rank here is that of the binary64 number nearest to the one it is called after.
pub proof fn law_paper_ledger_ranks_are_nearest()
    ensures
        0x3E10_0000_0000_0000 <= DUST < 0x3E20_0000_0000_0000,
        -1000000000 <= 2 * (1000000000 * (DUST - 0x3E00000000000000) - 1 * 0x400000000000000000000int) <= 1000000000,
{
}

} // verus!
