//! The records that trades leave behind.
use super::execution::{OrderAck, OrderSide};
use crate::base::ids::fresh_id;
use crate::base::scalar::Scalar;
use crate::base::text::joined;
use vstd::prelude::*;

verus! {

/// An entry of the vault's activity log.
#[derive(Debug)]
pub struct VaultActivityRecord {
    pub id: String,
    pub ts: i64,
    pub kind: String,
    pub wallet_address: Option<String>,
    pub amount_usdc: Option<Scalar>,
    pub shares: Option<Scalar>,
    pub token_id: Option<String>,
    pub market_slug: Option<String>,
    pub outcome: Option<String>,
    pub side: Option<String>,
    pub price: Option<Scalar>,
    pub notional_usdc: Option<Scalar>,
    pub strategy: Option<String>,
    pub decision_id: Option<String>,
}

/// The worth of the vault at an instant.
#[derive(Clone, Copy, Debug, PartialEq, Eq, Structural)]
pub struct NavFigures {
    pub nav_usdc: Scalar,
    pub cash_usdc: Scalar,
    pub positions_value_usdc: Scalar,
    pub total_shares: Scalar,
    pub nav_per_share: Scalar,
}

/// An entry of the log of the vault's worth.
#[derive(Debug)]
pub struct VaultNavSnapshotRecord {
    pub id: String,
    pub ts: i64,
    pub figures: NavFigures,
    pub source: String,
}

pub open spec fn text_view(t: Option<String>) -> Option<Seq<char>> {
    match t {
        Some(s) => Some(s@),
        None => None,
    }
}

/// A copy of an optional text.
pub fn text_copy(t: &Option<String>) -> (r: Option<String>)
    ensures
        r == t,
        text_view(r) == text_view(*t),
{
    match t {
        Some(s) => Some(s.clone()),
        None => None,
    }
}

/// The record of a trade of a strategy.
pub open spec fn is_trade_record(
    r: VaultActivityRecord,
    ack: OrderAck,
    shares: Scalar,
    token_id: Seq<char>,
    market_slug: Option<Seq<char>>,
    outcome: Option<Seq<char>>,
    side: OrderSide,
    strategy: Seq<char>,
    decision_id: Option<Seq<char>>,
) -> bool {
    &&& r.id@ == ack.order_id@
    &&& r.ts == ack.filled_at
    &&& r.kind@ == "TRADE"@
    &&& r.wallet_address is None
    &&& r.amount_usdc is None
    &&& r.shares == Some(shares)
    &&& text_view(r.token_id) == Some(token_id)
    &&& text_view(r.market_slug) == market_slug
    &&& text_view(r.outcome) == outcome
    &&& text_view(r.side) == Some(side.name())
    &&& r.price == Some(ack.filled_price)
    &&& r.notional_usdc == Some(ack.filled_notional_usdc)
    &&& text_view(r.strategy) == Some(strategy)
    &&& text_view(r.decision_id) == decision_id
}

/// Records a trade of a strategy; the shares are the filled amount by its price.
pub fn trade_record(
    ack: &OrderAck,
    shares: Scalar,
    token_id: &str,
    market_slug: &Option<String>,
    outcome: &Option<String>,
    side: OrderSide,
    strategy: &str,
    decision_id: &Option<String>,
) -> (r: VaultActivityRecord)
    ensures
        is_trade_record(
            r,
            *ack,
            shares,
            token_id@,
            text_view(*market_slug),
            text_view(*outcome),
            side,
            strategy@,
            text_view(*decision_id),
        ),
{
    VaultActivityRecord {
        id: ack.order_id.clone(),
        ts: ack.filled_at,
        kind: "TRADE".to_owned(),
        wallet_address: None,
        amount_usdc: None,
        shares: Some(shares),
        token_id: Some(token_id.to_owned()),
        market_slug: text_copy(market_slug),
        outcome: text_copy(outcome),
        side: Some(side.as_str().to_owned()),
        price: Some(ack.filled_price),
        notional_usdc: Some(ack.filled_notional_usdc),
        strategy: Some(strategy.to_owned()),
        decision_id: text_copy(decision_id),
    }
}

/// Records the worth of the vault after a trade of a strategy, under a fresh identifier.
pub fn trade_snapshot(ts: i64, figures: NavFigures, strategy: &str) -> (r: VaultNavSnapshotRecord)
    ensures
        r.id@.len() == 36,
        r.ts == ts,
        r.figures == figures,
        r.source@ == "trade:"@ + strategy@,
{
    trade_snapshot_with(fresh_id(), ts, figures, strategy)
}

/// Records the worth of the vault after a trade of a strategy, under an identifier.
pub fn trade_snapshot_with(id: String, ts: i64, figures: NavFigures, strategy: &str) -> (r:
    VaultNavSnapshotRecord)
    ensures
        r.id == id,
        r.ts == ts,
        r.figures == figures,
        r.source@ == "trade:"@ + strategy@,
{
    VaultNavSnapshotRecord { id, ts, figures, source: joined("trade:", strategy) }
}

/// The record of a trade tells the order as it was filled, and its side by name.
pub proof fn law_trade_is_recorded_as_filled(
    ack: OrderAck,
    shares: Scalar,
    token: &str,
    slug: Option<String>,
    outcome: Option<String>,
    side: OrderSide,
    strategy: &str,
    decision: Option<String>,
    r: VaultActivityRecord,
)
    requires
        call_ensures(trade_record, (&ack, shares, token, &slug, &outcome, side, strategy, &decision), r),
    ensures
        r.id@ == ack.order_id@ && r.ts == ack.filled_at && r.kind@ == "TRADE"@,
        r.price == Some(ack.filled_price) && r.notional_usdc == Some(ack.filled_notional_usdc),
        r.shares == Some(shares),
        side is Buy ==> text_view(r.side) == Some("BUY"@),
        side is Sell ==> text_view(r.side) == Some("SELL"@),
        text_view(r.token_id) == Some(token@) && text_view(r.strategy) == Some(strategy@),
        text_view(r.market_slug) == text_view(slug) && text_view(r.outcome) == text_view(outcome),
        text_view(r.decision_id) == text_view(decision),
        r.wallet_address is None && r.amount_usdc is None,
{
}

/// The worth of the vault is recorded as it was, and after which strategy's trade.
pub proof fn law_worth_is_recorded_as_it_was(
    id: String,
    ts: i64,
    figures: NavFigures,
    strategy: &str,
    r: VaultNavSnapshotRecord,
)
    requires
        call_ensures(trade_snapshot_with, (id, ts, figures, strategy), r),
    ensures
        r.id == id && r.ts == ts && r.figures == figures,
        r.source@ == "trade:"@ + strategy@,
{
}

} // verus!
