//! The pool: who owns which share of the vault.
use super::paper_ledger::VaultPaperLedger;
use super::records::{text_view, NavFigures, VaultActivityRecord, VaultNavSnapshotRecord};
use crate::base::ids::fresh_id;
use crate::base::ranks::R_1E_MINUS_09;
use crate::base::scalar::{Scalar, ONE_RANK};
use crate::base::table::Table;
use crate::base::text::{lowercase, to_lower, trim, trimmed};
use vstd::prelude::*;

verus! {

/// The rank of 1e-9.
pub const LEAST_SHARE_PRICE: i64 = 0x3E11_2E0B_E826_D695;

/// The shares in the vault.
pub struct VaultShareState {
    pub total_shares: Scalar,
    pub user_shares: Table<Scalar>,
}

impl VaultShareState {
    /// The shares of a wallet whose address is written in lower case.
    pub open spec fn owned(self, wallet: Seq<char>) -> Scalar {
        if self.user_shares@.contains_key(wallet) {
            self.user_shares@[wallet]
        } else {
            Scalar::Rank(0)
        }
    }

    /// The shares of a wallet.
    pub fn shares_of(&self, wallet: &str) -> (r: Scalar)
        ensures
            r == self.owned(lowercase(wallet@)),
    {
        let key = to_lower(wallet);
        self.shares_under(key.as_str())
    }

    /// The shares that stand under a key.
    pub fn shares_under(&self, key: &str) -> (r: Scalar)
        ensures
            r == self.owned(key@),
    {
        match self.user_shares.get(key) {
            Some(x) => *x,
            None => Scalar::Rank(0),
        }
    }
}

/// Why the pool turns a request down.
#[derive(Clone, Copy, Debug, PartialEq, Eq, Structural)]
pub enum PoolError {
    WalletRequired,
    InvalidAmount,
    InvalidShares,
    InsufficientShares,
    NoShares,
    InsufficientCash,
}

impl PoolError {
    pub open spec fn text(self) -> Seq<char> {
        match self {
            PoolError::WalletRequired => "wallet_address required"@,
            PoolError::InvalidAmount => "invalid amount"@,
            PoolError::InvalidShares => "invalid shares"@,
            PoolError::InsufficientShares => "insufficient shares"@,
            PoolError::NoShares => "vault has no shares"@,
            PoolError::InsufficientCash => "insufficient cash (positions liquidation not implemented)"@,
        }
    }

    pub fn message(self) -> (r: &'static str)
        ensures
            r@ == self.text(),
    {
        match self {
            PoolError::WalletRequired => "wallet_address required",
            PoolError::InvalidAmount => "invalid amount",
            PoolError::InvalidShares => "invalid shares",
            PoolError::InsufficientShares => "insufficient shares",
            PoolError::NoShares => "vault has no shares",
            PoolError::InsufficientCash => "insufficient cash (positions liquidation not implemented)",
        }
    }
}

/// The figures of a deposit, worked out from the vault before it.
#[derive(Clone, Copy, Debug, PartialEq, Eq, Structural)]
pub struct DepositNumbers {
    pub shares_minted: Scalar,
    pub total_after: Scalar,
    pub user_after: Scalar,
    /// The worth of the vault after the deposit; its cash and shares are those above.
    pub after: NavFigures,
}

/// The figures of a withdrawal, worked out from the vault before it.
#[derive(Clone, Copy, Debug, PartialEq, Eq, Structural)]
pub struct WithdrawNumbers {
    /// The shares of the user and the cash, each with a margin for rounding.
    pub user_with_margin: Scalar,
    pub cash_with_margin: Scalar,
    /// The shares to burn times the price of a share.
    pub amount_usdc: Scalar,
    /// The shares of the user less those that are burned.
    pub user_left: Scalar,
    pub total_after: Scalar,
    pub after: NavFigures,
}

/// The state of the vault.
#[derive(Clone, Copy, Debug, PartialEq, Eq, Structural)]
pub struct VaultStateResponse {
    pub cash_usdc: Scalar,
    pub nav_usdc: Scalar,
    pub total_shares: Scalar,
    pub nav_per_share: Scalar,
}

/// A deposit that is asked for.
#[derive(Debug)]
pub struct VaultDepositRequest {
    pub wallet_address: String,
    pub amount_usdc: Scalar,
}

/// A withdrawal that is asked for.
#[derive(Debug)]
pub struct VaultWithdrawRequest {
    pub wallet_address: String,
    pub shares: Scalar,
}

/// What a deposit gave.
#[derive(Debug)]
pub struct VaultDepositResponse {
    pub wallet_address: String,
    pub amount_usdc: Scalar,
    pub shares_minted: Scalar,
    pub nav_per_share: Scalar,
    pub total_shares: Scalar,
    pub nav_usdc: Scalar,
}

/// What a withdrawal gave.
#[derive(Debug)]
pub struct VaultWithdrawResponse {
    pub wallet_address: String,
    pub shares_burned: Scalar,
    pub amount_usdc: Scalar,
    pub nav_per_share: Scalar,
    pub total_shares: Scalar,
    pub nav_usdc: Scalar,
}

/// The price of a share: the worth of the vault by its shares, or one while there
/// are none.
pub open spec fn share_price(total_shares: Scalar, quotient: Scalar) -> Scalar {
    if Scalar::Rank(0).spec_lt(total_shares) {
        quotient
    } else {
        Scalar::Rank(ONE_RANK)
    }
}

pub fn nav_per_share(total_shares: Scalar, quotient: Scalar) -> (r: Scalar)
    ensures
        r == share_price(total_shares, quotient),
{
    if Scalar::Rank(0).lt(total_shares) {
        quotient
    } else {
        Scalar::Rank(ONE_RANK)
    }
}

/// The worth of a vault, from its cash and its positions at cost: never below nothing.
pub fn approximate_nav_usdc(worth: Scalar) -> (r: Scalar)
    ensures
        r == worth.spec_max(Scalar::Rank(0)),
{
    worth.max(Scalar::Rank(0))
}

/// The price at which shares are minted: never nothing.
pub fn minting_price(total_shares: Scalar, quotient: Scalar) -> (r: Scalar)
    ensures
        r == share_price(total_shares, quotient.spec_max(Scalar::Rank(LEAST_SHARE_PRICE))),
{
    nav_per_share(total_shares, quotient.max(Scalar::Rank(LEAST_SHARE_PRICE)))
}

/// A finite number above zero.
pub open spec fn is_positive(x: Scalar) -> bool {
    x.spec_is_finite() && Scalar::Rank(0).spec_lt(x)
}

fn positive(x: Scalar) -> (r: bool)
    ensures
        r == is_positive(x),
{
    x.is_finite() && Scalar::Rank(0).lt(x)
}

/// The key of a wallet: its address in lower case, without the white space around it.
pub open spec fn wallet_key(address: Seq<char>) -> Seq<char> {
    lowercase(trimmed(address))
}

/// An entry of the activity log for money that comes or goes.
pub open spec fn is_flow_record(
    r: VaultActivityRecord,
    kind: Seq<char>,
    ts: i64,
    wallet: Seq<char>,
    amount: Scalar,
    shares: Scalar,
) -> bool {
    &&& r.kind@ == kind
    &&& r.ts == ts
    &&& text_view(r.wallet_address) == Some(wallet)
    &&& r.amount_usdc == Some(amount)
    &&& r.shares == Some(shares)
    &&& r.token_id is None && r.market_slug is None && r.outcome is None && r.side is None
    &&& r.price is None && r.notional_usdc is None && r.strategy is None && r.decision_id is None
}

fn flow_record(id: String, kind: &str, ts: i64, wallet: &str, amount: Scalar, shares: Scalar) -> (r:
    VaultActivityRecord)
    ensures
        r.id == id,
        is_flow_record(r, kind@, ts, wallet@, amount, shares),
{
    VaultActivityRecord {
        id,
        ts,
        kind: kind.to_owned(),
        wallet_address: Some(wallet.to_owned()),
        amount_usdc: Some(amount),
        shares: Some(shares),
        token_id: None,
        market_slug: None,
        outcome: None,
        side: None,
        price: None,
        notional_usdc: None,
        strategy: None,
        decision_id: None,
    }
}

/// What a deposit or a withdrawal leaves in the logs.
#[derive(Debug)]
pub struct FlowLog {
    pub activity: VaultActivityRecord,
    pub snapshot: VaultNavSnapshotRecord,
}

/// The vault of many owners.
pub struct PooledVault {
    pub ledger: VaultPaperLedger,
    pub shares: VaultShareState,
}

impl PooledVault {
    /// Why a deposit is turned down.
    pub open spec fn deposit_fault(wallet: Seq<char>, amount_usdc: Scalar) -> Option<PoolError> {
        if wallet.len() == 0 {
            Some(PoolError::WalletRequired)
        } else if !is_positive(amount_usdc) {
            Some(PoolError::InvalidAmount)
        } else {
            None
        }
    }

    /// The state of the vault; `worth` is its cash and its positions at cost, and `quotient`
    /// that, at least zero, by its shares.
    pub fn state(&self, worth: Scalar, quotient: Scalar) -> (r: VaultStateResponse)
        ensures
            r.cash_usdc == self.ledger.cash_usdc,
            r.nav_usdc == worth.spec_max(Scalar::Rank(0)),
            r.total_shares == self.shares.total_shares,
            r.nav_per_share == share_price(self.shares.total_shares, quotient),
    {
        VaultStateResponse {
            cash_usdc: self.ledger.cash_usdc,
            nav_usdc: approximate_nav_usdc(worth),
            total_shares: self.shares.total_shares,
            nav_per_share: nav_per_share(self.shares.total_shares, quotient),
        }
    }

    /// Takes a deposit of a wallet into the pool; what is logged has fresh identifiers.
    pub fn deposit(
        &mut self,
        wallet_address: &str,
        amount_usdc: Scalar,
        n: &DepositNumbers,
        now: i64,
    ) -> (r: Result<(VaultDepositResponse, FlowLog), PoolError>)
        ensures
            r is Ok <==> Self::deposit_fault(wallet_key(wallet_address@), amount_usdc) is None,
            r matches Err(e) ==> Self::deposit_fault(wallet_key(wallet_address@), amount_usdc) == Some(
                e,
            ) && *final(self) == *old(self),
            r matches Ok((resp, log)) ==> Self::took_deposit(
                *old(self),
                *final(self),
                wallet_key(wallet_address@),
                amount_usdc,
                *n,
                now,
                resp,
                log,
            ) && log.activity.id@.len() == 36 && log.snapshot.id@.len() == 36,
    {
        let bare = trim(wallet_address);
        let wallet = to_lower(bare.as_str());
        self.deposit_under(wallet, amount_usdc, n, fresh_id(), fresh_id(), now)
    }

    /// What a deposit changes and reports.
    pub open spec fn took_deposit(
        before: PooledVault,
        after: PooledVault,
        wallet: Seq<char>,
        amount_usdc: Scalar,
        n: DepositNumbers,
        now: i64,
        resp: VaultDepositResponse,
        log: FlowLog,
    ) -> bool {
        let price = share_price(n.total_after, n.after.nav_per_share);
        &&& after.ledger == (VaultPaperLedger { cash_usdc: n.after.cash_usdc, ..before.ledger })
        &&& after.shares.total_shares == n.total_after
        &&& after.shares.user_shares@ == before.shares.user_shares@.insert(wallet, n.user_after)
        &&& resp.wallet_address@ == wallet
        &&& resp.amount_usdc == amount_usdc
        &&& resp.shares_minted == n.shares_minted
        &&& resp.nav_per_share == price
        &&& resp.total_shares == n.total_after
        &&& resp.nav_usdc == n.after.nav_usdc
        &&& is_flow_record(log.activity, "DEPOSIT"@, now, wallet, amount_usdc, n.shares_minted)
        &&& log.snapshot.ts == now
        &&& log.snapshot.source@ == "deposit"@
        &&& log.snapshot.figures == (NavFigures {
            total_shares: n.total_after,
            nav_per_share: price,
            ..n.after
        })
    }

    /// Takes a deposit of the wallet with a key; what is logged has the given identifiers.
    pub fn deposit_under(
        &mut self,
        wallet: String,
        amount_usdc: Scalar,
        n: &DepositNumbers,
        activity_id: String,
        snapshot_id: String,
        now: i64,
    ) -> (r: Result<(VaultDepositResponse, FlowLog), PoolError>)
        ensures
            r is Ok <==> Self::deposit_fault(wallet@, amount_usdc) is None,
            r matches Err(e) ==> Self::deposit_fault(wallet@, amount_usdc) == Some(e) && *final(self)
                == *old(self),
            r matches Ok((resp, log)) ==> Self::took_deposit(
                *old(self),
                *final(self),
                wallet@,
                amount_usdc,
                *n,
                now,
                resp,
                log,
            ) && log.activity.id == activity_id && log.snapshot.id == snapshot_id,
    {
        if wallet.as_str().is_empty() {
            return Err(PoolError::WalletRequired);
        }
        if !positive(amount_usdc) {
            return Err(PoolError::InvalidAmount);
        }
        let price = nav_per_share(n.total_after, n.after.nav_per_share);
        let activity = flow_record(
            activity_id,
            "DEPOSIT",
            now,
            wallet.as_str(),
            amount_usdc,
            n.shares_minted,
        );
        let snapshot = VaultNavSnapshotRecord {
            id: snapshot_id,
            ts: now,
            figures: NavFigures {
                nav_usdc: n.after.nav_usdc,
                cash_usdc: n.after.cash_usdc,
                positions_value_usdc: n.after.positions_value_usdc,
                total_shares: n.total_after,
                nav_per_share: price,
            },
            source: "deposit".to_owned(),
        };
        self.ledger.cash_usdc = n.after.cash_usdc;
        self.shares.total_shares = n.total_after;
        self.shares.user_shares.insert(wallet.clone(), n.user_after);
        Ok(
            (
                VaultDepositResponse {
                    wallet_address: wallet,
                    amount_usdc,
                    shares_minted: n.shares_minted,
                    nav_per_share: price,
                    total_shares: n.total_after,
                    nav_usdc: n.after.nav_usdc,
                },
                FlowLog { activity, snapshot },
            ),
        )
    }

    /// Why a withdrawal is turned down.
    pub open spec fn withdraw_fault(
        self,
        wallet: Seq<char>,
        shares_to_burn: Scalar,
        n: WithdrawNumbers,
    ) -> Option<PoolError> {
        if wallet.len() == 0 {
            Some(PoolError::WalletRequired)
        } else if !is_positive(shares_to_burn) {
            Some(PoolError::InvalidShares)
        } else if n.user_with_margin.spec_lt(shares_to_burn) {
            Some(PoolError::InsufficientShares)
        } else if self.shares.total_shares.spec_le(Scalar::Rank(0)) {
            Some(PoolError::NoShares)
        } else if n.cash_with_margin.spec_lt(n.amount_usdc) {
            Some(PoolError::InsufficientCash)
        } else {
            None
        }
    }

    /// What a withdrawal changes and reports. A user without shares leaves the table.
    pub open spec fn took_withdrawal(
        before: PooledVault,
        after: PooledVault,
        wallet: Seq<char>,
        shares_to_burn: Scalar,
        n: WithdrawNumbers,
        now: i64,
        resp: VaultWithdrawResponse,
        log: FlowLog,
    ) -> bool {
        let price = share_price(n.total_after, n.after.nav_per_share);
        let left = n.user_left.spec_max(Scalar::Rank(0));
        &&& after.ledger == (VaultPaperLedger { cash_usdc: n.after.cash_usdc, ..before.ledger })
        &&& after.shares.total_shares == n.total_after
        &&& after.shares.user_shares@ == if left.spec_le(Scalar::Rank(0)) {
            before.shares.user_shares@.remove(wallet)
        } else {
            before.shares.user_shares@.insert(wallet, left)
        }
        &&& resp.wallet_address@ == wallet
        &&& resp.shares_burned == shares_to_burn
        &&& resp.amount_usdc == n.amount_usdc
        &&& resp.nav_per_share == price
        &&& resp.total_shares == n.total_after
        &&& resp.nav_usdc == n.after.nav_usdc
        &&& is_flow_record(log.activity, "WITHDRAW"@, now, wallet, n.amount_usdc, shares_to_burn)
        &&& log.snapshot.ts == now
        &&& log.snapshot.source@ == "withdraw"@
        &&& log.snapshot.figures == (NavFigures {
            total_shares: n.total_after,
            nav_per_share: price,
            ..n.after
        })
    }

    /// Pays shares of a wallet out of the pool; what is logged has fresh identifiers.
    pub fn withdraw(
        &mut self,
        wallet_address: &str,
        shares_to_burn: Scalar,
        n: &WithdrawNumbers,
        now: i64,
    ) -> (r: Result<(VaultWithdrawResponse, FlowLog), PoolError>)
        ensures
            r is Ok <==> old(self).withdraw_fault(wallet_key(wallet_address@), shares_to_burn, *n) is None,
            r matches Err(e) ==> old(self).withdraw_fault(
                wallet_key(wallet_address@),
                shares_to_burn,
                *n,
            ) == Some(e) && *final(self) == *old(self),
            r matches Ok((resp, log)) ==> Self::took_withdrawal(
                *old(self),
                *final(self),
                wallet_key(wallet_address@),
                shares_to_burn,
                *n,
                now,
                resp,
                log,
            ) && log.activity.id@.len() == 36 && log.snapshot.id@.len() == 36,
    {
        let bare = trim(wallet_address);
        let wallet = to_lower(bare.as_str());
        self.withdraw_under(wallet, shares_to_burn, n, fresh_id(), fresh_id(), now)
    }

    /// Pays shares of the wallet with a key out of the pool; what is logged has the given
    /// identifiers.
    pub fn withdraw_under(
        &mut self,
        wallet: String,
        shares_to_burn: Scalar,
        n: &WithdrawNumbers,
        activity_id: String,
        snapshot_id: String,
        now: i64,
    ) -> (r: Result<(VaultWithdrawResponse, FlowLog), PoolError>)
        ensures
            r is Ok <==> old(self).withdraw_fault(wallet@, shares_to_burn, *n) is None,
            r matches Err(e) ==> old(self).withdraw_fault(wallet@, shares_to_burn, *n) == Some(e)
                && *final(self) == *old(self),
            r matches Ok((resp, log)) ==> Self::took_withdrawal(
                *old(self),
                *final(self),
                wallet@,
                shares_to_burn,
                *n,
                now,
                resp,
                log,
            ) && log.activity.id == activity_id && log.snapshot.id == snapshot_id,
    {
        if wallet.as_str().is_empty() {
            return Err(PoolError::WalletRequired);
        }
        if !positive(shares_to_burn) {
            return Err(PoolError::InvalidShares);
        }
        if n.user_with_margin.lt(shares_to_burn) {
            return Err(PoolError::InsufficientShares);
        }
        if self.shares.total_shares.le(Scalar::Rank(0)) {
            return Err(PoolError::NoShares);
        }
        if n.cash_with_margin.lt(n.amount_usdc) {
            return Err(PoolError::InsufficientCash);
        }
        let price = nav_per_share(n.total_after, n.after.nav_per_share);
        let activity = flow_record(
            activity_id,
            "WITHDRAW",
            now,
            wallet.as_str(),
            n.amount_usdc,
            shares_to_burn,
        );
        let snapshot = VaultNavSnapshotRecord {
            id: snapshot_id,
            ts: now,
            figures: NavFigures {
                nav_usdc: n.after.nav_usdc,
                cash_usdc: n.after.cash_usdc,
                positions_value_usdc: n.after.positions_value_usdc,
                total_shares: n.total_after,
                nav_per_share: price,
            },
            source: "withdraw".to_owned(),
        };
        self.ledger.cash_usdc = n.after.cash_usdc;
        self.shares.total_shares = n.total_after;
        let left = n.user_left.max(Scalar::Rank(0));
        if left.le(Scalar::Rank(0)) {
            let _gone = self.shares.user_shares.remove(wallet.as_str());
        } else {
            self.shares.user_shares.insert(wallet.clone(), left);
        }
        Ok(
            (
                VaultWithdrawResponse {
                    wallet_address: wallet,
                    shares_burned: shares_to_burn,
                    amount_usdc: n.amount_usdc,
                    nav_per_share: price,
                    total_shares: n.total_after,
                    nav_usdc: n.after.nav_usdc,
                },
                FlowLog { activity, snapshot },
            ),
        )
    }
}

/// Deposits and withdrawals of one wallet leave the shares of every other wallet and
/// all positions alone.
pub proof fn law_flows_touch_one_wallet(
    before: PooledVault,
    after: PooledVault,
    wallet: Seq<char>,
    other: Seq<char>,
)
    requires
        other != wallet,
        (exists|a: Scalar, n: DepositNumbers, t: i64, resp: VaultDepositResponse, log: FlowLog| #[trigger]
            PooledVault::took_deposit(before, after, wallet, a, n, t, resp, log)) || (exists|
            a: Scalar,
            n: WithdrawNumbers,
            t: i64,
            resp: VaultWithdrawResponse,
            log: FlowLog,
        | #[trigger]
            PooledVault::took_withdrawal(before, after, wallet, a, n, t, resp, log)),
    ensures
        after.shares.owned(other) == before.shares.owned(other),
        after.ledger.positions == before.ledger.positions,
{
}

/// The figures of a withdrawal that undo those of a deposit: what was paid in is paid out,
/// and the cash, the shares in all and those of the wallet are the ones before the deposit.
pub open spec fn figures_undo(
    before: PooledVault,
    wallet: Seq<char>,
    amount_usdc: Scalar,
    d: DepositNumbers,
    w: WithdrawNumbers,
) -> bool {
    &&& w.amount_usdc == amount_usdc
    &&& w.after.cash_usdc == before.ledger.cash_usdc
    &&& w.total_after == before.shares.total_shares
    &&& w.user_left == before.shares.owned(wallet)
    &&& d.shares_minted.spec_le(w.user_with_margin)
    &&& amount_usdc.spec_le(w.cash_with_margin)
}

/// A withdrawal of what a deposit minted is granted, pays out what was paid in, and brings
/// the ledger, the shares in all and those of every wallet back to what they were, where its
/// figures undo those of the deposit and no wallet owns less than nothing. With the ledger
/// and the shares, the worth of the vault and of a share are what they were.
pub proof fn law_withdrawal_undoes_deposit(
    before: PooledVault,
    between: PooledVault,
    wallet: Seq<char>,
    amount_usdc: Scalar,
    d: DepositNumbers,
    w: WithdrawNumbers,
    deposited_at: i64,
    deposited: VaultDepositResponse,
    log: FlowLog,
)
    requires
        PooledVault::deposit_fault(wallet, amount_usdc) is None,
        PooledVault::took_deposit(before, between, wallet, amount_usdc, d, deposited_at, deposited, log),
        is_positive(deposited.shares_minted),
        Scalar::Rank(0).spec_lt(d.total_after),
        Scalar::Rank(0).spec_le(before.shares.owned(wallet)),
        figures_undo(before, wallet, amount_usdc, d, w),
    ensures
        between.withdraw_fault(wallet, deposited.shares_minted, w) is None,
        forall|after: PooledVault, at: i64, resp: VaultWithdrawResponse, entry: FlowLog| #[trigger]
            PooledVault::took_withdrawal(
                between,
                after,
                wallet,
                deposited.shares_minted,
                w,
                at,
                resp,
                entry,
            ) ==> {
                &&& resp.amount_usdc == amount_usdc
                &&& after.ledger == before.ledger
                &&& after.shares.total_shares == before.shares.total_shares
                &&& forall|any: Seq<char>| #[trigger]
                    after.shares.owned(any) == before.shares.owned(any)
            },
{
}

/// A deposit needs a wallet and an amount above zero; it gives the wallet the shares that
/// were minted and changes the shares of no other.
pub proof fn law_deposit_gives_its_wallet_shares(
    v: &mut PooledVault,
    wallet: String,
    amount: Scalar,
    n: DepositNumbers,
    a: String,
    b: String,
    now: i64,
    r: Result<(VaultDepositResponse, FlowLog), PoolError>,
    before: PooledVault,
    after: PooledVault,
    key: &str,
    other: &str,
    owned: Scalar,
    others: Scalar,
    others_before: Scalar,
)
    requires
        call_ensures(PooledVault::deposit_under, (v, wallet, amount, &n, a, b, now), r),
        before == *old(v),
        after == *final(v),
        key@ == wallet@,
        other@ != wallet@,
        call_ensures(VaultShareState::shares_under, (&after.shares, key), owned),
        call_ensures(VaultShareState::shares_under, (&after.shares, other), others),
        call_ensures(VaultShareState::shares_under, (&before.shares, other), others_before),
    ensures
        r is Ok <==> wallet@.len() > 0 && amount.spec_is_finite() && Scalar::Rank(0).spec_lt(amount),
        wallet@.len() == 0 ==> r == Err::<(VaultDepositResponse, FlowLog), PoolError>(PoolError::WalletRequired),
        r is Err && wallet@.len() > 0 ==> r->Err_0 == PoolError::InvalidAmount,
        r is Err ==> after == before,
        others == others_before,
        r is Ok ==> {
            let resp = (r->Ok_0).0;
            let log = (r->Ok_0).1;
            &&& owned == n.user_after
            &&& after.shares.total_shares == n.total_after && after.ledger.cash_usdc == n.after.cash_usdc
            &&& after.ledger.positions == before.ledger.positions
            &&& resp.wallet_address@ == wallet@ && resp.amount_usdc == amount && resp.shares_minted == n.shares_minted
            &&& resp.total_shares == n.total_after && resp.nav_usdc == n.after.nav_usdc
            &&& Scalar::Rank(0).spec_lt(n.total_after) ==> resp.nav_per_share == n.after.nav_per_share
            &&& !Scalar::Rank(0).spec_lt(n.total_after) ==> resp.nav_per_share == Scalar::Rank(ONE_RANK)
            &&& log.activity.kind@ == "DEPOSIT"@ && log.activity.ts == now && log.activity.amount_usdc == Some(amount)
                && log.activity.shares == Some(n.shares_minted) && text_view(log.activity.wallet_address) == Some(wallet@)
            &&& log.snapshot.source@ == "deposit"@ && log.snapshot.ts == now && log.snapshot.figures.nav_per_share
                == resp.nav_per_share && log.snapshot.figures.cash_usdc == n.after.cash_usdc
        },
{
}

/// A withdrawal is refused for the first thing that it lacks: a wallet, shares to burn,
/// shares of the wallet, shares in the vault, cash. Else it pays out, and a wallet without
/// shares leaves the table.
pub proof fn law_withdrawal_needs_shares_and_cash(
    v: &mut PooledVault,
    wallet: String,
    burn: Scalar,
    n: WithdrawNumbers,
    a: String,
    b: String,
    now: i64,
    r: Result<(VaultWithdrawResponse, FlowLog), PoolError>,
    other: Seq<char>,
)
    requires
        call_ensures(PooledVault::withdraw_under, (v, wallet, burn, &n, a, b, now), r),
        n.user_with_margin is Rank && n.cash_with_margin is Rank && n.amount_usdc is Rank && n.user_left is Rank,
        old(v).shares.total_shares is Rank,
        other != wallet@,
    ensures
        ({
            let asked = burn.spec_is_finite() && Scalar::Rank(0).spec_lt(burn);
            let owns = burn.spec_le(n.user_with_margin);
            let shared = Scalar::Rank(0).spec_lt(old(v).shares.total_shares);
            let paid = n.amount_usdc.spec_le(n.cash_with_margin);
            let s = final(v).shares.user_shares@;
            let t = old(v).shares.user_shares@;
            &&& r is Ok <==> wallet@.len() > 0 && asked && owns && shared && paid
            &&& wallet@.len() == 0 ==> r->Err_0 == PoolError::WalletRequired
            &&& wallet@.len() > 0 && !asked ==> r->Err_0 == PoolError::InvalidShares
            &&& wallet@.len() > 0 && asked && !owns ==> r->Err_0 == PoolError::InsufficientShares
            &&& wallet@.len() > 0 && asked && owns && !shared ==> r->Err_0 == PoolError::NoShares
            &&& wallet@.len() > 0 && asked && owns && shared && !paid ==> r->Err_0 == PoolError::InsufficientCash
            &&& r is Err ==> *final(v) == *old(v)
            &&& s.contains_key(other) <==> t.contains_key(other)
            &&& t.contains_key(other) ==> s[other] == t[other]
            &&& r is Ok ==> {
                let resp = (r->Ok_0).0;
                let log = (r->Ok_0).1;
                &&& s.contains_key(wallet@) <==> Scalar::Rank(0).spec_lt(n.user_left)
                &&& s.contains_key(wallet@) ==> s[wallet@] == n.user_left
                &&& final(v).shares.total_shares == n.total_after && final(v).ledger.cash_usdc == n.after.cash_usdc
                &&& final(v).ledger.positions == old(v).ledger.positions
                &&& resp.shares_burned == burn && resp.amount_usdc == n.amount_usdc && resp.wallet_address@ == wallet@
                &&& resp.total_shares == n.total_after && resp.nav_usdc == n.after.nav_usdc
                &&& log.activity.kind@ == "WITHDRAW"@ && log.activity.amount_usdc == Some(n.amount_usdc)
                    && log.activity.shares == Some(burn) && log.activity.ts == now
                &&& log.snapshot.source@ == "withdraw"@ && log.snapshot.figures.total_shares == n.total_after
            }
        }),
{
}

/// A share is worth the vault by its shares, and one while there are none; it is minted at a
/// billionth at least, and the vault is never worth less than nothing.
pub proof fn law_share_is_worth_its_part(
    total: Scalar,
    quotient: Scalar,
    price: Scalar,
    minted_at: Scalar,
    worth: Scalar,
    nav: Scalar,
    v: PooledVault,
    state: VaultStateResponse,
)
    requires
        call_ensures(nav_per_share, (total, quotient), price),
        call_ensures(minting_price, (total, quotient), minted_at),
        call_ensures(approximate_nav_usdc, (worth,), nav),
        call_ensures(PooledVault::state, (&v, worth, quotient), state),
        total is Rank && quotient is Rank && worth is Rank,
        v.shares.total_shares == total,
    ensures
        Scalar::Rank(0).spec_lt(total) ==> price == quotient,
        total.spec_le(Scalar::Rank(0)) ==> price == Scalar::Rank(ONE_RANK) && minted_at == Scalar::Rank(ONE_RANK),
        Scalar::Rank(0).spec_lt(total) ==> Scalar::Rank(R_1E_MINUS_09).spec_le(minted_at),
        Scalar::Rank(0).spec_lt(total) && Scalar::Rank(R_1E_MINUS_09).spec_le(quotient) ==> minted_at == quotient,
        Scalar::Rank(0).spec_le(nav),
        Scalar::Rank(0).spec_le(worth) ==> nav == worth,
        state.nav_usdc == nav && state.nav_per_share == price && state.cash_usdc == v.ledger.cash_usdc
            && state.total_shares == total,
{
}

/// A wallet pays in, pays out and owns under its address in small letters, without the white
/// space around it; an error says why.
pub proof fn law_wallets_are_known_by_their_address(
    a: &mut PooledVault,
    b: &mut PooledVault,
    address: &str,
    key: String,
    amount: Scalar,
    n: DepositNumbers,
    x: String,
    y: String,
    now: i64,
    r: Result<(VaultDepositResponse, FlowLog), PoolError>,
    s: Result<(VaultDepositResponse, FlowLog), PoolError>,
    c: &mut PooledVault,
    d: &mut PooledVault,
    m: WithdrawNumbers,
    t: Result<(VaultWithdrawResponse, FlowLog), PoolError>,
    u: Result<(VaultWithdrawResponse, FlowLog), PoolError>,
    e: PoolError,
    text: &'static str,
)
    requires
        key@ == lowercase(trimmed(address@)),
        *old(a) == *old(b),
        call_ensures(PooledVault::deposit, (a, address, amount, &n, now), r),
        call_ensures(PooledVault::deposit_under, (b, key, amount, &n, x, y, now), s),
        *old(c) == *old(d),
        call_ensures(PooledVault::withdraw, (c, address, amount, &m, now), t),
        call_ensures(PooledVault::withdraw_under, (d, key, amount, &m, x, y, now), u),
        call_ensures(PoolError::message, (e,), text),
    ensures
        r is Ok <==> s is Ok,
        r is Err ==> r->Err_0 == s->Err_0,
        r is Ok ==> (r->Ok_0).0.wallet_address@ == key@ && (r->Ok_0).0.shares_minted == (s->Ok_0).0.shares_minted,
        final(a).ledger == final(b).ledger && final(a).shares.user_shares@ == final(b).shares.user_shares@,
        t is Ok <==> u is Ok,
        t is Err ==> t->Err_0 == u->Err_0,
        t is Ok ==> (t->Ok_0).0.wallet_address@ == key@ && (t->Ok_0).0.amount_usdc == (u->Ok_0).0.amount_usdc,
        final(c).ledger == final(d).ledger && final(c).shares.user_shares@ == final(d).shares.user_shares@,
        e is WalletRequired ==> text@ == "wallet_address required"@,
        e is InvalidAmount ==> text@ == "invalid amount"@,
        e is InvalidShares ==> text@ == "invalid shares"@,
        e is InsufficientShares ==> text@ == "insufficient shares"@,
        e is NoShares ==> text@ == "vault has no shares"@,
        e is InsufficientCash ==> text@ == "insufficient cash (positions liquidation not implemented)"@,
{
}

/// A wallet owns what stands under its address in small letters.
pub proof fn law_wallet_owns_in_small_letters(s: VaultShareState, wallet: &str, key: &str, a: Scalar, b: Scalar)
    requires
        key@ == lowercase(wallet@),
        call_ensures(VaultShareState::shares_of, (&s, wallet), a),
        call_ensures(VaultShareState::shares_under, (&s, key), b),
    ensures
        a == b,
        s.user_shares@.contains_key(key@) ==> b == s.user_shares@[key@],
        !s.user_shares@.contains_key(key@) ==> b == Scalar::Rank(0),
{
}

/// Each rank here is that of the binary64 number nearest to the one it is called after.
pub proof fn law_pool_ranks_are_nearest()
    ensures
        0x3E10_0000_0000_0000 <= LEAST_SHARE_PRICE < 0x3E20_0000_0000_0000,
        -1000000000 <= 2 * (1000000000 * (LEAST_SHARE_PRICE - 0x3E00000000000000) - 1 * 0x400000000000000000000int) <= 1000000000,
{
}

} // verus!
