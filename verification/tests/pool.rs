use betterbot::base::scalar::Scalar;
use betterbot::base::table::Table;
use betterbot::vault::paper_ledger::{BuyNumbers, SellNumbers, VaultPaperLedger};
use betterbot::vault::pool::{
    approximate_nav_usdc, minting_price, nav_per_share, DepositNumbers, PoolError, PooledVault,
    VaultShareState, WithdrawNumbers,
};
use betterbot::vault::records::{trade_snapshot, NavFigures};

fn scalar(x: f64) -> Scalar {
    if x.is_nan() {
        Scalar::Undefined
    } else {
        let b = x.to_bits() as i64;
        Scalar::Rank(if b < 0 { i64::MIN.wrapping_sub(b) } else { b })
    }
}

fn number(s: Scalar) -> f64 {
    match s {
        Scalar::Undefined => f64::NAN,
        Scalar::Rank(a) => {
            if a < 0 {
                -f64::from_bits((-a) as u64)
            } else {
                f64::from_bits(a as u64)
            }
        }
    }
}

fn vault(cash: f64) -> PooledVault {
    PooledVault {
        ledger: VaultPaperLedger::new(scalar(cash)),
        shares: VaultShareState { total_shares: scalar(0.0), user_shares: Table::new() },
    }
}

fn figures(nav: f64, shares: f64) -> NavFigures {
    NavFigures {
        nav_usdc: scalar(nav),
        cash_usdc: scalar(nav),
        positions_value_usdc: scalar(0.0),
        total_shares: scalar(shares),
        nav_per_share: scalar(nav / shares),
    }
}

fn put_in(v: &mut PooledVault, wallet: &str, amount: f64) -> Result<f64, PoolError> {
    let total = number(v.shares.total_shares);
    let cash = number(v.ledger.cash_usdc);
    let price = number(minting_price(scalar(total), scalar(cash / total)));
    let minted = amount / price;
    let n = DepositNumbers {
        shares_minted: scalar(minted),
        total_after: scalar(total + minted),
        user_after: scalar(number(v.shares.shares_of(wallet)) + minted),
        after: figures(cash + amount, total + minted),
    };
    match v.deposit(wallet, scalar(amount), &n, 9) {
        Ok((r, _)) => Ok(number(r.shares_minted)),
        Err(e) => Err(e),
    }
}

fn take_out(v: &mut PooledVault, wallet: &str, shares: f64) -> Result<f64, PoolError> {
    let total = number(v.shares.total_shares);
    let cash = number(v.ledger.cash_usdc);
    let user = number(v.shares.shares_of(wallet));
    let price = number(nav_per_share(scalar(total), scalar(cash / total)));
    let n = WithdrawNumbers {
        user_with_margin: scalar(user + 1e-9),
        cash_with_margin: scalar(cash + 1e-9),
        amount_usdc: scalar(shares * price),
        user_left: scalar(user - shares),
        total_after: scalar(total - shares),
        after: figures(cash - shares * price, total - shares),
    };
    match v.withdraw(wallet, scalar(shares), &n, 9) {
        Ok((r, _)) => Ok(number(r.amount_usdc)),
        Err(e) => Err(e),
    }
}

#[test]
fn deposits_mint_shares_and_withdrawals_burn_them() {
    let mut v = vault(0.0);
    assert_eq!(put_in(&mut v, " 0xABC ", 100.0).unwrap(), 100.0);
    assert_eq!(number(v.shares.shares_of("0xabc")), 100.0);
    assert_eq!(put_in(&mut v, "0xdef", 50.0).unwrap(), 50.0);
    assert_eq!(number(v.shares.shares_of("0xABC")), 100.0);
    assert_eq!(take_out(&mut v, "0xabc", 40.0).unwrap(), 40.0);
    assert_eq!(number(v.shares.shares_of("0xabc")), 60.0);
    assert_eq!(number(v.shares.shares_of("0xdef")), 50.0);
}

#[test]
fn a_withdrawal_undoes_a_deposit() {
    let mut v = vault(0.0);
    put_in(&mut v, "a", 64.0).unwrap();
    put_in(&mut v, "b", 32.0).unwrap();
    for wallet in ["a", "c"] {
        let before = (v.ledger.cash_usdc, v.shares.total_shares);
        let owned = ["a", "b", "c"].map(|w| v.shares.shares_of(w));
        let minted = put_in(&mut v, wallet, 16.0).unwrap();
        assert_eq!(take_out(&mut v, wallet, minted).unwrap(), 16.0);
        assert_eq!((v.ledger.cash_usdc, v.shares.total_shares), before);
        assert_eq!(["a", "b", "c"].map(|w| v.shares.shares_of(w)), owned);
    }
}

#[test]
fn each_refusal_of_the_pool_has_its_error() {
    let mut v = vault(0.0);
    assert!(matches!(put_in(&mut v, "  ", 1.0), Err(PoolError::WalletRequired)));
    assert!(matches!(put_in(&mut v, "w", 0.0), Err(PoolError::InvalidAmount)));
    assert!(matches!(put_in(&mut v, "w", f64::INFINITY), Err(PoolError::InvalidAmount)));
    assert!(matches!(take_out(&mut v, "w", 0.0), Err(PoolError::InvalidShares)));
    assert!(matches!(take_out(&mut v, "", 1.0), Err(PoolError::WalletRequired)));
    put_in(&mut v, "w", 10.0).unwrap();
    assert!(matches!(take_out(&mut v, "w", 11.0), Err(PoolError::InsufficientShares)));
    v.ledger.cash_usdc = scalar(1.0);
    let n = WithdrawNumbers {
        user_with_margin: scalar(10.0),
        cash_with_margin: scalar(1.0),
        amount_usdc: scalar(5.0),
        user_left: scalar(5.0),
        total_after: scalar(5.0),
        after: figures(1.0, 5.0),
    };
    let e = v.withdraw("w", scalar(5.0), &n, 9);
    assert!(matches!(e, Err(PoolError::InsufficientCash)));
    assert_eq!(PoolError::WalletRequired.message(), "wallet_address required");
}

#[test]
fn the_state_tells_the_price_of_a_share() {
    let mut v = vault(0.0);
    assert_eq!(v.state(scalar(0.0), scalar(7.0)).nav_per_share, scalar(1.0));
    put_in(&mut v, "w", 10.0).unwrap();
    let s = v.state(scalar(20.0), scalar(2.0));
    assert_eq!(s.nav_usdc, scalar(20.0));
    assert_eq!(s.nav_per_share, scalar(2.0));
    assert_eq!(approximate_nav_usdc(scalar(-3.0)), scalar(0.0));
    assert_eq!(minting_price(scalar(5.0), scalar(0.0)), scalar(1e-9));
}

#[test]
fn purchases_and_sales_move_cash() {
    let mut l = VaultPaperLedger::new(scalar(100.0));
    let buy = BuyNumbers {
        shares: scalar(20.0),
        cash_left: scalar(90.0),
        fees_total: scalar(0.0),
        cost_after: scalar(10.0),
        shares_after: scalar(20.0),
        avg_after: scalar(0.5),
    };
    assert_eq!(l.apply_buy("t", "Yes", scalar(0.5), scalar(10.0), &buy), scalar(20.0));
    assert_eq!(l.cash_usdc, scalar(90.0));
    assert_eq!(l.trade_count, 1);
    assert_eq!(l.positions.get("t").unwrap().shares, scalar(20.0));
    let sell = SellNumbers {
        proceeds: scalar(6.0),
        cash_with_proceeds: scalar(96.0),
        fees_total: scalar(0.0),
        shares_left: scalar(10.0),
        cost_left: scalar(5.0),
        avg_after: scalar(0.5),
    };
    assert_eq!(l.shares_sold("t", scalar(0.6), scalar(6.0), scalar(10.0)), Some(scalar(10.0)));
    l.apply_sell("t", scalar(0.6), scalar(6.0), scalar(10.0), &sell);
    assert_eq!(l.cash_usdc, scalar(96.0));
    assert_eq!(l.shares_sold("unknown", scalar(0.6), scalar(6.0), scalar(10.0)), None);
    l.record_reject();
    l.record_partial_fill();
    l.record_slippage(scalar(0.25));
    let s = l.execution_stats();
    assert_eq!(s.reject_count, 1);
    assert_eq!(s.partial_fill_count, 1);
    assert_eq!(s.order_count, s.trade_count + s.reject_count);
    assert_eq!(s.total_slippage_usdc, scalar(0.25));
}

#[test]
fn what_is_put_in_is_logged_under_fresh_identifiers() {
    let mut v = vault(0.0);
    let n = DepositNumbers {
        shares_minted: scalar(5.0),
        total_after: scalar(5.0),
        user_after: scalar(5.0),
        after: figures(5.0, 5.0),
    };
    let (answer, log) = v.deposit(" 0xA ", scalar(5.0), &n, 77).unwrap();
    assert_eq!(answer.shares_minted, scalar(5.0));
    assert_eq!(log.activity.id.len(), 36);
    assert_eq!(log.snapshot.id.len(), 36);
    assert!(log.activity.id != log.snapshot.id);
    assert_eq!(log.activity.kind, "DEPOSIT");
    assert_eq!(log.activity.ts, 77);
    assert_eq!(log.activity.amount_usdc, Some(scalar(5.0)));
    let (_, named) = v
        .deposit_under("0xa".to_string(), scalar(5.0), &n, "a1".to_string(), "s1".to_string(), 78)
        .unwrap();
    assert_eq!(named.activity.id, "a1");
    assert_eq!(named.snapshot.id, "s1");
}

#[test]
fn a_trade_is_followed_by_a_snapshot() {
    let s = trade_snapshot(5, figures(10.0, 4.0), "FAST15M");
    assert_eq!(s.id.len(), 36);
    assert_eq!(s.ts, 5);
    assert_eq!(s.source, "trade:FAST15M");
    assert!(s.id != trade_snapshot(5, figures(10.0, 4.0), "FAST15M").id);
}
