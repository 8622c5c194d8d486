use wicp_ledger::{begin_withdraw, finish_withdraw, ForwardTransfer, GenericValue, WITHDRAW_THRESHOLD};

const OUTSIDE_FEE: u64 = 10_000;
use wicp_ledger::{Account, Ledger, TokenError};

fn holder() -> Account {
    Account::new(&[3, 1, 4]).unwrap()
}

#[test]
fn failed_withdrawal_below_the_outside_fee_is_compensated() {
    let mut l = Ledger::new();
    let c = holder();
    l.mint(c, 1000);
    let plan = begin_withdraw(&mut l, c, 200, WITHDRAW_THRESHOLD, OUTSIDE_FEE).unwrap();
    assert_eq!(plan, None);
    assert_eq!(l.balance_of(&c), 800);
    assert_eq!(finish_withdraw(&mut l, c, 200, false, 5), Err(TokenError::LedgerTrap));
    assert_eq!(l.balance_of(&c), 1000);
    assert_eq!(l.tx_count(), 0);
    assert_eq!(l.in_flight_amount(), 0);
}

#[test]
fn failed_forward_transfer_of_a_sendable_amount_is_compensated() {
    let mut l = Ledger::new();
    let c = holder();
    l.mint(c, 50_000);
    let plan = begin_withdraw(&mut l, c, 30_000, WITHDRAW_THRESHOLD, OUTSIDE_FEE).unwrap();
    assert_eq!(plan, Some(ForwardTransfer { amount: 20_000, fee: OUTSIDE_FEE, withdrawn: 30_000 }));
    assert_eq!(l.total_supply(), 20_000);
    assert_eq!(finish_withdraw(&mut l, c, 30_000, false, 5), Err(TokenError::LedgerTrap));
    assert_eq!(l.balance_of(&c), 50_000);
    assert_eq!(l.total_supply(), 50_000);
    assert_eq!(l.tx_count(), 0);
}

#[test]
fn delivered_withdrawal_logs_a_burn() {
    let mut l = Ledger::new();
    let c = holder();
    l.mint(c, 50_000);
    begin_withdraw(&mut l, c, 50_000, WITHDRAW_THRESHOLD, OUTSIDE_FEE).unwrap();
    assert_eq!(finish_withdraw(&mut l, c, 50_000, true, 9), Ok(1));
    assert_eq!(l.balance_of(&c), 0);
    assert_eq!(l.balances_count(), 0);
    assert_eq!(l.total_supply(), 0);
    assert_eq!(l.tx_records()[0].operation, "burn");
    assert_eq!(l.tx_records()[0].time, 9);
    assert_eq!(
        l.tx_records()[0].details,
        vec![
            ("to".to_string(), GenericValue::Principal(c)),
            ("amount".to_string(), GenericValue::NatContent(50_000)),
        ]
    );
}

#[test]
fn withdraw_refusals_have_no_effect() {
    let mut l = Ledger::new();
    let c = holder();
    l.mint(c, 100);
    assert_eq!(begin_withdraw(&mut l, c, 101, WITHDRAW_THRESHOLD, OUTSIDE_FEE), Err(TokenError::InsufficientBalance));
    assert!(matches!(begin_withdraw(&mut l, c, u64::MAX as u128 + 1, WITHDRAW_THRESHOLD, OUTSIDE_FEE), Err(TokenError::Other(_))));
    assert_eq!(l.balance_of(&c), 100);
    assert_eq!(l.in_flight_amount(), 0);
}

#[test]
fn withdrawal_below_the_minimum_is_refused() {
    let mut l = Ledger::new();
    let c = holder();
    l.mint(c, 100_000);
    assert_eq!(begin_withdraw(&mut l, c, 20_000, 30_000, OUTSIDE_FEE), Err(TokenError::AmountTooSmall));
    assert_eq!(l.balance_of(&c), 100_000);
    assert_eq!(
        begin_withdraw(&mut l, c, 30_000, 30_000, 5),
        Ok(Some(ForwardTransfer { amount: 29_995, fee: 5, withdrawn: 30_000 }))
    );
}
