use wicp_ledger::{approve, transaction, transfer, transfer_from};
use wicp_ledger::{Account, GenericValue, InitArgs, Ledger, TokenError};

fn acct(n: u8) -> Account {
    Account::new(&[n, n, n]).unwrap()
}

fn ledger_with_fee(fee: Option<u128>, fee_to: Option<Account>) -> Ledger {
    let mut l = Ledger::new();
    let args = InitArgs {
        name: Some("Wrapped".to_string()),
        logo: None,
        symbol: Some("WT".to_string()),
        decimals: Some(8),
        fee,
        fee_to,
        custodians: None,
        cap: None,
    };
    l.init_metadata(acct(99), Some(args), 1);
    l
}

#[test]
fn approve_then_transfer_from_spends_the_allowance() {
    let (alice, bob, carol, collector) = (acct(1), acct(2), acct(3), acct(4));
    let mut l = ledger_with_fee(Some(10), Some(collector));
    l.mint(alice, 1000);
    assert_eq!(approve(&mut l, alice, bob, 100, 2), Ok(1));
    assert_eq!(l.balance_of(&alice), 990);
    assert_eq!(l.allowance(&alice, &bob), 110);
    assert_eq!(transfer_from(&mut l, bob, alice, carol, 100, 3), Ok(2));
    assert_eq!(l.balance_of(&alice), 880);
    assert_eq!(l.allowance(&alice, &bob), 10);
    assert_eq!(l.balance_of(&carol), 100);
    assert_eq!(l.balance_of(&collector), 20);
}

#[test]
fn supply_is_conserved_by_holder_operations() {
    let (alice, bob, carol, collector) = (acct(1), acct(2), acct(3), acct(4));
    let mut l = ledger_with_fee(Some(7), Some(collector));
    l.mint(alice, 500);
    l.mint(bob, 300);
    assert_eq!(l.total_supply(), 800);
    transfer(&mut l, alice, carol, 120, 2).unwrap();
    approve(&mut l, carol, bob, 50, 3).unwrap();
    transfer_from(&mut l, bob, carol, alice, 40, 4).unwrap();
    assert!(transfer(&mut l, bob, alice, 1_000, 5).is_err());
    transfer(&mut l, bob, bob, 10, 6).unwrap();
    assert_eq!(l.total_supply(), 800);
    assert_eq!(l.balance_of(&collector), 28);
}

#[test]
fn insufficient_balance_is_rejected_without_effect() {
    let (alice, bob) = (acct(1), acct(2));
    let mut l = ledger_with_fee(Some(10), Some(acct(4)));
    l.mint(alice, 100);
    assert_eq!(transfer(&mut l, alice, bob, 91, 2), Err(TokenError::InsufficientBalance));
    assert_eq!(l.balance_of(&alice), 100);
    assert_eq!(l.balance_of(&bob), 0);
    assert_eq!(l.tx_count(), 0);
    assert_eq!(transfer(&mut l, alice, bob, 90, 3), Ok(1));
    assert_eq!(l.balance_of(&alice), 0);
    assert_eq!(l.balance_of(&bob), 90);
    assert_eq!(l.balances_count(), 2);
    assert_eq!(transfer(&mut l, alice, bob, u128::MAX, 4), Err(TokenError::InsufficientBalance));
}

#[test]
fn approve_needs_the_fee() {
    let (alice, bob) = (acct(1), acct(2));
    let mut l = ledger_with_fee(Some(10), Some(acct(4)));
    l.mint(alice, 9);
    assert_eq!(approve(&mut l, alice, bob, 5, 2), Err(TokenError::InsufficientBalance));
    assert_eq!(l.allowance(&alice, &bob), 0);
    assert_eq!(l.balance_of(&alice), 9);
}

#[test]
fn approve_out_of_range_is_other() {
    let (alice, bob) = (acct(1), acct(2));
    let mut l = ledger_with_fee(Some(10), Some(acct(4)));
    l.mint(alice, 50);
    assert!(matches!(approve(&mut l, alice, bob, u128::MAX, 2), Err(TokenError::Other(_))));
    assert_eq!(l.balance_of(&alice), 50);
}

#[test]
fn transfer_from_checks_allowance_then_balance() {
    let (alice, bob, carol) = (acct(1), acct(2), acct(3));
    let mut l = ledger_with_fee(Some(10), Some(acct(4)));
    l.mint(alice, 100);
    approve(&mut l, alice, bob, 50, 2).unwrap();
    assert_eq!(
        transfer_from(&mut l, bob, alice, carol, 51, 3),
        Err(TokenError::InsufficientAllowance)
    );
    approve(&mut l, alice, bob, 200, 4).unwrap();
    assert_eq!(l.balance_of(&alice), 80);
    assert_eq!(
        transfer_from(&mut l, bob, alice, carol, 75, 5),
        Err(TokenError::InsufficientBalance)
    );
    assert_eq!(l.allowance(&alice, &bob), 210);
    assert_eq!(transfer_from(&mut l, bob, alice, carol, 70, 6), Ok(3));
    assert_eq!(l.balance_of(&alice), 0);
    assert_eq!(l.allowance(&alice, &bob), 140);
}

#[test]
fn approving_nothing_clears_the_allowance() {
    let (alice, bob) = (acct(1), acct(2));
    let mut l = ledger_with_fee(Some(10), Some(acct(4)));
    l.mint(alice, 100);
    approve(&mut l, alice, bob, 30, 2).unwrap();
    assert_eq!(l.allowance(&alice, &bob), 40);
    approve(&mut l, alice, bob, 0, 3).unwrap();
    assert_eq!(l.allowance(&alice, &bob), 0);
    assert_eq!(l.balance_of(&alice), 80);
}

#[test]
fn grant_of_the_fee_clears_and_other_amounts_set() {
    let (alice, bob) = (acct(1), acct(2));
    let mut l = ledger_with_fee(Some(10), None);
    l.grant_allowance(&alice, &bob, 25);
    assert_eq!(l.allowance(&alice, &bob), 25);
    l.grant_allowance(&alice, &bob, 12);
    assert_eq!(l.allowance(&alice, &bob), 12);
    l.grant_allowance(&alice, &bob, 10);
    assert_eq!(l.allowance(&alice, &bob), 0);
}

#[test]
fn no_fee_collector_means_no_charge() {
    let (alice, bob) = (acct(1), acct(2));
    let mut l = ledger_with_fee(Some(10), None);
    l.mint(alice, 10);
    assert_eq!(transfer(&mut l, alice, bob, 1, 2), Err(TokenError::InsufficientBalance));
    assert_eq!(transfer(&mut l, alice, bob, 0, 3), Ok(1));
    assert_eq!(l.balance_of(&alice), 10);
}

#[test]
fn self_transfer_keeps_balance_and_pays_fee() {
    let (alice, collector) = (acct(1), acct(4));
    let mut l = ledger_with_fee(Some(5), Some(collector));
    l.mint(alice, 100);
    transfer(&mut l, alice, alice, 60, 2).unwrap();
    assert_eq!(l.balance_of(&alice), 95);
    assert_eq!(l.balance_of(&collector), 5);
}

#[test]
fn ledger_transfer_removes_emptied_rows() {
    let (alice, bob) = (acct(1), acct(2));
    let mut l = Ledger::new();
    l.mint(alice, 40);
    assert_eq!(l.balances_count(), 1);
    assert_eq!(l.transfer(&alice, &bob, 41), Err(TokenError::InsufficientBalance));
    assert_eq!(l.transfer(&alice, &bob, 40), Ok(()));
    assert_eq!(l.balances_count(), 1);
    assert_eq!(l.balance_of(&alice), 0);
    assert_eq!(l.balance_of(&bob), 40);
}

#[test]
fn transactions_are_one_based() {
    let (alice, bob) = (acct(1), acct(2));
    let mut l = ledger_with_fee(None, None);
    l.mint(alice, 10);
    transfer(&mut l, alice, bob, 3, 77).unwrap();
    let e = transaction(&l, 1).unwrap();
    assert_eq!(e.operation, "transfer");
    assert_eq!(e.caller, alice);
    assert_eq!(e.time, 77);
    assert_eq!(
        e.details,
        vec![
            ("from".to_string(), GenericValue::Principal(alice)),
            ("to".to_string(), GenericValue::Principal(bob)),
            ("amount".to_string(), GenericValue::NatContent(3)),
            ("fee".to_string(), GenericValue::NatContent(0)),
        ]
    );
    assert_eq!(transaction(&l, 0), Err(TokenError::TxNotFound));
    assert_eq!(transaction(&l, 2), Err(TokenError::TxNotFound));
    assert!(matches!(transaction(&l, u128::MAX), Err(TokenError::Other(_))));
}

#[test]
fn fee_defaults_to_zero() {
    let l = ledger_with_fee(None, None);
    assert_eq!(l.actual_fee(), 0);
    let l = ledger_with_fee(Some(3), None);
    assert_eq!(l.actual_fee(), 3);
}

#[test]
fn sufficiency_checks_compare_with_held_amounts() {
    let (alice, bob) = (acct(1), acct(2));
    let mut l = ledger_with_fee(None, None);
    l.mint(alice, 30);
    l.grant_allowance(&alice, &bob, 12);
    assert!(l.is_enough_balance_to_spend(&alice, 30));
    assert!(!l.is_enough_balance_to_spend(&alice, 31));
    assert!(l.is_enough_allowance_to_spend(&alice, &bob, 12));
    assert!(!l.is_enough_allowance_to_spend(&alice, &bob, 13));
    assert!(!l.is_enough_allowance_to_spend(&bob, &alice, 1));
}

#[test]
fn used_marks_can_be_set_and_released() {
    let mut l = Ledger::new();
    assert!(!l.is_block_used(&5));
    l.set_block_used(5);
    assert!(l.is_block_used(&5));
    l.revert_block_used(&5);
    assert!(!l.is_block_used(&5));
}

#[test]
fn approve_entry_records_amount_with_fee() {
    let (alice, bob) = (acct(1), acct(2));
    let mut l = ledger_with_fee(Some(10), Some(acct(4)));
    l.mint(alice, 100);
    approve(&mut l, alice, bob, 25, 2).unwrap();
    let e = transaction(&l, 1).unwrap();
    assert_eq!(e.operation, "approve");
    assert_eq!(
        e.details,
        vec![
            ("owner".to_string(), GenericValue::Principal(alice)),
            ("spender".to_string(), GenericValue::Principal(bob)),
            ("amount".to_string(), GenericValue::NatContent(35)),
            ("fee".to_string(), GenericValue::NatContent(10)),
        ]
    );
}
