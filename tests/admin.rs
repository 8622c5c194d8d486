use std::collections::HashSet;

use wicp_ledger::ledger::Ledger;
use wicp_ledger::{approve, Account, InitArgs, TokenError};

fn acct(n: u8) -> Account {
    Account::new(&[n]).unwrap()
}

#[test]
fn init_collects_custodians_and_settings() {
    let mut l = Ledger::new();
    let args = InitArgs {
        name: Some("Token".to_string()),
        logo: None,
        symbol: Some("TK".to_string()),
        decimals: Some(8),
        fee: Some(4),
        fee_to: Some(acct(9)),
        custodians: Some(vec![acct(2), acct(1), acct(3)]),
        cap: None,
    };
    l.init_metadata(acct(1), Some(args), 1234);
    let m = l.metadata();
    assert_eq!(m.custodians, vec![acct(1), acct(2), acct(3)]);
    assert_eq!(m.name, Some("Token".to_string()));
    assert_eq!(m.fee, Some(4));
    assert_eq!(m.created_at, 1234);
    assert_eq!(m.upgraded_at, 1234);
    assert_eq!(l.is_canister_custodian(&acct(3)), Ok(()));
    assert_eq!(l.is_canister_custodian(&acct(4)), Err(TokenError::Unauthorized));
}

#[test]
fn setters_are_for_custodians_only() {
    let mut l = Ledger::new();
    l.init_metadata(acct(1), None, 5);
    assert_eq!(l.set_fee(&acct(2), 50), Err(TokenError::Unauthorized));
    assert_eq!(l.metadata().fee, None);
    assert_eq!(l.set_fee(&acct(1), 50), Ok(()));
    assert_eq!(l.set_fee_to(&acct(1), acct(7)), Ok(()));
    assert_eq!(l.set_name(&acct(1), "N".to_string()), Ok(()));
    assert_eq!(l.set_custodians(&acct(1), vec![acct(2)]), Ok(()));
    assert_eq!(l.set_logo(&acct(3), "L".to_string()), Err(TokenError::Unauthorized));
    assert_eq!(l.set_logo(&acct(2), "L".to_string()), Ok(()));
    let m = l.metadata();
    assert_eq!(m.fee, Some(50));
    assert_eq!(m.fee_to, Some(acct(7)));
    assert_eq!(m.name, Some("N".to_string()));
    assert_eq!(m.logo, Some("L".to_string()));
}

#[test]
fn snapshot_restores_the_same_state() {
    let mut l = Ledger::new();
    l.init_metadata(acct(1), None, 5);
    l.mint(acct(1), 100);
    l.mint(acct(2), 7);
    approve(&mut l, acct(1), acct(2), 30, 6).unwrap();
    l.set_block_used(42);
    let r = Ledger::restore(
        l.metadata().clone(),
        &l.balance_entries(),
        &l.allowance_entries(),
        l.used_blocks().clone(),
        l.tx_records().clone(),
        l.in_flight_amount(),
        l.initializing_account(),
    );
    let mut back = r.unwrap();
    assert_eq!(back.balance_of(&acct(1)), 100);
    assert_eq!(back.balance_of(&acct(2)), 7);
    assert_eq!(back.allowance(&acct(1), &acct(2)), 30);
    assert!(back.is_block_used(&42));
    assert_eq!(back.tx_count(), 1);
    assert_eq!(back.total_supply(), 107);
    back.mark_upgraded(99);
    assert_eq!(back.metadata().upgraded_at, 99);
    assert_eq!(back.metadata().created_at, 5);
}

#[test]
fn restore_refuses_repeated_accounts_and_overflow() {
    let m = Ledger::new().metadata().clone();
    let dup = vec![(acct(1), 5u128), (acct(1), 6u128)];
    assert!(Ledger::restore(m.clone(), &dup, &vec![], HashSet::new(), vec![], 0, None).is_none());
    let zero = vec![(acct(1), 0u128)];
    assert!(Ledger::restore(m.clone(), &zero, &vec![], HashSet::new(), vec![], 0, None).is_none());
    let big = vec![(acct(1), u128::MAX), (acct(2), 1u128)];
    assert!(Ledger::restore(m.clone(), &big, &vec![], HashSet::new(), vec![], 0, None).is_none());
    let empty_book = vec![(acct(1), vec![])];
    assert!(Ledger::restore(m.clone(), &vec![], &empty_book, HashSet::new(), vec![], 0, None).is_none());
    let ok = vec![(acct(1), u128::MAX - 3)];
    assert!(Ledger::restore(m.clone(), &ok, &vec![], HashSet::new(), vec![], 3, None).is_some());
    assert!(Ledger::restore(m, &ok, &vec![], HashSet::new(), vec![], 4, None).is_none());
}

#[test]
fn init_without_arguments_leaves_settings_empty() {
    let mut l = Ledger::new();
    l.init_metadata(acct(1), None, 8);
    let m = l.metadata();
    assert_eq!(m.name, None);
    assert_eq!(m.logo, None);
    assert_eq!(m.symbol, None);
    assert_eq!(m.decimals, None);
    assert_eq!(m.fee, None);
    assert_eq!(m.fee_to, None);
    assert_eq!(m.cap, None);
    assert_eq!(m.custodians, vec![acct(1)]);
    assert_eq!(l.initializing_account(), Some(acct(1)));
}

#[test]
fn the_initialising_custodian_is_kept() {
    let mut l = Ledger::new();
    l.init_metadata(acct(1), None, 8);
    assert_eq!(l.set_custodians(&acct(1), vec![acct(2), acct(3)]), Ok(()));
    assert_eq!(l.metadata().custodians, vec![acct(2), acct(3), acct(1)]);
    assert_eq!(l.is_canister_custodian(&acct(1)), Ok(()));
    let m = l.metadata().clone();
    assert!(Ledger::restore(m, &vec![], &vec![], HashSet::new(), vec![], 0, Some(acct(9))).is_none());
}
