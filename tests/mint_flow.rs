use wicp_ledger::{archive_step, complete_mint, mint_precheck, resolve_block, GenericValue, MINT_THRESHOLD};
use wicp_ledger::{Account, BlockReply, DepositOperation, DepositRecord, Ledger, LookupStep, TokenError};

const CALLER_ID: [u8; 4] = [9, 8, 7, 6];
const OWN_ID: [u8; 4] = [1, 2, 3, 4];

fn caller() -> Account {
    Account::new(&[5, 5]).unwrap()
}

fn record(from: &[u8], to: &[u8], amount: u64) -> DepositRecord {
    DepositRecord { from: from.to_vec(), to: to.to_vec(), amount }
}

#[test]
fn second_mint_of_a_deposit_is_refused() {
    let mut l = Ledger::new();
    let c = caller();
    assert_eq!(mint_precheck(&l, 42), Ok(()));
    let r = complete_mint(&mut l, c, &CALLER_ID, &OWN_ID, 42, record(&CALLER_ID, &OWN_ID, 500), MINT_THRESHOLD, 10);
    assert_eq!(r, Ok(1));
    assert_eq!(l.balance_of(&c), 500);
    assert!(l.is_block_used(&42));
    assert_eq!(mint_precheck(&l, 42), Err(TokenError::BlockUsed));
    let r = complete_mint(&mut l, c, &CALLER_ID, &OWN_ID, 42, record(&CALLER_ID, &OWN_ID, 500), MINT_THRESHOLD, 11);
    assert_eq!(r, Err(TokenError::BlockUsed));
    assert_eq!(l.balance_of(&c), 500);
    assert_eq!(l.tx_count(), 1);
    assert_eq!(l.tx_records()[0].operation, "mint");
}

#[test]
fn mint_by_someone_else_after_use_is_refused() {
    let mut l = Ledger::new();
    let other = Account::new(&[6]).unwrap();
    complete_mint(&mut l, caller(), &CALLER_ID, &OWN_ID, 7, record(&CALLER_ID, &OWN_ID, 5), MINT_THRESHOLD, 1).unwrap();
    let r = complete_mint(&mut l, other, &[6], &OWN_ID, 7, record(&[6], &OWN_ID, 5), MINT_THRESHOLD, 2);
    assert_eq!(r, Err(TokenError::BlockUsed));
    assert_eq!(l.balance_of(&other), 0);
}

#[test]
fn mint_to_wrong_destination_releases_the_claim() {
    let mut l = Ledger::new();
    let c = caller();
    let r = complete_mint(&mut l, c, &CALLER_ID, &OWN_ID, 42, record(&CALLER_ID, &[0, 0], 500), MINT_THRESHOLD, 1);
    assert_eq!(r, Err(TokenError::ErrorTo));
    assert!(!l.is_block_used(&42));
    assert_eq!(l.balance_of(&c), 0);
    assert_eq!(l.tx_count(), 0);
    let r = complete_mint(&mut l, c, &CALLER_ID, &OWN_ID, 42, record(&CALLER_ID, &OWN_ID, 500), MINT_THRESHOLD, 2);
    assert_eq!(r, Ok(1));
    assert_eq!(l.balance_of(&c), 500);
}

#[test]
fn mint_from_another_source_is_unauthorized() {
    let mut l = Ledger::new();
    let r = complete_mint(&mut l, caller(), &CALLER_ID, &OWN_ID, 3, record(&[1], &OWN_ID, 500), MINT_THRESHOLD, 1);
    assert_eq!(r, Err(TokenError::Unauthorized));
    assert!(!l.is_block_used(&3));
}

#[test]
fn resolve_accepts_transfers_only() {
    let rec = record(&CALLER_ID, &OWN_ID, 9);
    assert_eq!(
        resolve_block(BlockReply::Found(DepositOperation::Transfer(rec.clone())), false),
        LookupStep::Done(Ok(rec))
    );
    assert_eq!(
        resolve_block(BlockReply::Found(DepositOperation::NotTransfer), false),
        LookupStep::Done(Err(TokenError::ErrorOperationStyle))
    );
    assert_eq!(resolve_block(BlockReply::Failed, true), LookupStep::Done(Err(TokenError::BlockError)));
}

#[test]
fn resolve_follows_one_redirection() {
    let step = resolve_block(BlockReply::Archived("ryjl3-tyaaa-aaaaa-aaaba-cai".to_string()), false);
    let expected = Account::new(&[0, 0, 0, 0, 0, 0, 0, 2, 1, 1]).unwrap();
    assert_eq!(step, LookupStep::AskArchive(expected));
    let step = resolve_block(BlockReply::Archived("aaaaa-aa".to_string()), false);
    assert_eq!(step, LookupStep::AskArchive(Account::new(&[]).unwrap()));
    assert_eq!(
        resolve_block(BlockReply::Archived("ryjl3-tyaaa-aaaaa-aaaba-cai".to_string()), true),
        LookupStep::Done(Err(TokenError::BlockError))
    );
    assert_eq!(
        resolve_block(BlockReply::Archived("not a principal".to_string()), false),
        LookupStep::Done(Err(TokenError::BlockError))
    );
}

#[test]
fn archive_step_checks_length() {
    assert_eq!(archive_step(None), LookupStep::Done(Err(TokenError::BlockError)));
    assert_eq!(archive_step(Some(vec![7u8; 30])), LookupStep::Done(Err(TokenError::BlockError)));
    assert_eq!(
        archive_step(Some(vec![7u8; 29])),
        LookupStep::AskArchive(Account::new(&[7u8; 29]).unwrap())
    );
}

#[test]
fn account_identifiers_are_at_most_29_bytes() {
    assert!(Account::new(&[1u8; 30]).is_none());
    let a = Account::new(&[1, 2, 3]).unwrap();
    assert_eq!(a.to_vec(), vec![1, 2, 3]);
    assert_ne!(a, Account::new(&[1, 2, 3, 0]).unwrap());
}

#[test]
fn mint_below_the_minimum_releases_the_claim() {
    let mut l = Ledger::new();
    let c = caller();
    let r = complete_mint(&mut l, c, &CALLER_ID, &OWN_ID, 8, record(&CALLER_ID, &OWN_ID, 500), 600, 1);
    assert_eq!(r, Err(TokenError::AmountTooSmall));
    assert!(!l.is_block_used(&8));
    assert_eq!(l.balance_of(&c), 0);
    let r = complete_mint(&mut l, c, &CALLER_ID, &OWN_ID, 8, record(&CALLER_ID, &OWN_ID, 600), 600, 2);
    assert_eq!(r, Ok(1));
}

#[test]
fn mint_entry_records_recipient_and_amount() {
    let mut l = Ledger::new();
    let c = caller();
    complete_mint(&mut l, c, &CALLER_ID, &OWN_ID, 4, record(&CALLER_ID, &OWN_ID, 321), MINT_THRESHOLD, 3).unwrap();
    let e = &l.tx_records()[0];
    assert_eq!(
        e.details,
        vec![
            ("to".to_string(), GenericValue::Principal(c)),
            ("amount".to_string(), GenericValue::NatContent(321)),
        ]
    );
}
