//! Properties that hold across calls, proved from the operations' contracts.
use vstd::prelude::*;

use crate::account::Account;
use crate::ledger::{book_amount, books_valid, entries_valid, Ledger};
use crate::table::{amount_in, sum_in};
use crate::mint::mint_post;
use crate::ops::{approve_post, transfer_from_post, transfer_post};
use crate::types::TokenError;
use crate::withdraw::{begin_withdraw_post, finish_withdraw_post};

verus! {

/// One approve, transfer or transferFrom, with any caller, arguments and
/// outcome, took the ledger from `pre` to `post`.
pub open spec fn holder_step(pre: &Ledger, post: &Ledger) -> bool {
    exists|c: Account, x: Account, y: Account, amount: u128, now: u64, r: Result<usize, TokenError>|
        #![trigger approve_post(pre, post, c, x, amount, now, r), transfer_from_post(pre, post, c, x, y, amount, now, r)]
        approve_post(pre, post, c, x, amount, now, r) || transfer_post(
            pre,
            post,
            c,
            x,
            amount,
            now,
            r,
        ) || transfer_from_post(pre, post, c, x, y, amount, now, r)
}

/// Along any run of approvals, transfers and transferFroms, the total supply
/// at the end equals the total supply at the start.
pub proof fn lemma_supply_conserved(states: Seq<Ledger>)
    requires
        states.len() >= 1,
        forall|i: int| 0 <= i < states.len() - 1 ==> #[trigger] holder_step(&states[i], &states[i + 1]),
    ensures
        states.last().supply() == states[0].supply(),
    decreases states.len(),
{
    if states.len() > 1 {
        let prefix = states.drop_last();
        assert forall|i: int| 0 <= i < prefix.len() - 1 implies #[trigger] holder_step(
            &prefix[i],
            &prefix[i + 1],
        ) by {
            assert(prefix[i] == states[i] && prefix[i + 1] == states[i + 1]);
            assert(holder_step(&states[i], &states[i + 1]));
        }
        lemma_supply_conserved(prefix);
        let k = states.len() - 2;
        assert(holder_step(&states[k], &states[k + 1]));
        assert(prefix.last() == states[k]);
    }
}

/// A payment that the payer's balance does not cover is refused and changes
/// nothing; a payment that succeeds was covered. Balances are never clamped.
pub proof fn lemma_insufficiency_rejected(
    pre: &Ledger,
    post: &Ledger,
    caller: Account,
    x: Account,
    y: Account,
    amount: u128,
    now: u64,
    r: Result<usize, TokenError>,
)
    ensures
        transfer_post(pre, post, caller, x, amount, now, r) ==> {
            &&& pre.balance(caller) < amount + pre.fee() ==> r == Err::<usize, TokenError>(
                TokenError::InsufficientBalance,
            ) && *post == *pre
            &&& r is Ok ==> pre.balance(caller) >= amount + pre.fee()
        },
        transfer_from_post(pre, post, caller, x, y, amount, now, r) ==> {
            &&& pre.balance(x) < amount + pre.fee() ==> r is Err && *post == *pre
            &&& r is Ok ==> pre.balance(x) >= amount + pre.fee() && pre.allowance_of(x, caller)
                >= amount + pre.fee()
        },
        approve_post(pre, post, caller, x, amount, now, r) ==> {
            &&& pre.balance(caller) < pre.fee() ==> r == Err::<usize, TokenError>(
                TokenError::InsufficientBalance,
            ) && *post == *pre
            &&& r is Ok ==> pre.balance(caller) >= pre.fee()
        },
{
}

/// An approval whose recorded allowance would equal the fee in force (an
/// approval of nothing) removes the allowance instead of recording it; any
/// other approval records the amount together with the fee.
pub proof fn lemma_fee_sized_approval_clears(
    pre: &Ledger,
    post: &Ledger,
    caller: Account,
    spender: Account,
    amount: u128,
    now: u64,
    r: Result<usize, TokenError>,
)
    requires
        approve_post(pre, post, caller, spender, amount, now, r),
        r is Ok,
    ensures
        amount == 0 ==> post.allowance_of(caller, spender) == 0,
        amount > 0 ==> post.allowance_of(caller, spender) == amount + pre.fee(),
{
}

/// Once a deposit was minted, minting it again, by anyone and with any
/// record, is refused with `BlockUsed` and leaves every balance unchanged.
pub proof fn lemma_mint_at_most_once(
    l0: &Ledger,
    l1: &Ledger,
    l2: &Ledger,
    block_height: u64,
    first: (Account, Seq<u8>, Seq<u8>, crate::mint::DepositRecord, u64, u64),
    second: (Account, Seq<u8>, Seq<u8>, crate::mint::DepositRecord, u64, u64),
    r1: Result<usize, TokenError>,
    r2: Result<usize, TokenError>,
)
    requires
        mint_post(l0, l1, first.0, first.1, first.2, block_height, first.3, first.4, first.5, r1),
        r1 is Ok,
        mint_post(l1, l2, second.0, second.1, second.2, block_height, second.3, second.4, second.5, r2),
    ensures
        r2 == Err::<usize, TokenError>(TokenError::BlockUsed),
        l2.same_balances(l1),
{
}

/// A mint refused after the deposit was claimed releases the claim: the
/// deposit is left unconsumed, as it was before the attempt.
pub proof fn lemma_mint_rollback(
    l0: &Ledger,
    l1: &Ledger,
    caller: Account,
    caller_id: Seq<u8>,
    own_id: Seq<u8>,
    block_height: u64,
    rec: crate::mint::DepositRecord,
    min_deposit: u64,
    now: u64,
    r: Result<usize, TokenError>,
)
    requires
        mint_post(l0, l1, caller, caller_id, own_id, block_height, rec, min_deposit, now, r),
        !l0.used().contains(block_height),
        r is Err,
    ensures
        !l1.used().contains(block_height),
        l1.same_balances(l0),
{
}

/// A withdrawal whose outside transfer fails gives the caller back exactly
/// the balance held before it, fails with `LedgerTrap` and logs no burn.
pub proof fn lemma_withdraw_compensated(
    l0: &Ledger,
    l1: &Ledger,
    l2: &Ledger,
    caller: Account,
    amount: nat,
    min_amount: u64,
    outside_fee: u64,
    now: u64,
    r1: Result<Option<crate::withdraw::ForwardTransfer>, TokenError>,
    r2: Result<usize, TokenError>,
)
    requires
        begin_withdraw_post(l0, l1, caller, amount, min_amount, outside_fee, r1),
        r1 is Ok,
        finish_withdraw_post(l1, l2, caller, amount, false, now, r2),
    ensures
        l2.balance(caller) == l0.balance(caller),
        forall|a: Account| #[trigger] l2.balance(a) == l0.balance(a),
        l2.supply() == l0.supply(),
        r2 == Err::<usize, TokenError>(TokenError::LedgerTrap),
        l2.log() == l0.log(),
        l2.in_flight() == l0.in_flight(),
{
    assert forall|a: Account| #[trigger] l2.balance(a) == l0.balance(a) by {
        if a != caller {
            assert(l1.balance(a) == l0.balance(a));
        }
    }
}

/// A snapshot of a well-formed ledger, as `balance_entries` and
/// `allowance_entries` describe it, always satisfies what `restore` asks;
/// and any ledger that `restore` builds from it holds the same balances,
/// supply and allowances as the ledger the snapshot was taken of.
pub proof fn lemma_snapshot_restores(
    l: &Ledger,
    balances: Seq<(Account, u128)>,
    allowances: Seq<(Account, Vec<(Account, u128)>)>,
    restored: &Ledger,
)
    requires
        l.wf(),
        entries_valid(balances),
        forall|a: Account| #[trigger] amount_in(balances, a) == l.balance(a),
        sum_in(balances) == l.supply(),
        books_valid(allowances),
        forall|o: Account, s: Account| #[trigger] book_amount(allowances, o, s) == l.allowance_of(o, s),
        forall|a: Account| #[trigger] restored.balance(a) == amount_in(balances, a),
        restored.supply() == sum_in(balances),
        forall|o: Account, s: Account| #[trigger] restored.allowance_of(o, s) == book_amount(
            allowances,
            o,
            s,
        ),
    ensures
        sum_in(balances) + l.in_flight() <= u128::MAX,
        l.init_account() matches Some(i) ==> l.meta().custodians@.contains(i),
        forall|a: Account| #[trigger] restored.balance(a) == l.balance(a),
        restored.supply() == l.supply(),
        restored.same_allowances(l),
{
    l.lemma_capacity();
    assert forall|a: Account| #[trigger] restored.balance(a) == l.balance(a) by {
        assert(amount_in(balances, a) == l.balance(a));
    }
    assert forall|o: Account, s: Account| #[trigger] restored.allowance_of(o, s) == l.allowance_of(o, s) by {
        assert(book_amount(allowances, o, s) == l.allowance_of(o, s));
    }
}

} // verus!
