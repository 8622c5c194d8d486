//! The operations that holders call: approve, transfer and transferFrom,
//! and reading the log by reference.
use vstd::prelude::*;

use crate::account::Account;
use crate::ledger::{move_delta, Ledger};
use crate::types::{GenericValue, TokenError, TxEvent};

verus! {

/// `post` is `pre` with one more entry, made by `caller` at `now` for the
/// operation named `operation`.
pub open spec fn appended(
    pre: Seq<TxEvent>,
    post: Seq<TxEvent>,
    caller: Account,
    operation: Seq<char>,
    now: u64,
) -> bool {
    &&& post.len() == pre.len() + 1
    &&& post.drop_last() == pre
    &&& post.last().caller == caller
    &&& post.last().operation@ == operation
    &&& post.last().time == now
}

/// `d` is the detail named `key`, holding `v`.
pub open spec fn detail(d: (String, GenericValue), key: Seq<char>, v: GenericValue) -> bool {
    d.0@ == key && d.1 == v
}

/// The details of a log entry that moved `amount` from `from` to `to`, for `fee`.
pub open spec fn transfer_details(e: TxEvent, from: Account, to: Account, amount: u128, fee: u128) -> bool {
    &&& e.details@.len() == 4
    &&& detail(e.details@[0], "from"@, GenericValue::Principal(from))
    &&& detail(e.details@[1], "to"@, GenericValue::Principal(to))
    &&& detail(e.details@[2], "amount"@, GenericValue::NatContent(amount))
    &&& detail(e.details@[3], "fee"@, GenericValue::NatContent(fee))
}

/// The details of a log entry that let `spender` spend `amount` (fee
/// included) of `owner`'s balance, for `fee`.
pub open spec fn approve_details(e: TxEvent, owner: Account, spender: Account, amount: u128, fee: u128) -> bool {
    &&& e.details@.len() == 4
    &&& detail(e.details@[0], "owner"@, GenericValue::Principal(owner))
    &&& detail(e.details@[1], "spender"@, GenericValue::Principal(spender))
    &&& detail(e.details@[2], "amount"@, GenericValue::NatContent(amount))
    &&& detail(e.details@[3], "fee"@, GenericValue::NatContent(fee))
}

/// The details of a log entry that credited or debited `amount` for `to`.
pub open spec fn holder_details(e: TxEvent, to: Account, amount: u128) -> bool {
    &&& e.details@.len() == 2
    &&& detail(e.details@[0], "to"@, GenericValue::Principal(to))
    &&& detail(e.details@[1], "amount"@, GenericValue::NatContent(amount))
}

/// The allowance that approving `amount` records: the amount together with
/// the fee in force, which a later transferFrom will need.
pub open spec fn approved_amount(l: &Ledger, amount: nat) -> nat {
    if amount + l.fee() == l.fee() {
        0
    } else {
        amount + l.fee()
    }
}

/// What approving `amount` for `spender` on behalf of `caller` does.
pub open spec fn approve_post(
    pre: &Ledger,
    post: &Ledger,
    caller: Account,
    spender: Account,
    amount: u128,
    now: u64,
    r: Result<usize, TokenError>,
) -> bool {
    &&& post.wf()
    &&& pre.balance(caller) < pre.fee() ==> r == Err::<usize, TokenError>(
        TokenError::InsufficientBalance,
    )
    &&& pre.balance(caller) >= pre.fee() && amount + pre.fee() > u128::MAX ==> (r matches Err(
        TokenError::Other(_),
    ))
    &&& r is Ok <==> pre.balance(caller) >= pre.fee() && amount + pre.fee() <= u128::MAX
    &&& r is Err ==> *post == *pre
    &&& r is Ok ==> {
        &&& forall|a: Account| #[trigger] post.balance(a) == pre.balance_after_fee(caller, a)
        &&& post.allowance_of(caller, spender) == approved_amount(pre, amount as nat)
        &&& forall|a: Account, b: Account|
            (a, b) != (caller, spender) ==> #[trigger] post.allowance_of(a, b)
                == pre.allowance_of(a, b)
        &&& appended(pre.log(), post.log(), caller, "approve"@, now)
        &&& approve_details(post.log().last(), caller, spender, (amount + pre.fee()) as u128, pre.fee() as u128)
        &&& r == Ok::<usize, TokenError>(post.log().len() as usize)
    }
    &&& post.supply() == pre.supply()
    &&& post.meta() == pre.meta()
    &&& post.used() == pre.used()
    &&& post.in_flight() == pre.in_flight()
}

/// Lets `spender` spend `amount` of `caller`'s balance, plus the fee of the
/// later transferFrom. The caller pays the fee in force and must hold at
/// least that fee. Returns the reference of the new log entry.
pub fn approve(ledger: &mut Ledger, caller: Account, spender: Account, amount: u128, now: u64)
    -> (r: Result<usize, TokenError>)
    requires
        old(ledger).wf(),
    ensures
        approve_post(&*old(ledger), &*final(ledger), caller, spender, amount, now, r),
{
    let fee = ledger.actual_fee();
    if !ledger.is_enough_balance_to_spend(&caller, fee) {
        return Err(TokenError::InsufficientBalance);
    }
    if amount > u128::MAX - fee {
        return Err(TokenError::Other("approved amount out of range".to_owned()));
    }
    let charged = ledger.charge_fee(&caller);
    assert(charged is Ok);
    let approved = amount + fee;
    ledger.grant_allowance(&caller, &spender, approved);
    let details = vec![
        ("owner".to_owned(), GenericValue::Principal(caller)),
        ("spender".to_owned(), GenericValue::Principal(spender)),
        ("amount".to_owned(), GenericValue::NatContent(approved)),
        ("fee".to_owned(), GenericValue::NatContent(fee)),
    ];
    proof {
        reveal_strlit("approve");
    }
    let n = ledger.add_tx(caller, "approve".to_owned(), details, now);
    assert(ledger.log().drop_last() =~= old(ledger).log());
    Ok(n)
}

/// What `caller` transferring `amount` to `to` does.
pub open spec fn transfer_post(
    pre: &Ledger,
    post: &Ledger,
    caller: Account,
    to: Account,
    amount: u128,
    now: u64,
    r: Result<usize, TokenError>,
) -> bool {
    &&& post.wf()
    &&& r is Err <==> pre.balance(caller) < amount + pre.fee()
    &&& r is Err ==> r == Err::<usize, TokenError>(TokenError::InsufficientBalance) && *post
        == *pre
    &&& r is Ok ==> {
        &&& forall|a: Account| #[trigger] post.balance(a) == pre.balance_after_fee(caller, a)
            + move_delta(caller, to, amount as nat, a)
        &&& appended(pre.log(), post.log(), caller, "transfer"@, now)
        &&& transfer_details(post.log().last(), caller, to, amount, pre.fee() as u128)
        &&& r == Ok::<usize, TokenError>(post.log().len() as usize)
    }
    &&& post.supply() == pre.supply()
    &&& post.same_allowances(pre)
    &&& post.meta() == pre.meta()
    &&& post.used() == pre.used()
    &&& post.in_flight() == pre.in_flight()
}

/// Moves `amount` from the caller to `to`; the caller pays the fee in force
/// and must hold `amount` plus that fee. Returns the reference of the new
/// log entry.
pub fn transfer(ledger: &mut Ledger, caller: Account, to: Account, amount: u128, now: u64)
    -> (r: Result<usize, TokenError>)
    requires
        old(ledger).wf(),
    ensures
        transfer_post(&*old(ledger), &*final(ledger), caller, to, amount, now, r),
{
    let fee = ledger.actual_fee();
    let balance = ledger.balance_of(&caller);
    if amount > balance || balance - amount < fee {
        return Err(TokenError::InsufficientBalance);
    }
    let charged = ledger.charge_fee(&caller);
    assert(charged is Ok);
    assert(ledger.balance(caller) >= amount) by {
        assert(ledger.balance(caller) == old(ledger).balance_after_fee(caller, caller));
    }
    let moved = ledger.transfer(&caller, &to, amount);
    assert(moved is Ok);
    let details = vec![
        ("from".to_owned(), GenericValue::Principal(caller)),
        ("to".to_owned(), GenericValue::Principal(to)),
        ("amount".to_owned(), GenericValue::NatContent(amount)),
        ("fee".to_owned(), GenericValue::NatContent(fee)),
    ];
    proof {
        reveal_strlit("transfer");
    }
    let n = ledger.add_tx(caller, "transfer".to_owned(), details, now);
    assert(ledger.log().drop_last() =~= old(ledger).log());
    Ok(n)
}

/// What `caller` moving `amount` from `from` to `to` under an allowance does.
pub open spec fn transfer_from_post(
    pre: &Ledger,
    post: &Ledger,
    caller: Account,
    from: Account,
    to: Account,
    amount: u128,
    now: u64,
    r: Result<usize, TokenError>,
) -> bool {
    &&& post.wf()
    &&& pre.allowance_of(from, caller) < amount + pre.fee() ==> r == Err::<usize, TokenError>(
        TokenError::InsufficientAllowance,
    )
    &&& pre.allowance_of(from, caller) >= amount + pre.fee() && pre.balance(from) < amount
        + pre.fee() ==> r == Err::<usize, TokenError>(TokenError::InsufficientBalance)
    &&& r is Ok <==> pre.allowance_of(from, caller) >= amount + pre.fee() && pre.balance(from)
        >= amount + pre.fee()
    &&& r is Err ==> *post == *pre
    &&& r is Ok ==> {
        &&& forall|a: Account| #[trigger] post.balance(a) == pre.balance_after_fee(from, a)
            + move_delta(from, to, amount as nat, a)
        &&& post.allowance_of(from, caller) == pre.allowance_of(from, caller) - amount
        &&& forall|a: Account, b: Account|
            (a, b) != (from, caller) ==> #[trigger] post.allowance_of(a, b) == pre.allowance_of(
                a,
                b,
            )
        &&& appended(pre.log(), post.log(), caller, "transferFrom"@, now)
        &&& transfer_details(post.log().last(), from, to, amount, pre.fee() as u128)
        &&& r == Ok::<usize, TokenError>(post.log().len() as usize)
    }
    &&& post.supply() == pre.supply()
    &&& post.meta() == pre.meta()
    &&& post.used() == pre.used()
    &&& post.in_flight() == pre.in_flight()
}

/// Lets the caller, as spender, move `amount` from `from` to `to` out of
/// what `from` approved. `from` pays the fee in force; the allowance must
/// cover `amount` plus the fee, and `from` must hold as much. The allowance
/// falls by `amount`: the fee was reserved in it when it was approved.
/// Returns the reference of the new log entry.
pub fn transfer_from(
    ledger: &mut Ledger,
    caller: Account,
    from: Account,
    to: Account,
    amount: u128,
    now: u64,
) -> (r: Result<usize, TokenError>)
    requires
        old(ledger).wf(),
    ensures
        transfer_from_post(&*old(ledger), &*final(ledger), caller, from, to, amount, now, r),
{
    let fee = ledger.actual_fee();
    let allowed = ledger.allowance(&from, &caller);
    if amount > allowed || allowed - amount < fee {
        return Err(TokenError::InsufficientAllowance);
    }
    let balance = ledger.balance_of(&from);
    if amount > balance || balance - amount < fee {
        return Err(TokenError::InsufficientBalance);
    }
    let charged = ledger.charge_fee(&from);
    assert(charged is Ok);
    assert(ledger.balance(from) >= amount) by {
        assert(ledger.balance(from) == old(ledger).balance_after_fee(from, from));
    }
    let moved = ledger.transfer(&from, &to, amount);
    assert(moved is Ok);
    ledger.spend_allowance(&from, &caller, amount);
    let details = vec![
        ("from".to_owned(), GenericValue::Principal(from)),
        ("to".to_owned(), GenericValue::Principal(to)),
        ("amount".to_owned(), GenericValue::NatContent(amount)),
        ("fee".to_owned(), GenericValue::NatContent(fee)),
    ];
    proof {
        reveal_strlit("transferFrom");
    }
    let n = ledger.add_tx(caller, "transferFrom".to_owned(), details, now);
    assert(ledger.log().drop_last() =~= old(ledger).log());
    Ok(n)
}

/// The log entry with 1-based reference `index`: `TxNotFound` when there is
/// none, and `Other` when `index` is past what a position can hold.
pub fn transaction(ledger: &Ledger, index: u128) -> (r: Result<&TxEvent, TokenError>)
    ensures
        index > usize::MAX ==> r matches Err(TokenError::Other(_)),
        index <= usize::MAX && (index == 0 || index > ledger.log().len()) ==> r == Err::<
            &TxEvent,
            TokenError,
        >(TokenError::TxNotFound),
        1 <= index <= ledger.log().len() ==> r == Ok::<&TxEvent, TokenError>(
            &ledger.log()[index - 1],
        ),
{
    let count = ledger.tx_count();
    if index > usize::MAX as u128 {
        return Err(TokenError::Other("failed to cast usize from nat".to_owned()));
    }
    let i = index as usize;
    if i == 0 || i > count {
        return Err(TokenError::TxNotFound);
    }
    match ledger.get_tx(i - 1) {
        Some(e) => Ok(e),
        None => Err(TokenError::TxNotFound),
    }
}

} // verus!
