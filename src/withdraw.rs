//! Burning tokens and sending their backing value out to the outside ledger.
//!
//! [`begin_withdraw`] debits the caller before the outside transfer is
//! attempted, so that no concurrent withdrawal can spend the same balance;
//! [`finish_withdraw`] then records the burn, or gives the whole amount back
//! when the transfer failed.
use vstd::prelude::*;

use crate::account::Account;
use crate::ledger::Ledger;
use crate::ops::{appended, holder_details};
use crate::types::{GenericValue, TokenError};

verus! {

/// The least amount, in base units of the outside ledger, that is withdrawn
/// by default: a placeholder floor.
pub const WITHDRAW_THRESHOLD: u64 = 0;

/// The outside transfer that a withdrawal asks for: `amount` is sent and
/// `fee` paid, both out of the `withdrawn` amount.
#[derive(Clone, Copy, Debug, PartialEq, Eq)]
pub struct ForwardTransfer {
    pub amount: u64,
    pub fee: u64,
    pub withdrawn: u64,
}

/// The error, if any, that withdrawing `amount` for `caller` meets on `pre`
/// when the least withdrawal is `min_amount`, in the order the checks are
/// made. `None` inside stands for an amount that the outside unit cannot
/// express.
pub open spec fn withdraw_refusal(pre: &Ledger, caller: Account, amount: nat, min_amount: u64) -> Option<
    Option<TokenError>,
> {
    if amount > u64::MAX {
        Some(None)
    } else if amount < min_amount {
        Some(Some(TokenError::AmountTooSmall))
    } else if pre.balance(caller) < amount || pre.supply() < amount {
        Some(Some(TokenError::InsufficientBalance))
    } else {
        None
    }
}

/// What starting a withdrawal of `amount` for `caller` does, with `min_amount`
/// the least withdrawal and `outside_fee` the outside ledger's transfer fee.
pub open spec fn begin_withdraw_post(
    pre: &Ledger,
    post: &Ledger,
    caller: Account,
    amount: nat,
    min_amount: u64,
    outside_fee: u64,
    r: Result<Option<ForwardTransfer>, TokenError>,
) -> bool {
    &&& post.wf()
    &&& match withdraw_refusal(pre, caller, amount, min_amount) {
        Some(e) => {
            &&& match e {
                Some(err) => r == Err::<Option<ForwardTransfer>, TokenError>(err),
                None => r matches Err(TokenError::Other(_)),
            }
            &&& *post == *pre
        },
        None => {
            &&& r == Ok::<Option<ForwardTransfer>, TokenError>(
                if amount >= outside_fee {
                    Some(
                        ForwardTransfer {
                            amount: (amount - outside_fee) as u64,
                            fee: outside_fee,
                            withdrawn: amount as u64,
                        },
                    )
                } else {
                    None
                },
            )
            &&& post.balance(caller) == pre.balance(caller) - amount
            &&& forall|a: Account| a != caller ==> #[trigger] post.balance(a) == pre.balance(a)
            &&& post.supply() == pre.supply() - amount
            &&& post.in_flight() == pre.in_flight() + amount
            &&& post.same_allowances(pre)
            &&& post.used() == pre.used()
            &&& post.log() == pre.log()
            &&& post.meta() == pre.meta()
        },
    }
}

/// What settling a withdrawal of `amount` for `caller` does, once the outside
/// transfer was `delivered` or not.
pub open spec fn finish_withdraw_post(
    pre: &Ledger,
    post: &Ledger,
    caller: Account,
    amount: nat,
    delivered: bool,
    now: u64,
    r: Result<usize, TokenError>,
) -> bool {
    &&& post.wf()
    &&& post.in_flight() == pre.in_flight() - amount
    &&& post.same_allowances(pre)
    &&& post.used() == pre.used()
    &&& post.meta() == pre.meta()
    &&& if delivered {
        &&& post.same_balances(pre)
        &&& appended(pre.log(), post.log(), caller, "burn"@, now)
        &&& holder_details(post.log().last(), caller, amount as u128)
        &&& r == Ok::<usize, TokenError>(post.log().len() as usize)
    } else {
        &&& post.balance(caller) == pre.balance(caller) + amount
        &&& forall|a: Account| a != caller ==> #[trigger] post.balance(a) == pre.balance(a)
        &&& post.supply() == pre.supply() + amount
        &&& post.log() == pre.log()
        &&& r == Err::<usize, TokenError>(TokenError::LedgerTrap)
    }
}

/// Starts withdrawing `amount` for `caller`: checks that the outside unit can
/// express it and that it is at least `min_amount`, that the caller and the
/// supply hold it, then debits the caller and keeps the amount as unsettled.
/// Returns the outside transfer to make, paying the outside ledger's
/// `outside_fee` out of the amount, or none when the amount cannot pay that
/// fee: no transfer can be made, and the withdrawal is to be settled as
/// failed.
pub fn begin_withdraw(
    ledger: &mut Ledger,
    caller: Account,
    amount: u128,
    min_amount: u64,
    outside_fee: u64,
) -> (r: Result<Option<ForwardTransfer>, TokenError>)
    requires
        old(ledger).wf(),
    ensures
        begin_withdraw_post(&*old(ledger), &*final(ledger), caller, amount as nat, min_amount, outside_fee, r),
{
    if amount > u64::MAX as u128 {
        return Err(TokenError::Other("failed to cast usize from nat".to_owned()));
    }
    let amount_e8s = amount as u64;
    if amount_e8s < min_amount {
        return Err(TokenError::AmountTooSmall);
    }
    if ledger.balance_of(&caller) < amount {
        return Err(TokenError::InsufficientBalance);
    }
    if ledger.total_supply() < amount {
        return Err(TokenError::InsufficientBalance);
    }
    ledger.withdraw(caller, amount);
    if amount_e8s < outside_fee {
        return Ok(None);
    }
    Ok(
        Some(
            ForwardTransfer {
                amount: amount_e8s - outside_fee,
                fee: outside_fee,
                withdrawn: amount_e8s,
            },
        ),
    )
}

/// Settles a withdrawal of `amount` started for `caller`. When the outside
/// transfer was `delivered` the burn is logged and its reference returned;
/// otherwise the whole amount is credited back and `LedgerTrap` returned.
pub fn finish_withdraw(
    ledger: &mut Ledger,
    caller: Account,
    amount: u128,
    delivered: bool,
    now: u64,
) -> (r: Result<usize, TokenError>)
    requires
        old(ledger).wf(),
        old(ledger).in_flight() >= amount,
    ensures
        finish_withdraw_post(&*old(ledger), &*final(ledger), caller, amount as nat, delivered, now, r),
{
    proof {
        ledger.lemma_capacity();
    }
    ledger.settle_withdrawal(amount);
    if !delivered {
        ledger.mint(caller, amount);
        return Err(TokenError::LedgerTrap);
    }
    let details = vec![
        ("to".to_owned(), GenericValue::Principal(caller)),
        ("amount".to_owned(), GenericValue::NatContent(amount)),
    ];
    let n = ledger.add_tx(caller, "burn".to_owned(), details, now);
    assert(ledger.log().drop_last() =~= old(ledger).log());
    Ok(n)
}

} // verus!
