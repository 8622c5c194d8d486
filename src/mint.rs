//! Issuing tokens against a deposit recorded on the outside ledger.
//!
//! The host looks the deposit record up (following one redirection to an
//! archive, as [`resolve_block`] decides), then hands it to
//! [`complete_mint`], which claims the record, checks it and credits the
//! caller, or releases the claim when a check fails.
use vstd::prelude::*;

use crate::account::Account;
use crate::ledger::Ledger;
use crate::ops::{appended, holder_details};
use crate::types::{GenericValue, TokenError};

verus! {

/// The least deposit, in base units of the outside ledger, that is minted by
/// default: a placeholder floor.
pub const MINT_THRESHOLD: u64 = 0;

/// A transfer recorded on the outside ledger: source and destination
/// account identifiers, and the amount in its base unit.
#[derive(Clone, Debug, PartialEq, Eq)]
pub struct DepositRecord {
    pub from: Vec<u8>,
    pub to: Vec<u8>,
    pub amount: u64,
}

/// The kind of a decoded record of the outside ledger.
#[derive(Clone, Debug, PartialEq, Eq)]
pub enum DepositOperation {
    Transfer(DepositRecord),
    /// A mint, a burn or any other kind of record.
    NotTransfer,
}

/// What a holder of outside records answered for one identifier.
#[derive(Clone, Debug, PartialEq, Eq)]
pub enum BlockReply {
    /// The decoded record.
    Found(DepositOperation),
    /// The holder no longer keeps the record; the text names the archive
    /// that does.
    Archived(String),
    /// The call failed, no record came back, or it could not be decoded.
    Failed,
}

/// What to do after a reply.
#[derive(Debug, PartialEq, Eq)]
pub enum LookupStep {
    /// The lookup is over, with this outcome.
    Done(Result<DepositRecord, TokenError>),
    /// Ask the given archive for the same identifier.
    AskArchive(Account),
}

/// The principal, as bytes, that a text spells, if it spells one.
pub uninterp spec fn principal_of_text(text: Seq<char>) -> Option<Seq<u8>>;

/// Relies on candid's `Principal::from_text`: the bytes of the principal
/// that `text` spells (a principal has at most 29 bytes), or none when the
/// text spells no principal.
#[verifier::external_body]
fn principal_from_text(text: &str) -> (r: Option<Vec<u8>>)
    ensures
        r is None <==> principal_of_text(text@) is None,
        r matches Some(b) ==> principal_of_text(text@) == Some(b@) && b@.len() <= 29,
{
    match candid::Principal::from_text(text) {
        Ok(p) => Some(p.as_slice().to_vec()),
        Err(_) => None,
    }
}

/// The step after a redirection whose archive name decoded to `decoded`.
pub fn archive_step(decoded: Option<Vec<u8>>) -> (r: LookupStep)
    ensures
        decoded is Some && decoded->0@.len() <= 29 ==> (r matches LookupStep::AskArchive(a)
            && a.id() == decoded->0@),
        decoded is Some && decoded->0@.len() > 29 ==> r == LookupStep::Done(
            Err(TokenError::BlockError),
        ),
        decoded is None ==> r == LookupStep::Done(Err(TokenError::BlockError)),
{
    match decoded {
        Some(bytes) => match Account::new(bytes.as_slice()) {
            Some(archive) => LookupStep::AskArchive(archive),
            None => LookupStep::Done(Err(TokenError::BlockError)),
        },
        None => LookupStep::Done(Err(TokenError::BlockError)),
    }
}

/// Decides what a reply means. Only a transfer can back a mint; a
/// redirection is followed once, from the primary holder only.
pub fn resolve_block(reply: BlockReply, from_archive: bool) -> (r: LookupStep)
    ensures
        reply matches BlockReply::Found(DepositOperation::Transfer(rec)) ==> r == LookupStep::Done(
            Ok(rec),
        ),
        reply == BlockReply::Found(DepositOperation::NotTransfer) ==> r == LookupStep::Done(
            Err(TokenError::ErrorOperationStyle),
        ),
        reply == BlockReply::Failed ==> r == LookupStep::Done(Err(TokenError::BlockError)),
        reply is Archived && from_archive ==> r == LookupStep::Done(Err(TokenError::BlockError)),
        reply is Archived && !from_archive ==> match principal_of_text(
            reply->Archived_0@,
        ) {
            Some(b) => (r matches LookupStep::AskArchive(a) && a.id() == b),
            None => r == LookupStep::Done(Err(TokenError::BlockError)),
        },
{
    match reply {
        BlockReply::Found(DepositOperation::Transfer(rec)) => LookupStep::Done(Ok(rec)),
        BlockReply::Found(DepositOperation::NotTransfer) => LookupStep::Done(
            Err(TokenError::ErrorOperationStyle),
        ),
        BlockReply::Failed => LookupStep::Done(Err(TokenError::BlockError)),
        BlockReply::Archived(text) => {
            if from_archive {
                LookupStep::Done(Err(TokenError::BlockError))
            } else {
                archive_step(principal_from_text(text.as_str()))
            }
        },
    }
}

/// Whether two byte strings are equal.
fn bytes_equal(a: &[u8], b: &[u8]) -> (r: bool)
    ensures
        r == (a@ == b@),
{
    if a.len() != b.len() {
        return false;
    }
    let mut i: usize = 0;
    while i < a.len()
        invariant
            a@.len() == b@.len(),
            i <= a@.len(),
            forall|j: int| 0 <= j < i ==> a@[j] == b@[j],
        decreases a@.len() - i,
    {
        if a[i] != b[i] {
            return false;
        }
        i = i + 1;
    }
    assert(a@ =~= b@);
    true
}

/// Refuses at once a deposit that was already consumed.
pub fn mint_precheck(ledger: &Ledger, block_height: u64) -> (r: Result<(), TokenError>)
    ensures
        r is Err <==> ledger.used().contains(block_height),
        r is Err ==> r == Err::<(), TokenError>(TokenError::BlockUsed),
{
    if ledger.is_block_used(&block_height) {
        Err(TokenError::BlockUsed)
    } else {
        Ok(())
    }
}

/// The error, if any, that minting `rec` under `block_height` meets on
/// `pre` when the least deposit is `min_deposit`, in the order the checks
/// are made. `None` inside stands for a deposit too large for the supply to
/// hold.
pub open spec fn mint_refusal(
    pre: &Ledger,
    caller_id: Seq<u8>,
    own_id: Seq<u8>,
    block_height: u64,
    rec: DepositRecord,
    min_deposit: u64,
) -> Option<Option<TokenError>> {
    if pre.used().contains(block_height) {
        Some(Some(TokenError::BlockUsed))
    } else if rec.from@ != caller_id {
        Some(Some(TokenError::Unauthorized))
    } else if rec.to@ != own_id {
        Some(Some(TokenError::ErrorTo))
    } else if rec.amount < min_deposit {
        Some(Some(TokenError::AmountTooSmall))
    } else if pre.supply() + pre.in_flight() + rec.amount > u128::MAX {
        Some(None)
    } else {
        None
    }
}

/// What minting `rec` under `block_height` for `caller` does, from `pre` to
/// `post` with result `r`.
pub open spec fn mint_post(
    pre: &Ledger,
    post: &Ledger,
    caller: Account,
    caller_id: Seq<u8>,
    own_id: Seq<u8>,
    block_height: u64,
    rec: DepositRecord,
    min_deposit: u64,
    now: u64,
    r: Result<usize, TokenError>,
) -> bool {
    &&& post.wf()
    &&& match mint_refusal(pre, caller_id, own_id, block_height, rec, min_deposit) {
        Some(e) => {
            &&& match e {
                Some(err) => r == Err::<usize, TokenError>(err),
                None => r matches Err(TokenError::Other(_)),
            }
            &&& post.same_balances(pre)
            &&& post.same_allowances(pre)
            &&& post.used() == pre.used()
            &&& post.log() == pre.log()
            &&& post.meta() == pre.meta()
            &&& post.in_flight() == pre.in_flight()
        },
        None => {
            &&& post.used() == pre.used().insert(block_height)
            &&& post.balance(caller) == pre.balance(caller) + rec.amount
            &&& forall|a: Account| a != caller ==> #[trigger] post.balance(a) == pre.balance(a)
            &&& post.supply() == pre.supply() + rec.amount
            &&& post.same_allowances(pre)
            &&& appended(pre.log(), post.log(), caller, "mint"@, now)
            &&& holder_details(post.log().last(), caller, rec.amount as u128)
            &&& post.meta() == pre.meta()
            &&& post.in_flight() == pre.in_flight()
            &&& r == Ok::<usize, TokenError>(post.log().len() as usize)
        },
    }
}

/// Mints the deposit `rec`, found under `block_height`, for `caller`, whose
/// outside account identifier is `caller_id`; `own_id` is this ledger's, and
/// `min_deposit` the least deposit that is minted.
/// The record is claimed first; a failed check releases the claim, so that
/// a later, correct attempt is not blocked. On success the caller is
/// credited the deposited amount and the new log reference is returned.
pub fn complete_mint(
    ledger: &mut Ledger,
    caller: Account,
    caller_id: &[u8],
    own_id: &[u8],
    block_height: u64,
    rec: DepositRecord,
    min_deposit: u64,
    now: u64,
) -> (r: Result<usize, TokenError>)
    requires
        old(ledger).wf(),
    ensures
        mint_post(
            &*old(ledger),
            &*final(ledger),
            caller,
            caller_id@,
            own_id@,
            block_height,
            rec,
            min_deposit,
            now,
            r,
        ),
{
    if ledger.is_block_used(&block_height) {
        return Err(TokenError::BlockUsed);
    }
    let ghost before = ledger.used();
    ledger.set_block_used(block_height);
    if !bytes_equal(rec.from.as_slice(), caller_id) {
        ledger.revert_block_used(&block_height);
        assert(ledger.used() =~= before);
        return Err(TokenError::Unauthorized);
    }
    if !bytes_equal(rec.to.as_slice(), own_id) {
        ledger.revert_block_used(&block_height);
        assert(ledger.used() =~= before);
        return Err(TokenError::ErrorTo);
    }
    if rec.amount < min_deposit {
        ledger.revert_block_used(&block_height);
        assert(ledger.used() =~= before);
        return Err(TokenError::AmountTooSmall);
    }
    let supply = ledger.total_supply();
    let reserved = ledger.in_flight_amount();
    if rec.amount as u128 > u128::MAX - supply - reserved {
        ledger.revert_block_used(&block_height);
        assert(ledger.used() =~= before);
        return Err(TokenError::Other("supply out of range".to_owned()));
    }
    let amount = rec.amount as u128;
    ledger.mint(caller, amount);
    let details = vec![
        ("to".to_owned(), GenericValue::Principal(caller)),
        ("amount".to_owned(), GenericValue::NatContent(amount)),
    ];
    let n = ledger.add_tx(caller, "mint".to_owned(), details, now);
    assert(ledger.log().drop_last() =~= old(ledger).log());
    Ok(n)
}

} // verus!
