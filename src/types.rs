use vstd::prelude::*;

use crate::account::Account;

verus! {

/// Why an operation was refused.
#[derive(Clone, Debug, PartialEq, Eq)]
pub enum TokenError {
    InsufficientBalance,
    InsufficientAllowance,
    Unauthorized,
    ErrorTo,
    TxNotFound,
    BlockUsed,
    BlockError,
    ErrorOperationStyle,
    AmountTooSmall,
    LedgerTrap,
    Other(String),
}

/// A value in the details of a transaction record: a flat, exact value
/// (nested and floating-point contents are not recorded by this ledger).
#[derive(Clone, Debug, PartialEq, Eq)]
pub enum GenericValue {
    BoolContent(bool),
    TextContent(String),
    BlobContent(Vec<u8>),
    Principal(Account),
    Nat8Content(u8),
    Nat16Content(u16),
    Nat32Content(u32),
    Nat64Content(u64),
    NatContent(u128),
    Int8Content(i8),
    Int16Content(i16),
    Int32Content(i32),
    Int64Content(i64),
    IntContent(i128),
}

/// One entry of the transaction log.
#[derive(Clone, Debug, PartialEq, Eq)]
pub struct TxEvent {
    pub time: u64,
    pub caller: Account,
    pub operation: String,
    pub details: Vec<(String, GenericValue)>,
}

/// Descriptive and economic settings of the token.
#[derive(Clone, Debug, PartialEq, Eq)]
pub struct Metadata {
    pub name: Option<String>,
    pub logo: Option<String>,
    pub symbol: Option<String>,
    pub decimals: Option<u8>,
    /// The fee charged on transfer, approve and transferFrom; none means zero.
    pub fee: Option<u128>,
    /// The account that collects fees; none means that no fee is collected.
    pub fee_to: Option<Account>,
    /// The accounts allowed to administer the ledger.
    pub custodians: Vec<Account>,
    /// An optional notification target.
    pub cap: Option<Account>,
    pub created_at: u64,
    pub upgraded_at: u64,
}

/// Settings supplied when the ledger is initialised.
#[derive(Clone, Debug, PartialEq, Eq)]
pub struct InitArgs {
    pub name: Option<String>,
    pub logo: Option<String>,
    pub symbol: Option<String>,
    pub decimals: Option<u8>,
    pub fee: Option<u128>,
    pub fee_to: Option<Account>,
    pub custodians: Option<Vec<Account>>,
    pub cap: Option<Account>,
}

/// Aggregate figures about the ledger.
#[derive(Clone, Debug, PartialEq, Eq)]
pub struct Stats {
    pub total_transactions: u128,
    pub total_supply: u128,
    pub cycles: u128,
    pub icps: u128,
    pub total_unique_holders: u128,
}

impl Metadata {
    /// The fee in force: the configured one, or zero.
    pub open spec fn fee_amount(&self) -> nat {
        match self.fee {
            Some(f) => f as nat,
            None => 0,
        }
    }
}

} // verus!
