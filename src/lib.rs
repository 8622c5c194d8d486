//! A custodial token ledger backed by deposits on an outside ledger.
//!
//! [`Ledger`] holds the settings, balances, allowances, the consumed deposit
//! records and the transaction log; every change to it is a verified
//! function. Holders approve, transfer and transferFrom through [`ops`].
//! Minting ([`mint`]) and withdrawing ([`withdraw`]) wrap a call to the
//! outside ledger, which the host makes between their verified phases.
mod account;
pub mod keyed;
pub mod laws;
pub mod ledger;
pub mod mint;
pub mod ops;
pub mod table;
pub mod types;
pub mod withdraw;

pub use account::{Account, MAX_ACCOUNT_LEN};
pub use ledger::Ledger;
pub use mint::{
    archive_step, complete_mint, mint_precheck, resolve_block, BlockReply, DepositOperation,
    DepositRecord, LookupStep, MINT_THRESHOLD,
};
pub use ops::{approve, transaction, transfer, transfer_from};
pub use types::{GenericValue, InitArgs, Metadata, Stats, TokenError, TxEvent};
pub use withdraw::{
    begin_withdraw, finish_withdraw, ForwardTransfer, WITHDRAW_THRESHOLD,
};
