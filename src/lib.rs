//! Two-phase flash loans over a margin-account ledger.
//!
//! `flash_loan3_begin` validates the requested bank/vault pairs, records the
//! in-flight loan state on each bank and checks the shape of the surrounding
//! batch of steps. `flash_loan3_end` and the two functions that follow it
//! reconcile the vault balances, charge origination fees, settle the margin
//! account's token positions and clear the loan state again.

mod account;
mod apply;
mod batch;
mod begin;
mod fixed_math;
mod laws;
mod settle;
mod types;

pub use account::MangoAccount;
pub use apply::{apply_settlement, check_health, finish_settlement};
pub use batch::{check_batch, Step};
pub use begin::{flash_loan3_begin, FlashLoan3Begin};
pub use fixed_math::Fixed;
pub use settle::{flash_loan3_end, settlement_fits, AccountData, AccountInfo, FlashLoan3End, Settlement, TokenVaultChange};
pub use types::{Bank, FlashLoanError, Key, TokenAccount, TokenPosition, Transfer};
