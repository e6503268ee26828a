//! The ledger records and account data that the flash-loan steps read and
//! write, as plain values.

use crate::fixed_math::Fixed;
use vstd::prelude::*;

verus! {

/// A 32-byte account address, as four little-endian words.
#[derive(Clone, Copy, Debug, PartialEq, Eq, Structural)]
pub struct Key {
    pub w0: u64,
    pub w1: u64,
    pub w2: u64,
    pub w3: u64,
}

/// Value of `Bank::flash_loan_vault_initial` when no loan is in flight.
pub const VAULT_INITIAL_INACTIVE: u64 = 0xffff_ffff_ffff_ffff;

/// The per-token bank record, reduced to the fields that flash loans use.
#[derive(Clone, Copy, Debug, PartialEq, Eq, Structural)]
pub struct Bank {
    pub group: Key,
    pub vault: Key,
    pub token_index: u16,
    pub flash_loan_approved_amount: u64,
    pub flash_loan_vault_initial: u64,
    pub loan_origination_fee_rate: Fixed,
    pub collected_fees_native: Fixed,
}

impl Bank {
    /// No loan is recorded on the bank.
    pub open spec fn loan_inactive(self) -> bool {
        self.flash_loan_approved_amount == 0
            && self.flash_loan_vault_initial == VAULT_INITIAL_INACTIVE
    }
}

/// A token account: its address, the authority that owns it and its balance.
#[derive(Clone, Copy, Debug, PartialEq, Eq, Structural)]
pub struct TokenAccount {
    pub key: Key,
    pub owner: Key,
    pub amount: u64,
}

/// One slot of a margin account's token positions.
#[derive(Clone, Copy, Debug, PartialEq, Eq, Structural)]
pub struct TokenPosition {
    pub token_index: u16,
    /// The signed native balance.
    pub native: Fixed,
    pub active: bool,
}

/// A movement of `amount` tokens from the token account `from` to `to`.
#[derive(Clone, Copy, Debug, PartialEq, Eq, Structural)]
pub struct Transfer {
    pub from: Key,
    pub to: Key,
    pub amount: u64,
}

/// Why a flash-loan step aborts its batch.
#[derive(Clone, Copy, Debug, PartialEq, Eq, Structural)]
pub enum FlashLoanError {
    /// The account lists and the loan amounts differ in length.
    LengthMismatch,
    /// A bank belongs to another group.
    GroupMismatch,
    /// A bank's vault is not the vault supplied beside it.
    VaultMismatch,
    /// The current step is not a top-level step of this program.
    NotTopLevel,
    /// A second settlement step follows the current one.
    DuplicateSettlement,
    /// A later step of this program is not the settlement step.
    WrongPairedStep,
    /// The settlement step does not end with the vaults and token accounts.
    MismatchedSettlementAccounts,
    /// Another program's step passes this program's address.
    DisallowedCrossInvocation,
    /// No settlement step follows the current one.
    MissingSettlement,
    /// The margin account is bankrupt.
    IsBankrupt,
    /// No account of the list is a token account owned by the group.
    MissingVaults,
    /// The vaults and token accounts do not split evenly.
    UnevenSplit,
    /// The account beside a vault is not a token account.
    NotTokenAccount,
    /// A bank matched to a vault has no loan in flight.
    LoanNotActive,
    /// The margin account has no free token position slot.
    NoFreeTokenPosition,
    /// A vault has no matching bank.
    UnmatchedVault,
    /// The account's health is negative.
    HealthMustBePositive,
    /// A fixed-point operation overflowed.
    MathOverflow,
}

} // verus!
