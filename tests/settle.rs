use flash_loan::{
    apply_settlement, check_health, finish_settlement, flash_loan3_end, settlement_fits,
    AccountData, AccountInfo, Bank, FlashLoan3End, FlashLoanError, Fixed, Key, MangoAccount,
    TokenPosition, TokenVaultChange, Transfer,
};

const ONE: i128 = 1 << 48;

fn key(n: u64) -> Key {
    Key { w0: n, w1: 0, w2: n, w3: 3 }
}

fn group() -> Key {
    key(1)
}

fn user() -> Key {
    key(5)
}

fn free_slot() -> TokenPosition {
    TokenPosition { token_index: 0, native: Fixed { bits: 0 }, active: false }
}

fn account(tokens: Vec<TokenPosition>) -> MangoAccount {
    MangoAccount { group: group(), owner: user(), is_bankrupt: false, tokens }
}

/// A bank for token 4 with vault 10 and a loan of `approved` begun when the
/// token account held `initial`.
fn loaned_bank(approved: u64, initial: u64, rate: i128) -> Bank {
    Bank {
        group: group(),
        vault: key(10),
        token_index: 4,
        flash_loan_approved_amount: approved,
        flash_loan_vault_initial: initial,
        loan_origination_fee_rate: Fixed { bits: rate },
        collected_fees_native: Fixed { bits: 0 },
    }
}

/// The bank, an oracle, the vault and the caller's token account holding
/// `held`.
fn accounts(bank: Bank, held: u64) -> Vec<AccountInfo> {
    vec![
        AccountInfo { key: key(30), data: AccountData::Bank(bank) },
        AccountInfo { key: key(31), data: AccountData::Other },
        AccountInfo {
            key: key(10),
            data: AccountData::TokenAccount { owner: group(), amount: 1_000_000 },
        },
        AccountInfo { key: key(20), data: AccountData::TokenAccount { owner: user(), amount: held } },
    ]
}

fn end_ctx(bank: Bank, held: u64, tokens: Vec<TokenPosition>) -> FlashLoan3End {
    FlashLoan3End { account: account(tokens), owner: user(), remaining_accounts: accounts(bank, held) }
}

fn bank_at(ctx: &FlashLoan3End, i: usize) -> Bank {
    match ctx.remaining_accounts[i].data {
        AccountData::Bank(b) => b,
        _ => panic!("not a bank"),
    }
}

#[test]
fn full_repay_without_fee_leaves_position_unchanged() {
    let mut ctx = end_ctx(loaned_bank(1000, 500, 0), 1500, vec![free_slot(), free_slot()]);
    let s = flash_loan3_end(&mut ctx).unwrap();
    assert_eq!(s.repayments, vec![Transfer { from: key(20), to: key(10), amount: 1000 }]);
    assert_eq!(
        s.changes,
        vec![TokenVaultChange { bank_index: 0, raw_token_index: 0, amount: Fixed { bits: 0 } }]
    );
    assert!(ctx.account.tokens[0].active);
    assert_eq!(ctx.account.tokens[0].token_index, 4);
    assert!(settlement_fits(&ctx, &s.changes));
    let deactivated = apply_settlement(&mut ctx, &s.changes, Fixed { bits: 0 }).unwrap();
    assert_eq!(ctx.account.tokens[0].native, Fixed { bits: 0 });
    let bank = bank_at(&ctx, 0);
    assert_eq!(bank.collected_fees_native, Fixed { bits: 0 });
    assert_eq!(bank.flash_loan_approved_amount, 0);
    assert_eq!(bank.flash_loan_vault_initial, u64::MAX);
    assert_eq!(deactivated, vec![0]);
    assert_eq!(finish_settlement(&mut ctx, &deactivated, Fixed { bits: ONE }), Ok(()));
    assert!(!ctx.account.tokens[0].active);
}

#[test]
fn full_repay_keeps_existing_balance() {
    let held = TokenPosition { token_index: 4, native: Fixed { bits: 2000 * ONE }, active: true };
    let mut ctx = end_ctx(loaned_bank(1000, 0, ONE / 100), 1000, vec![free_slot(), held]);
    let s = flash_loan3_end(&mut ctx).unwrap();
    assert_eq!(s.changes[0].raw_token_index, 1);
    let deactivated = apply_settlement(&mut ctx, &s.changes, Fixed { bits: 0 }).unwrap();
    assert!(deactivated.is_empty());
    assert_eq!(ctx.account.tokens[1].native, Fixed { bits: 2000 * ONE });
    assert_eq!(bank_at(&ctx, 0).collected_fees_native, Fixed { bits: 0 });
}

#[test]
fn partial_repay_charges_fee_on_shortfall() {
    // The fee rate 0.01, rounded to the nearest multiple of 2^-48.
    let rate: i128 = 2814749767107;
    let held = TokenPosition { token_index: 4, native: Fixed { bits: 400 * ONE }, active: true };
    let mut ctx = end_ctx(loaned_bank(1000, 0, rate), 400, vec![held]);
    let s = flash_loan3_end(&mut ctx).unwrap();
    assert_eq!(s.repayments, vec![Transfer { from: key(20), to: key(10), amount: 400 }]);
    assert_eq!(s.changes[0].amount, Fixed { bits: -600 * ONE });
    let deactivated = apply_settlement(&mut ctx, &s.changes, Fixed { bits: 5 }).unwrap();
    assert!(deactivated.is_empty());
    let fee = bank_at(&ctx, 0).collected_fees_native.bits;
    assert_eq!(fee, 600 * rate);
    assert_eq!((fee + ONE / 2) >> 48, 6);
    assert_eq!(ctx.account.tokens[0].native, Fixed { bits: 400 * ONE - 600 * ONE - fee });
    assert_eq!((-600 * ONE - fee - ONE / 2) >> 48, -607);
    assert_eq!((-600 * ONE - fee + ONE / 2) >> 48, -606);
    assert_eq!(
        finish_settlement(&mut ctx, &deactivated, Fixed { bits: -1 }),
        Err(FlashLoanError::HealthMustBePositive)
    );
}

#[test]
fn settling_twice_fails() {
    let mut ctx = end_ctx(loaned_bank(1000, 500, 0), 1500, vec![free_slot()]);
    let s = flash_loan3_end(&mut ctx).unwrap();
    let d = apply_settlement(&mut ctx, &s.changes, Fixed { bits: 0 }).unwrap();
    assert_eq!(finish_settlement(&mut ctx, &d, Fixed { bits: 0 }), Ok(()));
    assert_eq!(flash_loan3_end(&mut ctx).err(), Some(FlashLoanError::LoanNotActive));
}

#[test]
fn end_rejects_bankrupt_account() {
    let mut ctx = end_ctx(loaned_bank(1000, 500, 0), 1500, vec![free_slot()]);
    ctx.account.is_bankrupt = true;
    assert_eq!(flash_loan3_end(&mut ctx).err(), Some(FlashLoanError::IsBankrupt));
}

#[test]
fn end_rejects_missing_vaults() {
    let mut ctx = end_ctx(loaned_bank(1000, 500, 0), 1500, vec![free_slot()]);
    ctx.remaining_accounts[2].data = AccountData::TokenAccount { owner: user(), amount: 1 };
    assert_eq!(flash_loan3_end(&mut ctx).err(), Some(FlashLoanError::MissingVaults));
}

#[test]
fn end_rejects_uneven_split() {
    let mut ctx = end_ctx(loaned_bank(1000, 500, 0), 1500, vec![free_slot()]);
    ctx.remaining_accounts.push(AccountInfo { key: key(40), data: AccountData::Other });
    assert_eq!(flash_loan3_end(&mut ctx).err(), Some(FlashLoanError::UnevenSplit));
}

#[test]
fn end_rejects_non_token_account_beside_vault() {
    let mut ctx = end_ctx(loaned_bank(1000, 500, 0), 1500, vec![free_slot()]);
    ctx.remaining_accounts[3].data = AccountData::Other;
    assert_eq!(flash_loan3_end(&mut ctx).err(), Some(FlashLoanError::NotTokenAccount));
}

#[test]
fn end_rejects_bank_without_loan() {
    let mut ctx = end_ctx(loaned_bank(0, u64::MAX, 0), 1500, vec![free_slot()]);
    assert_eq!(flash_loan3_end(&mut ctx).err(), Some(FlashLoanError::LoanNotActive));
}

#[test]
fn end_rejects_full_account() {
    let other = TokenPosition { token_index: 9, native: Fixed { bits: ONE }, active: true };
    let mut ctx = end_ctx(loaned_bank(1000, 500, 0), 1500, vec![other]);
    assert_eq!(flash_loan3_end(&mut ctx).err(), Some(FlashLoanError::NoFreeTokenPosition));
}

#[test]
fn end_rejects_vault_without_bank() {
    let mut bank = loaned_bank(1000, 500, 0);
    bank.vault = key(11);
    let mut ctx = end_ctx(bank, 1500, vec![free_slot()]);
    assert_eq!(flash_loan3_end(&mut ctx).err(), Some(FlashLoanError::UnmatchedVault));
}

#[test]
fn end_ignores_banks_after_the_first_non_bank() {
    let mut ctx = end_ctx(loaned_bank(1000, 500, 0), 1500, vec![free_slot()]);
    ctx.remaining_accounts.swap(0, 1);
    assert_eq!(flash_loan3_end(&mut ctx).err(), Some(FlashLoanError::UnmatchedVault));
}

#[test]
fn apply_rejects_negative_pre_health() {
    let mut ctx = end_ctx(loaned_bank(1000, 500, 0), 1500, vec![free_slot()]);
    let s = flash_loan3_end(&mut ctx).unwrap();
    assert_eq!(
        apply_settlement(&mut ctx, &s.changes, Fixed { bits: -ONE }),
        Err(FlashLoanError::HealthMustBePositive)
    );
}

#[test]
fn apply_rejects_fee_overflow() {
    let mut ctx = end_ctx(loaned_bank(1000, 500, i128::MAX), 500, vec![free_slot()]);
    let s = flash_loan3_end(&mut ctx).unwrap();
    assert_eq!(
        apply_settlement(&mut ctx, &s.changes, Fixed { bits: 0 }),
        Err(FlashLoanError::MathOverflow)
    );
}

#[test]
fn settlement_fits_rejects_bad_index() {
    let ctx = end_ctx(loaned_bank(1000, 500, 0), 1500, vec![free_slot()]);
    let bad = vec![TokenVaultChange { bank_index: 1, raw_token_index: 0, amount: Fixed { bits: 0 } }];
    assert!(!settlement_fits(&ctx, &bad));
}

#[test]
fn health_check_accepts_zero() {
    assert_eq!(check_health(Fixed { bits: 0 }), Ok(()));
    assert_eq!(check_health(Fixed { bits: -1 }), Err(FlashLoanError::HealthMustBePositive));
}

#[test]
fn fixed_arithmetic() {
    let two_and_half = Fixed { bits: 5 * ONE / 2 };
    assert_eq!(two_and_half.checked_mul(Fixed::from_u64(2)), Some(Fixed { bits: 5 * ONE }));
    assert_eq!(Fixed { bits: -1 }.checked_mul(Fixed { bits: ONE / 2 }), Some(Fixed { bits: -1 }));
    assert_eq!(Fixed::from_u64(3), Fixed { bits: 3 * ONE });
    assert_eq!(Fixed::from_u64(3).checked_add(Fixed::from_u64(4)), Some(Fixed::from_u64(7)));
    assert_eq!(Fixed::from_u64(3).checked_sub(Fixed::from_u64(4)), Some(Fixed { bits: -ONE }));
    assert_eq!(Fixed { bits: i128::MAX }.checked_add(Fixed { bits: 1 }), None);
    assert_eq!(Fixed { bits: i128::MIN }.checked_sub(Fixed { bits: 1 }), None);
}
