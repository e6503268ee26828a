//! Loan settlement: matches banks to the vaults listed after the health
//! accounts, reconciles each vault's balance change and opens the margin
//! account's positions.

use crate::account::{get_or_create, MangoAccount};
use crate::fixed_math::{int_bits, lemma_int_bits_bounds, Fixed};
use crate::types::{Bank, FlashLoanError, Key, TokenPosition, Transfer, VAULT_INITIAL_INACTIVE};
use vstd::prelude::*;

verus! {

/// What an account of the list holds.
#[derive(Clone, Copy, Debug, PartialEq, Eq, Structural)]
pub enum AccountData {
    Bank(Bank),
    TokenAccount { owner: Key, amount: u64 },
    Other,
}

/// An account of the list that follows the fixed accounts.
#[derive(Clone, Copy, Debug, PartialEq, Eq, Structural)]
pub struct AccountInfo {
    pub key: Key,
    pub data: AccountData,
}

/// The accounts of a loan settlement: the margin account, its owner, and
/// the health accounts followed by N vaults and N caller token accounts.
#[derive(Debug)]
pub struct FlashLoan3End {
    pub account: MangoAccount,
    pub owner: Key,
    pub remaining_accounts: Vec<AccountInfo>,
}

/// The balance change to apply to one position: the bank's index in the
/// account list, the position's slot and the change in native units.
#[derive(Clone, Copy, Debug, PartialEq, Eq, Structural)]
pub struct TokenVaultChange {
    pub bank_index: usize,
    pub raw_token_index: usize,
    pub amount: Fixed,
}

/// The staged changes of a settlement and the repayments into the vaults
/// that it makes.
#[derive(Debug)]
pub struct Settlement {
    pub changes: Vec<TokenVaultChange>,
    pub repayments: Vec<Transfer>,
}

/// The state of the scan over the banks.
pub struct ScanState {
    pub tokens: Seq<TokenPosition>,
    pub claimed: Seq<bool>,
    pub changes: Seq<TokenVaultChange>,
    pub repayments: Seq<Transfer>,
}

/// What a successful scan leaves: the positions, the changes and the
/// repayments.
pub struct SettlementModel {
    pub tokens: Seq<TokenPosition>,
    pub changes: Seq<TokenVaultChange>,
    pub repayments: Seq<Transfer>,
}

pub open spec fn is_group_token_account(a: AccountInfo, group: Key) -> bool {
    match a.data {
        AccountData::TokenAccount { owner, .. } => owner == group,
        _ => false,
    }
}

pub open spec fn is_bank(a: AccountInfo) -> bool {
    a.data is Bank
}

pub open spec fn bank_of(a: AccountInfo) -> Bank {
    match a.data {
        AccountData::Bank(b) => b,
        _ => arbitrary(),
    }
}

/// The first token account owned by `group` at or after `i`: where the
/// vaults start.
pub open spec fn vault_start(accts: Seq<AccountInfo>, group: Key, i: int) -> Option<int>
    decreases accts.len() - i,
{
    if i < 0 || i >= accts.len() {
        None
    } else if is_group_token_account(accts[i], group) {
        Some(i)
    } else {
        vault_start(accts, group, i + 1)
    }
}

/// The index of the first account at or after `i` that is not a bank, or
/// `end`.
pub open spec fn leading_banks(accts: Seq<AccountInfo>, end: int, i: int) -> int
    decreases end - i,
{
    if i >= end || !is_bank(accts[i]) {
        i
    } else {
        leading_banks(accts, end, i + 1)
    }
}

/// The first vault at position `j` or later (of `vlen` vaults starting at
/// `vi`) whose address is `key`.
pub open spec fn find_vault(accts: Seq<AccountInfo>, vi: int, vlen: int, key: Key, j: int) -> Option<
    int,
>
    decreases vlen - j,
{
    if j < 0 || j >= vlen {
        None
    } else if accts[vi + j].key == key {
        Some(j)
    } else {
        find_vault(accts, vi, vlen, key, j + 1)
    }
}

/// The change of a vault's balance since the loan began, in raw bits: the
/// approved amount went out, and what the token account holds above its
/// initial balance comes back.
pub open spec fn vault_change(bank: Bank, amount: u64) -> int {
    -int_bits(bank.flash_loan_approved_amount as int) + if amount > bank.flash_loan_vault_initial {
        int_bits(amount - bank.flash_loan_vault_initial)
    } else {
        0
    }
}

/// The repayment of the token account `from` into the vault `to`, if it
/// holds more than its initial balance.
pub open spec fn repayment(bank: Bank, from: Key, to: Key, amount: u64) -> Seq<Transfer> {
    if amount > bank.flash_loan_vault_initial {
        seq![Transfer { from, to, amount: (amount - bank.flash_loan_vault_initial) as u64 }]
    } else {
        seq![]
    }
}

/// One step of the scan, for the bank at `i`.
pub open spec fn scan_bank(ctx: FlashLoan3End, vi: int, vlen: int, st: ScanState, i: int) -> Result<
    ScanState,
    FlashLoanError,
> {
    let accts = ctx.remaining_accounts@;
    let bank = bank_of(accts[i]);
    match find_vault(accts, vi, vlen, bank.vault, 0) {
        None => Ok(st),
        Some(j) => {
            let ta = accts[vi + vlen + j];
            match ta.data {
                AccountData::TokenAccount { amount, .. } => {
                    if bank.flash_loan_vault_initial == VAULT_INITIAL_INACTIVE {
                        Err(FlashLoanError::LoanNotActive)
                    } else {
                        match get_or_create(st.tokens, bank.token_index) {
                            None => Err(FlashLoanError::NoFreeTokenPosition),
                            Some((tokens, k)) => Ok(
                                ScanState {
                                    tokens,
                                    claimed: st.claimed.update(j, true),
                                    changes: st.changes.push(
                                        TokenVaultChange {
                                            bank_index: i as usize,
                                            raw_token_index: k as usize,
                                            amount: Fixed { bits: vault_change(bank, amount) as i128 },
                                        },
                                    ),
                                    repayments: st.repayments + repayment(
                                        bank,
                                        ta.key,
                                        accts[vi + j].key,
                                        amount,
                                    ),
                                },
                            ),
                        }
                    }
                },
                _ => Err(FlashLoanError::NotTokenAccount),
            }
        },
    }
}

/// The scan over the first `n` banks.
pub open spec fn end_scan(ctx: FlashLoan3End, vi: int, vlen: int, n: int) -> Result<
    ScanState,
    FlashLoanError,
>
    decreases n,
{
    if n <= 0 {
        Ok(
            ScanState {
                tokens: ctx.account.tokens@,
                claimed: Seq::new(vlen as nat, |k: int| false),
                changes: seq![],
                repayments: seq![],
            },
        )
    } else {
        match end_scan(ctx, vi, vlen, n - 1) {
            Err(e) => Err(e),
            Ok(st) => scan_bank(ctx, vi, vlen, st, n - 1),
        }
    }
}

pub open spec fn all_claimed(claimed: Seq<bool>) -> bool {
    forall|k: int| 0 <= k < claimed.len() ==> #[trigger] claimed[k]
}

/// Where the vaults start and how many there are, if the list splits.
pub open spec fn vault_split(ctx: FlashLoan3End) -> Option<(int, int)> {
    let accts = ctx.remaining_accounts@;
    match vault_start(accts, ctx.account.group, 0) {
        None => None,
        Some(vi) => Some((vi, (accts.len() - vi) / 2)),
    }
}

/// Whether the first phase of a settlement succeeds, and with what.
pub open spec fn end_outcome(ctx: FlashLoan3End) -> Result<SettlementModel, FlashLoanError> {
    let accts = ctx.remaining_accounts@;
    if ctx.account.is_bankrupt {
        Err(FlashLoanError::IsBankrupt)
    } else {
        match vault_split(ctx) {
            None => Err(FlashLoanError::MissingVaults),
            Some((vi, vlen)) => if accts.len() != vi + 2 * vlen {
                Err(FlashLoanError::UnevenSplit)
            } else {
                match end_scan(ctx, vi, vlen, leading_banks(accts, vi, 0)) {
                    Err(e) => Err(e),
                    Ok(st) => if all_claimed(st.claimed) {
                        Ok(
                            SettlementModel {
                                tokens: st.tokens,
                                changes: st.changes,
                                repayments: st.repayments,
                            },
                        )
                    } else {
                        Err(FlashLoanError::UnmatchedVault)
                    },
                }
            },
        }
    }
}

/// Every change names a bank of the list and a slot of the account.
pub open spec fn settlement_wf(ctx: FlashLoan3End, changes: Seq<TokenVaultChange>) -> bool {
    forall|k: int|
        0 <= k < changes.len() ==> {
            &&& (#[trigger] changes[k]).bank_index < ctx.remaining_accounts@.len()
            &&& is_bank(ctx.remaining_accounts@[changes[k].bank_index as int])
            &&& changes[k].raw_token_index < ctx.account.tokens@.len()
        }
}

pub proof fn lemma_end_scan_err_sticks(ctx: FlashLoan3End, vi: int, vlen: int, m: int, n: int)
    requires
        0 <= m <= n,
        end_scan(ctx, vi, vlen, m) is Err,
    ensures
        end_scan(ctx, vi, vlen, n) == end_scan(ctx, vi, vlen, m),
    decreases n - m,
{
    if m < n {
        lemma_end_scan_err_sticks(ctx, vi, vlen, m, n - 1);
    }
}

pub proof fn lemma_vault_start(accts: Seq<AccountInfo>, group: Key, i: int)
    requires
        0 <= i,
    ensures
        match vault_start(accts, group, i) {
            Some(v) => i <= v < accts.len() && is_group_token_account(accts[v], group),
            None => true,
        },
    decreases accts.len() - i,
{
    if i < accts.len() {
        lemma_vault_start(accts, group, i + 1);
    }
}

pub proof fn lemma_find_vault(accts: Seq<AccountInfo>, vi: int, vlen: int, key: Key, j: int)
    requires
        0 <= j,
    ensures
        match find_vault(accts, vi, vlen, key, j) {
            Some(v) => j <= v < vlen && accts[vi + v].key == key,
            None => forall|v: int| j <= v < vlen ==> #[trigger] accts[vi + v].key != key,
        },
    decreases vlen - j,
{
    if j < vlen {
        lemma_find_vault(accts, vi, vlen, key, j + 1);
    }
}

pub proof fn lemma_leading_banks(accts: Seq<AccountInfo>, end: int, i: int)
    requires
        0 <= i <= end,
    ensures
        i <= leading_banks(accts, end, i) <= end,
        forall|m: int| i <= m < leading_banks(accts, end, i) ==> is_bank(#[trigger] accts[m]),
        i < end && is_bank(accts[i]) ==> leading_banks(accts, end, i) > i,
    decreases end - i,
{
    if i < end && is_bank(accts[i]) {
        lemma_leading_banks(accts, end, i + 1);
    }
}

fn find_vault_start(accts: &Vec<AccountInfo>, group: Key) -> (r: Option<usize>)
    ensures
        r == (match vault_start(accts@, group, 0) {
            Some(v) => Some(v as usize),
            None => None::<usize>,
        }),
{
    let mut i: usize = 0;
    while i < accts.len()
        invariant
            i <= accts.len(),
            vault_start(accts@, group, 0) == vault_start(accts@, group, i as int),
        decreases accts.len() - i,
    {
        let a = accts[i];
        match a.data {
            AccountData::TokenAccount { owner, .. } => {
                if owner == group {
                    return Some(i);
                }
            },
            _ => {},
        }
        i += 1;
    }
    None
}

fn find_vault_index(accts: &Vec<AccountInfo>, vi: usize, vlen: usize, key: Key) -> (r: Option<
    usize,
>)
    requires
        vi + vlen <= accts@.len(),
    ensures
        r == (match find_vault(accts@, vi as int, vlen as int, key, 0) {
            Some(v) => Some(v as usize),
            None => None::<usize>,
        }),
{
    let mut j: usize = 0;
    while j < vlen
        invariant
            vi + vlen <= accts@.len(),
            j <= vlen,
            find_vault(accts@, vi as int, vlen as int, key, 0) == find_vault(
                accts@,
                vi as int,
                vlen as int,
                key,
                j as int,
            ),
        decreases vlen - j,
    {
        let n = accts.len();
        assert(vi + j < n);
        if accts[vi + j].key == key {
            return Some(j);
        }
        j += 1;
    }
    None
}

fn is_bank_info(a: &AccountInfo) -> (r: bool)
    ensures
        r == is_bank(*a),
{
    match a.data {
        AccountData::Bank(_) => true,
        _ => false,
    }
}

pub(crate) fn bank_data(a: &AccountInfo) -> (r: Bank)
    requires
        is_bank(*a),
    ensures
        r == bank_of(*a),
{
    match a.data {
        AccountData::Bank(b) => b,
        _ => unreached(),
    }
}

/// Starts settling a flash loan: finds the vaults after the health
/// accounts, matches each leading bank to its vault, opens the account's
/// position for each matched bank and stages its balance change.
///
/// The result lists the staged changes and the repayments from the caller
/// token accounts into the vaults. The health checks and the changes
/// themselves follow in `apply_settlement` and `finish_settlement`.
pub fn flash_loan3_end(ctx: &mut FlashLoan3End) -> (r: Result<Settlement, FlashLoanError>)
    ensures
        match r {
            Ok(s) => {
                &&& end_outcome(*old(ctx)) == Ok::<SettlementModel, FlashLoanError>(
                    SettlementModel {
                        tokens: final(ctx).account.tokens@,
                        changes: s.changes@,
                        repayments: s.repayments@,
                    },
                )
                &&& settlement_wf(*final(ctx), s.changes@)
            },
            Err(e) => end_outcome(*old(ctx)) == Err::<SettlementModel, FlashLoanError>(e),
        },
        final(ctx).remaining_accounts == old(ctx).remaining_accounts,
        final(ctx).owner == old(ctx).owner,
        final(ctx).account.group == old(ctx).account.group,
        final(ctx).account.owner == old(ctx).account.owner,
        final(ctx).account.is_bankrupt == old(ctx).account.is_bankrupt,
        final(ctx).account.tokens@.len() == old(ctx).account.tokens@.len(),
{
    if ctx.account.is_bankrupt {
        return Err(FlashLoanError::IsBankrupt);
    }
    let ghost ctx0 = *ctx;
    let ghost accts = ctx.remaining_accounts@;
    let len = ctx.remaining_accounts.len();
    let vi = match find_vault_start(&ctx.remaining_accounts, ctx.account.group) {
        Some(v) => v,
        None => {
            return Err(FlashLoanError::MissingVaults);
        },
    };
    proof {
        lemma_vault_start(accts, ctx.account.group, 0);
    }
    let vlen = (len - vi) / 2;
    if len != vi + 2 * vlen {
        return Err(FlashLoanError::UnevenSplit);
    }
    let mut claimed: Vec<bool> = Vec::new();
    let mut k: usize = 0;
    while k < vlen
        invariant
            k <= vlen,
            claimed@ == Seq::new(k as nat, |m: int| false),
        decreases vlen - k,
    {
        claimed.push(false);
        proof {
            assert(claimed@ =~= Seq::new((k + 1) as nat, |m: int| false));
        }
        k += 1;
    }
    let mut changes: Vec<TokenVaultChange> = Vec::new();
    let mut repayments: Vec<Transfer> = Vec::new();
    let mut i: usize = 0;
    while i < vi && is_bank_info(&ctx.remaining_accounts[i])
        invariant
            ctx0 == *old(ctx),
            accts == ctx0.remaining_accounts@,
            ctx.remaining_accounts == ctx0.remaining_accounts,
            ctx.owner == ctx0.owner,
            ctx.account.group == ctx0.account.group,
            ctx.account.owner == ctx0.account.owner,
            ctx.account.is_bankrupt == ctx0.account.is_bankrupt,
            ctx.account.tokens@.len() == ctx0.account.tokens@.len(),
            len == accts.len(),
            vi < len,
            len == vi + 2 * vlen,
            vault_start(accts, ctx0.account.group, 0) == Some(vi as int),
            !ctx0.account.is_bankrupt,
            i <= vi,
            claimed@.len() == vlen,
            leading_banks(accts, vi as int, 0) == leading_banks(accts, vi as int, i as int),
            end_scan(ctx0, vi as int, vlen as int, i as int) == Ok::<ScanState, FlashLoanError>(
                ScanState {
                    tokens: ctx.account.tokens@,
                    claimed: claimed@,
                    changes: changes@,
                    repayments: repayments@,
                },
            ),
            settlement_wf(*ctx, changes@),
        decreases vi - i,
    {
        let bank = bank_data(&ctx.remaining_accounts[i]);
        proof {
            lemma_leading_banks(accts, vi as int, i as int);
            lemma_find_vault(accts, vi as int, vlen as int, bank.vault, 0);
        }
        match find_vault_index(&ctx.remaining_accounts, vi, vlen, bank.vault) {
            None => {},
            Some(j) => {
                let ghost rep0 = repayments@;
                claimed.set(j, true);
                let ta = ctx.remaining_accounts[vi + vlen + j];
                assert(ta == accts[vi + vlen + j]);
                assert(bank == bank_of(accts[i as int]));
                let amount = match ta.data {
                    AccountData::TokenAccount { amount, .. } => amount,
                    _ => {
                        proof {
                            lemma_end_scan_err_sticks(
                                ctx0,
                                vi as int,
                                vlen as int,
                                i + 1,
                                leading_banks(accts, vi as int, 0),
                            );
                        }
                        return Err(FlashLoanError::NotTokenAccount);
                    },
                };
                if bank.flash_loan_vault_initial == VAULT_INITIAL_INACTIVE {
                    proof {
                        lemma_end_scan_err_sticks(
                            ctx0,
                            vi as int,
                            vlen as int,
                            i + 1,
                            leading_banks(accts, vi as int, 0),
                        );
                    }
                    return Err(FlashLoanError::LoanNotActive);
                }
                let raw_token_index = match ctx.account.get_mut_or_create(bank.token_index) {
                    Ok(t) => t,
                    Err(e) => {
                        proof {
                            lemma_end_scan_err_sticks(
                                ctx0,
                                vi as int,
                                vlen as int,
                                i + 1,
                                leading_banks(accts, vi as int, 0),
                            );
                        }
                        return Err(e);
                    },
                };
                proof {
                    lemma_int_bits_bounds(bank.flash_loan_approved_amount as int);
                }
                let mut change = Fixed::from_u64(bank.flash_loan_approved_amount).neg();
                if amount > bank.flash_loan_vault_initial {
                    let repay = amount - bank.flash_loan_vault_initial;
                    proof {
                        lemma_int_bits_bounds(repay as int);
                    }
                    repayments.push(
                        Transfer { from: ta.key, to: ctx.remaining_accounts[vi + j].key, amount: repay },
                    );
                    change = match change.checked_add(Fixed::from_u64(repay)) {
                        Some(c) => c,
                        None => {
                            return Err(FlashLoanError::MathOverflow);
                        },
                    };
                }
                changes.push(TokenVaultChange { bank_index: i, raw_token_index, amount: change });
                assert(repayments@ =~= rep0 + repayment(
                    bank,
                    ta.key,
                    accts[vi + j as int].key,
                    amount,
                ));
            },
        }
        i += 1;
    }
    let ghost lb = leading_banks(accts, vi as int, 0);
    assert(lb == i);
    let mut m: usize = 0;
    while m < vlen
        invariant
            ctx0 == *old(ctx),
            accts == ctx0.remaining_accounts@,
            ctx.remaining_accounts == ctx0.remaining_accounts,
            ctx.owner == ctx0.owner,
            ctx.account.group == ctx0.account.group,
            ctx.account.owner == ctx0.account.owner,
            ctx.account.is_bankrupt == ctx0.account.is_bankrupt,
            ctx.account.tokens@.len() == ctx0.account.tokens@.len(),
            len == accts.len(),
            vi < len,
            len == vi + 2 * vlen,
            vault_start(accts, ctx0.account.group, 0) == Some(vi as int),
            !ctx0.account.is_bankrupt,
            lb == leading_banks(accts, vi as int, 0),
            settlement_wf(*ctx, changes@),
            m <= vlen,
            claimed@.len() == vlen,
            end_scan(ctx0, vi as int, vlen as int, lb) == Ok::<ScanState, FlashLoanError>(
                ScanState {
                    tokens: ctx.account.tokens@,
                    claimed: claimed@,
                    changes: changes@,
                    repayments: repayments@,
                },
            ),
            forall|q: int| 0 <= q < m ==> #[trigger] claimed@[q],
        decreases vlen - m,
    {
        if !claimed[m] {
            assert(!all_claimed(claimed@));
            return Err(FlashLoanError::UnmatchedVault);
        }
        m += 1;
    }
    Ok(Settlement { changes, repayments })
}

/// Whether `changes` fits `ctx` as `apply_settlement` requires.
pub fn settlement_fits(ctx: &FlashLoan3End, changes: &Vec<TokenVaultChange>) -> (r: bool)
    ensures
        r == settlement_wf(*ctx, changes@),
{
    let mut k: usize = 0;
    while k < changes.len()
        invariant
            k <= changes@.len(),
            settlement_wf(*ctx, changes@.subrange(0, k as int)),
        decreases changes@.len() - k,
    {
        let c = changes[k];
        if c.bank_index >= ctx.remaining_accounts.len() || !is_bank_info(
            &ctx.remaining_accounts[c.bank_index],
        ) || c.raw_token_index >= ctx.account.tokens.len() {
            assert(changes@[k as int] == c);
            return false;
        }
        assert(changes@.subrange(0, k + 1) =~= changes@.subrange(0, k as int).push(c));
        k += 1;
    }
    assert(changes@.subrange(0, k as int) =~= changes@);
    true
}

} // verus!
