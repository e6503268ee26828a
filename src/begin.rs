//! Loan origination: records the approved amounts on the banks, lists the
//! vault-to-caller transfers and checks the shape of the batch.

use crate::batch::{batch_outcome, check_batch, Step};
use crate::types::{Bank, FlashLoanError, Key, TokenAccount, Transfer};
use vstd::prelude::*;

verus! {

/// The accounts of a loan origination: the group, this program's address,
/// the N banks, N vaults and N caller token accounts, and the steps of the
/// batch with the position of the current one.
#[derive(Debug)]
pub struct FlashLoan3Begin {
    pub group: Key,
    pub program_id: Key,
    pub banks: Vec<Bank>,
    pub vaults: Vec<Key>,
    pub token_accounts: Vec<TokenAccount>,
    pub instructions: Vec<Step>,
    pub current_index: usize,
}

pub open spec fn lengths_match(ctx: FlashLoan3Begin, n: int) -> bool {
    ctx.banks@.len() == n && ctx.vaults@.len() == n && ctx.token_accounts@.len() == n
}

/// The check of the bank at `i` against the group and the vault beside it.
pub open spec fn pair_error(ctx: FlashLoan3Begin, i: int) -> Option<FlashLoanError> {
    if ctx.banks@[i].group != ctx.group {
        Some(FlashLoanError::GroupMismatch)
    } else if ctx.banks@[i].vault != ctx.vaults@[i] {
        Some(FlashLoanError::VaultMismatch)
    } else {
        None
    }
}

/// The first failing check among the banks before `n`.
pub open spec fn first_pair_error(ctx: FlashLoan3Begin, n: int) -> Option<FlashLoanError>
    decreases n,
{
    if n <= 0 {
        None
    } else {
        match first_pair_error(ctx, n - 1) {
            Some(e) => Some(e),
            None => pair_error(ctx, n - 1),
        }
    }
}

pub proof fn lemma_first_pair_error_sticks(ctx: FlashLoan3Begin, m: int, n: int)
    requires
        0 <= m <= n,
        first_pair_error(ctx, m) is Some,
    ensures
        first_pair_error(ctx, n) == first_pair_error(ctx, m),
    decreases n - m,
{
    if m < n {
        lemma_first_pair_error_sticks(ctx, m, n - 1);
    }
}

/// The vaults followed by the caller token accounts, as the settlement step
/// must list them last.
pub open spec fn settlement_tail(ctx: FlashLoan3Begin) -> Seq<Key> {
    ctx.vaults@ + ctx.token_accounts@.map_values(|t: TokenAccount| t.key)
}

/// Whether a loan origination with `amounts` succeeds, and else its error.
pub open spec fn begin_outcome(ctx: FlashLoan3Begin, amounts: Seq<u64>) -> Result<
    (),
    FlashLoanError,
> {
    if !lengths_match(ctx, amounts.len() as int) {
        Err(FlashLoanError::LengthMismatch)
    } else {
        match first_pair_error(ctx, amounts.len() as int) {
            Some(e) => Err(e),
            None => batch_outcome(
                ctx.instructions@,
                ctx.current_index as int,
                ctx.program_id,
                settlement_tail(ctx),
            ),
        }
    }
}

/// A bank after a loan of `amount` to the token account `ta` was recorded.
pub open spec fn begun_bank(b: Bank, amount: u64, ta: TokenAccount) -> Bank {
    Bank {
        group: b.group,
        vault: b.vault,
        token_index: b.token_index,
        flash_loan_approved_amount: amount,
        flash_loan_vault_initial: ta.amount,
        loan_origination_fee_rate: b.loan_origination_fee_rate,
        collected_fees_native: b.collected_fees_native,
    }
}

/// The transfers of the first `n` loans: one from each vault to its token
/// account, for each amount above zero, in order.
pub open spec fn begin_transfers(
    vaults: Seq<Key>,
    token_accounts: Seq<TokenAccount>,
    amounts: Seq<u64>,
    n: int,
) -> Seq<Transfer>
    decreases n,
{
    if n <= 0 {
        seq![]
    } else {
        let prev = begin_transfers(vaults, token_accounts, amounts, n - 1);
        if amounts[n - 1] > 0 {
            prev.push(
                Transfer { from: vaults[n - 1], to: token_accounts[n - 1].key, amount: amounts[n - 1] },
            )
        } else {
            prev
        }
    }
}

/// Starts a flash loan of `loan_amounts[i]` from bank `i` for each `i`.
///
/// On success each bank records its approved amount and the balance that
/// its caller token account held before the loan, and the result lists the
/// transfers out of the vaults that the loan makes.
pub fn flash_loan3_begin(ctx: &mut FlashLoan3Begin, loan_amounts: Vec<u64>) -> (r: Result<
    Vec<Transfer>,
    FlashLoanError,
>)
    ensures
        match r {
            Ok(transfers) => {
                &&& begin_outcome(*old(ctx), loan_amounts@) == Ok::<(), FlashLoanError>(())
                &&& transfers@ == begin_transfers(
                    old(ctx).vaults@,
                    old(ctx).token_accounts@,
                    loan_amounts@,
                    loan_amounts@.len() as int,
                )
                &&& final(ctx).banks@.len() == old(ctx).banks@.len()
                &&& forall|i: int|
                    0 <= i < loan_amounts@.len() ==> #[trigger] final(ctx).banks@[i] == begun_bank(
                        old(ctx).banks@[i],
                        loan_amounts@[i],
                        old(ctx).token_accounts@[i],
                    )
            },
            Err(e) => begin_outcome(*old(ctx), loan_amounts@) == Err::<(), FlashLoanError>(e),
        },
        final(ctx).group == old(ctx).group,
        final(ctx).program_id == old(ctx).program_id,
        final(ctx).vaults == old(ctx).vaults,
        final(ctx).token_accounts == old(ctx).token_accounts,
        final(ctx).instructions == old(ctx).instructions,
        final(ctx).current_index == old(ctx).current_index,
{
    let n = loan_amounts.len();
    if ctx.banks.len() != n || ctx.vaults.len() != n || ctx.token_accounts.len() != n {
        return Err(FlashLoanError::LengthMismatch);
    }
    let ghost ctx0 = *ctx;
    let mut transfers: Vec<Transfer> = Vec::new();
    let mut i: usize = 0;
    while i < n
        invariant
            n == loan_amounts@.len(),
            ctx0 == *old(ctx),
            lengths_match(ctx0, n as int),
            i <= n,
            ctx.group == ctx0.group,
            ctx.program_id == ctx0.program_id,
            ctx.vaults == ctx0.vaults,
            ctx.token_accounts == ctx0.token_accounts,
            ctx.instructions == ctx0.instructions,
            ctx.current_index == ctx0.current_index,
            ctx.banks@.len() == n,
            first_pair_error(ctx0, i as int) == None::<FlashLoanError>,
            transfers@ == begin_transfers(
                ctx0.vaults@,
                ctx0.token_accounts@,
                loan_amounts@,
                i as int,
            ),
            forall|k: int|
                0 <= k < i ==> #[trigger] ctx.banks@[k] == begun_bank(
                    ctx0.banks@[k],
                    loan_amounts@[k],
                    ctx0.token_accounts@[k],
                ),
            forall|k: int| i <= k < n ==> #[trigger] ctx.banks@[k] == ctx0.banks@[k],
        decreases n - i,
    {
        let mut bank = ctx.banks[i];
        if bank.group != ctx.group || bank.vault != ctx.vaults[i] {
            proof {
                lemma_first_pair_error_sticks(ctx0, i + 1, n as int);
            }
            if bank.group != ctx.group {
                return Err(FlashLoanError::GroupMismatch);
            }
            return Err(FlashLoanError::VaultMismatch);
        }
        let amount = loan_amounts[i];
        let token_account = ctx.token_accounts[i];
        bank.flash_loan_approved_amount = amount;
        bank.flash_loan_vault_initial = token_account.amount;
        ctx.banks.set(i, bank);
        if amount > 0 {
            transfers.push(Transfer { from: ctx.vaults[i], to: token_account.key, amount });
        }
        i += 1;
    }
    let mut tail: Vec<Key> = Vec::new();
    let mut k: usize = 0;
    while k < n
        invariant
            n == ctx.vaults@.len(),
            n == ctx.token_accounts@.len(),
            k <= n,
            tail@ == ctx.vaults@.subrange(0, k as int),
        decreases n - k,
    {
        tail.push(ctx.vaults[k]);
        k += 1;
    }
    k = 0;
    while k < n
        invariant
            n == ctx.vaults@.len(),
            n == ctx.token_accounts@.len(),
            k <= n,
            tail@ == ctx.vaults@ + ctx.token_accounts@.subrange(0, k as int).map_values(
                |t: TokenAccount| t.key,
            ),
        decreases n - k,
    {
        tail.push(ctx.token_accounts[k].key);
        proof {
            assert(ctx.token_accounts@.subrange(0, k + 1).map_values(|t: TokenAccount| t.key)
                =~= ctx.token_accounts@.subrange(0, k as int).map_values(|t: TokenAccount| t.key).push(
                ctx.token_accounts@[k as int].key,
            ));
        }
        k += 1;
    }
    proof {
        assert(ctx.vaults@.subrange(0, n as int) =~= ctx.vaults@);
        assert(ctx.token_accounts@.subrange(0, n as int) =~= ctx.token_accounts@);
        assert(tail@ =~= settlement_tail(ctx0));
    }
    check_batch(&ctx.instructions, ctx.current_index, ctx.program_id, &tail)?;
    Ok(transfers)
}

} // verus!
