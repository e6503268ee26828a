//! Loan settlement, second and third phases: charges the origination fees,
//! applies the staged changes between the two health checks and then
//! deactivates the positions that came to zero.

use crate::account::deactivate_all;
use crate::fixed_math::{fits_i128, int_bits, lemma_int_bits_bounds, mul_bits, Fixed};
use crate::settle::{
    bank_data, bank_of, is_bank, settlement_wf, AccountData, AccountInfo, FlashLoan3End,
    TokenVaultChange,
};
use crate::types::{Bank, FlashLoanError, TokenPosition, VAULT_INITIAL_INACTIVE};
use vstd::prelude::*;

verus! {

/// The amounts that a settlement changes: the account list, the positions,
/// and the slots to deactivate once the final health check passed.
pub struct ApplyState {
    pub accts: Seq<AccountInfo>,
    pub tokens: Seq<TokenPosition>,
    pub deactivated: Seq<usize>,
}

/// The part of the approved amount that bears the origination fee, in raw
/// bits: what the position did not already hold, or all of it when the
/// position is not positive.
pub open spec fn loan_base(approved: int, native: int) -> int {
    if native > 0 {
        if approved - native > 0 {
            approved - native
        } else {
            0
        }
    } else {
        approved
    }
}

/// A bank after its loan was settled: the loan state is cleared and the
/// fees it collected are `collected`.
pub open spec fn settled_bank(b: Bank, collected: int) -> Bank {
    Bank {
        group: b.group,
        vault: b.vault,
        token_index: b.token_index,
        flash_loan_approved_amount: 0,
        flash_loan_vault_initial: VAULT_INITIAL_INACTIVE,
        loan_origination_fee_rate: b.loan_origination_fee_rate,
        collected_fees_native: Fixed { bits: collected as i128 },
    }
}

/// The origination fee of a change, in raw bits.
pub open spec fn change_fee(bank: Bank, native: int) -> int {
    mul_bits(
        loan_base(int_bits(bank.flash_loan_approved_amount as int), native),
        bank.loan_origination_fee_rate.raw(),
    )
}

/// Applies one staged change.
pub open spec fn apply_change(st: ApplyState, c: TokenVaultChange) -> Result<
    ApplyState,
    FlashLoanError,
> {
    let bi = c.bank_index as int;
    let ti = c.raw_token_index as int;
    let bank = bank_of(st.accts[bi]);
    let native = st.tokens[ti].native.raw();
    let fee = change_fee(bank, native);
    let collected = bank.collected_fees_native.raw() + fee;
    let delta = c.amount.raw() - fee;
    let new_native = native + delta;
    if !fits_i128(fee) || !fits_i128(collected) || !fits_i128(delta) || !fits_i128(new_native) {
        Err(FlashLoanError::MathOverflow)
    } else {
        Ok(
            ApplyState {
                accts: st.accts.update(
                    bi,
                    AccountInfo {
                        key: st.accts[bi].key,
                        data: AccountData::Bank(settled_bank(bank, collected)),
                    },
                ),
                tokens: st.tokens.update(
                    ti,
                    TokenPosition {
                        token_index: st.tokens[ti].token_index,
                        native: Fixed { bits: new_native as i128 },
                        active: st.tokens[ti].active,
                    },
                ),
                deactivated: if new_native == 0 {
                    st.deactivated.push(c.raw_token_index)
                } else {
                    st.deactivated
                },
            },
        )
    }
}

/// Applies the first `n` staged changes, in order.
pub open spec fn apply_all(st: ApplyState, changes: Seq<TokenVaultChange>, n: int) -> Result<
    ApplyState,
    FlashLoanError,
>
    decreases n,
{
    if n <= 0 {
        Ok(st)
    } else {
        match apply_all(st, changes, n - 1) {
            Err(e) => Err(e),
            Ok(s) => apply_change(s, changes[n - 1]),
        }
    }
}

proof fn lemma_apply_all_err_sticks(st: ApplyState, changes: Seq<TokenVaultChange>, m: int, n: int)
    requires
        0 <= m <= n,
        apply_all(st, changes, m) is Err,
    ensures
        apply_all(st, changes, n) == apply_all(st, changes, m),
    decreases n - m,
{
    if m < n {
        lemma_apply_all_err_sticks(st, changes, m, n - 1);
    }
}

/// Fails unless `health` is at least zero.
pub fn check_health(health: Fixed) -> (r: Result<(), FlashLoanError>)
    ensures
        r == (if health.raw() >= 0 {
            Ok::<(), FlashLoanError>(())
        } else {
            Err(FlashLoanError::HealthMustBePositive)
        }),
{
    if health.bits >= 0 {
        Ok(())
    } else {
        Err(FlashLoanError::HealthMustBePositive)
    }
}

/// Checks the health computed before the changes and applies the staged
/// changes: each charges its bank the origination fee, changes its position
/// by the vault's change less the fee and clears the bank's loan state.
///
/// The result lists the slots whose balance came to zero; they stay active
/// until `finish_settlement`.
pub fn apply_settlement(ctx: &mut FlashLoan3End, changes: &Vec<TokenVaultChange>, pre_health: Fixed) -> (r:
    Result<Vec<usize>, FlashLoanError>)
    requires
        settlement_wf(*old(ctx), changes@),
    ensures
        pre_health.raw() < 0 ==> r == Err::<Vec<usize>, FlashLoanError>(
            FlashLoanError::HealthMustBePositive,
        ),
        pre_health.raw() >= 0 ==> match apply_all(
            ApplyState {
                accts: old(ctx).remaining_accounts@,
                tokens: old(ctx).account.tokens@,
                deactivated: seq![],
            },
            changes@,
            changes@.len() as int,
        ) {
            Ok(st) => r is Ok && r->Ok_0@ == st.deactivated && final(ctx).remaining_accounts@
                == st.accts && final(ctx).account.tokens@ == st.tokens,
            Err(e) => r == Err::<Vec<usize>, FlashLoanError>(e),
        },
        r is Ok ==> forall|k: int|
            0 <= k < r->Ok_0@.len() ==> #[trigger] r->Ok_0@[k] < final(ctx).account.tokens@.len(),
        final(ctx).remaining_accounts@.len() == old(ctx).remaining_accounts@.len(),
        final(ctx).account.tokens@.len() == old(ctx).account.tokens@.len(),
        final(ctx).owner == old(ctx).owner,
        final(ctx).account.group == old(ctx).account.group,
        final(ctx).account.owner == old(ctx).account.owner,
        final(ctx).account.is_bankrupt == old(ctx).account.is_bankrupt,
{
    check_health(pre_health)?;
    let ghost st0 = ApplyState {
        accts: ctx.remaining_accounts@,
        tokens: ctx.account.tokens@,
        deactivated: seq![],
    };
    let ghost ctx0 = *ctx;
    let mut deactivated: Vec<usize> = Vec::new();
    let mut k: usize = 0;
    while k < changes.len()
        invariant
            ctx0 == *old(ctx),
            st0.accts == ctx0.remaining_accounts@,
            st0.tokens == ctx0.account.tokens@,
            st0.deactivated == Seq::<usize>::empty(),
            pre_health.raw() >= 0,
            settlement_wf(ctx0, changes@),
            k <= changes@.len(),
            ctx.remaining_accounts@.len() == ctx0.remaining_accounts@.len(),
            ctx.account.tokens@.len() == ctx0.account.tokens@.len(),
            ctx.owner == ctx0.owner,
            ctx.account.group == ctx0.account.group,
            ctx.account.owner == ctx0.account.owner,
            ctx.account.is_bankrupt == ctx0.account.is_bankrupt,
            forall|q: int|
                0 <= q < ctx.remaining_accounts@.len() ==> is_bank(
                    #[trigger] ctx.remaining_accounts@[q],
                ) == is_bank(ctx0.remaining_accounts@[q]),
            forall|q: int|
                0 <= q < deactivated@.len() ==> #[trigger] deactivated@[q]
                    < ctx0.account.tokens@.len(),
            apply_all(st0, changes@, k as int) == Ok::<ApplyState, FlashLoanError>(
                ApplyState {
                    accts: ctx.remaining_accounts@,
                    tokens: ctx.account.tokens@,
                    deactivated: deactivated@,
                },
            ),
        decreases changes@.len() - k,
    {
        let c = changes[k];
        assert(c == changes@[k as int]);
        let info = ctx.remaining_accounts[c.bank_index];
        let mut bank = bank_data(&info);
        let mut position = ctx.account.tokens[c.raw_token_index];
        let native = position.native;
        let ghost cur = ApplyState {
            accts: ctx.remaining_accounts@,
            tokens: ctx.account.tokens@,
            deactivated: deactivated@,
        };
        assert(bank == bank_of(cur.accts[c.bank_index as int]));
        assert(native == cur.tokens[c.raw_token_index as int].native);
        proof {
            lemma_int_bits_bounds(bank.flash_loan_approved_amount as int);
        }
        let approved = Fixed::from_u64(bank.flash_loan_approved_amount);
        let loan = if native.is_positive() {
            match approved.checked_sub(native) {
                Some(d) => if d.is_positive() {
                    d
                } else {
                    Fixed::zero()
                },
                None => {
                    proof {
                        assert(apply_change(cur, c) is Err);
                        lemma_apply_all_err_sticks(st0, changes@, k + 1, changes@.len() as int);
                    }
                    return Err(FlashLoanError::MathOverflow);
                },
            }
        } else {
            approved
        };
        assert(loan.raw() == loan_base(
            int_bits(bank.flash_loan_approved_amount as int),
            native.raw(),
        ));
        let fee = match loan.checked_mul(bank.loan_origination_fee_rate) {
            Some(f) => f,
            None => {
                proof {
                    assert(apply_change(cur, c) is Err);
                    lemma_apply_all_err_sticks(st0, changes@, k + 1, changes@.len() as int);
                }
                return Err(FlashLoanError::MathOverflow);
            },
        };
        bank.collected_fees_native = match bank.collected_fees_native.checked_add(fee) {
            Some(f) => f,
            None => {
                proof {
                    assert(apply_change(cur, c) is Err);
                    lemma_apply_all_err_sticks(st0, changes@, k + 1, changes@.len() as int);
                }
                return Err(FlashLoanError::MathOverflow);
            },
        };
        let delta = match c.amount.checked_sub(fee) {
            Some(d) => d,
            None => {
                proof {
                    assert(apply_change(cur, c) is Err);
                    lemma_apply_all_err_sticks(st0, changes@, k + 1, changes@.len() as int);
                }
                return Err(FlashLoanError::MathOverflow);
            },
        };
        let new_native = match native.checked_add(delta) {
            Some(n) => n,
            None => {
                proof {
                    assert(apply_change(cur, c) is Err);
                    lemma_apply_all_err_sticks(st0, changes@, k + 1, changes@.len() as int);
                }
                return Err(FlashLoanError::MathOverflow);
            },
        };
        position.native = new_native;
        ctx.account.tokens.set(c.raw_token_index, position);
        if new_native.bits == 0 {
            deactivated.push(c.raw_token_index);
        }
        bank.flash_loan_approved_amount = 0;
        bank.flash_loan_vault_initial = VAULT_INITIAL_INACTIVE;
        ctx.remaining_accounts.set(
            c.bank_index,
            AccountInfo { key: info.key, data: AccountData::Bank(bank) },
        );
        k += 1;
    }
    Ok(deactivated)
}

/// Checks the health computed after the changes and then deactivates the
/// positions listed in `deactivated`.
pub fn finish_settlement(ctx: &mut FlashLoan3End, deactivated: &Vec<usize>, post_health: Fixed) -> (r:
    Result<(), FlashLoanError>)
    requires
        forall|k: int|
            0 <= k < deactivated@.len() ==> #[trigger] deactivated@[k]
                < old(ctx).account.tokens@.len(),
    ensures
        post_health.raw() < 0 ==> r == Err::<(), FlashLoanError>(
            FlashLoanError::HealthMustBePositive,
        ) && final(ctx).account.tokens@ == old(ctx).account.tokens@,
        post_health.raw() >= 0 ==> r == Ok::<(), FlashLoanError>(()) && final(ctx).account.tokens@
            == deactivate_all(old(ctx).account.tokens@, deactivated@),
        final(ctx).remaining_accounts == old(ctx).remaining_accounts,
        final(ctx).owner == old(ctx).owner,
        final(ctx).account.group == old(ctx).account.group,
        final(ctx).account.owner == old(ctx).account.owner,
        final(ctx).account.is_bankrupt == old(ctx).account.is_bankrupt,
{
    check_health(post_health)?;
    let ghost ctx0 = *ctx;
    let mut k: usize = 0;
    while k < deactivated.len()
        invariant
            ctx0 == *old(ctx),
            k <= deactivated@.len(),
            forall|q: int|
                0 <= q < deactivated@.len() ==> #[trigger] deactivated@[q]
                    < ctx0.account.tokens@.len(),
            ctx.account.tokens@ == deactivate_all(
                ctx0.account.tokens@,
                deactivated@.subrange(0, k as int),
            ),
            ctx.account.tokens@.len() == ctx0.account.tokens@.len(),
            ctx.remaining_accounts == ctx0.remaining_accounts,
            ctx.owner == ctx0.owner,
            ctx.account.group == ctx0.account.group,
            ctx.account.owner == ctx0.account.owner,
            ctx.account.is_bankrupt == ctx0.account.is_bankrupt,
        decreases deactivated@.len() - k,
    {
        ctx.account.deactivate(deactivated[k]);
        proof {
            let s = deactivated@.subrange(0, k + 1);
            assert(s.drop_last() =~= deactivated@.subrange(0, k as int));
        }
        k += 1;
    }
    proof {
        assert(deactivated@.subrange(0, k as int) =~= deactivated@);
    }
    Ok(())
}

} // verus!
