//! Properties that relate several steps of the protocol, proved from the
//! models that the steps' contracts use.

use crate::apply::{apply_change, change_fee, loan_base, ApplyState};
use crate::batch::{
    contains_key, ends_with, has_settlement_selector, scan_outcome, step_outcome, Step,
};
use crate::begin::{
    begin_outcome, begin_transfers, begun_bank, first_pair_error, lemma_first_pair_error_sticks,
    lengths_match, settlement_tail, FlashLoan3Begin,
};
use crate::fixed_math::{int_bits, Fixed};
use crate::settle::{
    bank_of, end_outcome, end_scan, find_vault, is_bank, leading_banks, lemma_find_vault, lemma_leading_banks, lemma_vault_start, vault_change,
    vault_split, AccountData, AccountInfo, FlashLoan3End, ScanState, TokenVaultChange,
};
use crate::types::{Bank, FlashLoanError, Key, TokenAccount, Transfer, VAULT_INITIAL_INACTIVE};
use vstd::prelude::*;

verus! {

/// When every requested amount is positive, a loan origination makes one
/// transfer per loan, in order: loan `i` moves its amount from vault `i` to
/// token account `i`.
pub proof fn lemma_one_transfer_per_loan(
    vaults: Seq<Key>,
    token_accounts: Seq<TokenAccount>,
    amounts: Seq<u64>,
    n: int,
)
    requires
        0 <= n <= amounts.len(),
        vaults.len() == amounts.len(),
        token_accounts.len() == amounts.len(),
        forall|i: int| 0 <= i < amounts.len() ==> #[trigger] amounts[i] > 0,
    ensures
        begin_transfers(vaults, token_accounts, amounts, n).len() == n,
        forall|i: int|
            0 <= i < n ==> #[trigger] begin_transfers(vaults, token_accounts, amounts, n)[i]
                == (Transfer { from: vaults[i], to: token_accounts[i].key, amount: amounts[i] }),
    decreases n,
{
    if n > 0 {
        lemma_one_transfer_per_loan(vaults, token_accounts, amounts, n - 1);
        assert(amounts[n - 1] > 0);
    }
}

/// A loan origination fails when some bank's recorded vault is not the
/// vault supplied beside it.
pub proof fn lemma_begin_rejects_foreign_vault(ctx: FlashLoan3Begin, amounts: Seq<u64>, i: int)
    requires
        lengths_match(ctx, amounts.len() as int),
        0 <= i < amounts.len(),
        ctx.banks@[i].vault != ctx.vaults@[i],
    ensures
        (begin_outcome(ctx, amounts) is Err),
{
    assert(first_pair_error(ctx, i + 1) is Some);
    lemma_first_pair_error_sticks(ctx, i + 1, amounts.len() as int);
}

proof fn lemma_scan_ok(steps: Seq<Step>, program_id: Key, tail: Seq<Key>, j: int, found: bool)
    requires
        0 <= j,
        (scan_outcome(steps, program_id, tail, j, found) is Ok),
    ensures
        forall|k: int|
            j <= k < steps.len() && (#[trigger] steps[k]).program_id != program_id
                ==> !contains_key(steps[k].accounts@, program_id),
        forall|k: int|
            j <= k < steps.len() && (#[trigger] steps[k]).program_id == program_id
                ==> has_settlement_selector(steps[k].data@) && ends_with(steps[k].accounts@, tail),
        forall|k1: int, k2: int|
            j <= k1 < steps.len() && j <= k2 < steps.len() && (#[trigger] steps[k1]).program_id
                == program_id && (#[trigger] steps[k2]).program_id == program_id ==> k1 == k2,
        found ==> forall|k: int| j <= k < steps.len() ==> (#[trigger] steps[k]).program_id != program_id,
        !found ==> exists|k: int| j <= k < steps.len() && (#[trigger] steps[k]).program_id == program_id,
    decreases steps.len() - j,
{
    if j < steps.len() {
        let f = step_outcome(steps[j], program_id, tail, found)->Ok_0;
        lemma_scan_ok(steps, program_id, tail, j + 1, f);
    }
}

/// A successful loan origination runs as a top-level step of its program,
/// and after it in the batch exactly one step targets the program: it
/// carries the settlement selector and ends with the vaults and token
/// accounts. No other later step references the program's address.
pub proof fn lemma_begin_batch_shape(ctx: FlashLoan3Begin, amounts: Seq<u64>)
    requires
        (begin_outcome(ctx, amounts) is Ok),
    ensures
        ({
            let steps = ctx.instructions@;
            let cur = ctx.current_index as int;
            let pid = ctx.program_id;
            &&& cur < steps.len() && steps[cur].program_id == pid
            &&& exists|k: int| cur < k < steps.len() && (#[trigger] steps[k]).program_id == pid
            &&& forall|k1: int, k2: int|
                cur < k1 < steps.len() && cur < k2 < steps.len() && (#[trigger] steps[k1]).program_id
                    == pid && (#[trigger] steps[k2]).program_id == pid ==> k1 == k2
            &&& forall|k: int|
                cur < k < steps.len() && (#[trigger] steps[k]).program_id == pid
                    ==> has_settlement_selector(steps[k].data@) && ends_with(
                    steps[k].accounts@,
                    settlement_tail(ctx),
                )
            &&& forall|k: int|
                cur < k < steps.len() && (#[trigger] steps[k]).program_id != pid
                    ==> !contains_key(steps[k].accounts@, pid)
        }),
{
    lemma_scan_ok(
        ctx.instructions@,
        ctx.program_id,
        settlement_tail(ctx),
        ctx.current_index as int + 1,
        false,
    );
}

proof fn lemma_end_scan_ok(ctx: FlashLoan3End, vi: int, vlen: int, n: int)
    requires
        0 <= n,
        0 <= vlen,
        (end_scan(ctx, vi, vlen, n) is Ok),
    ensures
        ({
            let st = end_scan(ctx, vi, vlen, n)->Ok_0;
            let accts = ctx.remaining_accounts@;
            &&& st.claimed.len() == vlen
            &&& forall|j: int|
                0 <= j < vlen && #[trigger] st.claimed[j] ==> exists|i: int|
                    0 <= i < n && bank_of(#[trigger] accts[i]).vault == accts[vi + j].key
            &&& forall|i: int|
                0 <= i < n && (find_vault(accts, vi, vlen, bank_of(#[trigger] accts[i]).vault, 0) is Some)
                    ==> bank_of(accts[i]).flash_loan_vault_initial != VAULT_INITIAL_INACTIVE
        }),
    decreases n,
{
    let accts = ctx.remaining_accounts@;
    if n > 0 {
        lemma_end_scan_ok(ctx, vi, vlen, n - 1);
        let bank = bank_of(accts[n - 1]);
        lemma_find_vault(accts, vi, vlen, bank.vault, 0);
        let prev = end_scan(ctx, vi, vlen, n - 1)->Ok_0;
        let st = end_scan(ctx, vi, vlen, n)->Ok_0;
        assert forall|j: int| 0 <= j < vlen && #[trigger] st.claimed[j] implies exists|i: int|
            0 <= i < n && bank_of(#[trigger] accts[i]).vault == accts[vi + j].key by {
            if prev.claimed[j] {
                let i0 = choose|i: int| 0 <= i < n - 1 && bank_of(#[trigger] accts[i]).vault
                    == accts[vi + j].key;
                assert(bank_of(accts[i0]).vault == accts[vi + j].key);
            } else {
                assert(bank_of(accts[n - 1]).vault == accts[vi + j].key);
            }
        }
    }
}

/// One of the first `lb` accounts is a bank whose vault is `key`.
pub open spec fn some_bank_has_vault(accts: Seq<AccountInfo>, lb: int, key: Key) -> bool {
    exists|i: int| 0 <= i < lb && is_bank(#[trigger] accts[i]) && bank_of(accts[i]).vault == key
}

/// A settlement start that succeeds found a bank among the leading banks
/// for every vault, and every leading bank that it matched to a vault had
/// a loan in flight: it fails when a vault has no bank or a matched bank has
/// no loan.
pub proof fn lemma_end_matches_every_vault(ctx: FlashLoan3End)
    requires
        (end_outcome(ctx) is Ok),
    ensures
        (vault_split(ctx) is Some),
        ({
            let accts = ctx.remaining_accounts@;
            let sp = vault_split(ctx)->0;
            let vi = sp.0;
            let vlen = sp.1;
            let lb = leading_banks(accts, vi, 0);
            &&& forall|j: int|
                0 <= j < vlen ==> some_bank_has_vault(accts, lb, (#[trigger] accts[vi + j]).key)
            &&& forall|i: int|
                0 <= i < lb && (find_vault(accts, vi, vlen, bank_of(#[trigger] accts[i]).vault, 0) is Some)
                    ==> bank_of(accts[i]).flash_loan_vault_initial != VAULT_INITIAL_INACTIVE
        }),
{
    let accts = ctx.remaining_accounts@;
    lemma_vault_start(accts, ctx.account.group, 0);
    let sp = vault_split(ctx)->0;
    let vi = sp.0;
    let vlen = sp.1;
    let lb = leading_banks(accts, vi, 0);
    lemma_leading_banks(accts, vi, 0);
    lemma_end_scan_ok(ctx, vi, vlen, lb);
    let st = end_scan(ctx, vi, vlen, lb)->Ok_0;
    assert forall|j: int| 0 <= j < vlen implies some_bank_has_vault(
        accts,
        lb,
        (#[trigger] accts[vi + j]).key,
    ) by {
        assert(st.claimed[j]);
        let i0 = choose|i: int| 0 <= i < lb && bank_of(#[trigger] accts[i]).vault == accts[vi + j].key;
        assert(is_bank(accts[i0]));
    }
}

/// No origination fee is charged when no part of the approved amount bears
/// one.
pub proof fn lemma_no_fee_without_loan(bank: Bank, native: int)
    requires
        loan_base(int_bits(bank.flash_loan_approved_amount as int), native) == 0,
    ensures
        change_fee(bank, native) == 0,
{
}

/// A loan repaid in full: the token account ends with its initial balance
/// plus the loan, so the vault's balance change is zero. Settling that change
/// clears the bank's loan state, and when no origination fee is due (the
/// position already held the approved amount, or the rate is zero) the
/// position's balance and the bank's collected fees are as before.
pub proof fn lemma_round_trip(
    b: Bank,
    amount: u64,
    ta: TokenAccount,
    st: ApplyState,
    bank_index: usize,
    raw_token_index: usize,
)
    requires
        ta.amount + amount <= u64::MAX,
        bank_index < st.accts.len(),
        raw_token_index < st.tokens.len(),
        st.accts[bank_index as int].data == AccountData::Bank(begun_bank(b, amount, ta)),
        change_fee(begun_bank(b, amount, ta), st.tokens[raw_token_index as int].native.raw()) == 0,
    ensures
        vault_change(begun_bank(b, amount, ta), (ta.amount + amount) as u64) == 0,
        ({
            let c = TokenVaultChange { bank_index, raw_token_index, amount: Fixed { bits: 0 } };
            let r = apply_change(st, c);
            &&& r is Ok
            &&& r->Ok_0.tokens[raw_token_index as int].native == st.tokens[raw_token_index as int].native
            &&& bank_of(r->Ok_0.accts[bank_index as int]).loan_inactive()
            &&& bank_of(r->Ok_0.accts[bank_index as int]).collected_fees_native == b.collected_fees_native
        }),
{
}

proof fn lemma_scan_inactive(ctx: FlashLoan3End, vi: int, vlen: int, n: int)
    requires
        0 <= n <= leading_banks(ctx.remaining_accounts@, vi, 0),
        0 <= vi,
        0 <= vlen,
        ctx.remaining_accounts@.len() == vi + 2 * vlen,
        forall|i: int|
            0 <= i < leading_banks(ctx.remaining_accounts@, vi, 0) ==> bank_of(
                #[trigger] ctx.remaining_accounts@[i],
            ).loan_inactive(),
        forall|j: int|
            0 <= j < vlen ==> (#[trigger] ctx.remaining_accounts@[vi + vlen + j]).data is TokenAccount,
    ensures
        end_scan(ctx, vi, vlen, n) == Err::<ScanState, FlashLoanError>(FlashLoanError::LoanNotActive)
            || (end_scan(ctx, vi, vlen, n) == end_scan(ctx, vi, vlen, 0) && forall|i: int|
            0 <= i < n ==> (find_vault(
                ctx.remaining_accounts@,
                vi,
                vlen,
                bank_of(#[trigger] ctx.remaining_accounts@[i]).vault,
                0,
            ) is None)),
    decreases n,
{
    let accts = ctx.remaining_accounts@;
    if n > 0 {
        lemma_scan_inactive(ctx, vi, vlen, n - 1);
        let bank = bank_of(accts[n - 1]);
        lemma_find_vault(accts, vi, vlen, bank.vault, 0);
        assert(bank.loan_inactive());
        match find_vault(accts, vi, vlen, bank.vault, 0) {
            Some(j) => {
                assert(accts[vi + vlen + j].data is TokenAccount);
            },
            None => {},
        }
    }
}

/// Settling clears each bank's loan state, so a second settlement over the
/// same vaults fails: when every leading bank has no loan in flight, the
/// account beside each vault is a token account and some leading bank's
/// vault is among the vaults, starting a settlement fails with
/// `LoanNotActive`.
pub proof fn lemma_settling_twice_fails(ctx: FlashLoan3End, i: int, j: int)
    requires
        !ctx.account.is_bankrupt,
        (vault_split(ctx) is Some),
        ({
            let accts = ctx.remaining_accounts@;
            let sp = vault_split(ctx)->0;
            let vi = sp.0;
            let vlen = sp.1;
            let lb = leading_banks(accts, vi, 0);
            &&& accts.len() == vi + 2 * vlen
            &&& forall|k: int| 0 <= k < lb ==> bank_of(#[trigger] accts[k]).loan_inactive()
            &&& forall|k: int| 0 <= k < vlen ==> (#[trigger] accts[vi + vlen + k]).data is TokenAccount
            &&& 0 <= i < lb && 0 <= j < vlen && bank_of(accts[i]).vault == accts[vi + j].key
        }),
    ensures
        end_outcome(ctx) == Err::<crate::settle::SettlementModel, FlashLoanError>(
            FlashLoanError::LoanNotActive,
        ),
{
    let accts = ctx.remaining_accounts@;
    lemma_vault_start(accts, ctx.account.group, 0);
    let sp = vault_split(ctx)->0;
    let vi = sp.0;
    let vlen = sp.1;
    let lb = leading_banks(accts, vi, 0);
    lemma_leading_banks(accts, vi, 0);
    lemma_scan_inactive(ctx, vi, vlen, lb);
    lemma_find_vault(accts, vi, vlen, bank_of(accts[i]).vault, 0);
}

} // verus!
