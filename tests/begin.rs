use flash_loan::{
    check_batch, flash_loan3_begin, Bank, FlashLoan3Begin, FlashLoanError, Fixed, Key, Step,
    TokenAccount, Transfer,
};

const SELECTOR: [u8; 8] = [163, 231, 155, 56, 201, 68, 84, 148];

fn key(n: u64) -> Key {
    Key { w0: n, w1: n.wrapping_mul(7), w2: 0, w3: 1 }
}

fn group() -> Key {
    key(1)
}

fn program() -> Key {
    key(2)
}

fn bank(vault: Key) -> Bank {
    Bank {
        group: group(),
        vault,
        token_index: 0,
        flash_loan_approved_amount: 0,
        flash_loan_vault_initial: u64::MAX,
        loan_origination_fee_rate: Fixed { bits: 0 },
        collected_fees_native: Fixed { bits: 0 },
    }
}

fn settlement_step(tail: &[Key]) -> Step {
    let mut accounts = vec![key(90), key(91)];
    accounts.extend_from_slice(tail);
    let mut data = SELECTOR.to_vec();
    data.push(0);
    Step { program_id: program(), accounts, data }
}

fn begin_step() -> Step {
    Step { program_id: program(), accounts: vec![group()], data: vec![1, 2, 3] }
}

fn other_step(accounts: Vec<Key>) -> Step {
    Step { program_id: key(77), accounts, data: vec![] }
}

/// Two loans from vaults 10 and 11 into token accounts 20 and 21.
fn two_loans(steps: Vec<Step>) -> FlashLoan3Begin {
    FlashLoan3Begin {
        group: group(),
        program_id: program(),
        banks: vec![bank(key(10)), bank(key(11))],
        vaults: vec![key(10), key(11)],
        token_accounts: vec![
            TokenAccount { key: key(20), owner: key(5), amount: 300 },
            TokenAccount { key: key(21), owner: key(5), amount: 40 },
        ],
        instructions: steps,
        current_index: 0,
    }
}

fn tail() -> Vec<Key> {
    vec![key(10), key(11), key(20), key(21)]
}

fn good_steps() -> Vec<Step> {
    vec![begin_step(), other_step(vec![key(10)]), settlement_step(&tail())]
}

#[test]
fn begin_records_loans_and_lists_transfers() {
    let mut ctx = two_loans(good_steps());
    let r = flash_loan3_begin(&mut ctx, vec![1000, 250]);
    assert_eq!(
        r,
        Ok(vec![
            Transfer { from: key(10), to: key(20), amount: 1000 },
            Transfer { from: key(11), to: key(21), amount: 250 },
        ])
    );
    assert_eq!(ctx.banks[0].flash_loan_approved_amount, 1000);
    assert_eq!(ctx.banks[0].flash_loan_vault_initial, 300);
    assert_eq!(ctx.banks[1].flash_loan_approved_amount, 250);
    assert_eq!(ctx.banks[1].flash_loan_vault_initial, 40);
}

#[test]
fn begin_zero_amount_records_without_transfer() {
    let mut ctx = two_loans(good_steps());
    let r = flash_loan3_begin(&mut ctx, vec![0, 5]);
    assert_eq!(r, Ok(vec![Transfer { from: key(11), to: key(21), amount: 5 }]));
    assert_eq!(ctx.banks[0].flash_loan_approved_amount, 0);
    assert_eq!(ctx.banks[0].flash_loan_vault_initial, 300);
}

#[test]
fn begin_with_no_loans() {
    let mut ctx = FlashLoan3Begin {
        group: group(),
        program_id: program(),
        banks: vec![],
        vaults: vec![],
        token_accounts: vec![],
        instructions: vec![begin_step(), settlement_step(&[])],
        current_index: 0,
    };
    assert_eq!(flash_loan3_begin(&mut ctx, vec![]), Ok(vec![]));
}

#[test]
fn begin_rejects_length_mismatch() {
    let mut ctx = two_loans(good_steps());
    assert_eq!(flash_loan3_begin(&mut ctx, vec![1]), Err(FlashLoanError::LengthMismatch));
}

#[test]
fn begin_rejects_foreign_group() {
    let mut ctx = two_loans(good_steps());
    ctx.banks[1].group = key(3);
    assert_eq!(flash_loan3_begin(&mut ctx, vec![1, 1]), Err(FlashLoanError::GroupMismatch));
}

#[test]
fn begin_rejects_vault_mismatch() {
    let mut ctx = two_loans(good_steps());
    ctx.banks[0].vault = key(12);
    assert_eq!(flash_loan3_begin(&mut ctx, vec![1, 1]), Err(FlashLoanError::VaultMismatch));
}

#[test]
fn begin_rejects_nested_invocation() {
    let mut steps = good_steps();
    steps[0].program_id = key(77);
    let mut ctx = two_loans(steps);
    assert_eq!(flash_loan3_begin(&mut ctx, vec![1, 1]), Err(FlashLoanError::NotTopLevel));
}

#[test]
fn begin_rejects_duplicate_settlement() {
    let mut steps = good_steps();
    steps.push(settlement_step(&tail()));
    let mut ctx = two_loans(steps);
    assert_eq!(flash_loan3_begin(&mut ctx, vec![1, 1]), Err(FlashLoanError::DuplicateSettlement));
}

#[test]
fn begin_rejects_wrong_paired_step() {
    let mut steps = good_steps();
    steps[2].data[3] = 0;
    let mut ctx = two_loans(steps);
    assert_eq!(flash_loan3_begin(&mut ctx, vec![1, 1]), Err(FlashLoanError::WrongPairedStep));
}

#[test]
fn begin_rejects_short_payload() {
    let mut steps = good_steps();
    steps[2].data = vec![163, 231, 155];
    let mut ctx = two_loans(steps);
    assert_eq!(flash_loan3_begin(&mut ctx, vec![1, 1]), Err(FlashLoanError::WrongPairedStep));
}

#[test]
fn begin_rejects_mismatched_settlement_accounts() {
    let swapped = vec![key(11), key(10), key(20), key(21)];
    let steps = vec![begin_step(), settlement_step(&swapped)];
    let mut ctx = two_loans(steps);
    assert_eq!(
        flash_loan3_begin(&mut ctx, vec![1, 1]),
        Err(FlashLoanError::MismatchedSettlementAccounts)
    );
}

#[test]
fn begin_rejects_too_few_settlement_accounts() {
    let steps = vec![
        begin_step(),
        Step { program_id: program(), accounts: vec![key(10)], data: SELECTOR.to_vec() },
    ];
    let mut ctx = two_loans(steps);
    assert_eq!(
        flash_loan3_begin(&mut ctx, vec![1, 1]),
        Err(FlashLoanError::MismatchedSettlementAccounts)
    );
}

#[test]
fn begin_rejects_cross_invocation() {
    let mut steps = good_steps();
    steps.insert(2, other_step(vec![key(4), program()]));
    let mut ctx = two_loans(steps);
    assert_eq!(
        flash_loan3_begin(&mut ctx, vec![1, 1]),
        Err(FlashLoanError::DisallowedCrossInvocation)
    );
}

#[test]
fn begin_rejects_missing_settlement() {
    let steps = vec![begin_step(), other_step(vec![key(10)])];
    let mut ctx = two_loans(steps);
    assert_eq!(flash_loan3_begin(&mut ctx, vec![1, 1]), Err(FlashLoanError::MissingSettlement));
}

#[test]
fn settlement_before_the_current_step_does_not_count() {
    let steps = vec![settlement_step(&tail()), begin_step()];
    assert_eq!(check_batch(&steps, 1, program(), &tail()), Err(FlashLoanError::MissingSettlement));
    assert_eq!(check_batch(&steps, 2, program(), &tail()), Err(FlashLoanError::NotTopLevel));
}

#[test]
fn begin_step_may_follow_other_steps() {
    let steps = vec![other_step(vec![]), begin_step(), settlement_step(&tail())];
    assert_eq!(check_batch(&steps, 1, program(), &tail()), Ok(()));
}
