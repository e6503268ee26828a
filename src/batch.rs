//! Read-only checks over the ordered steps of the surrounding batch: the
//! current step must be top-level, exactly one settlement step of this
//! program must follow it, and no other program may be handed this
//! program's address.

use crate::types::{FlashLoanError, Key};
use vstd::prelude::*;

verus! {

/// One step of a batch: the program it targets, the accounts it references
/// and its payload.
#[derive(Debug)]
pub struct Step {
    pub program_id: Key,
    pub accounts: Vec<Key>,
    pub data: Vec<u8>,
}

/// The selector that opens the payload of a settlement step.
pub open spec fn settlement_selector() -> Seq<u8> {
    seq![163u8, 231u8, 155u8, 56u8, 201u8, 68u8, 84u8, 148u8]
}

pub open spec fn has_settlement_selector(data: Seq<u8>) -> bool {
    data.len() >= 8 && data.subrange(0, 8) == settlement_selector()
}

pub open spec fn contains_key(s: Seq<Key>, k: Key) -> bool {
    exists|i: int| 0 <= i < s.len() && s[i] == k
}

/// `s` ends with the keys of `t`, in order.
pub open spec fn ends_with(s: Seq<Key>, t: Seq<Key>) -> bool {
    s.len() >= t.len() && forall|k: int|
        0 <= k < t.len() ==> #[trigger] s[s.len() - t.len() + k] == t[k]
}

/// What one later step decides, given whether a settlement step was already
/// seen: `Ok` holds whether one has been seen after this step.
pub open spec fn step_outcome(step: Step, program_id: Key, tail: Seq<Key>, found: bool) -> Result<
    bool,
    FlashLoanError,
> {
    if step.program_id == program_id {
        if found {
            Err(FlashLoanError::DuplicateSettlement)
        } else if !has_settlement_selector(step.data@) {
            Err(FlashLoanError::WrongPairedStep)
        } else if !ends_with(step.accounts@, tail) {
            Err(FlashLoanError::MismatchedSettlementAccounts)
        } else {
            Ok(true)
        }
    } else if contains_key(step.accounts@, program_id) {
        Err(FlashLoanError::DisallowedCrossInvocation)
    } else {
        Ok(found)
    }
}

/// The outcome of scanning the steps from index `j` to the end.
pub open spec fn scan_outcome(
    steps: Seq<Step>,
    program_id: Key,
    tail: Seq<Key>,
    j: int,
    found: bool,
) -> Result<(), FlashLoanError>
    decreases steps.len() - j,
{
    if j >= steps.len() {
        if found {
            Ok(())
        } else {
            Err(FlashLoanError::MissingSettlement)
        }
    } else {
        match step_outcome(steps[j], program_id, tail, found) {
            Err(e) => Err(e),
            Ok(f) => scan_outcome(steps, program_id, tail, j + 1, f),
        }
    }
}

/// The outcome of the whole batch check, for the step at `current` of
/// `steps`, where `tail` is the vaults followed by the token accounts.
pub open spec fn batch_outcome(steps: Seq<Step>, current: int, program_id: Key, tail: Seq<Key>) -> Result<
    (),
    FlashLoanError,
> {
    if current < 0 || current >= steps.len() || steps[current].program_id != program_id {
        Err(FlashLoanError::NotTopLevel)
    } else {
        scan_outcome(steps, program_id, tail, current + 1, false)
    }
}

fn is_settlement_selector(data: &Vec<u8>) -> (r: bool)
    ensures
        r == has_settlement_selector(data@),
{
    if data.len() < 8 {
        return false;
    }
    let r = data[0] == 163u8 && data[1] == 231u8 && data[2] == 155u8 && data[3] == 56u8
        && data[4] == 201u8 && data[5] == 68u8 && data[6] == 84u8 && data[7] == 148u8;
    assert(r == (data@.subrange(0, 8) =~= settlement_selector()));
    r
}

fn references_key(accounts: &Vec<Key>, k: Key) -> (r: bool)
    ensures
        r == contains_key(accounts@, k),
{
    let mut i: usize = 0;
    while i < accounts.len()
        invariant
            i <= accounts.len(),
            forall|m: int| 0 <= m < i ==> accounts@[m] != k,
        decreases accounts.len() - i,
    {
        if accounts[i] == k {
            return true;
        }
        i += 1;
    }
    false
}

fn ends_with_keys(accounts: &Vec<Key>, tail: &Vec<Key>) -> (r: bool)
    ensures
        r == ends_with(accounts@, tail@),
{
    if accounts.len() < tail.len() {
        return false;
    }
    let start = accounts.len() - tail.len();
    let mut k: usize = 0;
    while k < tail.len()
        invariant
            start == accounts.len() - tail.len(),
            k <= tail.len(),
            forall|m: int| 0 <= m < k ==> #[trigger] accounts@[start + m] == tail@[m],
        decreases tail.len() - k,
    {
        if accounts[start + k] != tail[k] {
            assert(accounts@[accounts@.len() - tail@.len() + k] != tail@[k as int]);
            return false;
        }
        k += 1;
    }
    proof {
        assert forall|m: int| 0 <= m < tail@.len() implies #[trigger] accounts@[accounts@.len()
            - tail@.len() + m] == tail@[m] by {
            assert(accounts@[start + m] == tail@[m]);
        }
    }
    true
}

fn check_step(step: &Step, program_id: Key, tail: &Vec<Key>, found: bool) -> (r: Result<
    bool,
    FlashLoanError,
>)
    ensures
        r == step_outcome(*step, program_id, tail@, found),
{
    if step.program_id == program_id {
        if found {
            Err(FlashLoanError::DuplicateSettlement)
        } else if !is_settlement_selector(&step.data) {
            Err(FlashLoanError::WrongPairedStep)
        } else if !ends_with_keys(&step.accounts, tail) {
            Err(FlashLoanError::MismatchedSettlementAccounts)
        } else {
            Ok(true)
        }
    } else if references_key(&step.accounts, program_id) {
        Err(FlashLoanError::DisallowedCrossInvocation)
    } else {
        Ok(found)
    }
}

/// Checks the batch around the step at `current_index`: it targets
/// `program_id`, and of the steps after it exactly one targets
/// `program_id`, carries the settlement selector and ends with the accounts
/// of `tail`; no other step references `program_id`.
pub fn check_batch(steps: &Vec<Step>, current_index: usize, program_id: Key, tail: &Vec<Key>) -> (r:
    Result<(), FlashLoanError>)
    ensures
        r == batch_outcome(steps@, current_index as int, program_id, tail@),
{
    if current_index >= steps.len() || steps[current_index].program_id != program_id {
        return Err(FlashLoanError::NotTopLevel);
    }
    let mut j: usize = current_index + 1;
    let mut found = false;
    while j < steps.len()
        invariant
            current_index < steps.len(),
            steps@[current_index as int].program_id == program_id,
            current_index + 1 <= j <= steps.len(),
            scan_outcome(steps@, program_id, tail@, current_index + 1, false) == scan_outcome(
                steps@,
                program_id,
                tail@,
                j as int,
                found,
            ),
        decreases steps.len() - j,
    {
        let o = check_step(&steps[j], program_id, tail, found);
        assert(o == step_outcome(steps@[j as int], program_id, tail@, found));
        match o {
            Err(e) => {
                assert(scan_outcome(steps@, program_id, tail@, j as int, found) == Err::<
                    (),
                    FlashLoanError,
                >(e));
                return Err(e);
            },
            Ok(f) => {
                found = f;
            },
        }
        j += 1;
    }
    if found {
        Ok(())
    } else {
        Err(FlashLoanError::MissingSettlement)
    }
}

} // verus!
