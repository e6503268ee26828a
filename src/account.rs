//! The margin account and its fixed set of token position slots.

use crate::fixed_math::Fixed;
use crate::types::{FlashLoanError, Key, TokenPosition};
use vstd::prelude::*;

verus! {

/// The borrower's margin account, reduced to what flash loans use.
#[derive(Debug)]
pub struct MangoAccount {
    pub group: Key,
    pub owner: Key,
    pub is_bankrupt: bool,
    pub tokens: Vec<TokenPosition>,
}

/// The first active slot at or after `k` that holds `token_index`.
pub open spec fn find_active(tokens: Seq<TokenPosition>, token_index: u16, k: int) -> Option<int>
    decreases tokens.len() - k,
{
    if k < 0 || k >= tokens.len() {
        None
    } else if tokens[k].active && tokens[k].token_index == token_index {
        Some(k)
    } else {
        find_active(tokens, token_index, k + 1)
    }
}

/// The first inactive slot at or after `k`.
pub open spec fn find_free(tokens: Seq<TokenPosition>, k: int) -> Option<int>
    decreases tokens.len() - k,
{
    if k < 0 || k >= tokens.len() {
        None
    } else if !tokens[k].active {
        Some(k)
    } else {
        find_free(tokens, k + 1)
    }
}

proof fn lemma_find_active(tokens: Seq<TokenPosition>, token_index: u16, k: int)
    requires
        0 <= k,
    ensures
        match find_active(tokens, token_index, k) {
            Some(m) => k <= m < tokens.len() && tokens[m].active && tokens[m].token_index
                == token_index,
            None => forall|m: int|
                k <= m < tokens.len() ==> !(#[trigger] tokens[m].active && tokens[m].token_index
                    == token_index),
        },
    decreases tokens.len() - k,
{
    if k < tokens.len() {
        lemma_find_active(tokens, token_index, k + 1);
    }
}

proof fn lemma_find_free(tokens: Seq<TokenPosition>, k: int)
    requires
        0 <= k,
    ensures
        match find_free(tokens, k) {
            Some(m) => k <= m < tokens.len() && !tokens[m].active,
            None => forall|m: int| k <= m < tokens.len() ==> #[trigger] tokens[m].active,
        },
    decreases tokens.len() - k,
{
    if k < tokens.len() {
        lemma_find_free(tokens, k + 1);
    }
}

/// The slots after the position for `token_index` was looked up or opened,
/// with its index; `None` when it is absent and no slot is free.
pub open spec fn get_or_create(tokens: Seq<TokenPosition>, token_index: u16) -> Option<
    (Seq<TokenPosition>, int),
> {
    match find_active(tokens, token_index, 0) {
        Some(k) => Some((tokens, k)),
        None => match find_free(tokens, 0) {
            Some(k) => Some(
                (
                    tokens.update(
                        k,
                        TokenPosition { token_index, native: Fixed { bits: 0 }, active: true },
                    ),
                    k,
                ),
            ),
            None => None,
        },
    }
}

/// The slots after each index of `indices` was made inactive.
pub open spec fn deactivate_all(tokens: Seq<TokenPosition>, indices: Seq<usize>) -> Seq<TokenPosition>
    decreases indices.len(),
{
    if indices.len() == 0 {
        tokens
    } else {
        let rest = deactivate_all(tokens, indices.drop_last());
        let k = indices.last() as int;
        rest.update(k, TokenPosition { active: false, ..rest[k] })
    }
}

fn position_active_for(tokens: &Vec<TokenPosition>, token_index: u16) -> (r: Option<usize>)
    ensures
        r == (match find_active(tokens@, token_index, 0) {
            Some(k) => Some(k as usize),
            None => None::<usize>,
        }),
{
    let mut k: usize = 0;
    while k < tokens.len()
        invariant
            k <= tokens.len(),
            find_active(tokens@, token_index, 0) == find_active(tokens@, token_index, k as int),
        decreases tokens.len() - k,
    {
        if tokens[k].active && tokens[k].token_index == token_index {
            return Some(k);
        }
        k += 1;
    }
    None
}

fn position_free(tokens: &Vec<TokenPosition>) -> (r: Option<usize>)
    ensures
        r == (match find_free(tokens@, 0) {
            Some(k) => Some(k as usize),
            None => None::<usize>,
        }),
{
    let mut k: usize = 0;
    while k < tokens.len()
        invariant
            k <= tokens.len(),
            find_free(tokens@, 0) == find_free(tokens@, k as int),
        decreases tokens.len() - k,
    {
        if !tokens[k].active {
            return Some(k);
        }
        k += 1;
    }
    None
}

impl MangoAccount {
    /// Finds the active position for `token_index`, or opens one with a zero
    /// balance in the first free slot, and returns its index.
    pub fn get_mut_or_create(&mut self, token_index: u16) -> (r: Result<usize, FlashLoanError>)
        ensures
            match get_or_create(old(self).tokens@, token_index) {
                Some((tokens, k)) => r == Ok::<usize, FlashLoanError>(k as usize)
                    && final(self).tokens@ == tokens,
                None => r == Err::<usize, FlashLoanError>(FlashLoanError::NoFreeTokenPosition)
                    && final(self).tokens@ == old(self).tokens@,
            },
            final(self).tokens@.len() == old(self).tokens@.len(),
            r is Ok ==> r->Ok_0 < old(self).tokens@.len(),
            final(self).group == old(self).group,
            final(self).owner == old(self).owner,
            final(self).is_bankrupt == old(self).is_bankrupt,
    {
        proof {
            lemma_find_active(self.tokens@, token_index, 0);
            lemma_find_free(self.tokens@, 0);
        }
        match position_active_for(&self.tokens, token_index) {
            Some(k) => Ok(k),
            None => match position_free(&self.tokens) {
                Some(k) => {
                    self.tokens.set(
                        k,
                        TokenPosition { token_index, native: Fixed { bits: 0 }, active: true },
                    );
                    Ok(k)
                },
                None => Err(FlashLoanError::NoFreeTokenPosition),
            },
        }
    }

    /// Marks the position at `raw_token_index` inactive.
    pub fn deactivate(&mut self, raw_token_index: usize)
        requires
            raw_token_index < old(self).tokens@.len(),
        ensures
            final(self).tokens@ == old(self).tokens@.update(
                raw_token_index as int,
                TokenPosition { active: false, ..old(self).tokens@[raw_token_index as int] },
            ),
            final(self).group == old(self).group,
            final(self).owner == old(self).owner,
            final(self).is_bankrupt == old(self).is_bankrupt,
    {
        let mut position = self.tokens[raw_token_index];
        position.active = false;
        self.tokens.set(raw_token_index, position);
    }
}

} // verus!
