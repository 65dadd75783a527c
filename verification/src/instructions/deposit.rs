//! Depositing tokens into a reserve.
use vstd::prelude::*;

use crate::amount::{amount_tokens_spec, as_deposit_notes_spec, Amount};
use crate::errors::ErrorCode;
use crate::state::market::CachedReserveInfo;

verus! {

/// For a deposit of `amount` into a reserve with these cached values: the
/// number of tokens to transfer into the vault and of deposit notes to mint
/// for the depositor. Loan notes are refused with `InvalidAmountUnits`.
pub fn deposit_amounts(amount: &Amount, reserve_info: &CachedReserveInfo) -> (r: Result<
    (u64, u64),
    ErrorCode,
>)
    requires
        amount_tokens_spec(*amount, *reserve_info) is Some,
        as_deposit_notes_spec(*amount, *reserve_info) is Some,
    ensures
        match as_deposit_notes_spec(*amount, *reserve_info)->0 {
            Ok(notes) => r == Ok::<(u64, u64), ErrorCode>(
                (amount_tokens_spec(*amount, *reserve_info)->0 as u64, notes as u64),
            ),
            Err(e) => r == Err::<(u64, u64), ErrorCode>(e),
        },
{
    // Calculate the number of new notes that need to be minted to represent
    // the current value being deposited
    let token_amount = amount.tokens(reserve_info);
    let note_amount = amount.as_deposit_notes(reserve_info)?;
    Ok((token_amount, note_amount))
}

} // verus!
