//! Amounts of value given in tokens, deposit notes or loan notes.
use vstd::prelude::*;

use crate::errors::ErrorCode;
use crate::state::market::{notes_from_tokens_spec, notes_to_tokens_spec, CachedReserveInfo};

verus! {

/// Specifies the units of some amount of value
#[derive(Clone, Copy, Debug, PartialEq, Eq, Structural)]
pub enum AmountUnits {
    Tokens,
    DepositNotes,
    LoanNotes,
}

/// Represent an amount of some value (like tokens, or notes)
#[derive(Clone, Copy, Debug, PartialEq, Eq, Structural)]
pub struct Amount {
    pub units: AmountUnits,
    pub value: u64,
}

/// The amount in tokens, at the reserve's note rates; `None` where the
/// conversion overflows.
pub open spec fn amount_tokens_spec(a: Amount, info: CachedReserveInfo) -> Option<nat> {
    match a.units {
        AmountUnits::Tokens => Some(a.value as nat),
        AmountUnits::DepositNotes => notes_to_tokens_spec(
            info.deposit_note_exchange_rate@,
            a.value as nat,
        ),
        AmountUnits::LoanNotes => notes_to_tokens_spec(info.loan_note_exchange_rate@, a.value as nat),
    }
}

/// The amount in deposit notes; `InvalidAmountUnits` for loan notes;
/// `None` where the conversion fails.
pub open spec fn as_deposit_notes_spec(a: Amount, info: CachedReserveInfo) -> Option<
    Result<nat, ErrorCode>,
> {
    match a.units {
        AmountUnits::Tokens => match notes_from_tokens_spec(
            info.deposit_note_exchange_rate@,
            a.value as nat,
        ) {
            Some(n) => Some(Ok(n)),
            None => None,
        },
        AmountUnits::DepositNotes => Some(Ok(a.value as nat)),
        AmountUnits::LoanNotes => Some(Err(ErrorCode::InvalidAmountUnits)),
    }
}

/// The amount in loan notes; `InvalidAmountUnits` for deposit notes;
/// `None` where the conversion fails.
pub open spec fn as_loan_notes_spec(a: Amount, info: CachedReserveInfo) -> Option<
    Result<nat, ErrorCode>,
> {
    match a.units {
        AmountUnits::Tokens => match notes_from_tokens_spec(
            info.loan_note_exchange_rate@,
            a.value as nat,
        ) {
            Some(n) => Some(Ok(n)),
            None => None,
        },
        AmountUnits::LoanNotes => Some(Ok(a.value as nat)),
        AmountUnits::DepositNotes => Some(Err(ErrorCode::InvalidAmountUnits)),
    }
}

/// A `u64` result of a conversion, compared with its description.
pub open spec fn result_matches(r: Result<u64, ErrorCode>, s: Result<nat, ErrorCode>) -> bool {
    match s {
        Ok(v) => r == Ok::<u64, ErrorCode>(v as u64) && v < 0x1_0000_0000_0000_0000,
        Err(e) => r == Err::<u64, ErrorCode>(e),
    }
}

impl Amount {
    /// Get the amount represented in tokens
    pub fn tokens(&self, reserve_info: &CachedReserveInfo) -> (r: u64)
        requires
            amount_tokens_spec(*self, *reserve_info) is Some,
        ensures
            r == amount_tokens_spec(*self, *reserve_info)->0,
    {
        match self.units {
            AmountUnits::Tokens => self.value,
            AmountUnits::DepositNotes => reserve_info.deposit_notes_to_tokens(self.value),
            AmountUnits::LoanNotes => reserve_info.loan_notes_to_tokens(self.value),
        }
    }

    /// Get the amount represented in deposit notes
    pub fn as_deposit_notes(&self, reserve_info: &CachedReserveInfo) -> (r: Result<u64, ErrorCode>)
        requires
            as_deposit_notes_spec(*self, *reserve_info) is Some,
        ensures
            result_matches(r, as_deposit_notes_spec(*self, *reserve_info)->0),
    {
        match self.units {
            AmountUnits::Tokens => Ok(reserve_info.deposit_notes_from_tokens(self.value)),
            AmountUnits::DepositNotes => Ok(self.value),
            AmountUnits::LoanNotes => Err(ErrorCode::InvalidAmountUnits),
        }
    }

    /// Get the amount represented in loan notes
    pub fn as_loan_notes(&self, reserve_info: &CachedReserveInfo) -> (r: Result<u64, ErrorCode>)
        requires
            as_loan_notes_spec(*self, *reserve_info) is Some,
        ensures
            result_matches(r, as_loan_notes_spec(*self, *reserve_info)->0),
    {
        match self.units {
            AmountUnits::Tokens => Ok(reserve_info.loan_notes_from_tokens(self.value)),
            AmountUnits::LoanNotes => Ok(self.value),
            AmountUnits::DepositNotes => Err(ErrorCode::InvalidAmountUnits),
        }
    }

    pub fn from_tokens(value: u64) -> (r: Amount)
        ensures
            r == (Amount { units: AmountUnits::Tokens, value }),
    {
        Amount { units: AmountUnits::Tokens, value }
    }

    pub fn from_deposit_notes(value: u64) -> (r: Amount)
        ensures
            r == (Amount { units: AmountUnits::DepositNotes, value }),
    {
        Amount { units: AmountUnits::DepositNotes, value }
    }

    pub fn from_loan_notes(value: u64) -> (r: Amount)
        ensures
            r == (Amount { units: AmountUnits::LoanNotes, value }),
    {
        Amount { units: AmountUnits::LoanNotes, value }
    }
}

/// An amount is worth its own value in its own units: tokens in tokens,
/// deposit notes in deposit notes, loan notes in loan notes.
pub proof fn lemma_amount_in_own_units(value: u64, info: CachedReserveInfo)
    ensures
        amount_tokens_spec(Amount { units: AmountUnits::Tokens, value }, info) == Some(
            value as nat,
        ),
        as_deposit_notes_spec(Amount { units: AmountUnits::DepositNotes, value }, info) == Some(
            Ok::<nat, ErrorCode>(value as nat),
        ),
        as_loan_notes_spec(Amount { units: AmountUnits::LoanNotes, value }, info) == Some(
            Ok::<nat, ErrorCode>(value as nat),
        ),
{
}

/// Notes of one kind are never taken for notes of the other kind.
pub proof fn lemma_note_kinds_not_mixed(value: u64, info: CachedReserveInfo)
    ensures
        as_deposit_notes_spec(Amount { units: AmountUnits::LoanNotes, value }, info) == Some(
            Err::<nat, ErrorCode>(ErrorCode::InvalidAmountUnits),
        ),
        as_loan_notes_spec(Amount { units: AmountUnits::DepositNotes, value }, info) == Some(
            Err::<nat, ErrorCode>(ErrorCode::InvalidAmountUnits),
        ),
{
}

} // verus!
