use jet::errors::ErrorCode;
use jet::instructions::deposit::deposit_amounts;
use jet::number::Number;
use jet::state::market::CachedReserveInfo;
use jet::{Amount, AmountUnits};

fn info() -> CachedReserveInfo {
    let mut info = CachedReserveInfo::zeroed();
    info.price = Number::from_u64(7);
    info.deposit_note_exchange_rate = Number::from_u64(2);
    info.loan_note_exchange_rate = Number::from_u64(4);
    info
}

#[test]
fn amount_constructors() {
    assert_eq!(
        Amount::from_tokens(5),
        Amount { units: AmountUnits::Tokens, value: 5 }
    );
    assert_eq!(Amount::from_deposit_notes(6).units, AmountUnits::DepositNotes);
    assert_eq!(Amount::from_loan_notes(7).units, AmountUnits::LoanNotes);
    assert_eq!(Amount::from_loan_notes(7).value, 7);
}

#[test]
fn amount_in_tokens() {
    let info = info();
    assert_eq!(Amount::from_tokens(10).tokens(&info), 10);
    assert_eq!(Amount::from_deposit_notes(10).tokens(&info), 20);
    assert_eq!(Amount::from_loan_notes(10).tokens(&info), 40);
}

#[test]
fn amount_in_notes() {
    let info = info();
    assert_eq!(Amount::from_tokens(10).as_deposit_notes(&info), Ok(5));
    assert_eq!(Amount::from_deposit_notes(10).as_deposit_notes(&info), Ok(10));
    assert_eq!(
        Amount::from_loan_notes(10).as_deposit_notes(&info),
        Err(ErrorCode::InvalidAmountUnits)
    );
    assert_eq!(Amount::from_tokens(10).as_loan_notes(&info), Ok(2));
    assert_eq!(Amount::from_loan_notes(10).as_loan_notes(&info), Ok(10));
    assert_eq!(
        Amount::from_deposit_notes(10).as_loan_notes(&info),
        Err(ErrorCode::InvalidAmountUnits)
    );
}

#[test]
fn reserve_note_conversions() {
    let info = info();
    assert_eq!(info.deposit_note_price(), Number::from_u64(14));
    assert_eq!(info.loan_note_price(), Number::from_u64(28));
    assert_eq!(info.deposit_notes_to_tokens(3), 6);
    assert_eq!(info.deposit_notes_from_tokens(7), 3);
    assert_eq!(info.loan_notes_to_tokens(3), 12);
    assert_eq!(info.loan_notes_from_tokens(9), 2);
}

#[test]
fn deposit_amounts_per_units() {
    let info = info();
    assert_eq!(deposit_amounts(&Amount::from_tokens(10), &info), Ok((10, 5)));
    assert_eq!(
        deposit_amounts(&Amount::from_deposit_notes(5), &info),
        Ok((10, 5))
    );
    assert_eq!(
        deposit_amounts(&Amount::from_loan_notes(5), &info),
        Err(ErrorCode::InvalidAmountUnits)
    );
}
