//! Liquidating part of an unhealthy obligation's debt.
use vstd::prelude::*;

use crate::amount::{amount_tokens_spec, Amount};
use crate::errors::ErrorCode;
use crate::number::{as_u64_rounded_spec, from_decimal_spec, Number};
use crate::pubkey::Pubkey;
use crate::state::market::{cached_reserve, MarketReserves, ReserveIndex};
use crate::state::obligation::{
    calculations_cached, healthy_with_values, is_healthy_spec, liquidate_spec, liquidate_with_totals,
    obligation_wf, side_market_value, Obligation,
};

verus! {

/// The collateral a liquidator receives, in the collateral reserve's
/// smallest units, for repaying `amount` of the debt held in reserve
/// `reserve_index` (whose token amounts have `reserve_exponent`
/// decimals): the obligation's loan and collateral values are computed
/// afresh; a healthy obligation cannot be liquidated (`ObligationHealthy`);
/// the repaid tokens are valued as a decimal and liquidated against the
/// obligation; the collateral notes are rounded to
/// `collateral_reserve_exponent` decimals, and less than `min_collateral`
/// is refused (`LiquidationLowCollateral`). `None` where a step panics.
pub open spec fn liquidation_transfer_spec(
    loans: Seq<crate::state::obligation::Position>,
    collateral: Seq<crate::state::obligation::Position>,
    m: MarketReserves,
    slot: u64,
    reserve_index: ReserveIndex,
    reserve_exponent: i32,
    collateral_reserve_exponent: i32,
    collateral_account: Pubkey,
    loan_account: Pubkey,
    amount: Amount,
    min_collateral: u64,
) -> Option<Result<nat, ErrorCode>> {
    match cached_reserve(m, reserve_index, slot) {
        None => None,
        Some(info) => match (side_market_value(loans, m, slot), side_market_value(collateral, m, slot)) {
            (Some(lv), Some(cv)) => match healthy_with_values(loans, m, slot, true, lv, cv) {
                None => None,
                Some(true) => Some(Err(ErrorCode::ObligationHealthy)),
                Some(false) => match amount_tokens_spec(amount, info) {
                    None => None,
                    Some(tokens) => match from_decimal_spec(tokens, reserve_exponent as int) {
                        None => None,
                        Some(repaid) => match liquidate_with_totals(
                            loans,
                            collateral,
                            m,
                            slot,
                            lv,
                            Some(cv),
                            collateral_account,
                            loan_account,
                            repaid,
                        ) {
                            None => None,
                            Some(Err(e)) => Some(Err(e)),
                            Some(Ok(notes)) => match as_u64_rounded_spec(
                                notes,
                                collateral_reserve_exponent as int,
                            ) {
                                None => None,
                                Some(c) => if c < min_collateral {
                                    Some(Err(ErrorCode::LiquidationLowCollateral))
                                } else {
                                    Some(Ok(c))
                                },
                            },
                        },
                    },
                },
            },
            _ => None,
        },
    }
}

/// The collateral to transfer to a liquidator (see
/// `liquidation_transfer_spec`). The obligation's cached values are
/// refreshed at `current_slot` on the way, whatever the outcome.
pub fn collateral_to_transfer(
    obligation: &mut Obligation,
    market: &MarketReserves,
    current_slot: u64,
    reserve_index: ReserveIndex,
    reserve_exponent: i32,
    collateral_reserve_exponent: i32,
    collateral_account: &Pubkey,
    loan_account: &Pubkey,
    amount: Amount,
    min_collateral: u64,
) -> (r: Result<u64, ErrorCode>)
    requires
        liquidation_transfer_spec(
            old(obligation).loans@,
            old(obligation).collateral@,
            *market,
            current_slot,
            reserve_index,
            reserve_exponent,
            collateral_reserve_exponent,
            *collateral_account,
            *loan_account,
            amount,
            min_collateral,
        ) is Some,
    ensures
        match liquidation_transfer_spec(
            old(obligation).loans@,
            old(obligation).collateral@,
            *market,
            current_slot,
            reserve_index,
            reserve_exponent,
            collateral_reserve_exponent,
            *collateral_account,
            *loan_account,
            amount,
            min_collateral,
        )->0 {
            Ok(c) => r == Ok::<u64, ErrorCode>(c as u64),
            Err(e) => r == Err::<u64, ErrorCode>(e),
        },
        final(obligation).loans == old(obligation).loans,
        final(obligation).collateral == old(obligation).collateral,
        obligation_wf(*old(obligation)) ==> obligation_wf(*final(obligation)),
        final(obligation).cached.last_updated == current_slot,
        !final(obligation).cached.invalidated,
        final(obligation).cached.value.loan_value@ == side_market_value(
            old(obligation).loans@,
            *market,
            current_slot,
        )->0,
        final(obligation).cached.value.collateral_value@ == side_market_value(
            old(obligation).collateral@,
            *market,
            current_slot,
        )->0,
{
    let reserve_info = *market.get_cached(reserve_index, current_slot);

    obligation.cache_calculations(market, current_slot);

    // First check that the obligation is unhealthy
    if obligation.is_healthy(market, current_slot) {
        return Err(ErrorCode::ObligationHealthy);
    }

    // Calclulate number of tokens being repaid to figure out the value
    let repaid_amount = Number::from_decimal(amount.tokens(&reserve_info), reserve_exponent);

    // Calculate the appropriate amount of the collateral that the
    // liquidator should receive in return for this repayment
    let collateral_amount = obligation.liquidate(
        market,
        current_slot,
        collateral_account,
        loan_account,
        repaid_amount,
    )?;

    let collateral_amount = collateral_amount.as_u64_rounded(collateral_reserve_exponent);

    if collateral_amount < min_collateral {
        return Err(ErrorCode::LiquidationLowCollateral);
    }
    Ok(collateral_amount)
}

/// A healthy obligation cannot be liquidated: where the reserve being
/// repaid is usable and the obligation's refreshed values make it healthy,
/// the liquidation is refused with `ObligationHealthy`, whatever amount is
/// repaid and whatever collateral is asked for.
pub proof fn lemma_healthy_refused(
    loans: Seq<crate::state::obligation::Position>,
    collateral: Seq<crate::state::obligation::Position>,
    m: MarketReserves,
    slot: u64,
    reserve_index: ReserveIndex,
    reserve_exponent: i32,
    collateral_reserve_exponent: i32,
    collateral_account: Pubkey,
    loan_account: Pubkey,
    amount: Amount,
    min_collateral: u64,
)
    requires
        cached_reserve(m, reserve_index, slot) is Some,
        side_market_value(loans, m, slot) is Some,
        side_market_value(collateral, m, slot) is Some,
        healthy_with_values(
            loans,
            m,
            slot,
            true,
            side_market_value(loans, m, slot)->0,
            side_market_value(collateral, m, slot)->0,
        ) == Some(true),
    ensures
        liquidation_transfer_spec(
            loans,
            collateral,
            m,
            slot,
            reserve_index,
            reserve_exponent,
            collateral_reserve_exponent,
            collateral_account,
            loan_account,
            amount,
            min_collateral,
        ) == Some(Err::<nat, ErrorCode>(ErrorCode::ObligationHealthy)),
{
}

/// The repaid tokens are valued in the debt's decimals: on an unhealthy
/// obligation, the collateral to transfer is what `Obligation::liquidate`
/// gives on the refreshed obligation for the repaid tokens read as a
/// decimal with `reserve_exponent` decimals (the exponent of the reserve
/// being repaid), rounded to `collateral_reserve_exponent` decimals and
/// refused below `min_collateral`.
pub proof fn lemma_transfer_liquidates_debt_tokens(
    before: Obligation,
    refreshed: Obligation,
    m: MarketReserves,
    slot: u64,
    reserve_index: ReserveIndex,
    reserve_exponent: i32,
    collateral_reserve_exponent: i32,
    collateral_account: Pubkey,
    loan_account: Pubkey,
    amount: Amount,
    min_collateral: u64,
)
    requires
        side_market_value(before.loans@, m, slot) is Some,
        side_market_value(before.collateral@, m, slot) is Some,
        calculations_cached(before, refreshed, m, slot),
        is_healthy_spec(refreshed, m, slot) == Some(false),
        cached_reserve(m, reserve_index, slot) is Some,
    ensures
        ({
            let tokens = amount_tokens_spec(amount, cached_reserve(m, reserve_index, slot)->0);
            let repaid = from_decimal_spec(tokens->0, reserve_exponent as int);
            let outcome = liquidation_transfer_spec(
                before.loans@,
                before.collateral@,
                m,
                slot,
                reserve_index,
                reserve_exponent,
                collateral_reserve_exponent,
                collateral_account,
                loan_account,
                amount,
                min_collateral,
            );
            (tokens is Some && repaid is Some) ==> outcome == match liquidate_spec(
                refreshed,
                m,
                slot,
                collateral_account,
                loan_account,
                repaid->0,
            ) {
                Some(Ok(notes)) => match as_u64_rounded_spec(notes, collateral_reserve_exponent as int) {
                    Some(c) => if c < min_collateral {
                        Some(Err(ErrorCode::LiquidationLowCollateral))
                    } else {
                        Some(Ok(c))
                    },
                    None => None,
                },
                Some(Err(e)) => Some(Err(e)),
                None => None,
            }
        }),
{
}

/// The collateral reserve's exponent only sets the final rounding: two
/// liquidations that differ in nothing else transfer the same collateral
/// notes, each rounded to its own exponent.
pub proof fn lemma_collateral_exponent_only_rounds(
    loans: Seq<crate::state::obligation::Position>,
    collateral: Seq<crate::state::obligation::Position>,
    m: MarketReserves,
    slot: u64,
    reserve_index: ReserveIndex,
    reserve_exponent: i32,
    exponent1: i32,
    exponent2: i32,
    collateral_account: Pubkey,
    loan_account: Pubkey,
    amount: Amount,
    min_collateral: u64,
)
    ensures
        liquidation_transfer_spec(
            loans,
            collateral,
            m,
            slot,
            reserve_index,
            reserve_exponent,
            exponent1,
            collateral_account,
            loan_account,
            amount,
            min_collateral,
        ) matches Some(Ok(c1)) ==> (liquidation_transfer_spec(
            loans,
            collateral,
            m,
            slot,
            reserve_index,
            reserve_exponent,
            exponent2,
            collateral_account,
            loan_account,
            amount,
            min_collateral,
        ) matches Some(Ok(c2)) ==> exists|notes: nat|
            #[trigger] as_u64_rounded_spec(notes, exponent1 as int) == Some(c1)
                && as_u64_rounded_spec(notes, exponent2 as int) == Some(c2)),
{
    let info = cached_reserve(m, reserve_index, slot)->0;
    let lv = side_market_value(loans, m, slot)->0;
    let cv = side_market_value(collateral, m, slot)->0;
    let repaid = from_decimal_spec(amount_tokens_spec(amount, info)->0, reserve_exponent as int)->0;
    let outcome = liquidate_with_totals(
        loans,
        collateral,
        m,
        slot,
        lv,
        Some(cv),
        collateral_account,
        loan_account,
        repaid,
    );
    if outcome matches Some(Ok(_)) {
        let notes = outcome->0->Ok_0;
        assert(as_u64_rounded_spec(notes, exponent1 as int) == as_u64_rounded_spec(
            notes,
            exponent1 as int,
        ));
    }
}

} // verus!
