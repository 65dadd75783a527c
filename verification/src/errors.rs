//! Errors returned by the lending program.
use vstd::prelude::*;

verus! {

/// The errors of the lending program.
#[derive(Clone, Copy, Debug, PartialEq, Eq, Structural)]
pub enum ErrorCode {
    /// Failed to perform some math operation safely.
    ArithmeticError,
    /// Oracle account provided is not valid.
    InvalidOracle,
    /// No free space left to add a new reserve in the market.
    NoFreeReserves,
    /// No free space left to add the new loan or collateral in an obligation.
    NoFreeObligation,
    /// The obligation account doesn't have any record of the loan or collateral account.
    UnregisteredPosition,
    /// The oracle price account has an invalid price value.
    InvalidOraclePrice,
    /// There is not enough collateral deposited to borrow against.
    InsufficientCollateral,
    /// Cannot both deposit collateral to and borrow from the same reserve.
    SimultaneousDepositAndBorrow,
    /// Cannot liquidate a healthy position.
    ObligationHealthy,
    /// Cannot perform an action that would leave the obligation unhealthy.
    ObligationUnhealthy,
    /// Reserve requires special action; call refresh_reserve until up to date.
    ExceptionalReserveState,
    /// The units provided in the amount are not valid for the instruction.
    InvalidAmountUnits,
    /// The tokens in the DEX market don't match the reserve and lending market quote token.
    InvalidDexMarketMints,
    /// The market authority provided doesn't match the market account.
    InvalidMarketAuthority,
    /// The quote token account provided cannot be used for liquidations.
    InvalidLiquidationQuoteTokenAccount,
    /// The obligation account doesn't have the collateral/loan registered.
    ObligationAccountMismatch,
    /// Unknown instruction.
    UnknownInstruction,
    /// Current conditions prevent an action from being performed.
    Disallowed,
    /// The actual slipped amount on the DEX trade exceeded the threshold configured.
    LiquidationSwapSlipped,
    /// The collateral value is too small for a DEX trade.
    CollateralValueTooSmall,
    /// The collateral returned by the liquidation is smaller than requested.
    LiquidationLowCollateral,
    /// This action is currently not supported by this version of the program.
    NotSupported,
}

/// The message that describes each error.
pub open spec fn error_message(e: ErrorCode) -> Seq<char> {
    match e {
        ErrorCode::ArithmeticError => "failed to perform some math operation safely"@,
        ErrorCode::InvalidOracle => "oracle account provided is not valid"@,
        ErrorCode::NoFreeReserves => "no free space left to add a new reserve in the market"@,
        ErrorCode::NoFreeObligation => "no free space left to add the new loan or collateral in an obligation"@,
        ErrorCode::UnregisteredPosition => "the obligation account doesn't have any record of the loan or collateral account"@,
        ErrorCode::InvalidOraclePrice => "the oracle price account has an invalid price value"@,
        ErrorCode::InsufficientCollateral => "there is not enough collateral deposited to borrow against"@,
        ErrorCode::SimultaneousDepositAndBorrow => "cannot both deposit collateral to and borrow from the same reserve"@,
        ErrorCode::ObligationHealthy => "cannot liquidate a healthy position"@,
        ErrorCode::ObligationUnhealthy => "cannot perform an action that would leave the obligation unhealthy"@,
        ErrorCode::ExceptionalReserveState => "reserve requires special action; call refresh_reserve until up to date"@,
        ErrorCode::InvalidAmountUnits => "the units provided in the amount are not valid for the instruction"@,
        ErrorCode::InvalidDexMarketMints => "the tokens in the DEX market don't match the reserve and lending market quote token"@,
        ErrorCode::InvalidMarketAuthority => "the market authority provided doesn't match the market account"@,
        ErrorCode::InvalidLiquidationQuoteTokenAccount => "the quote token account provided cannot be used for liquidations"@,
        ErrorCode::ObligationAccountMismatch => "the obligation account doesn't have the collateral/loan registered"@,
        ErrorCode::UnknownInstruction => "unknown instruction"@,
        ErrorCode::Disallowed => "current conditions prevent an action from being performed"@,
        ErrorCode::LiquidationSwapSlipped => "the actual slipped amount on the DEX trade exceeded the threshold configured"@,
        ErrorCode::CollateralValueTooSmall => "the collateral value is too small for a DEX trade"@,
        ErrorCode::LiquidationLowCollateral => "the collateral returned by the liquidation is smaller than requested"@,
        ErrorCode::NotSupported => "this action is currently not supported by this version of the program"@,
    }
}

impl ErrorCode {
    /// The message that describes this error.
    pub fn message(&self) -> (r: &'static str)
        ensures
            r@ == error_message(*self),
    {
        match self {
            ErrorCode::ArithmeticError => "failed to perform some math operation safely",
            ErrorCode::InvalidOracle => "oracle account provided is not valid",
            ErrorCode::NoFreeReserves => "no free space left to add a new reserve in the market",
            ErrorCode::NoFreeObligation => "no free space left to add the new loan or collateral in an obligation",
            ErrorCode::UnregisteredPosition => "the obligation account doesn't have any record of the loan or collateral account",
            ErrorCode::InvalidOraclePrice => "the oracle price account has an invalid price value",
            ErrorCode::InsufficientCollateral => "there is not enough collateral deposited to borrow against",
            ErrorCode::SimultaneousDepositAndBorrow => "cannot both deposit collateral to and borrow from the same reserve",
            ErrorCode::ObligationHealthy => "cannot liquidate a healthy position",
            ErrorCode::ObligationUnhealthy => "cannot perform an action that would leave the obligation unhealthy",
            ErrorCode::ExceptionalReserveState => "reserve requires special action; call refresh_reserve until up to date",
            ErrorCode::InvalidAmountUnits => "the units provided in the amount are not valid for the instruction",
            ErrorCode::InvalidDexMarketMints => "the tokens in the DEX market don't match the reserve and lending market quote token",
            ErrorCode::InvalidMarketAuthority => "the market authority provided doesn't match the market account",
            ErrorCode::InvalidLiquidationQuoteTokenAccount => "the quote token account provided cannot be used for liquidations",
            ErrorCode::ObligationAccountMismatch => "the obligation account doesn't have the collateral/loan registered",
            ErrorCode::UnknownInstruction => "unknown instruction",
            ErrorCode::Disallowed => "current conditions prevent an action from being performed",
            ErrorCode::LiquidationSwapSlipped => "the actual slipped amount on the DEX trade exceeded the threshold configured",
            ErrorCode::CollateralValueTooSmall => "the collateral value is too small for a DEX trade",
            ErrorCode::LiquidationLowCollateral => "the collateral returned by the liquidation is smaller than requested",
            ErrorCode::NotSupported => "this action is currently not supported by this version of the program",
        }
    }
}

/// The error type of jet_proto_math's arithmetic (`Overflow`,
/// `DivideByZero`), carried through opaquely.
#[verifier::external_type_specification]
#[verifier::external_body]
pub struct ExMathError(jet_proto_math::Error);

impl From<jet_proto_math::Error> for ErrorCode {
    /// Every arithmetic error is an `ArithmeticError`.
    fn from(_err: jet_proto_math::Error) -> (r: ErrorCode) {
        ErrorCode::ArithmeticError
    }
}

impl vstd::std_specs::convert::FromSpecImpl<jet_proto_math::Error> for ErrorCode {
    open spec fn obeys_from_spec() -> bool {
        true
    }

    open spec fn from_spec(v: jet_proto_math::Error) -> ErrorCode {
        ErrorCode::ArithmeticError
    }
}

} // verus!
