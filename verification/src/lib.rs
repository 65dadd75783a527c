//! Lending obligations, market reserves and amounts.
pub mod amount;
pub mod errors;
pub mod instructions;
pub mod number;
pub mod pubkey;
pub mod state;
pub mod utils;

pub use amount::{Amount, AmountUnits};
