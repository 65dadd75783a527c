//! The decisions of the program's instructions: what to transfer, mint or
//! record, given the accounts' contents.
pub mod deposit;
pub mod liquidate;
pub mod route;
