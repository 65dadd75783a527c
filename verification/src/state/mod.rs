//! Account state: markets, reserves and obligations.
pub mod cache;
pub mod market;
pub mod obligation;
