//! A collateralized-lending ledger: users stake a stable asset, borrow
//! against that stake at credit-score-tiered limits and rates, and anyone
//! may liquidate a loan that breaches its loan-to-value threshold or is
//! overdue.
//!
//! The crate is the protocol state machine alone. Moving units of the
//! stable asset between balance records is the host ledger's job: every
//! operation that moves value returns the list of [`transfer::TransferCmd`]
//! values the host must apply, and an operation that fails returns an error
//! and leaves every record unchanged, so the host commits an operation's
//! record changes and its transfers together or not at all.

pub mod errors;
pub mod laws;
pub mod oracle;
pub mod protocol;
pub mod state;
pub mod terms;
pub mod transfer;
