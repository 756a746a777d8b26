use vstd::prelude::*;

verus! {

/// The typed failures an operation can surface to its caller.
///
/// Every precondition violation aborts the whole operation: the caller gets
/// exactly one of these and no record changes or transfers.
#[derive(Clone, Copy, Debug, PartialEq, Eq, Structural)]
pub enum LendingError {
    /// A submitted credit score lies outside 0..=100.
    InvalidCreditScore,
    /// Reserved for stake-side shortfalls; no operation raises it yet.
    InsufficientStake,
    /// Reserved for lockup enforcement; no operation raises it yet.
    StakeLockupActive,
    /// A requested loan amount exceeds the tiered maximum for the stake.
    LoanExceedsCollateral,
    /// The named loan is not active, or meets no liquidation condition.
    LoanNotLiquidatable,
    /// The oracle attestation over the loan request did not verify.
    InvalidOracleSignature,
    /// The caller does not own the named record.
    Unauthorized,
    /// A parameter given to `initialize` lies outside its allowed range.
    InvalidProtocolParams,
}

} // verus!
