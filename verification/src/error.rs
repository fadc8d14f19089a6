//! Errors returned by the engine's entry points.
//!
//! Every failure is reported to the caller as an explicit error value and
//! leaves the state exactly as it was before the call.

use vstd::prelude::*;

verus! {

/// The failure cases of the engine.
#[derive(Clone, Copy, Debug, PartialEq, Eq, Structural)]
pub enum ContractError {
    /// A quantity is zero where a positive one is required, an amount
    /// rounds down to nothing, or an intermediate amount does not fit in
    /// the machine representation.
    InvalidAmount,
    /// An unbond quantity is not positive and within the account's balance,
    /// or the engine's working capital does not cover a release.
    InsufficientBalance,
    /// Bonding is disabled: the premium rate is below the configured gross
    /// rate floor.
    RateTooLow,
    /// The configuration's rate bounds are inconsistent; rejected at
    /// instantiation.
    RateOutOfBounds,
    /// The oracle gave no usable exchange rate; the tick aborts with the
    /// state unchanged.
    OracleUnavailable,
    /// No claim of the account has matured yet.
    NothingToClaim,
    /// The requested amount exceeds the sum of the account's matured claims.
    ClaimExceedsMatured,
    /// The sender is not the owner of the contract.
    Unauthorized,
}

} // verus!
