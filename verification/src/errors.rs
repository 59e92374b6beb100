use vstd::prelude::*;

verus! {

/// Failure modes of the vault's operations. Every failure is a precondition
/// violation, surfaced as an immediate abort of the whole operation with no
/// state change.
#[derive(Clone, Copy, Debug, PartialEq, Eq, Structural)]
pub enum VaultError {
    /// A second `initialize` after one has already run.
    AlreadyInitialized,
    /// A deposit, or a statistics read, before `initialize` has run.
    NotInitialized,
    /// A deposit or withdrawal amount that is not strictly positive.
    InvalidAmount,
    /// A withdrawal while the caller's time lock is still active.
    FundsLocked,
    /// A withdrawal of strictly more than the caller's stored balance.
    InsufficientBalance,
    /// A lock time that is not strictly in the future.
    InvalidUnlockTime,
    /// An operation that would push a balance, the total, or the depositor
    /// count past its integer range; the vault fails rather than wraps.
    Overflow,
}

} // verus!
