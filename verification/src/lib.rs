//! A custodial vault: it holds one fungible asset on behalf of many
//! independent depositors, tracks each depositor's balance, and enforces an
//! optional per-depositor time lock that blocks withdrawal until a chosen
//! future moment.
//!
//! The library is the vault state machine itself, over plain values: a
//! principal is a `u64` identity, the clock is a `u64` unix timestamp handed
//! in by the caller. Authentication, the asset transfer, the notification
//! channel and the durable store are external collaborators and stay
//! outside; a host shell performs them around the library's decisions.

pub mod aggregates;
pub mod errors;
pub mod laws;
pub mod table;
pub mod transitions;
pub mod vault;

pub use errors::VaultError;
pub use transitions::DepositOutcome;
pub use transitions::WithdrawOutcome;
pub use transitions::deposit_transition;
pub use transitions::timelock_transition;
pub use transitions::withdraw_transition;
pub use vault::VaultContract;
pub use vault::VaultInfo;
