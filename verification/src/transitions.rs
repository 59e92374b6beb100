use vstd::prelude::*;

use crate::errors::VaultError;

verus! {

/// Each operation's decision, taken out of the surrounding storage reads and
/// writes: from the ledger entries the operation touches to either the values
/// to write back or the error to abort with. A host shell performs the
/// authentication, the asset transfer and the storage traffic around these.

/// Whether a stored lock still blocks withdrawal at `now`. A lock of zero
/// means "no lock" and never blocks.
pub open spec fn spec_lock_active(lock: int, now: int) -> bool {
    lock != 0 && now < lock
}

/// The error a deposit of `amount` aborts with, given the depositor's prior
/// balance and the two aggregates — or `None` where the deposit commits.
pub open spec fn spec_deposit_error(
    prev_balance: int,
    total: int,
    count: int,
    amount: int,
) -> Option<VaultError> {
    if amount <= 0 {
        Some(VaultError::InvalidAmount)
    } else if prev_balance + amount > i128::MAX || total + amount > i128::MAX || (prev_balance
        == 0 && count == u32::MAX) {
        Some(VaultError::Overflow)
    } else {
        None
    }
}

/// The error a withdrawal of `amount` aborts with at time `now`, given the
/// depositor's balance and lock — or `None` where the withdrawal commits.
/// The checks run in order: amount, then lock, then balance.
pub open spec fn spec_withdraw_error(
    balance: int,
    lock: int,
    now: int,
    amount: int,
) -> Option<VaultError> {
    if amount <= 0 {
        Some(VaultError::InvalidAmount)
    } else if spec_lock_active(lock, now) {
        Some(VaultError::FundsLocked)
    } else if amount > balance {
        Some(VaultError::InsufficientBalance)
    } else {
        None
    }
}

/// The error a lock request aborts with at time `now` — or `None` where the
/// lock is strictly in the future and is stored.
pub open spec fn spec_timelock_error(now: int, unlock_time: int) -> Option<VaultError> {
    if unlock_time <= now {
        Some(VaultError::InvalidUnlockTime)
    } else {
        None
    }
}

/// The values a committed deposit writes back.
#[derive(Clone, Copy, Debug, PartialEq, Eq, Structural)]
pub struct DepositOutcome {
    /// The depositor's balance after the deposit.
    pub new_balance: i128,
    /// The total deposited after the deposit.
    pub new_total: i128,
    /// The depositor count after the deposit.
    pub new_count: u32,
    /// Whether this deposit took the depositor's balance off zero.
    pub first_deposit: bool,
}

/// The values a committed withdrawal writes back.
#[derive(Clone, Copy, Debug, PartialEq, Eq, Structural)]
pub struct WithdrawOutcome {
    /// The depositor's balance after the withdrawal.
    pub new_balance: i128,
    /// The total deposited after the withdrawal.
    pub new_total: i128,
    /// The depositor count after the withdrawal.
    pub new_count: u32,
    /// Whether this withdrawal took the depositor's balance to exactly zero.
    pub fully_withdrawn: bool,
}

/// Decide a deposit of `amount` for a depositor whose stored balance is
/// `prev_balance`, with aggregates `total` and `count`. The preconditions are
/// the ledger's own invariants: balances are nonnegative and no balance
/// exceeds the total.
pub fn deposit_transition(prev_balance: i128, total: i128, count: u32, amount: i128) -> (r:
    Result<DepositOutcome, VaultError>)
    requires
        0 <= prev_balance <= total,
    ensures
        match r {
            Ok(o) => {
                &&& spec_deposit_error(
                    prev_balance as int,
                    total as int,
                    count as int,
                    amount as int,
                ) is None
                &&& o.new_balance == prev_balance + amount
                &&& o.new_total == total + amount
                &&& o.new_count == count + if prev_balance == 0 {
                    1int
                } else {
                    0int
                }
                &&& (o.first_deposit <==> prev_balance == 0)
            },
            Err(e) => Some(e) == spec_deposit_error(
                prev_balance as int,
                total as int,
                count as int,
                amount as int,
            ),
        },
{
    if amount <= 0 {
        return Err(VaultError::InvalidAmount);
    }
    if amount > i128::MAX - prev_balance || amount > i128::MAX - total {
        return Err(VaultError::Overflow);
    }
    if prev_balance == 0 && count == u32::MAX {
        return Err(VaultError::Overflow);
    }
    let first_deposit = prev_balance == 0;
    Ok(DepositOutcome {
        new_balance: prev_balance + amount,
        new_total: total + amount,
        new_count: if first_deposit {
            count + 1
        } else {
            count
        },
        first_deposit,
    })
}

/// Decide a withdrawal of `amount` at time `now` for a depositor whose
/// stored balance is `balance` and stored lock is `lock`, with aggregates
/// `total` and `count`. The preconditions are the ledger's own invariants.
pub fn withdraw_transition(
    balance: i128,
    lock: u64,
    now: u64,
    total: i128,
    count: u32,
    amount: i128,
) -> (r: Result<WithdrawOutcome, VaultError>)
    requires
        0 <= balance <= total,
    ensures
        match r {
            Ok(o) => {
                &&& spec_withdraw_error(balance as int, lock as int, now as int, amount as int)
                    is None
                &&& o.new_balance == balance - amount
                &&& o.new_total == total - amount
                &&& o.new_count == if balance == amount && count > 0 {
                    count - 1int
                } else {
                    count as int
                }
                &&& (o.fully_withdrawn <==> balance == amount)
            },
            Err(e) => Some(e) == spec_withdraw_error(
                balance as int,
                lock as int,
                now as int,
                amount as int,
            ),
        },
{
    if amount <= 0 {
        return Err(VaultError::InvalidAmount);
    }
    if lock > 0 && now < lock {
        return Err(VaultError::FundsLocked);
    }
    if amount > balance {
        return Err(VaultError::InsufficientBalance);
    }
    let new_balance = balance - amount;
    let fully_withdrawn = new_balance == 0;
    let new_count = if fully_withdrawn && count > 0 {
        count - 1
    } else {
        count
    };
    Ok(WithdrawOutcome { new_balance, new_total: total - amount, new_count, fully_withdrawn })
}

/// Decide a lock request for `unlock_time` at time `now`: the lock must lie
/// strictly in the future, and is stored as given.
pub fn timelock_transition(now: u64, unlock_time: u64) -> (r: Result<u64, VaultError>)
    ensures
        match r {
            Ok(t) => t == unlock_time && spec_timelock_error(now as int, unlock_time as int)
                is None,
            Err(e) => Some(e) == spec_timelock_error(now as int, unlock_time as int),
        },
{
    if unlock_time <= now {
        return Err(VaultError::InvalidUnlockTime);
    }
    Ok(unlock_time)
}

} // verus!
