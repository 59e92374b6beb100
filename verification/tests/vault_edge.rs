use vault::deposit_transition;
use vault::timelock_transition;
use vault::withdraw_transition;
use vault::VaultContract;
use vault::VaultError;

#[test]
fn full_lifecycle_scenario() {
    let mut v = VaultContract::new();
    v.initialize(1, 100).unwrap();

    v.deposit(2, 500_000_000).unwrap();
    assert_eq!(v.get_balance(2), 500_000_000);
    let info = v.get_vault_info().unwrap();
    assert_eq!(info.total_deposited, 500_000_000);
    assert_eq!(info.deposit_count, 1);

    v.deposit(2, 200_000_000).unwrap();
    assert_eq!(v.get_balance(2), 700_000_000);
    let info = v.get_vault_info().unwrap();
    assert_eq!(info.total_deposited, 700_000_000);
    assert_eq!(info.deposit_count, 1);

    v.withdraw(2, 700_000_000, 0).unwrap();
    assert_eq!(v.get_balance(2), 0);
    let info = v.get_vault_info().unwrap();
    assert_eq!(info.total_deposited, 0);
    assert_eq!(info.deposit_count, 0);
}

#[test]
fn lock_set_before_first_deposit() {
    let mut v = VaultContract::new();
    v.initialize(1, 100).unwrap();

    // A lock may exist with zero balance; it does not block deposits.
    v.set_timelock(3, 3600, 0).unwrap();
    assert_eq!(v.get_timelock(3), 3600);
    assert_eq!(v.get_balance(3), 0);

    v.deposit(3, 250_000).unwrap();
    assert_eq!(v.get_balance(3), 250_000);

    // Before the unlock timestamp the funds stay locked ...
    assert_eq!(v.withdraw(3, 250_000, 3599), Err(VaultError::FundsLocked));
    // ... and exactly at it they are free.
    v.withdraw(3, 250_000, 3600).unwrap();
    assert_eq!(v.get_balance(3), 0);
}

#[test]
fn lock_survives_full_withdrawal() {
    let mut v = VaultContract::new();
    v.initialize(1, 100).unwrap();

    v.deposit(4, 1_000).unwrap();
    v.set_timelock(4, 500, 100).unwrap();
    v.withdraw(4, 1_000, 600).unwrap();

    // The lock entry persists after the balance returned to zero ...
    assert_eq!(v.get_timelock(4), 500);
    // ... and applies to a later re-deposit only while still in the future.
    v.deposit(4, 2_000).unwrap();
    v.withdraw(4, 2_000, 700).unwrap();
    assert_eq!(v.get_balance(4), 0);
}

#[test]
fn distinct_principals_are_counted_once_each() {
    let mut v = VaultContract::new();
    v.initialize(1, 100).unwrap();

    v.deposit(10, 5).unwrap();
    v.deposit(11, 7).unwrap();
    v.deposit(10, 3).unwrap();

    let info = v.get_vault_info().unwrap();
    assert_eq!(info.deposit_count, 2);
    assert_eq!(info.total_deposited, 15);
    assert_eq!(v.get_balance(10), 8);
    assert_eq!(v.get_balance(11), 7);

    v.withdraw(10, 8, 0).unwrap();
    let info = v.get_vault_info().unwrap();
    assert_eq!(info.deposit_count, 1);
    assert_eq!(info.total_deposited, 7);
}

#[test]
fn round_trip_restores_prior_balance() {
    let mut v = VaultContract::new();
    v.initialize(1, 100).unwrap();
    v.deposit(2, 100).unwrap();
    v.deposit(9, 55).unwrap();

    // Depositing then withdrawing the same amount restores everything.
    v.deposit(2, 40).unwrap();
    v.withdraw(2, 40, 0).unwrap();

    assert_eq!(v.get_balance(2), 100);
    assert_eq!(v.get_balance(9), 55);
    let info = v.get_vault_info().unwrap();
    assert_eq!(info.total_deposited, 155);
    assert_eq!(info.deposit_count, 2);
}

#[test]
fn deposit_rejects_non_positive_amounts() {
    let mut v = VaultContract::new();
    v.initialize(1, 100).unwrap();

    assert_eq!(v.deposit(2, 0), Err(VaultError::InvalidAmount));
    assert_eq!(v.deposit(2, -5), Err(VaultError::InvalidAmount));
    assert_eq!(v.get_balance(2), 0);
}

#[test]
fn withdraw_rejects_non_positive_amounts() {
    let mut v = VaultContract::new();
    v.initialize(1, 100).unwrap();
    v.deposit(2, 10).unwrap();

    assert_eq!(v.withdraw(2, 0, 0), Err(VaultError::InvalidAmount));
    assert_eq!(v.withdraw(2, -1, 0), Err(VaultError::InvalidAmount));
    assert_eq!(v.get_balance(2), 10);
}

#[test]
fn deposit_before_initialize_is_rejected() {
    let mut v = VaultContract::new();
    assert_eq!(v.deposit(2, 1), Err(VaultError::NotInitialized));
    assert_eq!(v.get_balance(2), 0);
}

#[test]
fn vault_info_before_initialize_is_rejected() {
    let v = VaultContract::new();
    assert_eq!(v.get_vault_info(), Err(VaultError::NotInitialized));
}

#[test]
fn unlock_time_must_lie_in_the_future() {
    let mut v = VaultContract::new();
    v.initialize(1, 100).unwrap();

    assert_eq!(v.set_timelock(2, 1000, 1000), Err(VaultError::InvalidUnlockTime));
    assert_eq!(v.set_timelock(2, 999, 1000), Err(VaultError::InvalidUnlockTime));
    assert_eq!(v.get_timelock(2), 0);

    v.set_timelock(2, 1001, 1000).unwrap();
    assert_eq!(v.get_timelock(2), 1001);
}

#[test]
fn a_later_lock_overwrites_an_earlier_one() {
    let mut v = VaultContract::new();
    v.initialize(1, 100).unwrap();

    v.set_timelock(2, 5000, 0).unwrap();
    v.set_timelock(2, 2000, 0).unwrap();
    assert_eq!(v.get_timelock(2), 2000);
}

#[test]
fn zero_lock_never_blocks() {
    let mut v = VaultContract::new();
    v.initialize(1, 100).unwrap();
    v.deposit(2, 50).unwrap();

    // No lock was ever set: the default of zero permits withdrawal at any time.
    assert_eq!(v.get_timelock(2), 0);
    v.withdraw(2, 50, 0).unwrap();
}

#[test]
fn deposit_overflowing_the_balance_is_rejected() {
    let mut v = VaultContract::new();
    v.initialize(1, 100).unwrap();

    v.deposit(2, i128::MAX).unwrap();
    assert_eq!(v.get_balance(2), i128::MAX);

    assert_eq!(v.deposit(2, 1), Err(VaultError::Overflow));
    assert_eq!(v.deposit(3, 1), Err(VaultError::Overflow));
    assert_eq!(v.get_balance(2), i128::MAX);
    assert_eq!(v.get_vault_info().unwrap().total_deposited, i128::MAX);
}

#[test]
fn deposit_transition_exact_values() {
    let out = deposit_transition(0, 0, 0, 500_000_000).unwrap();
    assert_eq!(out.new_balance, 500_000_000);
    assert_eq!(out.new_total, 500_000_000);
    assert_eq!(out.new_count, 1);
    assert!(out.first_deposit);

    let out = deposit_transition(500_000_000, 500_000_000, 1, 200_000_000).unwrap();
    assert_eq!(out.new_balance, 700_000_000);
    assert_eq!(out.new_total, 700_000_000);
    assert_eq!(out.new_count, 1);
    assert!(!out.first_deposit);

    assert_eq!(deposit_transition(0, 0, 0, 0), Err(VaultError::InvalidAmount));
    assert_eq!(deposit_transition(1, i128::MAX, 1, 1), Err(VaultError::Overflow));
    assert_eq!(deposit_transition(0, 0, u32::MAX, 1), Err(VaultError::Overflow));
}

#[test]
fn withdraw_transition_exact_values() {
    let out = withdraw_transition(700_000_000, 0, 0, 700_000_000, 1, 700_000_000).unwrap();
    assert_eq!(out.new_balance, 0);
    assert_eq!(out.new_total, 0);
    assert_eq!(out.new_count, 0);
    assert!(out.fully_withdrawn);

    let out = withdraw_transition(600_000_000, 0, 0, 600_000_000, 1, 250_000_000).unwrap();
    assert_eq!(out.new_balance, 350_000_000);
    assert_eq!(out.new_total, 350_000_000);
    assert_eq!(out.new_count, 1);
    assert!(!out.fully_withdrawn);

    assert_eq!(withdraw_transition(5, 0, 0, 5, 1, 0), Err(VaultError::InvalidAmount));
    assert_eq!(withdraw_transition(5, 9, 8, 5, 1, 5), Err(VaultError::FundsLocked));
    assert_eq!(withdraw_transition(5, 9, 9, 5, 1, 6), Err(VaultError::InsufficientBalance));
}

#[test]
fn timelock_transition_exact_values() {
    assert_eq!(timelock_transition(1000, 5000), Ok(5000));
    assert_eq!(timelock_transition(1000, 1000), Err(VaultError::InvalidUnlockTime));
    assert_eq!(timelock_transition(1000, 999), Err(VaultError::InvalidUnlockTime));
}
