use vstd::prelude::*;

use crate::aggregates::balances_nonneg;
use crate::aggregates::lemma_aggregates_push;
use crate::aggregates::lemma_aggregates_update;
use crate::aggregates::lemma_find_le_sum;
use crate::aggregates::lemma_positive_find_counts;
use crate::aggregates::positive_count;
use crate::aggregates::sum_balances;
use crate::errors::VaultError;
use crate::table::keys_distinct;
use crate::table::lemma_find_absent;
use crate::table::lemma_find_present;
use crate::table::lemma_find_push;
use crate::table::lemma_find_update_other;
use crate::table::lemma_find_update_same;
use crate::table::lookup;
use crate::table::spec_find;
use crate::table::spec_has_key;
use crate::table::store;
use crate::transitions::deposit_transition;
use crate::transitions::spec_deposit_error;
use crate::transitions::spec_timelock_error;
use crate::transitions::spec_withdraw_error;
use crate::transitions::timelock_transition;
use crate::transitions::withdraw_transition;

verus! {

/// The vault's statistics record: the immutable configuration set at
/// initialization and the two aggregate scalars.
#[derive(Clone, Copy, Debug, PartialEq, Eq, Structural)]
pub struct VaultInfo {
    /// The administrator's principal identity.
    pub admin: u64,
    /// The accepted asset's identifier.
    pub token: u64,
    /// Sum of all stored balances.
    pub total_deposited: i128,
    /// Number of principals with a strictly positive balance.
    pub deposit_count: u32,
}

/// The vault state machine: one instance's whole stored state, over plain
/// values. Principals and assets are `u64` identities; the ledger clock is a
/// `u64` unix timestamp handed to each time-dependent operation.
pub struct VaultContract {
    admin: Option<u64>,
    token: Option<u64>,
    balances: Vec<(u64, i128)>,
    timelocks: Vec<(u64, u64)>,
    total_deposited: i128,
    deposit_count: u32,
}

impl VaultContract {
    /// The balance ledger: one entry per principal that has ever deposited.
    pub closed spec fn balances_seq(self) -> Seq<(u64, i128)> {
        self.balances@
    }

    /// The lock ledger: one entry per principal that has ever set a lock.
    pub closed spec fn timelocks_seq(self) -> Seq<(u64, u64)> {
        self.timelocks@
    }

    /// The administrator, once `initialize` has stored one.
    pub closed spec fn spec_admin(self) -> Option<u64> {
        self.admin
    }

    /// The accepted asset, once `initialize` has stored one.
    pub closed spec fn spec_token(self) -> Option<u64> {
        self.token
    }

    /// The stored total-deposited scalar.
    pub closed spec fn spec_total(self) -> int {
        self.total_deposited as int
    }

    /// The stored depositor-count scalar.
    pub closed spec fn spec_count(self) -> int {
        self.deposit_count as int
    }

    /// Whether `initialize` has run.
    pub open spec fn is_initialized(self) -> bool {
        self.spec_admin() is Some
    }

    /// A principal's balance, zero where it has never deposited.
    pub open spec fn balance_of(self, principal: u64) -> int {
        spec_find(self.balances_seq(), principal, 0i128) as int
    }

    /// A principal's unlock timestamp, zero where it has never set a lock
    /// (zero means "no lock").
    pub open spec fn timelock_of(self, principal: u64) -> int {
        spec_find(self.timelocks_seq(), principal, 0u64) as int
    }

    /// Well-formedness: what holds of the stored state after every committed
    /// operation. Each ledger holds one entry per principal, every balance is
    /// nonnegative, the two aggregates agree with the balance ledger, the
    /// configuration is set as a whole, and nothing can be deposited before
    /// initialization.
    pub open spec fn wf(self) -> bool {
        &&& keys_distinct(self.balances_seq())
        &&& keys_distinct(self.timelocks_seq())
        &&& balances_nonneg(self.balances_seq())
        &&& self.spec_total() == sum_balances(self.balances_seq())
        &&& self.spec_count() == positive_count(self.balances_seq())
        &&& (self.spec_admin() is Some <==> self.spec_token() is Some)
        &&& (!self.is_initialized() ==> self.balances_seq().len() == 0)
    }

    /// A fresh, uninitialized vault instance.
    pub fn new() -> (v: VaultContract)
        ensures
            v.wf(),
            !v.is_initialized(),
            v.spec_total() == 0,
            v.spec_count() == 0,
            v.balances_seq().len() == 0,
            v.timelocks_seq().len() == 0,
            forall|p: u64| #[trigger] v.balance_of(p) == 0,
            forall|p: u64| #[trigger] v.timelock_of(p) == 0,
    {
        VaultContract {
            admin: None,
            token: None,
            balances: Vec::new(),
            timelocks: Vec::new(),
            total_deposited: 0,
            deposit_count: 0,
        }
    }

    /// Store the admin and the accepted asset, once. A second call always
    /// fails with `AlreadyInitialized`, whatever its arguments, and changes
    /// nothing.
    pub fn initialize(&mut self, admin: u64, token: u64) -> (r: Result<(), VaultError>)
        requires
            old(self).wf(),
        ensures
            final(self).wf(),
            match r {
                Ok(()) => {
                    &&& !old(self).is_initialized()
                    &&& final(self).spec_admin() == Some(admin)
                    &&& final(self).spec_token() == Some(token)
                    &&& final(self).spec_total() == 0
                    &&& final(self).spec_count() == 0
                    &&& final(self).balances_seq() == old(self).balances_seq()
                    &&& final(self).timelocks_seq() == old(self).timelocks_seq()
                },
                Err(e) => {
                    &&& e == VaultError::AlreadyInitialized
                    &&& old(self).is_initialized()
                    &&& *final(self) == *old(self)
                },
            },
    {
        if self.admin.is_some() {
            return Err(VaultError::AlreadyInitialized);
        }
        self.admin = Some(admin);
        self.token = Some(token);
        self.total_deposited = 0;
        self.deposit_count = 0;
        Ok(())
    }

    /// The error a deposit aborts with, or `None` where it commits: the
    /// amount must be positive, the vault initialized, and nothing may
    /// overflow. The checks run in that order.
    pub open spec fn deposit_error_of(self, depositor: u64, amount: int) -> Option<VaultError> {
        if amount <= 0 {
            Some(VaultError::InvalidAmount)
        } else if !self.is_initialized() {
            Some(VaultError::NotInitialized)
        } else {
            spec_deposit_error(self.balance_of(depositor), self.spec_total(), self.spec_count(), amount)
        }
    }

    /// What a committed deposit did: the depositor's balance and the total
    /// grew by the amount, the count grew exactly where the depositor came
    /// off zero, and everything else stayed.
    pub open spec fn deposit_committed(
        pre: VaultContract,
        post: VaultContract,
        depositor: u64,
        amount: i128,
    ) -> bool {
        &&& post.balance_of(depositor) == pre.balance_of(depositor) + amount
        &&& (forall|q: u64|
            q != depositor ==> #[trigger] post.balance_of(q) == pre.balance_of(q))
        &&& post.spec_total() == pre.spec_total() + amount
        &&& post.spec_count() == pre.spec_count() + (if pre.balance_of(depositor) == 0 {
            1int
        } else {
            0int
        })
        &&& post.timelocks_seq() == pre.timelocks_seq()
        &&& post.spec_admin() == pre.spec_admin()
        &&& post.spec_token() == pre.spec_token()
    }

    /// Credit `amount` to the depositor's balance. The external asset
    /// transfer into the vault has already succeeded when this ledger update
    /// runs; on any error nothing changes and the transfer must not happen.
    pub fn deposit(&mut self, depositor: u64, amount: i128) -> (r: Result<(), VaultError>)
        requires
            old(self).wf(),
        ensures
            final(self).wf(),
            match r {
                Ok(()) => {
                    &&& old(self).deposit_error_of(depositor, amount as int) is None
                    &&& Self::deposit_committed(*old(self), *final(self), depositor, amount)
                },
                Err(e) => {
                    &&& Some(e) == old(self).deposit_error_of(depositor, amount as int)
                    &&& *final(self) == *old(self)
                },
            },
    {
        if amount <= 0 {
            return Err(VaultError::InvalidAmount);
        }
        if self.token.is_none() {
            return Err(VaultError::NotInitialized);
        }
        let ghost pre = *self;
        let prev = lookup(&self.balances, depositor, 0i128);
        proof {
            lemma_find_le_sum(pre.balances_seq(), depositor);
        }
        let outcome = match deposit_transition(prev, self.total_deposited, self.deposit_count, amount) {
            Ok(o) => o,
            Err(e) => {
                return Err(e);
            },
        };
        store(&mut self.balances, depositor, outcome.new_balance);
        self.total_deposited = outcome.new_total;
        self.deposit_count = outcome.new_count;
        proof {
            let s0 = pre.balances_seq();
            let s1 = self.balances@;
            if spec_has_key(s0, depositor) {
                let i = choose|i: int|
                    0 <= i < s0.len() && (#[trigger] s0[i]).0 == depositor && s1 == s0.update(
                        i,
                        (depositor, outcome.new_balance),
                    );
                lemma_find_present(s0, depositor, i, 0i128);
                lemma_aggregates_update(s0, i, (depositor, outcome.new_balance));
                lemma_find_update_same(s0, i, depositor, outcome.new_balance, 0i128);
                assert forall|q: u64| q != depositor implies #[trigger] self.balance_of(q)
                    == pre.balance_of(q) by {
                    lemma_find_update_other(s0, i, (depositor, outcome.new_balance), q, 0i128);
                }
                assert(balances_nonneg(s1)) by {
                    assert forall|k: int| 0 <= k < s1.len() implies (#[trigger] s1[k]).1 >= 0 by {
                        if k != i {
                            assert(s1[k] == s0[k]);
                        }
                    }
                }
            } else {
                lemma_find_absent(s0, depositor, 0i128);
                lemma_aggregates_push(s0, (depositor, outcome.new_balance));
                assert forall|q: u64| #[trigger] self.balance_of(q) == (if q == depositor {
                    outcome.new_balance as int
                } else {
                    pre.balance_of(q)
                }) by {
                    lemma_find_push(s0, (depositor, outcome.new_balance), q, 0i128);
                }
                assert(balances_nonneg(s1)) by {
                    assert forall|k: int| 0 <= k < s1.len() implies (#[trigger] s1[k]).1 >= 0 by {
                        if k < s0.len() {
                            assert(s1[k] == s0[k]);
                        }
                    }
                }
            }
        }
        Ok(())
    }

    /// The error a withdrawal aborts with at `now`, or `None` where it
    /// commits: the amount must be positive, the lock must not be active,
    /// and the amount must not exceed the stored balance, checked in that
    /// order.
    pub open spec fn withdraw_error_of(self, depositor: u64, amount: int, now: int) -> Option<
        VaultError,
    > {
        spec_withdraw_error(self.balance_of(depositor), self.timelock_of(depositor), now, amount)
    }

    /// What a committed withdrawal did: the depositor's balance and the
    /// total shrank by the amount, the count shrank exactly where the
    /// balance reached zero, and everything else stayed.
    pub open spec fn withdraw_committed(
        pre: VaultContract,
        post: VaultContract,
        depositor: u64,
        amount: i128,
    ) -> bool {
        &&& post.balance_of(depositor) == pre.balance_of(depositor) - amount
        &&& (forall|q: u64|
            q != depositor ==> #[trigger] post.balance_of(q) == pre.balance_of(q))
        &&& post.spec_total() == pre.spec_total() - amount
        &&& post.spec_count() == pre.spec_count() - (if pre.balance_of(depositor) == amount {
            1int
        } else {
            0int
        })
        &&& post.timelocks_seq() == pre.timelocks_seq()
        &&& post.spec_admin() == pre.spec_admin()
        &&& post.spec_token() == pre.spec_token()
    }

    /// Debit `amount` from the depositor's balance at time `now`, respecting
    /// any active lock. The external asset transfer out of the vault runs
    /// only where this commits; on any error nothing changes.
    pub fn withdraw(&mut self, depositor: u64, amount: i128, now: u64) -> (r: Result<
        (),
        VaultError,
    >)
        requires
            old(self).wf(),
        ensures
            final(self).wf(),
            match r {
                Ok(()) => {
                    &&& old(self).withdraw_error_of(depositor, amount as int, now as int) is None
                    &&& Self::withdraw_committed(*old(self), *final(self), depositor, amount)
                },
                Err(e) => {
                    &&& Some(e) == old(self).withdraw_error_of(depositor, amount as int, now as int)
                    &&& *final(self) == *old(self)
                },
            },
    {
        let ghost pre = *self;
        let lock = lookup(&self.timelocks, depositor, 0u64);
        let balance = lookup(&self.balances, depositor, 0i128);
        proof {
            lemma_find_le_sum(pre.balances_seq(), depositor);
            lemma_positive_find_counts(pre.balances_seq(), depositor);
        }
        let outcome = match withdraw_transition(
            balance,
            lock,
            now,
            self.total_deposited,
            self.deposit_count,
            amount,
        ) {
            Ok(o) => o,
            Err(e) => {
                return Err(e);
            },
        };
        store(&mut self.balances, depositor, outcome.new_balance);
        self.total_deposited = outcome.new_total;
        self.deposit_count = outcome.new_count;
        proof {
            let s0 = pre.balances_seq();
            let s1 = self.balances@;
            if spec_has_key(s0, depositor) {
                let i = choose|i: int|
                    0 <= i < s0.len() && (#[trigger] s0[i]).0 == depositor && s1 == s0.update(
                        i,
                        (depositor, outcome.new_balance),
                    );
                lemma_find_present(s0, depositor, i, 0i128);
                lemma_aggregates_update(s0, i, (depositor, outcome.new_balance));
                lemma_find_update_same(s0, i, depositor, outcome.new_balance, 0i128);
                assert forall|q: u64| q != depositor implies #[trigger] self.balance_of(q)
                    == pre.balance_of(q) by {
                    lemma_find_update_other(s0, i, (depositor, outcome.new_balance), q, 0i128);
                }
                assert(balances_nonneg(s1)) by {
                    assert forall|k: int| 0 <= k < s1.len() implies (#[trigger] s1[k]).1 >= 0 by {
                        if k != i {
                            assert(s1[k] == s0[k]);
                        }
                    }
                }
            } else {
                // A successful withdrawal needs a positive stored balance,
                // so the depositor's entry exists.
                lemma_find_absent(s0, depositor, 0i128);
                assert(false);
            }
        }
        Ok(())
    }

    /// Overwrite the caller's lock with `unlock_time`, which must lie
    /// strictly in the future of `now`. The lock is independent of the
    /// balance: it may be set before any deposit and survives a full
    /// withdrawal.
    pub fn set_timelock(&mut self, depositor: u64, unlock_time: u64, now: u64) -> (r: Result<
        (),
        VaultError,
    >)
        requires
            old(self).wf(),
        ensures
            final(self).wf(),
            match r {
                Ok(()) => {
                    &&& spec_timelock_error(now as int, unlock_time as int) is None
                    &&& final(self).timelock_of(depositor) == unlock_time
                    &&& (forall|q: u64|
                        q != depositor ==> #[trigger] final(self).timelock_of(q) == old(
                            self,
                        ).timelock_of(q))
                    &&& final(self).balances_seq() == old(self).balances_seq()
                    &&& final(self).spec_total() == old(self).spec_total()
                    &&& final(self).spec_count() == old(self).spec_count()
                    &&& final(self).spec_admin() == old(self).spec_admin()
                    &&& final(self).spec_token() == old(self).spec_token()
                },
                Err(e) => {
                    &&& Some(e) == spec_timelock_error(now as int, unlock_time as int)
                    &&& *final(self) == *old(self)
                },
            },
    {
        let ghost pre = *self;
        let stored = match timelock_transition(now, unlock_time) {
            Ok(t) => t,
            Err(e) => {
                return Err(e);
            },
        };
        store(&mut self.timelocks, depositor, stored);
        proof {
            let s0 = pre.timelocks_seq();
            let s1 = self.timelocks@;
            if spec_has_key(s0, depositor) {
                let i = choose|i: int|
                    0 <= i < s0.len() && (#[trigger] s0[i]).0 == depositor && s1 == s0.update(
                        i,
                        (depositor, stored),
                    );
                lemma_find_update_same(s0, i, depositor, stored, 0u64);
                assert forall|q: u64| q != depositor implies #[trigger] self.timelock_of(q)
                    == pre.timelock_of(q) by {
                    lemma_find_update_other(s0, i, (depositor, stored), q, 0u64);
                }
            } else {
                assert forall|q: u64| #[trigger] self.timelock_of(q) == (if q == depositor {
                    stored as int
                } else {
                    pre.timelock_of(q)
                }) by {
                    lemma_find_push(s0, (depositor, stored), q, 0u64);
                }
            }
        }
        Ok(())
    }

    /// A principal's balance, zero where it has never deposited. A pure
    /// read: no authentication, no side effect, no failure.
    pub fn get_balance(&self, principal: u64) -> (r: i128)
        requires
            self.wf(),
        ensures
            r as int == self.balance_of(principal),
    {
        lookup(&self.balances, principal, 0i128)
    }

    /// A principal's unlock timestamp, zero where it has never set a lock.
    /// A pure read: no authentication, no side effect, no failure.
    pub fn get_timelock(&self, principal: u64) -> (r: u64)
        requires
            self.wf(),
        ensures
            r as int == self.timelock_of(principal),
    {
        lookup(&self.timelocks, principal, 0u64)
    }

    /// The stored configuration and aggregates. Fails only where the vault
    /// was never initialized and so holds no configuration record.
    pub fn get_vault_info(&self) -> (r: Result<VaultInfo, VaultError>)
        requires
            self.wf(),
        ensures
            match r {
                Ok(info) => {
                    &&& self.is_initialized()
                    &&& Some(info.admin) == self.spec_admin()
                    &&& Some(info.token) == self.spec_token()
                    &&& info.total_deposited as int == self.spec_total()
                    &&& info.deposit_count as int == self.spec_count()
                },
                Err(e) => {
                    &&& e == VaultError::NotInitialized
                    &&& !self.is_initialized()
                },
            },
    {
        match (self.admin, self.token) {
            (Some(admin), Some(token)) => Ok(
                VaultInfo {
                    admin,
                    token,
                    total_deposited: self.total_deposited,
                    deposit_count: self.deposit_count,
                },
            ),
            _ => Err(VaultError::NotInitialized),
        }
    }
}

} // verus!
