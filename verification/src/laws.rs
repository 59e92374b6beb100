use vstd::prelude::*;

use crate::aggregates::lemma_find_le_sum;
use crate::aggregates::positive_count;
use crate::aggregates::sum_balances;
use crate::errors::VaultError;
use crate::transitions::spec_withdraw_error;
use crate::vault::VaultContract;

verus! {

/// Law: in a well-formed vault the aggregates agree with the per-principal
/// ledger — the total deposited is the sum of all stored balances, the
/// depositor count is the number of principals with a positive balance, and
/// every balance lies between zero and the total. Every operation keeps the
/// vault well-formed, so this holds after every committed call.
pub proof fn lemma_aggregate_invariant(v: VaultContract)
    requires
        v.wf(),
    ensures
        v.spec_total() == sum_balances(v.balances_seq()),
        v.spec_count() == positive_count(v.balances_seq()),
        forall|p: u64| 0 <= #[trigger] v.balance_of(p) <= v.spec_total(),
{
    assert forall|p: u64| 0 <= #[trigger] v.balance_of(p) <= v.spec_total() by {
        lemma_find_le_sum(v.balances_seq(), p);
    }
}

/// Law: depositing then withdrawing the same amount for the same principal
/// restores every balance, the total deposited and the depositor count to
/// exactly what they were before the pair, and touches no lock.
pub proof fn lemma_deposit_withdraw_round_trip(
    s0: VaultContract,
    s1: VaultContract,
    s2: VaultContract,
    principal: u64,
    amount: i128,
)
    requires
        amount > 0,
        VaultContract::deposit_committed(s0, s1, principal, amount),
        VaultContract::withdraw_committed(s1, s2, principal, amount),
    ensures
        forall|q: u64| #[trigger] s2.balance_of(q) == s0.balance_of(q),
        s2.spec_total() == s0.spec_total(),
        s2.spec_count() == s0.spec_count(),
        s2.timelocks_seq() == s0.timelocks_seq(),
{
    assert forall|q: u64| #[trigger] s2.balance_of(q) == s0.balance_of(q) by {
        if q != principal {
            assert(s1.balance_of(q) == s0.balance_of(q));
            assert(s2.balance_of(q) == s1.balance_of(q));
        }
    }
}

/// Law: a nonzero lock gates withdrawal on time alone — an otherwise valid
/// withdrawal attempted strictly before the unlock timestamp fails with
/// `FundsLocked`, and the identical withdrawal at or after it goes through.
pub proof fn lemma_timelock_gates_withdrawal(
    balance: int,
    lock: int,
    early: int,
    late: int,
    amount: int,
)
    requires
        lock != 0,
        early < lock,
        lock <= late,
        0 < amount <= balance,
    ensures
        spec_withdraw_error(balance, lock, early, amount) == Some(VaultError::FundsLocked),
        spec_withdraw_error(balance, lock, late, amount) is None,
{
}

} // verus!
