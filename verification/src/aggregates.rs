use vstd::prelude::*;

use crate::table::spec_find;

verus! {

/// The two aggregate scalars are derived from the balance ledger: the total
/// deposited is the sum of all stored balances, and the depositor count is
/// the number of principals with a strictly positive balance.

/// Sum of the stored balances.
pub open spec fn sum_balances(s: Seq<(u64, i128)>) -> int
    decreases s.len(),
{
    if s.len() == 0 {
        0
    } else {
        sum_balances(s.drop_last()) + s.last().1
    }
}

/// Number of entries with a strictly positive balance.
pub open spec fn positive_count(s: Seq<(u64, i128)>) -> int
    decreases s.len(),
{
    if s.len() == 0 {
        0
    } else {
        positive_count(s.drop_last()) + if s.last().1 > 0 {
            1int
        } else {
            0int
        }
    }
}

/// Every stored balance is nonnegative.
pub open spec fn balances_nonneg(s: Seq<(u64, i128)>) -> bool {
    forall|i: int| 0 <= i < s.len() ==> (#[trigger] s[i]).1 >= 0
}

/// Appending an entry adds its balance to the sum and, where that balance is
/// positive, one to the count.
pub proof fn lemma_aggregates_push(s: Seq<(u64, i128)>, entry: (u64, i128))
    ensures
        sum_balances(s.push(entry)) == sum_balances(s) + entry.1,
        positive_count(s.push(entry)) == positive_count(s) + if entry.1 > 0 {
            1int
        } else {
            0int
        },
{
    assert(s.push(entry).last() == entry);
    assert(s.push(entry).drop_last() =~= s);
}

/// Overwriting one entry moves the sum by the difference of the balances and
/// the count by the difference of their signs.
pub proof fn lemma_aggregates_update(s: Seq<(u64, i128)>, i: int, entry: (u64, i128))
    requires
        0 <= i < s.len(),
    ensures
        sum_balances(s.update(i, entry)) == sum_balances(s) - s[i].1 + entry.1,
        positive_count(s.update(i, entry)) == positive_count(s) - (if s[i].1 > 0 {
            1int
        } else {
            0int
        }) + (if entry.1 > 0 {
            1int
        } else {
            0int
        }),
    decreases s.len(),
{
    let t = s.update(i, entry);
    if i == s.len() - 1 {
        assert(t.last() == entry);
        assert(t.drop_last() =~= s.drop_last());
    } else {
        assert(t.last() == s.last());
        assert(t.drop_last() =~= s.drop_last().update(i, entry));
        lemma_aggregates_update(s.drop_last(), i, entry);
    }
}

/// With nonnegative balances the sum is nonnegative and no single balance
/// exceeds it.
pub proof fn lemma_find_le_sum(s: Seq<(u64, i128)>, key: u64)
    requires
        balances_nonneg(s),
    ensures
        sum_balances(s) >= 0,
        0 <= spec_find(s, key, 0i128) <= sum_balances(s),
    decreases s.len(),
{
    if s.len() > 0 {
        assert(balances_nonneg(s.drop_last())) by {
            assert forall|k: int|
                0 <= k < s.drop_last().len() implies (#[trigger] s.drop_last()[k]).1 >= 0 by {
                assert(s.drop_last()[k] == s[k]);
            }
        }
        lemma_find_le_sum(s.drop_last(), key);
        assert(s.last() == s[s.len() - 1]);
        assert(s.last().1 >= 0);
    }
}

/// A principal with a positive balance puts the count at one or more.
pub proof fn lemma_positive_find_counts(s: Seq<(u64, i128)>, key: u64)
    ensures
        positive_count(s) >= 0,
        spec_find(s, key, 0i128) > 0 ==> positive_count(s) >= 1,
    decreases s.len(),
{
    if s.len() > 0 {
        lemma_positive_find_counts(s.drop_last(), key);
    }
}

} // verus!
