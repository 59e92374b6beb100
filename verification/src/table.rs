use vstd::prelude::*;

verus! {

/// The per-principal ledger entries (balance and time lock) live in
/// association lists keyed by principal identity, with one entry per key.
/// Reads default when the key is absent, so that presence and absence stay
/// distinct at the access layer.

/// The value stored for `key`, or `default` where no entry holds it.
/// Scans from the end; with distinct keys the direction is immaterial.
pub open spec fn spec_find<V>(s: Seq<(u64, V)>, key: u64, default: V) -> V
    decreases s.len(),
{
    if s.len() == 0 {
        default
    } else if s.last().0 == key {
        s.last().1
    } else {
        spec_find(s.drop_last(), key, default)
    }
}

/// Whether some entry holds `key`.
pub open spec fn spec_has_key<V>(s: Seq<(u64, V)>, key: u64) -> bool {
    exists|i: int| 0 <= i < s.len() && (#[trigger] s[i]).0 == key
}

/// No two entries hold the same key.
pub open spec fn keys_distinct<V>(s: Seq<(u64, V)>) -> bool {
    forall|i: int, j: int|
        0 <= i < j < s.len() ==> (#[trigger] s[i]).0 != (#[trigger] s[j]).0
}

/// Where no entry holds `key`, the lookup yields the default.
pub proof fn lemma_find_absent<V>(s: Seq<(u64, V)>, key: u64, default: V)
    requires
        !spec_has_key(s, key),
    ensures
        spec_find(s, key, default) == default,
    decreases s.len(),
{
    if s.len() > 0 {
        assert(s[s.len() - 1].0 != key);
        assert(!spec_has_key(s.drop_last(), key)) by {
            if spec_has_key(s.drop_last(), key) {
                let i = choose|i: int|
                    0 <= i < s.drop_last().len() && (#[trigger] s.drop_last()[i]).0 == key;
                assert(s[i].0 == key);
            }
        }
        lemma_find_absent(s.drop_last(), key, default);
    }
}

/// With distinct keys, the lookup yields the value of the one entry that
/// holds the key.
pub proof fn lemma_find_present<V>(s: Seq<(u64, V)>, key: u64, i: int, default: V)
    requires
        keys_distinct(s),
        0 <= i < s.len(),
        s[i].0 == key,
    ensures
        spec_find(s, key, default) == s[i].1,
    decreases s.len(),
{
    if i == s.len() - 1 {
        assert(s.last() == s[i]);
    } else {
        assert(s[i].0 != s[s.len() - 1].0);
        assert(keys_distinct(s.drop_last())) by {
            assert forall|a: int, b: int|
                0 <= a < b < s.drop_last().len() implies (#[trigger] s.drop_last()[a]).0
                != (#[trigger] s.drop_last()[b]).0 by {
                assert(s.drop_last()[a] == s[a]);
                assert(s.drop_last()[b] == s[b]);
            }
        }
        assert(s.drop_last()[i] == s[i]);
        lemma_find_present(s.drop_last(), key, i, default);
    }
}

/// Overwriting the one entry that holds a key changes that key's lookup to
/// the new value.
pub proof fn lemma_find_update_same<V>(s: Seq<(u64, V)>, i: int, key: u64, value: V, default: V)
    requires
        keys_distinct(s),
        0 <= i < s.len(),
        s[i].0 == key,
    ensures
        spec_find(s.update(i, (key, value)), key, default) == value,
{
    let t = s.update(i, (key, value));
    assert(t[i] == (key, value));
    assert(keys_distinct(t)) by {
        assert forall|a: int, b: int|
            0 <= a < b < t.len() implies (#[trigger] t[a]).0 != (#[trigger] t[b]).0 by {
            assert(s[a].0 != s[b].0);
        }
    }
    lemma_find_present(t, key, i, default);
}

/// Overwriting an entry leaves every other key's lookup as it was.
pub proof fn lemma_find_update_other<V>(
    s: Seq<(u64, V)>,
    i: int,
    entry: (u64, V),
    other: u64,
    default: V,
)
    requires
        0 <= i < s.len(),
        entry.0 != other,
        s[i].0 != other,
    ensures
        spec_find(s.update(i, entry), other, default) == spec_find(s, other, default),
    decreases s.len(),
{
    let t = s.update(i, entry);
    if i == s.len() - 1 {
        assert(t.drop_last() =~= s.drop_last());
    } else {
        assert(t.last() == s.last());
        assert(t.drop_last() =~= s.drop_last().update(i, entry));
        if s.last().0 == other {
        } else {
            lemma_find_update_other(s.drop_last(), i, entry, other, default);
        }
    }
}

/// Appending an entry sets its own key's lookup and leaves the others as
/// they were.
pub proof fn lemma_find_push<V>(s: Seq<(u64, V)>, entry: (u64, V), other: u64, default: V)
    ensures
        spec_find(s.push(entry), other, default) == if other == entry.0 {
            entry.1
        } else {
            spec_find(s, other, default)
        },
{
    assert(s.push(entry).last() == entry);
    assert(s.push(entry).drop_last() =~= s);
}

/// The index of the entry that holds `key`, where one does.
fn find_index<V: Copy>(entries: &Vec<(u64, V)>, key: u64) -> (r: Option<usize>)
    ensures
        match r {
            Some(i) => i < entries@.len() && entries@[i as int].0 == key,
            None => !spec_has_key(entries@, key),
        },
{
    let mut i: usize = 0;
    while i < entries.len()
        invariant
            i <= entries@.len(),
            forall|k: int| 0 <= k < i ==> (#[trigger] entries@[k]).0 != key,
        decreases entries@.len() - i,
    {
        if entries[i].0 == key {
            return Some(i);
        }
        i = i + 1;
    }
    None
}

/// Read the value stored for `key`, or `default` where no entry holds it.
pub fn lookup<V: Copy>(entries: &Vec<(u64, V)>, key: u64, default: V) -> (r: V)
    requires
        keys_distinct(entries@),
    ensures
        r == spec_find(entries@, key, default),
{
    match find_index(entries, key) {
        Some(i) => {
            proof {
                lemma_find_present(entries@, key, i as int, default);
            }
            entries[i].1
        },
        None => {
            proof {
                lemma_find_absent(entries@, key, default);
            }
            default
        },
    }
}

/// Create or overwrite the entry for `key`, keeping one entry per key.
pub fn store<V: Copy>(entries: &mut Vec<(u64, V)>, key: u64, value: V)
    requires
        keys_distinct(old(entries)@),
    ensures
        keys_distinct(final(entries)@),
        spec_has_key(old(entries)@, key) ==> exists|i: int|
            0 <= i < old(entries)@.len() && (#[trigger] old(entries)@[i]).0 == key
                && final(entries)@ == old(entries)@.update(i, (key, value)),
        !spec_has_key(old(entries)@, key) ==> final(entries)@ == old(entries)@.push(
            (key, value),
        ),
{
    match find_index(entries, key) {
        Some(i) => {
            let ghost s0 = entries@;
            entries[i] = (key, value);
            proof {
                assert(entries@ == s0.update(i as int, (key, value)));
                assert forall|a: int, b: int|
                    0 <= a < b < entries@.len() implies (#[trigger] entries@[a]).0
                    != (#[trigger] entries@[b]).0 by {
                    assert(s0[a].0 != s0[b].0);
                }
            }
        },
        None => {
            let ghost s0 = entries@;
            entries.push((key, value));
            proof {
                assert forall|a: int, b: int|
                    0 <= a < b < entries@.len() implies (#[trigger] entries@[a]).0
                    != (#[trigger] entries@[b]).0 by {
                    if b < s0.len() {
                        assert(s0[a].0 != s0[b].0);
                    } else {
                        assert(entries@[b] == (key, value));
                        assert(s0[a].0 != key);
                    }
                }
            }
        },
    }
}

} // verus!
