//! Association sequences.
//!
//! The mapping fields of every ledger in this crate are stored as vectors of
//! key/value pairs with pairwise-distinct keys. This module gives the spec
//! functions that read such a sequence, the lemmas that describe how lookup
//! and the sum of the stored values react to an update or an append, and the
//! two executable operations (lookup and store) shared by all ledgers.

use vstd::prelude::*;
use crate::account::AccountId;

verus! {

/// The value stored at key `k`, or `None` if `k` is absent.
/// The latest entry wins, though the ledgers never store a key twice.
pub open spec fn assoc_find<K, V>(s: Seq<(K, V)>, k: K) -> Option<V>
    decreases s.len(),
{
    if s.len() == 0 {
        None
    } else if s.last().0 == k {
        Some(s.last().1)
    } else {
        assoc_find(s.drop_last(), k)
    }
}

/// No two entries share a key.
pub open spec fn keys_unique<K, V>(s: Seq<(K, V)>) -> bool {
    forall|i: int, j: int|
        #![trigger s[i].0, s[j].0]
        0 <= i < s.len() && 0 <= j < s.len() && i != j ==> s[i].0 != s[j].0
}

/// The sum of all stored values, as an unbounded integer.
pub open spec fn sum_values<K>(s: Seq<(K, u128)>) -> int
    decreases s.len(),
{
    if s.len() == 0 {
        0
    } else {
        sum_values(s.drop_last()) + s.last().1
    }
}

/// A key that occurs in no entry is not found.
pub proof fn lemma_find_absent<K, V>(s: Seq<(K, V)>, k: K)
    requires
        forall|i: int| 0 <= i < s.len() ==> s[i].0 != k,
    ensures
        assoc_find(s, k) is None,
    decreases s.len(),
{
    if s.len() > 0 {
        lemma_find_absent(s.drop_last(), k);
    }
}

/// With distinct keys, lookup returns the value of the entry holding the key.
pub proof fn lemma_find_present<K, V>(s: Seq<(K, V)>, k: K, i: int)
    requires
        keys_unique(s),
        0 <= i < s.len(),
        s[i].0 == k,
    ensures
        assoc_find(s, k) == Some(s[i].1),
    decreases s.len(),
{
    if i < s.len() - 1 {
        lemma_find_present(s.drop_last(), k, i);
    }
}

/// Overwriting the entry that holds key `k` changes lookup at `k` and at no
/// other key.
pub proof fn lemma_find_update<K, V>(s: Seq<(K, V)>, i: int, k: K, v: V, k2: K)
    requires
        keys_unique(s),
        0 <= i < s.len(),
        s[i].0 == k,
    ensures
        assoc_find(s.update(i, (k, v)), k2) == (if k2 == k {
            Some(v)
        } else {
            assoc_find(s, k2)
        }),
    decreases s.len(),
{
    let t = s.update(i, (k, v));
    if i == s.len() - 1 {
        assert(t.drop_last() =~= s.drop_last());
    } else {
        assert(t.drop_last() =~= s.drop_last().update(i, (k, v)));
        lemma_find_update(s.drop_last(), i, k, v, k2);
    }
}

/// Appending an entry for a fresh key changes lookup at that key and at no
/// other key.
pub proof fn lemma_find_push<K, V>(s: Seq<(K, V)>, k: K, v: V, k2: K)
    ensures
        assoc_find(s.push((k, v)), k2) == (if k2 == k {
            Some(v)
        } else {
            assoc_find(s, k2)
        }),
{
    assert(s.push((k, v)).drop_last() =~= s);
}

/// Overwriting the entry that holds key `k` keeps the keys distinct.
pub proof fn lemma_unique_update<K, V>(s: Seq<(K, V)>, i: int, k: K, v: V)
    requires
        keys_unique(s),
        0 <= i < s.len(),
        s[i].0 == k,
    ensures
        keys_unique(s.update(i, (k, v))),
{
    let t = s.update(i, (k, v));
    assert(forall|j: int| 0 <= j < t.len() ==> t[j].0 == s[j].0);
}

/// Appending an entry for a fresh key keeps the keys distinct.
pub proof fn lemma_unique_push<K, V>(s: Seq<(K, V)>, k: K, v: V)
    requires
        keys_unique(s),
        forall|i: int| 0 <= i < s.len() ==> s[i].0 != k,
    ensures
        keys_unique(s.push((k, v))),
{
}

/// Overwriting one entry moves the sum by the difference of the values.
pub proof fn lemma_sum_update<K>(s: Seq<(K, u128)>, i: int, k: K, v: u128)
    requires
        0 <= i < s.len(),
    ensures
        sum_values(s.update(i, (k, v))) == sum_values(s) - s[i].1 + v,
    decreases s.len(),
{
    let t = s.update(i, (k, v));
    if i == s.len() - 1 {
        assert(t.drop_last() =~= s.drop_last());
    } else {
        assert(t.drop_last() =~= s.drop_last().update(i, (k, v)));
        lemma_sum_update(s.drop_last(), i, k, v);
    }
}

/// Appending an entry adds its value to the sum.
pub proof fn lemma_sum_push<K>(s: Seq<(K, u128)>, k: K, v: u128)
    ensures
        sum_values(s.push((k, v))) == sum_values(s) + v,
{
    assert(s.push((k, v)).drop_last() =~= s);
}

/// The sum of unsigned values is never negative.
pub proof fn lemma_sum_nonneg<K>(s: Seq<(K, u128)>)
    ensures
        sum_values(s) >= 0,
    decreases s.len(),
{
    if s.len() > 0 {
        lemma_sum_nonneg(s.drop_last());
    }
}

/// No single stored value exceeds the sum of all stored values.
pub proof fn lemma_find_le_sum<K>(s: Seq<(K, u128)>, k: K)
    ensures
        assoc_find(s, k) matches Some(v) ==> v <= sum_values(s),
    decreases s.len(),
{
    if s.len() > 0 {
        if s.last().0 == k {
            lemma_sum_nonneg(s.drop_last());
        } else {
            lemma_find_le_sum(s.drop_last(), k);
        }
    }
}

/// Look a key up in an association vector keyed by account.
pub fn lookup_account<V: Copy>(entries: &Vec<(AccountId, V)>, key: AccountId) -> (r: Option<V>)
    requires
        keys_unique(entries@),
    ensures
        r == assoc_find(entries@, key),
{
    let n: usize = entries.len();
    let mut i: usize = 0;
    while i < n
        invariant
            n == entries@.len(),
            i <= n,
            keys_unique(entries@),
            forall|j: int| 0 <= j < i ==> entries@[j].0 != key,
        decreases n - i,
    {
        if entries[i].0 == key {
            proof {
                lemma_find_present(entries@, key, i as int);
            }
            return Some(entries[i].1);
        }
        i = i + 1;
    }
    proof {
        lemma_find_absent(entries@, key);
    }
    None
}

/// Store a value under a key in an association vector keyed by account,
/// replacing the entry holding the key if there is one and appending a new
/// entry otherwise.
pub fn store_account<V: Copy>(entries: &mut Vec<(AccountId, V)>, key: AccountId, value: V)
    requires
        keys_unique(old(entries)@),
    ensures
        keys_unique(final(entries)@),
        forall|k2: AccountId|
            assoc_find(final(entries)@, k2) == (if k2 == key {
                Some(value)
            } else {
                assoc_find(old(entries)@, k2)
            }),
        assoc_find(old(entries)@, key) is Some ==> exists|i: int|
            0 <= i < old(entries)@.len() && old(entries)@[i].0 == key && final(entries)@
                == old(entries)@.update(i, (key, value)),
        assoc_find(old(entries)@, key) is None ==> final(entries)@ == old(entries)@.push(
            (key, value),
        ),
{
    let n: usize = entries.len();
    let mut i: usize = 0;
    while i < n
        invariant
            entries@ == old(entries)@,
            n == entries@.len(),
            i <= n,
            keys_unique(entries@),
            forall|j: int| 0 <= j < i ==> entries@[j].0 != key,
        decreases n - i,
    {
        if entries[i].0 == key {
            proof {
                lemma_find_present(entries@, key, i as int);
                lemma_unique_update(entries@, i as int, key, value);
                assert forall|k2: AccountId|
                    assoc_find(entries@.update(i as int, (key, value)), k2) == (if k2 == key {
                        Some(value)
                    } else {
                        assoc_find(entries@, k2)
                    }) by {
                    lemma_find_update(entries@, i as int, key, value, k2);
                }
            }
            entries[i] = (key, value);
            return ;
        }
        i = i + 1;
    }
    proof {
        lemma_find_absent(entries@, key);
        lemma_unique_push(entries@, key, value);
        assert forall|k2: AccountId|
            assoc_find(entries@.push((key, value)), k2) == (if k2 == key {
                Some(value)
            } else {
                assoc_find(entries@, k2)
            }) by {
            lemma_find_push(entries@, key, value, k2);
        }
    }
    entries.push((key, value));
}

/// Look a key up in an association vector keyed by a pair of accounts.
pub fn lookup_pair<V: Copy>(
    entries: &Vec<((AccountId, AccountId), V)>,
    key: (AccountId, AccountId),
) -> (r: Option<V>)
    requires
        keys_unique(entries@),
    ensures
        r == assoc_find(entries@, key),
{
    let n: usize = entries.len();
    let mut i: usize = 0;
    while i < n
        invariant
            n == entries@.len(),
            i <= n,
            keys_unique(entries@),
            forall|j: int| 0 <= j < i ==> entries@[j].0 != key,
        decreases n - i,
    {
        let e = entries[i];
        if e.0.0 == key.0 && e.0.1 == key.1 {
            proof {
                assert(entries@[i as int].0 == key);
                lemma_find_present(entries@, key, i as int);
            }
            return Some(e.1);
        }
        assert(entries@[i as int].0 != key);
        i = i + 1;
    }
    proof {
        lemma_find_absent(entries@, key);
    }
    None
}

/// Store a value under a pair key, replacing the entry holding the key if
/// there is one and appending a new entry otherwise.
pub fn store_pair<V: Copy>(
    entries: &mut Vec<((AccountId, AccountId), V)>,
    key: (AccountId, AccountId),
    value: V,
)
    requires
        keys_unique(old(entries)@),
    ensures
        keys_unique(final(entries)@),
        forall|k2: (AccountId, AccountId)|
            assoc_find(final(entries)@, k2) == (if k2 == key {
                Some(value)
            } else {
                assoc_find(old(entries)@, k2)
            }),
{
    let n: usize = entries.len();
    let mut i: usize = 0;
    while i < n
        invariant
            entries@ == old(entries)@,
            n == entries@.len(),
            i <= n,
            keys_unique(entries@),
            forall|j: int| 0 <= j < i ==> entries@[j].0 != key,
        decreases n - i,
    {
        let e = entries[i];
        if e.0.0 == key.0 && e.0.1 == key.1 {
            proof {
                assert(entries@[i as int].0 == key);
                lemma_find_present(entries@, key, i as int);
                lemma_unique_update(entries@, i as int, key, value);
                assert forall|k2: (AccountId, AccountId)|
                    assoc_find(entries@.update(i as int, (key, value)), k2) == (if k2 == key {
                        Some(value)
                    } else {
                        assoc_find(entries@, k2)
                    }) by {
                    lemma_find_update(entries@, i as int, key, value, k2);
                }
            }
            entries[i] = (key, value);
            return ;
        }
        assert(entries@[i as int].0 != key);
        i = i + 1;
    }
    proof {
        lemma_find_absent(entries@, key);
        lemma_unique_push(entries@, key, value);
        assert forall|k2: (AccountId, AccountId)|
            assoc_find(entries@.push((key, value)), k2) == (if k2 == key {
                Some(value)
            } else {
                assoc_find(entries@, k2)
            }) by {
            lemma_find_push(entries@, key, value, k2);
        }
    }
    entries.push((key, value));
}

} // verus!
