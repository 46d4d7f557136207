use vstd::prelude::*;

use crate::ledger_model::{
    cache_sum, cached, lemma_cache_push, lemma_cache_update, lemma_cached_absent, lemma_cached_at,
    unique_keys,
};
use crate::types::CacheKey;

verus! {

/// Position of the entry for `k`, if any.
pub fn find_key<K: CacheKey>(entries: &Vec<(K, u128)>, k: &K) -> (r: Option<usize>)
    ensures
        match r {
            Some(i) => i < entries@.len() && entries@[i as int].0@ == k@,
            None => forall|i: int| 0 <= i < entries@.len() ==> entries@[i].0@ != k@,
        },
{
    let mut i: usize = 0;
    while i < entries.len()
        invariant
            0 <= i <= entries@.len(),
            forall|j: int| 0 <= j < i ==> entries@[j].0@ != k@,
        decreases entries.len() - i,
    {
        if entries[i].0.same_as(k) {
            return Some(i);
        }
        i = i + 1;
    }
    None
}

/// The amount held for `k` (zero where there is no entry).
pub fn lookup<K: CacheKey>(entries: &Vec<(K, u128)>, k: &K) -> (r: u128)
    requires
        unique_keys(entries@),
    ensures
        r == cached(entries@, k@),
{
    match find_key(entries, k) {
        Some(i) => {
            proof {
                lemma_cached_at(entries@, i as int);
            }
            entries[i].1
        },
        None => {
            proof {
                lemma_cached_absent(entries@, k@);
            }
            0
        },
    }
}

/// Sets the amount held for `k` to `v`.
pub fn store<K: CacheKey>(entries: &mut Vec<(K, u128)>, k: &K, v: u128)
    requires
        unique_keys(old(entries)@),
    ensures
        unique_keys(final(entries)@),
        forall|b: K::V| #[trigger]
            cached(final(entries)@, b) == if b == k@ {
                v as int
            } else {
                cached(old(entries)@, b)
            },
        cache_sum(final(entries)@) == cache_sum(old(entries)@) - cached(old(entries)@, k@) + v,
{
    match find_key(entries, k) {
        Some(i) => {
            proof {
                lemma_cached_at(entries@, i as int);
            }
            let key = k.duplicate();
            proof {
                lemma_cache_update(entries@, i as int, (key, v));
            }
            entries.set(i, (key, v));
        },
        None => {
            proof {
                lemma_cached_absent(entries@, k@);
            }
            let key = k.duplicate();
            proof {
                lemma_cache_push(entries@, (key, v));
            }
            entries.push((key, v));
        },
    }
}

/// Adds `amount` to what `k` holds.
pub fn credit<K: CacheKey>(entries: &mut Vec<(K, u128)>, k: &K, amount: u128)
    requires
        unique_keys(old(entries)@),
        cached(old(entries)@, k@) + amount <= u128::MAX,
    ensures
        unique_keys(final(entries)@),
        forall|b: K::V| #[trigger]
            cached(final(entries)@, b) == cached(old(entries)@, b) + if b == k@ {
                amount as int
            } else {
                0
            },
        cache_sum(final(entries)@) == cache_sum(old(entries)@) + amount,
{
    let current = lookup(entries, k);
    store(entries, k, current + amount);
}

/// Takes `amount` from what `k` holds.
pub fn debit<K: CacheKey>(entries: &mut Vec<(K, u128)>, k: &K, amount: u128)
    requires
        unique_keys(old(entries)@),
        cached(old(entries)@, k@) >= amount,
    ensures
        unique_keys(final(entries)@),
        forall|b: K::V| #[trigger]
            cached(final(entries)@, b) == cached(old(entries)@, b) - if b == k@ {
                amount as int
            } else {
                0
            },
        cache_sum(final(entries)@) == cache_sum(old(entries)@) - amount,
{
    let current = lookup(entries, k);
    store(entries, k, current - amount);
}

/// Adds `amount` to what `k` holds, stopping at the largest amount.
pub fn credit_saturating<K: CacheKey>(entries: &mut Vec<(K, u128)>, k: &K, amount: u128)
    requires
        unique_keys(old(entries)@),
    ensures
        unique_keys(final(entries)@),
        forall|b: K::V| #[trigger]
            cached(final(entries)@, b) == if b == k@ {
                if cached(old(entries)@, b) + amount > u128::MAX {
                    u128::MAX as int
                } else {
                    cached(old(entries)@, b) + amount
                }
            } else {
                cached(old(entries)@, b)
            },
{
    let current = lookup(entries, k);
    store(entries, k, current.saturating_add(amount));
}

} // verus!
