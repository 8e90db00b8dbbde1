//! The cache of highlighter states, kept every few rows: finding the state
//! to resume highlighting from.
use vstd::prelude::*;
use std::collections::HashMap;
use vstd::std_specs::iter::IteratorSpec;

verus! {

/// Finds the cached entry for row `target`, or else the one nearest above
/// it.
pub fn find_entry<'a, T>(state_cache: &'a HashMap<usize, T>, target: usize) -> (r: Option<(&'a usize, &'a T)>)
    ensures
        match r {
            Some((k, v)) => {
                &&& state_cache@.contains_key(*k)
                &&& state_cache@[*k] == *v
                &&& (*k == target || {
                    &&& !state_cache@.contains_key(target)
                    &&& *k > target
                    &&& *k - target < usize::MAX
                    &&& forall|k2: usize| #[trigger] state_cache@.contains_key(k2) && k2 > target ==> k2 >= *k
                })
            },
            None => {
                &&& !state_cache@.contains_key(target)
                &&& forall|k2: usize|
                    #[trigger] state_cache@.contains_key(k2) && k2 > target ==> k2 - target == usize::MAX
            },
        },
{
    broadcast use vstd::std_specs::hash::group_hash_axioms;

    let mut nearest: Option<&'a usize> = None;
    let mut min_diff: usize = usize::MAX;
    let keys = state_cache.keys();
    let ghost all = vstd::std_specs::hash::spec_keys_iter(state_cache).remaining();
    proof {
        vstd::std_specs::hash::axiom_spec_keys_iter(state_cache);
    }
    for key in it: keys
        invariant
            all == it.seq(),
            all.unref().to_set() == state_cache@.dom(),
            forall|j: int| 0 <= j < it.index() ==> *all[j] != target,
            match nearest {
                Some(k) => state_cache@.contains_key(*k) && *k > target && *k - target == min_diff
                    && min_diff < usize::MAX,
                None => min_diff == usize::MAX,
            },
            forall|j: int| 0 <= j < it.index() && *all[j] > target ==> *all[j] - target >= min_diff,
    {
        if *key == target {
            return Some((key, state_cache.get(key).unwrap()));
        } else if *key > target && (*key - target) < min_diff {
            nearest = Some(key);
            min_diff = *key - target;
        }
    }
    match nearest {
        Some(k) => Some((k, state_cache.get(k).unwrap())),
        None => None,
    }
}

} // verus!
