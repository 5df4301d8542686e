//! Walks up the entity hierarchy.
//!
//! The hierarchy is given as a map from each child entity to its parent; entities are 64-bit
//! ids. Entities matched by a filter are given as a set.

use std::collections::{HashMap, HashSet};
use vstd::prelude::*;

verus! {

broadcast use vstd::std_specs::hash::group_hash_axioms;

/// The `k`-th ancestor of `e` (`e` itself for `k == 0`), if the chain is that long.
pub open spec fn ancestor_at(parents: Map<u64, u64>, e: u64, k: nat) -> Option<u64>
    decreases k,
{
    if k == 0 {
        Some(e)
    } else {
        match ancestor_at(parents, e, (k - 1) as nat) {
            Some(a) => if parents.contains_key(a) {
                Some(parents[a])
            } else {
                None
            },
            None => None,
        }
    }
}

/// The chain of ancestors of `e` ends: some entity on it has no parent.
pub open spec fn rooted(parents: Map<u64, u64>, e: u64) -> bool {
    exists|n: nat| #[trigger] ancestor_at(parents, e, n) is None
}

/// `a` is the nearest strict ancestor of `e` in `matching`.
pub open spec fn is_first_match(parents: Map<u64, u64>, matching: Set<u64>, e: u64, a: u64) -> bool {
    exists|k: nat|
        {
            &&& k >= 1
            &&& #[trigger] ancestor_at(parents, e, k) == Some(a)
            &&& matching.contains(a)
            &&& forall|j: nat|
                1 <= j < k ==> match #[trigger] ancestor_at(parents, e, j) {
                    Some(b) => !matching.contains(b),
                    None => false,
                }
        }
}

/// No strict ancestor of `e` is in `matching`.
pub open spec fn no_match(parents: Map<u64, u64>, matching: Set<u64>, e: u64) -> bool {
    forall|k: nat|
        k >= 1 ==> match #[trigger] ancestor_at(parents, e, k) {
            Some(b) => !matching.contains(b),
            None => true,
        }
}

/// The outcome of a search for the nearest strict ancestor of `e` in `matching`.
pub open spec fn search_result(parents: Map<u64, u64>, matching: Set<u64>, e: u64, r: Option<u64>) -> bool {
    match r {
        Some(a) => is_first_match(parents, matching, e, a),
        None => no_match(parents, matching, e),
    }
}

/// Once the chain has ended, it stays ended.
proof fn lemma_ended(parents: Map<u64, u64>, e: u64, k: nat, m: nat)
    requires
        ancestor_at(parents, e, k) is None,
        k <= m,
    ensures
        ancestor_at(parents, e, m) is None,
    decreases m - k,
{
    if k < m {
        lemma_ended(parents, e, k, (m - 1) as nat);
    }
}

/// A set of entities that a search can test for membership.
pub trait EntityFilter {
    spec fn members(&self) -> Set<u64>;

    fn has(&self, e: u64) -> (b: bool)
        ensures
            b == self.members().contains(e),
    ;
}

impl EntityFilter for HashSet<u64> {
    open spec fn members(&self) -> Set<u64> {
        self@
    }

    fn has(&self, e: u64) -> (b: bool) {
        self.contains(&e)
    }
}

/// A map counts as the set of its keys.
impl<V> EntityFilter for HashMap<u64, V> {
    open spec fn members(&self) -> Set<u64> {
        self@.dom()
    }

    fn has(&self, e: u64) -> (b: bool) {
        self.contains_key(&e)
    }
}

/// Finds the nearest strict ancestor of `e` that is in `matching`.
pub fn first_matching_ancestor<M: EntityFilter>(parents: &HashMap<u64, u64>, matching: &M, e: u64) -> (r: Option<u64>)
    requires
        rooted(parents@, e),
    ensures
        search_result(parents@, matching.members(), e, r),
{
    let ghost n: nat = choose|n: nat| #[trigger] ancestor_at(parents@, e, n) is None;
    let mut current = e;
    let ghost mut k: nat = 0;
    loop
        invariant
            ancestor_at(parents@, e, n) is None,
            ancestor_at(parents@, e, k) == Some(current),
            forall|j: nat|
                1 <= j <= k ==> match #[trigger] ancestor_at(parents@, e, j) {
                    Some(b) => !matching.members().contains(b),
                    None => false,
                },
        decreases n - k,
    {
        proof {
            if n <= k {
                lemma_ended(parents@, e, n, k);
            }
        }
        match parents.get(&current) {
            None => {
                proof {
                    assert(ancestor_at(parents@, e, k + 1) is None);
                    assert forall|j: nat| j >= 1 implies match #[trigger] ancestor_at(parents@, e, j) {
                        Some(b) => !matching.members().contains(b),
                        None => true,
                    } by {
                        if j > k {
                            lemma_ended(parents@, e, k + 1, j);
                        }
                    }
                }
                return None;
            },
            Some(p) => {
                let p = *p;
                proof {
                    k = k + 1;
                }
                assert(ancestor_at(parents@, e, k) == Some(p));
                if matching.has(p) {
                    proof {
                        assert forall|j: nat| 1 <= j < k implies match #[trigger] ancestor_at(parents@, e, j) {
                            Some(b) => !matching.members().contains(b),
                            None => false,
                        } by {}
                        assert(is_first_match(parents@, matching.members(), e, p));
                    }
                    return Some(p);
                }
                current = p;
            },
        }
    }
}

/// Iterates over the ancestors of an entity that pass a filter, nearest first.
pub struct PotentialAncestorIter {
    pub next: Option<u64>,
}

impl PotentialAncestorIter {
    /// Starts below `entity`: the first item is its nearest matching strict ancestor.
    pub fn new(entity: u64) -> (it: Self)
        ensures
            it.next == Some(entity),
    {
        PotentialAncestorIter { next: Some(entity) }
    }

    /// The next ancestor in `filter`, or `None` once there is none; after `None` the
    /// iterator stays exhausted.
    pub fn next(&mut self, parents: &HashMap<u64, u64>, filter: &HashSet<u64>) -> (r: Option<u64>)
        requires
            old(self).next matches Some(e) ==> rooted(parents@, e),
        ensures
            final(self).next == r,
            match old(self).next {
                Some(e) => search_result(parents@, filter@, e, r),
                None => r is None,
            },
    {
        match self.next {
            None => None,
            Some(e) => {
                let r = first_matching_ancestor(parents, filter, e);
                self.next = r;
                r
            },
        }
    }
}

/// Returns the nearest ancestor of `item` that has an `Equipped` component: the entity that
/// holds the item. `equipped` holds the entities with `Equipped`.
pub fn find_item_owner(item: u64, parents: &HashMap<u64, u64>, equipped: &HashSet<u64>) -> (owner: Option<u64>)
    requires
        rooted(parents@, item),
    ensures
        search_result(parents@, equipped@, item, owner),
{
    first_matching_ancestor(parents, equipped, item)
}

} // verus!
