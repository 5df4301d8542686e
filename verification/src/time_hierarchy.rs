//! The time hierarchy: which entities rewind along with which.
//!
//! Unlike the transform hierarchy, a time parent can have many unordered time children, and
//! children need not be parented in space: projectiles fired by a weapon can rewind with it.
//! Entities are 64-bit ids.

use std::collections::HashMap;
use vstd::prelude::*;
use crate::rewind::vec_contains;

verus! {

broadcast use vstd::std_specs::hash::group_hash_axioms;

/// `x` is `n` time-hierarchy edges below `a`; edges are `(parent, child)` pairs.
pub open spec fn reach(edges: Seq<(u64, u64)>, a: u64, x: u64, n: nat) -> bool
    decreases n,
{
    if n == 0 {
        false
    } else if n == 1 {
        edges.contains((a, x))
    } else {
        exists|y: u64| reach(edges, a, y, (n - 1) as nat) && #[trigger] edges.contains((y, x))
    }
}

/// `x` is a time child of `a`, directly or through other time children.
pub open spec fn time_descendant(edges: Seq<(u64, u64)>, a: u64, x: u64) -> bool {
    exists|n: nat| n >= 1 && #[trigger] reach(edges, a, x, n)
}

/// The entities a rewind added to `root` propagates to: every time descendant of `root`,
/// each once. `edges` lists the time hierarchy as `(parent, child)` pairs.
pub fn propagate_rewinds(edges: &Vec<(u64, u64)>, root: u64) -> (targets: Vec<u64>)
    ensures
        targets@.no_duplicates(),
        forall|x: u64| #[trigger] targets@.contains(x) <==> time_descendant(edges@, root, x),
{
    let ghost g = edges@;
    let ghost ends = g.map_values(|e: (u64, u64)| e.1);
    let mut targets: Vec<u64> = Vec::new();
    proof {
        assert(targets@.to_set() =~= Set::<u64>::empty());
    }
    // the root's own children
    add_children(edges, root, &mut targets, Ghost(root));
    let mut i: usize = 0;
    while i < targets.len()
        invariant
            g == edges@,
            ends == g.map_values(|e: (u64, u64)| e.1),
            i <= targets@.len(),
            targets@.no_duplicates(),
            forall|x: u64| #[trigger] targets@.contains(x) ==> time_descendant(g, root, x) && ends.contains(x),
            forall|b: u64| g.contains((root, b)) ==> #[trigger] targets@.contains(b),
            forall|j: int, b: u64| 0 <= j < i && #[trigger] g.contains((targets@[j], b)) ==> targets@.contains(b),
        decreases g.len() - i,
    {
        proof {
            lemma_targets_bounded(targets@, ends);
        }
        let e = targets[i];
        let ghost before = targets@;
        add_children(edges, e, &mut targets, Ghost(root));
        proof {
            assert forall|b: u64| g.contains((root, b)) implies #[trigger] targets@.contains(b) by {
                assert(before.contains(b));
            }
            assert forall|j: int, b: u64| 0 <= j < i + 1 && #[trigger] g.contains((targets@[j], b)) implies targets@.contains(b) by {
                assert(targets@[j] == before[j]);
                if j < i {
                    assert(before.contains(b));
                }
            }
        }
        i = i + 1;
    }
    proof {
        assert forall|x: u64| time_descendant(g, root, x) implies #[trigger] targets@.contains(x) by {
            let n = choose|n: nat| n >= 1 && #[trigger] reach(g, root, x, n);
            lemma_reach_closed(g, root, targets@, x, n);
        }
    }
    targets
}

/// Appends to `targets` every child of `e` not already there.
fn add_children(edges: &Vec<(u64, u64)>, e: u64, targets: &mut Vec<u64>, Ghost(root): Ghost<u64>)
    requires
        old(targets)@.no_duplicates(),
        e == root || old(targets)@.contains(e),
        forall|x: u64| #[trigger] old(targets)@.contains(x) ==> time_descendant(edges@, root, x)
            && edges@.map_values(|e: (u64, u64)| e.1).contains(x),
    ensures
        final(targets)@.no_duplicates(),
        old(targets)@.len() <= final(targets)@.len(),
        forall|j: int| 0 <= j < old(targets)@.len() ==> final(targets)@[j] == old(targets)@[j],
        forall|x: u64| #[trigger] old(targets)@.contains(x) ==> final(targets)@.contains(x),
        forall|x: u64| #[trigger] final(targets)@.contains(x) ==> time_descendant(edges@, root, x)
            && edges@.map_values(|e: (u64, u64)| e.1).contains(x),
        forall|b: u64| edges@.contains((e, b)) ==> #[trigger] final(targets)@.contains(b),
{
    let ghost g = edges@;
    let ghost ends = g.map_values(|e: (u64, u64)| e.1);
    let ghost start = targets@;
    proof {
        if e != root {
            let m = choose|m: nat| m >= 1 && #[trigger] reach(g, root, e, m);
        }
    }
    let mut k: usize = 0;
    while k < edges.len()
        invariant
            g == edges@,
            ends == g.map_values(|e: (u64, u64)| e.1),
            k <= g.len(),
            e == root || start.contains(e),
            targets@.no_duplicates(),
            start.len() <= targets@.len(),
            forall|j: int| 0 <= j < start.len() ==> targets@[j] == start[j],
            forall|x: u64| #[trigger] start.contains(x) ==> targets@.contains(x),
            forall|x: u64| #[trigger] start.contains(x) ==> time_descendant(g, root, x) && ends.contains(x),
            forall|x: u64| #[trigger] targets@.contains(x) ==> time_descendant(g, root, x) && ends.contains(x),
            forall|j: int| 0 <= j < k && g[j].0 == e ==> #[trigger] targets@.contains(g[j].1),
        decreases g.len() - k,
    {
        let (a, b) = edges[k];
        if a == e && !vec_contains(targets, b) {
            let ghost pre = targets@;
            targets.push(b);
            proof {
                assert(g.contains((e, b))) by {
                    assert(g[k as int] == (e, b));
                }
                assert(ends[k as int] == b);
                assert(ends.contains(b));
                assert(time_descendant(g, root, b)) by {
                    if e == root {
                        assert(reach(g, root, b, 1));
                    } else {
                        let m = choose|m: nat| m >= 1 && #[trigger] reach(g, root, e, m);
                        assert(reach(g, root, e, m) && g.contains((e, b)));
                        let n1 = (m + 1) as nat;
                        assert((n1 - 1) as nat == m);
                        assert(reach(g, root, b, n1));
                    }
                }
                assert forall|x: u64| #[trigger] targets@.contains(x) implies time_descendant(g, root, x) && ends.contains(x) by {
                    if x != b {
                        let j = choose|j: int| 0 <= j < targets@.len() && targets@[j] == x;
                        assert(pre[j] == x);
                        assert(pre.contains(x));
                    }
                }
                assert forall|x: u64| #[trigger] start.contains(x) implies targets@.contains(x) by {
                    assert(pre.contains(x));
                    let j = choose|j: int| 0 <= j < pre.len() && pre[j] == x;
                    assert(targets@[j] == x);
                }
                assert forall|j: int| 0 <= j < k + 1 && g[j].0 == e implies #[trigger] targets@.contains(g[j].1) by {
                    if j < k {
                        assert(pre.contains(g[j].1));
                        let jj = choose|jj: int| 0 <= jj < pre.len() && pre[jj] == g[j].1;
                        assert(targets@[jj] == g[j].1);
                    } else {
                        assert(targets@[pre.len() as int] == b);
                    }
                }
                assert forall|p: int, q: int| 0 <= p < targets@.len() && 0 <= q < targets@.len() && p != q implies targets@[p] != targets@[q] by {
                    if p == pre.len() {
                        assert(pre.contains(pre[q]));
                    } else if q == pre.len() {
                        assert(pre.contains(pre[p]));
                    }
                }
            }
        }
        k = k + 1;
    }
    proof {
        assert forall|b: u64| g.contains((e, b)) implies #[trigger] targets@.contains(b) by {
            let j = choose|j: int| 0 <= j < g.len() && g[j] == (e, b);
            assert(g[j].0 == e);
            assert(targets@.contains(g[j].1));
        }
    }
}

proof fn lemma_targets_bounded(targets: Seq<u64>, ends: Seq<u64>)
    requires
        targets.no_duplicates(),
        forall|x: u64| #[trigger] targets.contains(x) ==> ends.contains(x),
    ensures
        targets.len() <= ends.len(),
{
    targets.unique_seq_to_set();
    ends.lemma_cardinality_of_set();
    assert(targets.to_set().subset_of(ends.to_set()));
    vstd::set_lib::lemma_len_subset(targets.to_set(), ends.to_set());
}

proof fn lemma_reach_closed(g: Seq<(u64, u64)>, root: u64, targets: Seq<u64>, x: u64, n: nat)
    requires
        forall|b: u64| g.contains((root, b)) ==> #[trigger] targets.contains(b),
        forall|j: int, b: u64| 0 <= j < targets.len() && #[trigger] g.contains((targets[j], b)) ==> targets.contains(b),
        n >= 1,
        reach(g, root, x, n),
    ensures
        targets.contains(x),
    decreases n,
{
    if n > 1 {
        let y = choose|y: u64| reach(g, root, y, (n - 1) as nat) && #[trigger] g.contains((y, x));
        lemma_reach_closed(g, root, targets, y, (n - 1) as nat);
        let j = choose|j: int| 0 <= j < targets.len() && targets[j] == y;
        assert(g.contains((targets[j], x)));
    }
}


/// The time hierarchy as values: each entity's `TimeParent`, and the `TimeChildren` set of each
/// entity that has one.
pub struct TimeHierarchyView {
    pub parents: Map<u64, u64>,
    pub children: Map<u64, Set<u64>>,
}

/// The time hierarchy after `entity` is given the time parent `parent`.
pub open spec fn with_time_parent(h: TimeHierarchyView, entity: u64, parent: u64) -> TimeHierarchyView {
    let kids = if h.children.contains_key(parent) {
        h.children[parent]
    } else {
        Set::<u64>::empty()
    };
    TimeHierarchyView {
        parents: h.parents.insert(entity, parent),
        children: h.children.insert(parent, kids.insert(entity)),
    }
}

/// `time_despawn` of `entity` is defined: if it has a time parent, that parent still has its
/// `TimeChildren`.
pub open spec fn can_time_despawn(h: TimeHierarchyView, entity: u64) -> bool {
    h.parents.contains_key(entity) ==> h.children.contains_key(h.parents[entity])
}

/// The time hierarchy after `entity` is despawned: it leaves its parent's children, and its
/// own time relations go with it.
pub open spec fn time_despawned(h: TimeHierarchyView, entity: u64) -> TimeHierarchyView {
    let children = if h.parents.contains_key(entity) {
        let p = h.parents[entity];
        h.children.insert(p, h.children[p].remove(entity))
    } else {
        h.children
    };
    TimeHierarchyView { parents: h.parents.remove(entity), children: children.remove(entity) }
}

/// Every entity with a time parent is among that parent's time children.
pub open spec fn parents_know_children(h: TimeHierarchyView) -> bool {
    forall|c: u64|
        #[trigger] h.parents.contains_key(c) ==> h.children.contains_key(h.parents[c])
            && h.children[h.parents[c]].contains(c)
}

/// No entity has `entity` as its time parent.
pub open spec fn childless(h: TimeHierarchyView, entity: u64) -> bool {
    forall|c: u64| #[trigger] h.parents.contains_key(c) ==> h.parents[c] != entity
}

/// Which entities rewind along with which: the `TimeParent` and `TimeChildren` components.
pub struct TimeHierarchy {
    /// The `TimeParent` of each entity that has one.
    parents: HashMap<u64, u64>,
    /// The entities that have `TimeChildren`.
    holders: Vec<u64>,
    /// `(parent, child)` for each child in each `TimeChildren`.
    edges: Vec<(u64, u64)>,
}

/// The entities in `v` other than `x`.
fn without(v: &Vec<u64>, x: u64) -> (r: Vec<u64>)
    ensures
        forall|y: u64| #[trigger] r@.contains(y) <==> v@.contains(y) && y != x,
{
    let mut r: Vec<u64> = Vec::new();
    let mut i: usize = 0;
    while i < v.len()
        invariant
            i <= v@.len(),
            forall|y: u64| #[trigger] r@.contains(y) <==> (exists|j: int| 0 <= j < i && v@[j] == y) && y != x,
        decreases v@.len() - i,
    {
        let y = v[i];
        let ghost r0 = r@;
        if y != x {
            r.push(y);
        }
        proof {
            assert forall|z: u64| #[trigger] r@.contains(z) <==> (exists|j: int| 0 <= j < i + 1 && v@[j] == z) && z != x by {
                assert(r@.contains(z) <==> r0.contains(z) || (y != x && z == y)) by {
                    if r@.contains(z) && !(y != x && z == y) {
                        let k = choose|k: int| 0 <= k < r@.len() && r@[k] == z;
                        assert(r0[k] == z);
                    }
                    if r0.contains(z) {
                        let k = choose|k: int| 0 <= k < r0.len() && r0[k] == z;
                        assert(r@[k] == z);
                    }
                    if y != x && z == y {
                        assert(r@[r@.len() - 1] == z);
                    }
                }
                if exists|j: int| 0 <= j < i + 1 && v@[j] == z {
                    let j = choose|j: int| 0 <= j < i + 1 && v@[j] == z;
                    if j < i {
                        assert(exists|j2: int| 0 <= j2 < i && v@[j2] == z);
                    }
                }
                if exists|j: int| 0 <= j < i && v@[j] == z {
                    let j = choose|j: int| 0 <= j < i && v@[j] == z;
                    assert(0 <= j < i + 1 && v@[j] == z);
                }
                if z == y {
                    assert(v@[i as int] == z);
                }
            }
        }
        i = i + 1;
    }
    proof {
        assert forall|y: u64| #[trigger] r@.contains(y) <==> v@.contains(y) && y != x by {
            if v@.contains(y) {
                let j = choose|j: int| 0 <= j < v@.len() && v@[j] == y;
                assert(v@[j] == y);
            }
        }
    }
    r
}

/// The edges in `v` except `dropped` (if any) and those whose parent is `parent`.
fn edges_without(v: &Vec<(u64, u64)>, dropped: Option<(u64, u64)>, parent: u64) -> (r: Vec<(u64, u64)>)
    ensures
        forall|pc: (u64, u64)| #[trigger] r@.contains(pc) <==> v@.contains(pc) && dropped != Some(pc) && pc.0 != parent,
{
    let mut r: Vec<(u64, u64)> = Vec::new();
    let mut i: usize = 0;
    while i < v.len()
        invariant
            i <= v@.len(),
            forall|pc: (u64, u64)| #[trigger] r@.contains(pc) <==> (exists|j: int| 0 <= j < i && v@[j] == pc)
                && dropped != Some(pc) && pc.0 != parent,
        decreases v@.len() - i,
    {
        let pc = v[i];
        let keep = pc.0 != parent && match dropped {
            Some(d) => !(d.0 == pc.0 && d.1 == pc.1),
            None => true,
        };
        let ghost r0 = r@;
        if keep {
            r.push(pc);
        }
        proof {
            assert(keep == (dropped != Some(pc) && pc.0 != parent));
            assert forall|z: (u64, u64)| #[trigger] r@.contains(z) <==> (exists|j: int| 0 <= j < i + 1 && v@[j] == z)
                && dropped != Some(z) && z.0 != parent by {
                assert(r@.contains(z) <==> r0.contains(z) || (keep && z == pc)) by {
                    if r@.contains(z) && !(keep && z == pc) {
                        let k = choose|k: int| 0 <= k < r@.len() && r@[k] == z;
                        assert(r0[k] == z);
                    }
                    if r0.contains(z) {
                        let k = choose|k: int| 0 <= k < r0.len() && r0[k] == z;
                        assert(r@[k] == z);
                    }
                    if keep && z == pc {
                        assert(r@[r@.len() - 1] == z);
                    }
                }
                if exists|j: int| 0 <= j < i + 1 && v@[j] == z {
                    let j = choose|j: int| 0 <= j < i + 1 && v@[j] == z;
                    if j < i {
                        assert(exists|j2: int| 0 <= j2 < i && v@[j2] == z);
                    }
                }
                if exists|j: int| 0 <= j < i && v@[j] == z {
                    let j = choose|j: int| 0 <= j < i && v@[j] == z;
                    assert(0 <= j < i + 1 && v@[j] == z);
                }
                if z == pc {
                    assert(v@[i as int] == z);
                }
            }
        }
        i = i + 1;
    }
    proof {
        assert forall|pc: (u64, u64)| #[trigger] r@.contains(pc) <==> v@.contains(pc) && dropped != Some(pc) && pc.0 != parent by {
            if v@.contains(pc) {
                let j = choose|j: int| 0 <= j < v@.len() && v@[j] == pc;
                assert(v@[j] == pc);
            }
        }
    }
    r
}

/// Whether `v` holds the edge `pc`.
fn has_edge(v: &Vec<(u64, u64)>, pc: (u64, u64)) -> (b: bool)
    ensures
        b == v@.contains(pc),
{
    let mut i: usize = 0;
    while i < v.len()
        invariant
            i <= v@.len(),
            forall|j: int| 0 <= j < i ==> v@[j] != pc,
        decreases v@.len() - i,
    {
        if v[i].0 == pc.0 && v[i].1 == pc.1 {
            assert(v@[i as int] == pc);
            return true;
        }
        i = i + 1;
    }
    false
}

impl TimeHierarchy {
    pub closed spec fn view(&self) -> TimeHierarchyView {
        TimeHierarchyView {
            parents: self.parents@,
            children: Map::new(
                |k: u64| self.holders@.contains(k),
                |k: u64| Set::new(|c: u64| self.edges@.contains((k, c))),
            ),
        }
    }

    /// Every time child belongs to an entity that has `TimeChildren`.
    pub closed spec fn well_formed(&self) -> bool {
        forall|pc: (u64, u64)| #[trigger] self.edges@.contains(pc) ==> self.holders@.contains(pc.0)
    }

    /// The time hierarchy as `(parent, child)` edges.
    pub closed spec fn edge_list(&self) -> Seq<(u64, u64)> {
        self.edges@
    }

    /// The edges are exactly the time children.
    pub proof fn lemma_edges(&self)
        requires
            self.well_formed(),
        ensures
            forall|p: u64, c: u64| #[trigger] self.edge_list().contains((p, c)) <==> self.view().children.contains_key(p)
                && self.view().children[p].contains(c),
    {
    }

    /// No time relations.
    pub fn new() -> (h: Self)
        ensures
            h.well_formed(),
            h.view().parents == Map::<u64, u64>::empty(),
            h.view().children == Map::<u64, Set<u64>>::empty(),
    {
        let h = TimeHierarchy { parents: HashMap::new(), holders: Vec::new(), edges: Vec::new() };
        assert(h.view().children =~= Map::<u64, Set<u64>>::empty());
        h
    }

    /// The time parent of `entity`, if any.
    pub fn time_parent(&self, entity: u64) -> (p: Option<u64>)
        ensures
            p == (if self.view().parents.contains_key(entity) {
                Some(self.view().parents[entity])
            } else {
                None
            }),
    {
        match self.parents.get(&entity) {
            Some(p) => Some(*p),
            None => None,
        }
    }

    /// Whether `entity` has `TimeChildren`.
    pub fn has_time_children(&self, entity: u64) -> (b: bool)
        ensures
            b == self.view().children.contains_key(entity),
    {
        vec_contains(&self.holders, entity)
    }

    /// Whether `child` is among the time children of `entity`.
    pub fn has_time_child(&self, entity: u64, child: u64) -> (b: bool)
        requires
            self.well_formed(),
        ensures
            b == (self.view().children.contains_key(entity) && self.view().children[entity].contains(child)),
    {
        has_edge(&self.edges, (entity, child))
    }

    /// Sets the time parent of `entity`: `parent` gets `TimeChildren` if it had none, and
    /// `entity` joins them. A previous time parent is not told: switching parents is not
    /// supported.
    pub fn set_time_parent(&mut self, entity: u64, parent: u64)
        requires
            old(self).well_formed(),
        ensures
            final(self).well_formed(),
            final(self).view() == with_time_parent(old(self).view(), entity, parent),
    {
        if !vec_contains(&self.holders, parent) {
            self.holders.push(parent);
        }
        if !has_edge(&self.edges, (parent, entity)) {
            self.edges.push((parent, entity));
        }
        self.parents.insert(entity, parent);
        proof {
            let expected = with_time_parent(old(self).view(), entity, parent);
            assert forall|k: u64| #[trigger] self.holders@.contains(k) <==> old(self).holders@.contains(k) || k == parent by {
                if self.holders@.contains(k) && k != parent {
                    let j = choose|j: int| 0 <= j < self.holders@.len() && self.holders@[j] == k;
                    assert(old(self).holders@[j] == k);
                }
                if old(self).holders@.contains(k) {
                    let j = choose|j: int| 0 <= j < old(self).holders@.len() && old(self).holders@[j] == k;
                    assert(self.holders@[j] == k);
                }
                if k == parent && !old(self).holders@.contains(parent) {
                    assert(self.holders@[self.holders@.len() - 1] == parent);
                }
            }
            assert forall|pc: (u64, u64)| #[trigger] self.edges@.contains(pc) <==> old(self).edges@.contains(pc) || pc == (parent, entity) by {
                if self.edges@.contains(pc) && pc != (parent, entity) {
                    let j = choose|j: int| 0 <= j < self.edges@.len() && self.edges@[j] == pc;
                    assert(old(self).edges@[j] == pc);
                }
                if old(self).edges@.contains(pc) {
                    let j = choose|j: int| 0 <= j < old(self).edges@.len() && old(self).edges@[j] == pc;
                    assert(self.edges@[j] == pc);
                }
                if pc == (parent, entity) && !old(self).edges@.contains(pc) {
                    assert(self.edges@[self.edges@.len() - 1] == pc);
                }
            }
            assert forall|pc: (u64, u64)| #[trigger] self.edges@.contains(pc) implies self.holders@.contains(pc.0) by {
                if pc != (parent, entity) {
                    assert(old(self).edges@.contains(pc));
                    assert(old(self).holders@.contains(pc.0));
                }
            }
            assert forall|k: u64| #[trigger] self.view().children.contains_key(k) implies self.view().children[k]
                == expected.children[k] by {
                assert(self.view().children[k] =~= expected.children[k]);
            }
            assert(self.view().children =~= expected.children);
            assert(self.view().parents =~= expected.parents);
        }
    }

    /// Despawns `entity` from the time hierarchy: it leaves the `TimeChildren` of its time
    /// parent, and its own `TimeParent` and `TimeChildren` go with it.
    pub fn time_despawn(&mut self, entity: u64)
        requires
            old(self).well_formed(),
            can_time_despawn(old(self).view(), entity),
        ensures
            final(self).well_formed(),
            final(self).view() == time_despawned(old(self).view(), entity),
    {
        let dropped = match self.parents.remove(&entity) {
            Some(p) => Some((p, entity)),
            None => None,
        };
        self.edges = edges_without(&self.edges, dropped, entity);
        self.holders = without(&self.holders, entity);
        proof {
            let expected = time_despawned(old(self).view(), entity);
            assert forall|k: u64| #[trigger] self.view().children.contains_key(k) implies self.view().children[k]
                == expected.children[k] by {
                assert(self.view().children[k] =~= expected.children[k]);
            }
            assert(self.view().children =~= expected.children);
            assert(self.view().parents =~= expected.parents);
        }
    }

    /// The entities a rewind added to `root` propagates to: every time descendant of `root`,
    /// each once.
    pub fn rewind_targets(&self, root: u64) -> (targets: Vec<u64>)
        ensures
            targets@.no_duplicates(),
            forall|x: u64| #[trigger] targets@.contains(x) <==> time_descendant(self.edge_list(), root, x),
            self.well_formed() ==> forall|p: u64, c: u64| #[trigger] self.edge_list().contains((p, c))
                <==> self.view().children.contains_key(p) && self.view().children[p].contains(c),
    {
        proof {
            if self.well_formed() {
                self.lemma_edges();
            }
        }
        propagate_rewinds(&self.edges, root)
    }
}

/// Giving an entity a time parent and then despawning it leaves the time hierarchy as it was,
/// when the entity had no time relations of its own and the parent already had `TimeChildren`.
pub proof fn law_despawn_undoes_set_time_parent(h: TimeHierarchyView, entity: u64, parent: u64)
    requires
        !h.parents.contains_key(entity),
        !h.children.contains_key(entity),
        h.children.contains_key(parent),
        !h.children[parent].contains(entity),
    ensures
        can_time_despawn(with_time_parent(h, entity, parent), entity),
        time_despawned(with_time_parent(h, entity, parent), entity) == h,
{
    let s = with_time_parent(h, entity, parent);
    let d = time_despawned(s, entity);
    assert(parent != entity);
    assert(d.parents =~= h.parents);
    assert(d.children[parent] =~= h.children[parent]);
    assert(d.children =~= h.children);
}

/// Setting time parents keeps every entity with a time parent among that parent's children.
pub proof fn law_set_time_parent_keeps_children_known(h: TimeHierarchyView, entity: u64, parent: u64)
    requires
        parents_know_children(h),
        !h.parents.contains_key(entity),
    ensures
        parents_know_children(with_time_parent(h, entity, parent)),
{
}

/// Despawning an entity that is no one's time parent keeps every remaining entity with a time
/// parent among that parent's children.
pub proof fn law_despawn_keeps_children_known(h: TimeHierarchyView, entity: u64)
    requires
        parents_know_children(h),
        childless(h, entity),
    ensures
        can_time_despawn(h, entity),
        parents_know_children(time_despawned(h, entity)),
{
    let d = time_despawned(h, entity);
    assert forall|c: u64| #[trigger] d.parents.contains_key(c) implies d.children.contains_key(d.parents[c])
        && d.children[d.parents[c]].contains(c) by {
        assert(h.parents.contains_key(c));
        assert(h.parents[c] != entity);
    }
}

} // verus!
