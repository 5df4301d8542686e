//! Hitboxes generated from GLTF nodes: which nodes become colliders, and how the collision
//! groups and generation markers of an item reach them.

use std::collections::{HashMap, HashSet};
use vstd::prelude::*;
use crate::collision::{CollisionGroups, default_groups, PLAYER_PROJECTILE};
use crate::scene::{gltf_prefix_search, prefix_matches};

verus! {

broadcast use vstd::std_specs::hash::group_hash_axioms;

/// Collision groups to use when dealing damage.
#[derive(Debug, Clone, Copy, PartialEq, Eq, Structural)]
pub struct DamageCollisionGroups(pub CollisionGroups);

impl DamageCollisionGroups {
    /// By default, damage is dealt as a player projectile.
    pub fn default_groups() -> (d: DamageCollisionGroups)
        ensures
            d.0 == default_groups(PLAYER_PROJECTILE),
    {
        DamageCollisionGroups(CollisionGroups::from_group_default(PLAYER_PROJECTILE))
    }
}

/// The nodes of a loaded item scene that hitbox generation looked at.
pub struct HitboxScan {
    /// Hitbox nodes with a mesh, which become colliders, in scene order.
    pub colliders: Vec<u64>,
    /// Hitbox nodes without a mesh, which are reported and skipped, in scene order.
    pub missing_mesh: Vec<u64>,
}

/// Finds the hitbox nodes of a loaded scene instance: the nodes whose name starts with
/// `prefix`. Those with a mesh (in `meshes`) become the item's colliders.
pub fn init_hitboxes(
    prefix: &str,
    instance_entities: &Vec<u64>,
    names: &Vec<(u64, String)>,
    meshes: &HashSet<u64>,
) -> (scan: HitboxScan)
    ensures
        scan.colliders@ == prefix_matches(prefix@, instance_entities@, names@).filter(
            |e: u64| meshes@.contains(e),
        ),
        scan.missing_mesh@ == prefix_matches(prefix@, instance_entities@, names@).filter(
            |e: u64| !meshes@.contains(e),
        ),
{
    let hitboxes = gltf_prefix_search(prefix, instance_entities, names);
    let ghost with = |e: u64| meshes@.contains(e);
    let ghost without = |e: u64| !meshes@.contains(e);
    let mut colliders: Vec<u64> = Vec::new();
    let mut missing_mesh: Vec<u64> = Vec::new();
    let mut i: usize = 0;
    while i < hitboxes.len()
        invariant
            i <= hitboxes@.len(),
            with == (|e: u64| meshes@.contains(e)),
            without == (|e: u64| !meshes@.contains(e)),
            colliders@ == hitboxes@.subrange(0, i as int).filter(with),
            missing_mesh@ == hitboxes@.subrange(0, i as int).filter(without),
        decreases hitboxes@.len() - i,
    {
        let e = hitboxes[i];
        proof {
            assert(hitboxes@.subrange(0, i + 1).drop_last() =~= hitboxes@.subrange(0, i as int));
            reveal_with_fuel(Seq::<_>::filter, 1);
        }
        if meshes.contains(&e) {
            colliders.push(e);
        } else {
            missing_mesh.push(e);
        }
        assert(colliders@ =~= hitboxes@.subrange(0, i + 1).filter(with));
        assert(missing_mesh@ =~= hitboxes@.subrange(0, i + 1).filter(without));
        i = i + 1;
    }
    assert(hitboxes@.subrange(0, hitboxes@.len() as int) =~= hitboxes@);
    HitboxScan { colliders, missing_mesh }
}

/// Collision groups after the damage groups `groups` are given to the hitboxes `colliders`:
/// each hitbox that has collision groups gets them.
pub open spec fn synced_groups(
    current: Map<u64, CollisionGroups>,
    colliders: Seq<u64>,
    groups: CollisionGroups,
) -> Map<u64, CollisionGroups> {
    Map::new(
        |e: u64| current.contains_key(e),
        |e: u64| if colliders.contains(e) { groups } else { current[e] },
    )
}

/// Gives the damage collision groups of an item to its hitbox colliders. `current` holds the
/// collision groups of the entities that have them. Returns the hitboxes that have none, which
/// are reported and left as they are.
pub fn sync_hitbox_collision_groups(
    current: &mut HashMap<u64, CollisionGroups>,
    colliders: &Vec<u64>,
    groups: DamageCollisionGroups,
) -> (missing: Vec<u64>)
    ensures
        final(current)@ == synced_groups(old(current)@, colliders@, groups.0),
        missing@ == colliders@.filter(|e: u64| !old(current)@.contains_key(e)),
{
    let ghost start = current@;
    let ghost absent = |e: u64| !start.contains_key(e);
    let mut missing: Vec<u64> = Vec::new();
    let mut i: usize = 0;
    while i < colliders.len()
        invariant
            i <= colliders@.len(),
            absent == (|e: u64| !start.contains_key(e)),
            current@ == synced_groups(start, colliders@.subrange(0, i as int), groups.0),
            missing@ == colliders@.subrange(0, i as int).filter(absent),
        decreases colliders@.len() - i,
    {
        let e = colliders[i];
        let ghost pre = colliders@.subrange(0, i as int);
        let ghost post = colliders@.subrange(0, i + 1);
        proof {
            assert(post.drop_last() =~= pre);
            assert(post =~= pre.push(e));
            reveal_with_fuel(Seq::<_>::filter, 1);
        }
        if current.contains_key(&e) {
            current.insert(e, groups.0);
        } else {
            missing.push(e);
        }
        proof {
            assert forall|x: u64| post.contains(x) <==> pre.contains(x) || x == e by {
                if post.contains(x) && x != e {
                    let j = choose|j: int| 0 <= j < post.len() && post[j] == x;
                    assert(pre[j] == x);
                }
                if pre.contains(x) {
                    let j = choose|j: int| 0 <= j < pre.len() && pre[j] == x;
                    assert(post[j] == x);
                }
                if x == e {
                    assert(post[i as int] == x);
                }
            }
            assert(current@ =~= synced_groups(start, post, groups.0));
        }
        assert(missing@ =~= post.filter(absent));
        i = i + 1;
    }
    assert(colliders@.subrange(0, colliders@.len() as int) =~= colliders@);
    missing
}

/// Whether GLTF hitbox generation is enabled for an item.
#[derive(Debug, Clone, Copy, PartialEq, Eq, Structural)]
pub enum GltfHitboxAutoGen {
    Enabled,
    Disabled,
}

impl GltfHitboxAutoGen {
    /// Enabled by default.
    pub fn default_autogen() -> (a: GltfHitboxAutoGen)
        ensures
            a == GltfHitboxAutoGen::Enabled,
    {
        GltfHitboxAutoGen::Enabled
    }
}

/// The model scenes of an item that get a hitbox generation marker pointing at the item
/// (`master`): all of them when generation is enabled, none otherwise. The item's own
/// `GltfHitboxAutoGen` is removed either way.
pub fn insert_autogen_markers(master: u64, targets: &Vec<u64>, autogen: GltfHitboxAutoGen) -> (marked: Vec<(u64, u64)>)
    ensures
        autogen == GltfHitboxAutoGen::Enabled ==> marked@ == targets@.map_values(|t: u64| (t, master)),
        autogen == GltfHitboxAutoGen::Disabled ==> marked@.len() == 0,
{
    let mut marked: Vec<(u64, u64)> = Vec::new();
    if let GltfHitboxAutoGen::Enabled = autogen {
        let mut i: usize = 0;
        while i < targets.len()
            invariant
                i <= targets@.len(),
                marked@ == targets@.subrange(0, i as int).map_values(|t: u64| (t, master)),
            decreases targets@.len() - i,
        {
            marked.push((targets[i], master));
            assert(marked@ =~= targets@.subrange(0, i + 1).map_values(|t: u64| (t, master)));
            i = i + 1;
        }
        assert(targets@.subrange(0, targets@.len() as int) =~= targets@);
    }
    marked
}

} // verus!
