use std::collections::{HashMap, HashSet};

use grin::aim::{aim_clip, aim_on_active, idle_clip, unaim_on_unactive, AimClip, AimType, ClipPlay, IdleType};
use grin::collision::{CollisionGroups, PLAYER_PROJECTILE};
use grin::equip::HumanoidDominantHand;
use grin::hierarchy::{find_item_owner, first_matching_ancestor, PotentialAncestorIter};
use grin::time_hierarchy::TimeHierarchy;
use grin::hitbox::{
    init_hitboxes, insert_autogen_markers, sync_hitbox_collision_groups, DamageCollisionGroups,
    GltfHitboxAutoGen,
};

/// 1 <- 2 <- 3 <- 4 <- 5 (each entity's parent is the one before it)
fn chain() -> HashMap<u64, u64> {
    let mut parents = HashMap::new();
    parents.insert(2, 1);
    parents.insert(3, 2);
    parents.insert(4, 3);
    parents.insert(5, 4);
    parents
}

fn set(items: &[u64]) -> HashSet<u64> {
    items.iter().copied().collect()
}

#[test]
fn first_matching_ancestor_is_nearest_strict_ancestor() {
    let parents = chain();
    assert_eq!(first_matching_ancestor(&parents, &set(&[1, 3]), 5), Some(3));
    assert_eq!(first_matching_ancestor(&parents, &set(&[1, 3]), 3), Some(1));
    // the entity itself does not count
    assert_eq!(first_matching_ancestor(&parents, &set(&[5]), 5), None);
    assert_eq!(first_matching_ancestor(&parents, &set(&[]), 5), None);
    assert_eq!(first_matching_ancestor(&parents, &set(&[2]), 1), None);
}

#[test]
fn potential_ancestors_come_nearest_first() {
    let parents = chain();
    let filter = set(&[1, 2, 4]);
    let mut it = PotentialAncestorIter::new(5);
    assert_eq!(it.next(&parents, &filter), Some(4));
    assert_eq!(it.next(&parents, &filter), Some(2));
    assert_eq!(it.next(&parents, &filter), Some(1));
    assert_eq!(it.next(&parents, &filter), None);
    assert_eq!(it.next(&parents, &filter), None);
}

#[test]
fn item_owner_is_nearest_equipped_ancestor() {
    // item 5 sits in hand 4 of rig 3 of humanoid 2
    let parents = chain();
    assert_eq!(find_item_owner(5, &parents, &set(&[2])), Some(2));
    assert_eq!(find_item_owner(5, &parents, &set(&[])), None);
}

#[test]
fn aim_clips() {
    assert_eq!(aim_clip(AimType::RangedSingle, HumanoidDominantHand::Left), AimClip::RangedSingleLeft);
    assert_eq!(aim_clip(AimType::RangedSingle, HumanoidDominantHand::Right), AimClip::RangedSingleRight);
    assert_eq!(idle_clip(IdleType::Idle), AimClip::Idle);
}

#[test]
fn aiming_uses_nearest_humanoid_and_animator() {
    let parents = chain();
    let mut humanoids = HashMap::new();
    humanoids.insert(2, HumanoidDominantHand::Left);
    humanoids.insert(1, HumanoidDominantHand::Right);
    let animators = set(&[3, 1]);
    assert_eq!(
        aim_on_active(5, AimType::RangedSingle, &parents, &humanoids, &animators),
        Some(ClipPlay { animator: 3, clip: AimClip::RangedSingleLeft })
    );
    assert_eq!(aim_on_active(5, AimType::RangedSingle, &parents, &humanoids, &set(&[])), None);
    assert_eq!(
        unaim_on_unactive(5, IdleType::Idle, &parents, &animators),
        Some(ClipPlay { animator: 3, clip: AimClip::Idle })
    );
    assert_eq!(unaim_on_unactive(5, IdleType::Idle, &parents, &set(&[5])), None);
}

#[test]
fn time_parent_then_despawn() {
    let mut h = TimeHierarchy::new();
    h.set_time_parent(10, 1);
    h.set_time_parent(11, 1);
    assert_eq!(h.time_parent(10), Some(1));
    assert!(h.has_time_child(1, 10));
    assert!(h.has_time_child(1, 11));
    h.time_despawn(10);
    assert_eq!(h.time_parent(10), None);
    assert!(!h.has_time_child(1, 10));
    assert!(h.has_time_child(1, 11));
    // despawning the parent drops its children set
    h.time_despawn(1);
    assert!(!h.has_time_child(1, 11));
    // the child keeps pointing at its despawned parent
    assert_eq!(h.time_parent(11), Some(1));
}

#[test]
fn despawn_undoes_set_time_parent() {
    let mut h = TimeHierarchy::new();
    h.set_time_parent(2, 1);
    h.set_time_parent(3, 1);
    h.set_time_parent(3, 1);
    assert!(h.has_time_child(1, 3));
    h.time_despawn(3);
    assert!(!h.has_time_child(1, 3));
    assert!(h.has_time_child(1, 2));
    assert_eq!(h.time_parent(3), None);
}

fn names(items: &[(u64, &str)]) -> Vec<(u64, String)> {
    items.iter().map(|(e, n)| (*e, n.to_string())).collect()
}

#[test]
fn hitboxes_need_a_mesh() {
    let entities = vec![1, 2, 3, 4, 5];
    let names = names(&[(1, "hitbox.blade"), (2, "handle"), (3, "hitbox.hilt"), (5, "hitbox")]);
    let scan = init_hitboxes("hitbox", &entities, &names, &set(&[1, 2, 5]));
    assert_eq!(scan.colliders, vec![1, 5]);
    assert_eq!(scan.missing_mesh, vec![3]);
    let scan = init_hitboxes("hitbox.", &entities, &names, &set(&[]));
    assert!(scan.colliders.is_empty());
    assert_eq!(scan.missing_mesh, vec![1, 3]);
}

#[test]
fn damage_groups_reach_hitboxes() {
    let old = CollisionGroups { memberships: 16, filters: 1 };
    let mut current = HashMap::new();
    current.insert(1, old);
    current.insert(2, old);
    current.insert(9, old);
    let groups = DamageCollisionGroups::default_groups();
    assert_eq!(groups.0, CollisionGroups::from_group_default(PLAYER_PROJECTILE));
    let missing = sync_hitbox_collision_groups(&mut current, &vec![1, 3, 2], groups);
    assert_eq!(missing, vec![3]);
    assert_eq!(current[&1], groups.0);
    assert_eq!(current[&2], groups.0);
    assert_eq!(current[&9], old);
    assert!(!current.contains_key(&3));
}

#[test]
fn autogen_markers() {
    assert_eq!(GltfHitboxAutoGen::default_autogen(), GltfHitboxAutoGen::Enabled);
    assert_eq!(
        insert_autogen_markers(7, &vec![1, 2], GltfHitboxAutoGen::Enabled),
        vec![(1, 7), (2, 7)]
    );
    assert!(insert_autogen_markers(7, &vec![1, 2], GltfHitboxAutoGen::Disabled).is_empty());
}

#[test]
fn rewinds_reach_time_descendants() {
    let mut h = TimeHierarchy::new();
    h.set_time_parent(2, 1);
    h.set_time_parent(3, 2);
    h.set_time_parent(4, 1);
    h.set_time_parent(9, 8);
    let mut t = h.rewind_targets(1);
    t.sort();
    assert_eq!(t, vec![2, 3, 4]);
    h.time_despawn(2);
    let mut t = h.rewind_targets(1);
    t.sort();
    assert_eq!(t, vec![4]);
    assert!(h.rewind_targets(3).is_empty());
}

#[test]
fn time_children_stay_known() {
    let mut h = TimeHierarchy::new();
    h.set_time_parent(2, 1);
    h.set_time_parent(3, 1);
    h.set_time_parent(4, 2);
    // 3 is no one's time parent: despawning it keeps the others known
    h.time_despawn(3);
    for child in [2u64, 4] {
        let p = h.time_parent(child).unwrap();
        assert!(h.has_time_children(p));
        assert!(h.has_time_child(p, child));
    }
}
