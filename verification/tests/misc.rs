use grin::collision::{
    projectile_group, projectile_groups,
    CollisionGroups, ALL_GROUPS, DEBRIS, ENEMY, ENEMY_PROJECTILE, MAP, NO_GROUPS, PLAYER,
    PLAYER_PROJECTILE, PROJECTILE,
};
use grin::keys::{any_numbered, first_number, NumberKey};
use grin::map::{is_restricted, state_after_map_check, state_after_navmesh, MapLoadState, BOUNDARY_MESH_NAME};
use grin::query::distinguish_by_query;
use grin::scene::{gltf_path_search, gltf_prefix_search, ready_scene_instances};
use grin::sketch::{
    material_flags, specialize, texture_layer, AlphaModeKind, MaterialFlagInputs, NormalMapFormat, SketchMaterialKey,
    StandardFlag, FILL_DEF, SKETCHED_DEF,
};

fn interacts(a: CollisionGroups, b: CollisionGroups) -> bool {
    (a.memberships & b.filters) != 0 && (b.memberships & a.filters) != 0
}

#[test]
fn collision_group_constants() {
    assert_eq!(PLAYER, 1 << 0);
    assert_eq!(PLAYER_PROJECTILE, 1 << 1);
    assert_eq!(ENEMY, 1 << 2);
    assert_eq!(ENEMY_PROJECTILE, 1 << 3);
    assert_eq!(DEBRIS, 1 << 4);
    assert_eq!(MAP, 1 << 31);
    assert_eq!(PROJECTILE, PLAYER_PROJECTILE | ENEMY_PROJECTILE);
}

#[test]
fn default_collision_groups() {
    let g = CollisionGroups::from_group_default(PLAYER);
    assert_eq!(g, CollisionGroups { memberships: 1, filters: u32::MAX - 1 });
    let g = CollisionGroups::from_group_default(PLAYER_PROJECTILE);
    assert_eq!(g, CollisionGroups { memberships: 2, filters: u32::MAX & !1 & !10 });
    let g = CollisionGroups::from_group_default(ENEMY_PROJECTILE);
    assert_eq!(g, CollisionGroups { memberships: 8, filters: u32::MAX & !4 & !10 });
    let g = CollisionGroups::from_group_default(DEBRIS);
    assert_eq!(g, CollisionGroups { memberships: DEBRIS, filters: MAP });
    let g = CollisionGroups::from_group_default(MAP);
    assert_eq!(g, CollisionGroups { memberships: MAP, filters: ALL_GROUPS });
    let g = CollisionGroups::from_group_default(NO_GROUPS);
    assert_eq!(g, CollisionGroups { memberships: 0, filters: 0 });
    // any other mask collides with everything
    let g = CollisionGroups::from_group_default(PLAYER | ENEMY);
    assert_eq!(g, CollisionGroups::everything());
}

#[test]
fn friendly_fire() {
    let d = CollisionGroups::from_group_default;
    assert!(!interacts(d(PLAYER_PROJECTILE), d(PLAYER)));
    assert!(!interacts(d(ENEMY_PROJECTILE), d(ENEMY)));
    assert!(!interacts(d(PLAYER_PROJECTILE), d(ENEMY_PROJECTILE)));
    assert!(interacts(d(PLAYER_PROJECTILE), d(ENEMY)));
    assert!(interacts(d(ENEMY_PROJECTILE), d(PLAYER)));
    assert!(interacts(d(PLAYER), d(ENEMY)));
    assert!(!interacts(d(PLAYER), d(PLAYER)));
    assert!(interacts(d(DEBRIS), d(MAP)));
    assert!(!interacts(d(DEBRIS), d(PLAYER)));
}

#[test]
fn numbered_keys() {
    assert_eq!(any_numbered(0), vec![NumberKey::Digit(0), NumberKey::Numpad(0)]);
    assert_eq!(any_numbered(9), vec![NumberKey::Digit(9), NumberKey::Numpad(9)]);
    let mut state = vec![false; 10];
    assert_eq!(first_number(&state), None);
    state[7] = true;
    state[3] = true;
    assert_eq!(first_number(&state), Some(3));
    state[0] = true;
    assert_eq!(first_number(&state), Some(0));
    // numbers past 9 are not looked at
    let mut long = vec![false; 12];
    long[11] = true;
    assert_eq!(first_number(&long), None);
}

#[test]
fn distinguish_pairs() {
    assert_eq!(distinguish_by_query(1, 2, true, true), Some((1, 2)));
    assert_eq!(distinguish_by_query(1, 2, false, true), Some((2, 1)));
    assert_eq!(distinguish_by_query(1, 2, false, false), None);
}

#[test]
fn map_states() {
    assert_eq!(MapLoadState::default_state(), MapLoadState::NotLoaded);
    assert_eq!(
        MapLoadState::variants(),
        vec![MapLoadState::NotLoaded, MapLoadState::Loading, MapLoadState::Success, MapLoadState::Fail]
    );
    assert_eq!(state_after_map_check(1), Some(MapLoadState::Loading));
    assert_eq!(state_after_map_check(0), None);
    assert_eq!(state_after_map_check(2), None);
    assert_eq!(state_after_navmesh(true), MapLoadState::Success);
    assert_eq!(state_after_navmesh(false), MapLoadState::Fail);
}

fn names(list: &[(u64, &str)]) -> Vec<(u64, String)> {
    list.iter().map(|(e, n)| (*e, n.to_string())).collect()
}

#[test]
fn path_search_follows_names() {
    // 1 -> (2 "Armature" -> (4 "Hand", 5 "Hand")), (3 "Body")
    let edges = vec![(1, 2), (1, 3), (2, 4), (2, 5)];
    let ns = names(&[(2, "Armature"), (3, "Body"), (4, "Hand"), (5, "Hand")]);
    let path = vec!["Armature".to_string(), "Hand".to_string()];
    assert_eq!(gltf_path_search(&path, 1, &edges, &ns), Ok(4));
    assert_eq!(gltf_path_search(&vec!["Body".to_string()], 1, &edges, &ns), Ok(3));
    assert_eq!(gltf_path_search(&vec![], 1, &edges, &ns), Ok(1));
    assert_eq!(gltf_path_search(&vec!["Hand".to_string()], 1, &edges, &ns), Err(()));
}

#[test]
fn prefix_search_finds_hitboxes() {
    let ns = names(&[(1, "hitbox.blade"), (2, "blade"), (4, "hitbox.handle"), (5, "hit")]);
    assert_eq!(gltf_prefix_search("hitbox.", &vec![1, 2, 3, 4, 5], &ns), vec![1, 4]);
    assert_eq!(gltf_prefix_search("", &vec![1, 3], &ns), vec![1]);
}

#[test]
fn ready_instances() {
    let inst = vec![(1, 10, true), (2, 20, false), (3, 30, true)];
    assert_eq!(ready_scene_instances(&inst), vec![(1, 10), (3, 30)]);
}

#[test]
fn sketch_specialization() {
    let k = SketchMaterialKey::from_info(true, false);
    assert_eq!(k, SketchMaterialKey { sketch_enabled: true, y_cutoff_enabled: false });
    let s = specialize(k);
    assert!(s.vertex_defs.is_empty());
    assert_eq!(s.fragment_defs, vec![SKETCHED_DEF]);
    assert!(!s.y_cutoff_attribute);
    let s = specialize(SketchMaterialKey::from_info(true, true));
    assert_eq!(s.vertex_defs, vec!["FILL"]);
    assert_eq!(s.fragment_defs, vec!["SKETCHED", "FILL"]);
    assert!(s.y_cutoff_attribute);
    let s = specialize(SketchMaterialKey::from_info(false, false));
    assert!(s.vertex_defs.is_empty() && s.fragment_defs.is_empty());
    assert_eq!(FILL_DEF, "FILL");
}

#[test]
fn standard_material_flags() {
    let plain = MaterialFlagInputs {
        base_color_texture: false,
        emissive_texture: false,
        metallic_roughness_texture: false,
        occlusion_texture: false,
        double_sided: false,
        unlit: false,
        fog_enabled: true,
        normal_map: None,
        flip_normal_map_y: true,
        alpha_mode: AlphaModeKind::Opaque,
    };
    assert_eq!(material_flags(plain), vec![StandardFlag::FogEnabled, StandardFlag::AlphaModeOpaque]);
    let full = MaterialFlagInputs {
        base_color_texture: true,
        emissive_texture: true,
        metallic_roughness_texture: true,
        occlusion_texture: true,
        double_sided: true,
        unlit: true,
        normal_map: Some(Some(NormalMapFormat::Bc5RgUnorm)),
        alpha_mode: AlphaModeKind::Mask,
        ..plain
    };
    assert_eq!(
        material_flags(full),
        vec![
            StandardFlag::BaseColorTexture,
            StandardFlag::EmissiveTexture,
            StandardFlag::MetallicRoughnessTexture,
            StandardFlag::OcclusionTexture,
            StandardFlag::DoubleSided,
            StandardFlag::Unlit,
            StandardFlag::FogEnabled,
            StandardFlag::TwoComponentNormalMap,
            StandardFlag::FlipNormalMapY,
            StandardFlag::AlphaModeMask,
        ]
    );
    let other = MaterialFlagInputs { normal_map: Some(Some(NormalMapFormat::Other)), alpha_mode: AlphaModeKind::Add, ..plain };
    assert_eq!(
        material_flags(other),
        vec![StandardFlag::FogEnabled, StandardFlag::FlipNormalMapY, StandardFlag::AlphaModeAdd]
    );
    let unloaded = MaterialFlagInputs { normal_map: Some(None), flip_normal_map_y: false, alpha_mode: AlphaModeKind::Multiply, ..plain };
    assert_eq!(material_flags(unloaded), vec![StandardFlag::FogEnabled, StandardFlag::AlphaModeMultiply]);
}

#[test]
fn projectiles_take_their_side() {
    assert_eq!(projectile_group(true), PLAYER_PROJECTILE);
    assert_eq!(projectile_group(false), ENEMY_PROJECTILE);
    assert_eq!(projectile_groups(true), CollisionGroups::from_group_default(PLAYER_PROJECTILE));
    assert_eq!(projectile_groups(false), CollisionGroups::from_group_default(ENEMY_PROJECTILE));
}

#[test]
fn only_the_floor_bounds_navigation() {
    assert_eq!(BOUNDARY_MESH_NAME, "Plane");
    assert!(!is_restricted("Plane"));
    assert!(is_restricted("Plane.001"));
    assert!(is_restricted("plane"));
    assert!(is_restricted("Wall"));
    assert!(is_restricted(""));
}

#[test]
fn texture_layers_are_signed() {
    assert_eq!(texture_layer(0), 0);
    assert_eq!(texture_layer(7), 7);
    assert_eq!(texture_layer(0x7fff_ffff), i32::MAX);
    assert_eq!(texture_layer(0x8000_0000), i32::MIN);
    assert_eq!(texture_layer(u32::MAX), -1);
    for l in [3u32, 0x8000_0005, 0xdead_beef] {
        assert_eq!(texture_layer(l), l as i32);
    }
}
