use grin::material::{
    completed_with_id, on_effect_completed, unloaded_ids, EffectFlags, MaterialAssetEvent,
    MaterialMutationError,
    MaterialMutationResource, DESPAWN_TWEEN_EVENT_ID, EFFECT_DESPAWN, EFFECT_REZERO,
    FILL_COMPLETED_EVENT_ID, TINT_COMPLETED_EVENT_ID,
};

#[test]
fn add_modded_materials() {
    let mut materials: Vec<&'static str> = vec!["white"];
    let mut material_mutation = MaterialMutationResource::new();
    let h_base_material = 0;

    let h_mod_material = material_mutation
        .modify(&mut materials, h_base_material, "black")
        .expect("`MaterialMutationResource::modify` did not provide a handle.");

    let entry = material_mutation
        .get_base(h_mod_material)
        .expect("`MaterialMutationResource::get_base` did not provide a handle.");
    assert_eq!(entry, h_base_material);

    let entry = material_mutation
        .pop_base(h_mod_material)
        .expect("`MaterialMutationResource::pop_base` did not provide a handle.");
    assert_eq!(entry, h_base_material);
    assert!(material_mutation.get_base(h_mod_material).is_err());

    assert_eq!(materials[h_base_material as usize], "white");
    assert_eq!(materials[h_mod_material as usize], "black");
}

#[test]
fn drop_modded_materials() {
    let mut materials: Vec<&'static str> = vec!["white"];
    let mut material_mutation = MaterialMutationResource::new();
    let h_base_material = 0;
    let h_mod_material = material_mutation.modify(&mut materials, h_base_material, "black").unwrap();

    // the modded material is unloaded once its handle is dropped
    material_mutation.clear_unloaded_modded_materials(&vec![
        MaterialAssetEvent::Modified(h_base_material),
        MaterialAssetEvent::Unused(h_mod_material),
    ]);

    assert!(material_mutation.is_empty());
}

#[test]
fn modifying_a_modded_material_edits_it_in_place() {
    let mut materials: Vec<&'static str> = vec!["white"];
    let mut res = MaterialMutationResource::new();
    let base = 0;
    let modded = res.modify(&mut materials, base, "red").unwrap();
    assert_eq!(modded, 1);
    assert!(res.is_modded(modded));
    assert!(!res.is_modded(base));
    assert_eq!(res.modify(&mut materials, modded, "blue"), None);
    assert_eq!(materials, vec!["white", "blue"]);
    assert_eq!(res.get_base(modded), Ok(base));
}

#[test]
fn lookups_of_unknown_materials_fail() {
    let mut res = MaterialMutationResource::new();
    assert_eq!(res.get_base(9), Err(MaterialMutationError::EntryNotFound));
    assert_eq!(res.pop_base(9), Err(MaterialMutationError::EntryNotFound));
    res.link(9, 1);
    res.link(10, 1);
    res.clear_unloaded(&vec![9, 11]);
    assert!(!res.is_empty());
    assert_eq!(res.get_base(10), Ok(1));
    assert_eq!(res.get_base(9), Err(MaterialMutationError::EntryNotFound));
}

#[test]
fn effect_flags() {
    let f = EffectFlags::default_flags();
    assert_eq!(f, EffectFlags(3));
    assert!(f.intersects(EFFECT_DESPAWN));
    assert!(f.intersects(EFFECT_REZERO));
    assert_eq!(on_effect_completed(f), (true, true));
    assert_eq!(on_effect_completed(EffectFlags(EFFECT_DESPAWN)), (false, true));
    assert_eq!(on_effect_completed(EffectFlags(EFFECT_REZERO)), (true, false));
    assert_eq!(on_effect_completed(EffectFlags(0)), (false, false));
}

#[test]
fn tween_completion_events_by_id() {
    let events = vec![
        (1, TINT_COMPLETED_EVENT_ID),
        (2, FILL_COMPLETED_EVENT_ID),
        (3, TINT_COMPLETED_EVENT_ID),
        (4, DESPAWN_TWEEN_EVENT_ID),
    ];
    assert_eq!(completed_with_id(&events, TINT_COMPLETED_EVENT_ID), vec![1, 3]);
    assert_eq!(completed_with_id(&events, FILL_COMPLETED_EVENT_ID), vec![2]);
    assert_eq!(completed_with_id(&events, DESPAWN_TWEEN_EVENT_ID), vec![4]);
    assert_eq!(completed_with_id(&events, 5), Vec::<u64>::new());
    assert_eq!(TINT_COMPLETED_EVENT_ID, 54327890);
    assert_eq!(FILL_COMPLETED_EVENT_ID, 12379087);
}

#[test]
fn rezero_returns_bases_once() {
    let mut m = MaterialMutationResource::new();
    m.link(100, 1);
    m.link(200, 2);
    // entities 10 and 11 share modded material 100; entity 12 has an unmodded material
    let replaced = m.rezero(&vec![(10, 100), (11, 100), (12, 5), (13, 200)]);
    assert_eq!(replaced, vec![(10, 1), (13, 2)]);
    assert!(m.is_empty());
    assert!(m.rezero(&vec![(10, 100)]).is_empty());
}

#[test]
fn unloaded_material_events() {
    let events = vec![
        MaterialAssetEvent::Added(1),
        MaterialAssetEvent::Removed(2),
        MaterialAssetEvent::Modified(3),
        MaterialAssetEvent::Unused(4),
        MaterialAssetEvent::LoadedWithDependencies(5),
    ];
    assert_eq!(unloaded_ids(&events), vec![2, 4]);
    let mut res = MaterialMutationResource::new();
    res.link(2, 0);
    res.link(3, 0);
    res.clear_unloaded_modded_materials(&events);
    assert!(!res.is_modded(2));
    assert!(res.is_modded(3));
}
