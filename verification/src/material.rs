//! Bookkeeping for material effects: which modded materials stand for which base materials,
//! the flags of an effect, and the completion events of effect tweens.
//!
//! Materials are identified by their asset ids, as 64-bit values.

use std::collections::HashMap;
use vstd::prelude::*;

verus! {

broadcast use vstd::std_specs::hash::group_hash_axioms;

/// Errors of `MaterialMutationResource` lookups.
#[derive(Debug, Clone, Copy, PartialEq, Eq, Structural)]
pub enum MaterialMutationError {
    EntryNotFound,
}

/// Maps materials under an effect to their standard non-effected versions.
/// Materials under an effect are drawn independently, but non-effected versions are not;
/// keeping the base around lets the effect be undone.
pub struct MaterialMutationResource {
    map: HashMap<u64, u64>,
}

impl MaterialMutationResource {
    /// Modded material id to base material id.
    pub closed spec fn view(&self) -> Map<u64, u64> {
        self.map@
    }

    /// No modded materials.
    pub fn new() -> (r: Self)
        ensures
            r.view() == Map::<u64, u64>::empty(),
    {
        MaterialMutationResource { map: HashMap::new() }
    }

    /// Whether this material is already a modded one. Modifying a modded material edits it in
    /// place; modifying any other material first clones it into a new modded material, which
    /// is then recorded with `link`.
    pub fn is_modded(&self, material: u64) -> (b: bool)
        ensures
            b == self.view().contains_key(material),
    {
        self.map.contains_key(&material)
    }

    /// Modifies material `material` of the store `materials` (ids are indices), where `edited`
    /// is the material after the edit. A modded material is edited in place and `None` is
    /// returned; any other material stays as it is, the edited copy is added to the store as a
    /// new modded material linked to it, and its id is returned.
    pub fn modify<M>(&mut self, materials: &mut Vec<M>, material: u64, edited: M) -> (r: Option<u64>)
        requires
            material < old(materials)@.len(),
            old(materials)@.len() < u64::MAX,
        ensures
            old(self).view().contains_key(material) ==> {
                &&& r is None
                &&& final(materials)@ == old(materials)@.update(material as int, edited)
                &&& final(self).view() == old(self).view()
            },
            !old(self).view().contains_key(material) ==> {
                &&& r == Some(old(materials)@.len() as u64)
                &&& final(materials)@ == old(materials)@.push(edited)
                &&& final(self).view() == old(self).view().insert(old(materials)@.len() as u64, material)
            },
    {
        if self.map.contains_key(&material) {
            materials.set(material as usize, edited);
            None
        } else {
            let id = materials.len() as u64;
            materials.push(edited);
            self.link(id, material);
            Some(id)
        }
    }

    /// Records that `modded` is a modded version of `base`.
    pub fn link(&mut self, modded: u64, base: u64)
        ensures
            final(self).view() == old(self).view().insert(modded, base),
    {
        self.map.insert(modded, base);
    }

    /// The base material of a modded one.
    pub fn get_base(&self, material: u64) -> (r: Result<u64, MaterialMutationError>)
        ensures
            match r {
                Ok(b) => self.view().contains_key(material) && b == self.view()[material],
                Err(e) => !self.view().contains_key(material) && e == MaterialMutationError::EntryNotFound,
            },
    {
        match self.map.get(&material) {
            Some(b) => Ok(*b),
            None => Err(MaterialMutationError::EntryNotFound),
        }
    }

    /// Returns the base material of a modded one, and forgets the modded one.
    pub fn pop_base(&mut self, material: u64) -> (r: Result<u64, MaterialMutationError>)
        ensures
            final(self).view() == old(self).view().remove(material),
            match r {
                Ok(b) => old(self).view().contains_key(material) && b == old(self).view()[material],
                Err(e) => !old(self).view().contains_key(material) && e == MaterialMutationError::EntryNotFound,
            },
    {
        match self.map.remove(&material) {
            Some(b) => Ok(b),
            None => Err(MaterialMutationError::EntryNotFound),
        }
    }

    /// Whether no modded material is recorded.
    pub fn is_empty(&self) -> (b: bool)
        ensures
            b == (self.view().len() == 0),
    {
        self.map.is_empty()
    }

    /// Forgets the modded materials that were unloaded or are unused.
    pub fn clear_unloaded(&mut self, unloaded: &Vec<u64>)
        ensures
            final(self).view() == old(self).view().remove_keys(unloaded@.to_set()),
    {
        let ghost start = self.view();
        let mut i: usize = 0;
        while i < unloaded.len()
            invariant
                i <= unloaded@.len(),
                self.view() == start.remove_keys(unloaded@.subrange(0, i as int).to_set()),
            decreases unloaded@.len() - i,
        {
            let id = unloaded[i];
            self.map.remove(&id);
            proof {
                let pre = unloaded@.subrange(0, i as int);
                let post = unloaded@.subrange(0, i + 1);
                assert(post =~= pre.push(id));
                assert forall|x: u64| post.to_set().contains(x) <==> pre.to_set().insert(id).contains(x) by {
                    if post.contains(x) && x != id {
                        let j = choose|j: int| 0 <= j < post.len() && post[j] == x;
                        assert(pre[j] == x);
                    }
                    if pre.contains(x) {
                        let j = choose|j: int| 0 <= j < pre.len() && pre[j] == x;
                        assert(post[j] == x);
                    }
                    if x == id {
                        assert(post[i as int] == id);
                    }
                }
                assert(self.view() =~= start.remove_keys(post.to_set()));
            }
            i = i + 1;
        }
        assert(unloaded@.subrange(0, unloaded@.len() as int) =~= unloaded@);
    }
}

/// An event about a material asset, with the asset's id.
#[derive(Debug, Clone, Copy, PartialEq, Eq, Structural)]
pub enum MaterialAssetEvent {
    Added(u64),
    Modified(u64),
    Removed(u64),
    Unused(u64),
    LoadedWithDependencies(u64),
}

/// The asset gone or no longer used.
pub open spec fn unloaded_id(ev: MaterialAssetEvent) -> Option<u64> {
    match ev {
        MaterialAssetEvent::Removed(id) => Some(id),
        MaterialAssetEvent::Unused(id) => Some(id),
        _ => None,
    }
}

/// The ids of the materials that were removed or became unused, in event order.
pub open spec fn unloaded_ids_spec(events: Seq<MaterialAssetEvent>) -> Seq<u64>
    decreases events.len(),
{
    if events.len() == 0 {
        Seq::empty()
    } else {
        let rest = unloaded_ids_spec(events.drop_last());
        match unloaded_id(events.last()) {
            Some(id) => rest.push(id),
            None => rest,
        }
    }
}

/// The ids of the materials that were removed or became unused, in event order.
pub fn unloaded_ids(events: &Vec<MaterialAssetEvent>) -> (ids: Vec<u64>)
    ensures
        ids@ == unloaded_ids_spec(events@),
{
    let mut ids: Vec<u64> = Vec::new();
    let mut i: usize = 0;
    while i < events.len()
        invariant
            i <= events@.len(),
            ids@ == unloaded_ids_spec(events@.subrange(0, i as int)),
        decreases events@.len() - i,
    {
        proof {
            assert(events@.subrange(0, i + 1).drop_last() =~= events@.subrange(0, i as int));
        }
        match events[i] {
            MaterialAssetEvent::Removed(id) => ids.push(id),
            MaterialAssetEvent::Unused(id) => ids.push(id),
            _ => {},
        }
        i = i + 1;
    }
    assert(events@.subrange(0, events@.len() as int) =~= events@);
    ids
}

impl MaterialMutationResource {
    /// Forgets the modded materials that the asset events report removed or unused.
    pub fn clear_unloaded_modded_materials(&mut self, events: &Vec<MaterialAssetEvent>)
        ensures
            final(self).view() == old(self).view().remove_keys(unloaded_ids_spec(events@).to_set()),
    {
        let ids = unloaded_ids(events);
        self.clear_unloaded(&ids);
    }
}

/// Returning the materials `(entity, material)` of an effect's scene to their bases, in order:
/// the links left, and the `(entity, base)` handle replacements made. A modded material shared
/// by several entities is popped by the first of them only.
pub open spec fn rezeroed(m: Map<u64, u64>, handles: Seq<(u64, u64)>) -> (Map<u64, u64>, Seq<(u64, u64)>)
    decreases handles.len(),
{
    if handles.len() == 0 {
        (m, Seq::empty())
    } else {
        let (m1, out) = rezeroed(m, handles.drop_last());
        let (e, mat) = handles.last();
        if m1.contains_key(mat) {
            (m1.remove(mat), out.push((e, m1[mat])))
        } else {
            (m1, out)
        }
    }
}

impl MaterialMutationResource {
    /// Undoes an effect on the materials `(entity, material)` of a scene: each modded material
    /// is popped and its entity gets the base back. Returns the `(entity, base)` replacements.
    pub fn rezero(&mut self, handles: &Vec<(u64, u64)>) -> (replaced: Vec<(u64, u64)>)
        ensures
            (final(self).view(), replaced@) == rezeroed(old(self).view(), handles@),
    {
        let mut replaced: Vec<(u64, u64)> = Vec::new();
        let mut i: usize = 0;
        while i < handles.len()
            invariant
                i <= handles@.len(),
                (self.view(), replaced@) == rezeroed(old(self).view(), handles@.subrange(0, i as int)),
            decreases handles@.len() - i,
        {
            let (e, mat) = handles[i];
            proof {
                assert(handles@.subrange(0, i + 1).drop_last() =~= handles@.subrange(0, i as int));
            }
            match self.pop_base(mat) {
                Ok(base) => replaced.push((e, base)),
                Err(_) => {},
            }
            i = i + 1;
        }
        assert(handles@.subrange(0, handles@.len() as int) =~= handles@);
        replaced
    }
}

/// A modded material recorded with `link` gives back its base until it is popped; after the
/// pop the entry is gone.
pub proof fn law_link_then_pop(m: Map<u64, u64>, modded: u64, base: u64)
    ensures
        m.insert(modded, base).contains_key(modded),
        m.insert(modded, base)[modded] == base,
        !m.insert(modded, base).remove(modded).contains_key(modded),
        forall|other: u64| other != modded ==> (#[trigger] m.insert(modded, base).remove(modded).contains_key(other)
            == m.contains_key(other)),
{
}

/// Flags of a material effect.
#[derive(Debug, Clone, Copy, PartialEq, Eq, Structural)]
pub struct EffectFlags(pub u8);

/// The effect component despawns on completion.
pub const EFFECT_DESPAWN: u8 = 1;
/// The effect is undone on completion, resetting the entity to its base state.
pub const EFFECT_REZERO: u8 = 2;

impl EffectFlags {
    /// Both despawn and rezero.
    pub fn default_flags() -> (f: EffectFlags)
        ensures
            f.0 == EFFECT_DESPAWN | EFFECT_REZERO,
    {
        EffectFlags(EFFECT_DESPAWN | EFFECT_REZERO)
    }

    /// Whether the flags share any bit with `other`.
    pub fn intersects(&self, other: u8) -> (b: bool)
        ensures
            b == (self.0 & other != 0),
    {
        self.0 & other != 0
    }
}

/// Completion event id of despawning tweens.
pub const DESPAWN_TWEEN_EVENT_ID: u64 = 0;
/// Completion event id of tint effects.
pub const TINT_COMPLETED_EVENT_ID: u64 = 54327890;
/// Completion event id of fill effects.
pub const FILL_COMPLETED_EVENT_ID: u64 = 12379087;

/// The entities of the tween completion events `(entity, user data)` whose user data is
/// `event_id`, in order.
pub fn completed_with_id(events: &Vec<(u64, u64)>, event_id: u64) -> (es: Vec<u64>)
    ensures
        es@ == events@.filter(|ev: (u64, u64)| ev.1 == event_id).map_values(|ev: (u64, u64)| ev.0),
{
    let ghost f = |ev: (u64, u64)| ev.1 == event_id;
    let ghost m = |ev: (u64, u64)| ev.0;
    let mut es: Vec<u64> = Vec::new();
    let mut i: usize = 0;
    while i < events.len()
        invariant
            i <= events@.len(),
            f == (|ev: (u64, u64)| ev.1 == event_id),
            m == (|ev: (u64, u64)| ev.0),
            es@ == events@.subrange(0, i as int).filter(f).map_values(m),
        decreases events@.len() - i,
    {
        let ev = events[i];
        proof {
            assert(events@.subrange(0, i + 1).drop_last() =~= events@.subrange(0, i as int));
            reveal_with_fuel(Seq::<_>::filter, 1);
        }
        if ev.1 == event_id {
            es.push(ev.0);
        }
        assert(es@ =~= events@.subrange(0, i + 1).filter(f).map_values(m));
        i = i + 1;
    }
    assert(events@.subrange(0, events@.len() as int) =~= events@);
    es
}

/// What completing an effect does: whether modded materials return to their bases, and
/// whether the effect component is removed.
pub fn on_effect_completed(flags: EffectFlags) -> (r: (bool, bool))
    ensures
        r == ((flags.0 & EFFECT_REZERO) != 0, (flags.0 & EFFECT_DESPAWN) != 0),
{
    (flags.intersects(EFFECT_REZERO), flags.intersects(EFFECT_DESPAWN))
}

} // verus!
