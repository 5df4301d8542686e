//! Loading states of the map and its navigation mesh.

use vstd::prelude::*;

verus! {

/// Where map loading stands.
#[derive(Debug, Clone, Copy, PartialEq, Eq, Hash, Structural)]
pub enum MapLoadState {
    NotLoaded,
    Loading,
    Success,
    Fail,
}

impl MapLoadState {
    /// Not loaded is the default.
    pub fn default_state() -> (s: MapLoadState)
        ensures
            s == MapLoadState::NotLoaded,
    {
        MapLoadState::NotLoaded
    }

    /// Every state, in order.
    pub fn variants() -> (v: Vec<MapLoadState>)
        ensures
            v@ == seq![
                MapLoadState::NotLoaded,
                MapLoadState::Loading,
                MapLoadState::Success,
                MapLoadState::Fail,
            ],
    {
        let v = vec![MapLoadState::NotLoaded, MapLoadState::Loading, MapLoadState::Success, MapLoadState::Fail];
        assert(v@ =~= seq![
            MapLoadState::NotLoaded,
            MapLoadState::Loading,
            MapLoadState::Success,
            MapLoadState::Fail,
        ]);
        v
    }
}

/// The next state once the map has been looked for: loading starts when exactly one map (with
/// children) exists; otherwise the state stays.
pub fn state_after_map_check(maps_found: usize) -> (s: Option<MapLoadState>)
    ensures
        s == if maps_found == 1 {
            Some(MapLoadState::Loading)
        } else {
            None
        },
{
    if maps_found == 1 {
        Some(MapLoadState::Loading)
    } else {
        None
    }
}

/// The state once navigation mesh generation has finished, successfully or not.
pub fn state_after_navmesh(succeeded: bool) -> (s: MapLoadState)
    ensures
        s == if succeeded {
            MapLoadState::Success
        } else {
            MapLoadState::Fail
        },
{
    if succeeded {
        MapLoadState::Success
    } else {
        MapLoadState::Fail
    }
}

/// The name of the floor mesh that bounds the navigation mesh.
pub const BOUNDARY_MESH_NAME: &'static str = "Plane";

/// Whether a map mesh restricts navigation: every mesh but the all-encompassing floor named
/// `"Plane"`, which bounds the navigation mesh instead (and is drawn without an outline).
pub fn is_restricted(name: &str) -> (restricted: bool)
    ensures
        restricted == (name@ != BOUNDARY_MESH_NAME@),
{
    let plane = BOUNDARY_MESH_NAME;
    proof {
        reveal_strlit("Plane");
    }
    let n = name.unicode_len();
    let m = plane.unicode_len();
    if n != m {
        return true;
    }
    let mut i: usize = 0;
    while i < m
        invariant
            n == m,
            n == name@.len(),
            m == plane@.len(),
            plane@ == BOUNDARY_MESH_NAME@,
            i <= m,
            forall|j: int| 0 <= j < i ==> name@[j] == plane@[j],
        decreases m - i,
    {
        if name.get_char(i) != plane.get_char(i) {
            return true;
        }
        i = i + 1;
    }
    assert(name@ =~= plane@);
    false
}

} // verus!
