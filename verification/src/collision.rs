//! Collision groups of the game, as 32-bit masks (one bit per group), and the default
//! memberships and filters of each group.

use vstd::prelude::*;

verus! {

/// The player.
pub const PLAYER: u32 = 0x1;
/// Projectiles fired by the player.
pub const PLAYER_PROJECTILE: u32 = 0x2;
/// Enemies.
pub const ENEMY: u32 = 0x4;
/// Projectiles fired by enemies.
pub const ENEMY_PROJECTILE: u32 = 0x8;
/// Debris.
pub const DEBRIS: u32 = 0x10;
/// The map.
pub const MAP: u32 = 0x8000_0000;
/// Any projectile.
pub const PROJECTILE: u32 = 0xA;
/// Every group.
pub const ALL_GROUPS: u32 = 0xFFFF_FFFF;
/// No group.
pub const NO_GROUPS: u32 = 0;

/// Memberships and filters of a collider, as group masks.
#[derive(Debug, Clone, Copy, PartialEq, Eq, Structural)]
pub struct CollisionGroups {
    pub memberships: u32,
    pub filters: u32,
}

/// Two colliders interact when each is a member of a group the other one filters for.
pub open spec fn interacts(a: CollisionGroups, b: CollisionGroups) -> bool {
    (a.memberships & b.filters) != 0 && (b.memberships & a.filters) != 0
}

/// The default memberships and filters of a group.
pub open spec fn default_groups(group: u32) -> CollisionGroups {
    if group == NO_GROUPS {
        CollisionGroups { memberships: NO_GROUPS, filters: NO_GROUPS }
    } else if group == PLAYER {
        CollisionGroups { memberships: PLAYER, filters: ALL_GROUPS & !PLAYER }
    } else if group == ENEMY {
        CollisionGroups { memberships: ENEMY, filters: ALL_GROUPS & !ENEMY }
    } else if group == PLAYER_PROJECTILE {
        CollisionGroups { memberships: PLAYER_PROJECTILE, filters: ALL_GROUPS & !PLAYER & !PROJECTILE }
    } else if group == ENEMY_PROJECTILE {
        CollisionGroups { memberships: ENEMY_PROJECTILE, filters: ALL_GROUPS & !ENEMY & !PROJECTILE }
    } else if group == DEBRIS {
        CollisionGroups { memberships: DEBRIS, filters: MAP }
    } else if group == MAP {
        CollisionGroups { memberships: MAP, filters: ALL_GROUPS }
    } else {
        CollisionGroups { memberships: ALL_GROUPS, filters: ALL_GROUPS }
    }
}

/// The group of a projectile: the player's projectiles, or the enemies'.
pub open spec fn projectile_group_spec(from_player: bool) -> u32 {
    if from_player {
        PLAYER_PROJECTILE
    } else {
        ENEMY_PROJECTILE
    }
}

/// The group of a projectile fired by a weapon: a player's weapon fires player projectiles,
/// any other weapon enemy projectiles.
pub fn projectile_group(from_player: bool) -> (g: u32)
    ensures
        g == projectile_group_spec(from_player),
{
    if from_player {
        PLAYER_PROJECTILE
    } else {
        ENEMY_PROJECTILE
    }
}

/// The collision groups of a projectile fired by a weapon: the default groups of its
/// projectile group.
pub fn projectile_groups(from_player: bool) -> (g: CollisionGroups)
    ensures
        g == default_groups(projectile_group_spec(from_player)),
{
    CollisionGroups::from_group_default(projectile_group(from_player))
}

impl CollisionGroups {
    /// Memberships and filters for the collider: every group.
    pub fn everything() -> (g: CollisionGroups)
        ensures
            g.memberships == ALL_GROUPS,
            g.filters == ALL_GROUPS,
    {
        CollisionGroups { memberships: ALL_GROUPS, filters: ALL_GROUPS }
    }

    /// The "default" memberships and filters of a group: characters collide with everything
    /// but themselves, projectiles with everything but their shooter's side and other
    /// projectiles, debris only with the map, and the map with everything. Any other mask
    /// gets every group.
    pub fn from_group_default(group: u32) -> (g: CollisionGroups)
        ensures
            g == default_groups(group),
    {
        if group == NO_GROUPS {
            CollisionGroups { memberships: NO_GROUPS, filters: NO_GROUPS }
        } else if group == PLAYER {
            CollisionGroups { memberships: PLAYER, filters: ALL_GROUPS & !PLAYER }
        } else if group == ENEMY {
            CollisionGroups { memberships: ENEMY, filters: ALL_GROUPS & !ENEMY }
        } else if group == PLAYER_PROJECTILE {
            CollisionGroups {
                memberships: PLAYER_PROJECTILE,
                filters: ALL_GROUPS & !PLAYER & !PROJECTILE,
            }
        } else if group == ENEMY_PROJECTILE {
            CollisionGroups {
                memberships: ENEMY_PROJECTILE,
                filters: ALL_GROUPS & !ENEMY & !PROJECTILE,
            }
        } else if group == DEBRIS {
            CollisionGroups { memberships: DEBRIS, filters: MAP }
        } else if group == MAP {
            CollisionGroups { memberships: MAP, filters: ALL_GROUPS }
        } else {
            CollisionGroups::everything()
        }
    }
}

/// Projectiles never hit their own side nor other projectiles; the player and enemies do
/// hit each other; debris only hits the map.
pub proof fn law_friendly_fire(other: CollisionGroups)
    ensures
        !interacts(default_groups(PLAYER_PROJECTILE), default_groups(PLAYER)),
        !interacts(default_groups(ENEMY_PROJECTILE), default_groups(ENEMY)),
        !interacts(default_groups(PLAYER_PROJECTILE), default_groups(ENEMY_PROJECTILE)),
        !interacts(default_groups(PLAYER_PROJECTILE), default_groups(PLAYER_PROJECTILE)),
        !interacts(default_groups(ENEMY_PROJECTILE), default_groups(ENEMY_PROJECTILE)),
        interacts(default_groups(PLAYER_PROJECTILE), default_groups(ENEMY)),
        interacts(default_groups(ENEMY_PROJECTILE), default_groups(PLAYER)),
        interacts(default_groups(PLAYER), default_groups(ENEMY)),
        !interacts(default_groups(PLAYER), default_groups(PLAYER)),
        !interacts(default_groups(ENEMY), default_groups(ENEMY)),
        interacts(default_groups(DEBRIS), other) ==> (other.memberships & MAP) != 0,
{
    assert((0x2u32 & (0xFFFF_FFFFu32 & !0x1u32)) != 0) by (bit_vector);
    assert((0x1u32 & (0xFFFF_FFFFu32 & !0x1u32 & !0xAu32)) == 0) by (bit_vector);
    assert((0x8u32 & (0xFFFF_FFFFu32 & !0x4u32 & !0xAu32)) == 0) by (bit_vector);
    assert((0x4u32 & (0xFFFF_FFFFu32 & !0x4u32 & !0xAu32)) == 0) by (bit_vector);
    assert((0x2u32 & (0xFFFF_FFFFu32 & !0x4u32 & !0xAu32)) == 0) by (bit_vector);
    assert((0x8u32 & (0xFFFF_FFFFu32 & !0x1u32 & !0xAu32)) == 0) by (bit_vector);
    assert((0x2u32 & (0xFFFF_FFFFu32 & !0x1u32 & !0xAu32)) == 0) by (bit_vector);
    assert((0x4u32 & (0xFFFF_FFFFu32 & !0x1u32 & !0xAu32)) != 0) by (bit_vector);
    assert((0x2u32 & (0xFFFF_FFFFu32 & !0x4u32)) != 0) by (bit_vector);
    assert((0x8u32 & (0xFFFF_FFFFu32 & !0x1u32)) != 0) by (bit_vector);
    assert((0x1u32 & (0xFFFF_FFFFu32 & !0x4u32 & !0xAu32)) != 0) by (bit_vector);
    assert((0x1u32 & (0xFFFF_FFFFu32 & !0x4u32)) != 0) by (bit_vector);
    assert((0x4u32 & (0xFFFF_FFFFu32 & !0x1u32)) != 0) by (bit_vector);
    assert((0x1u32 & (0xFFFF_FFFFu32 & !0x1u32)) == 0) by (bit_vector);
    assert((0x4u32 & (0xFFFF_FFFFu32 & !0x4u32)) == 0) by (bit_vector);
}

} // verus!
