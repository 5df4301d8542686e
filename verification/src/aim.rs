//! Choice of the aim and idle animations of items.

use std::collections::{HashMap, HashSet};
use vstd::prelude::*;
use crate::equip::HumanoidDominantHand;
use crate::hierarchy::{first_matching_ancestor, is_first_match, rooted, search_result};

verus! {

/// Idle animation of an item.
#[derive(Debug, Clone, Copy, PartialEq, Eq, Structural)]
pub enum IdleType {
    Idle,
}

/// Aim animation of an item.
#[derive(Debug, Clone, Copy, PartialEq, Eq, Structural)]
pub enum AimType {
    RangedSingle,
}

/// The animation clips that aiming and un-aiming play.
#[derive(Debug, Clone, Copy, PartialEq, Eq, Structural)]
pub enum AimClip {
    Idle,
    RangedSingleLeft,
    RangedSingleRight,
}

pub open spec fn aim_clip_spec(aim: AimType, dominant: HumanoidDominantHand) -> AimClip {
    match aim {
        AimType::RangedSingle => match dominant {
            HumanoidDominantHand::Left => AimClip::RangedSingleLeft,
            HumanoidDominantHand::Right => AimClip::RangedSingleRight,
        },
    }
}

/// The clip that aiming plays, for the dominant hand of the holder.
pub fn aim_clip(aim: AimType, dominant: HumanoidDominantHand) -> (c: AimClip)
    ensures
        c == aim_clip_spec(aim, dominant),
{
    match aim {
        AimType::RangedSingle => match dominant {
            HumanoidDominantHand::Left => AimClip::RangedSingleLeft,
            HumanoidDominantHand::Right => AimClip::RangedSingleRight,
        },
    }
}

/// The clip that un-aiming plays.
pub fn idle_clip(idle: IdleType) -> (c: AimClip)
    ensures
        c == AimClip::Idle,
{
    match idle {
        IdleType::Idle => AimClip::Idle,
    }
}

/// An animation to start on an animator.
#[derive(Debug, Clone, Copy, PartialEq, Eq, Structural)]
pub struct ClipPlay {
    pub animator: u64,
    pub clip: AimClip,
}

/// Some strict ancestor of `e` is a key of `keys`.
pub open spec fn has_ancestor_in(parents: Map<u64, u64>, keys: Set<u64>, e: u64) -> bool {
    exists|a: u64| is_first_match(parents, keys, e, a)
}

/// Aims an item that became active: the nearest humanoid above the item gives the dominant
/// hand, and the nearest animator above it plays the matching aim clip. `None` when no
/// animator is above the item; then the item does not start aiming.
pub fn aim_on_active(
    item: u64,
    aim: AimType,
    parents: &HashMap<u64, u64>,
    humanoids: &HashMap<u64, HumanoidDominantHand>,
    animators: &HashSet<u64>,
) -> (play: Option<ClipPlay>)
    requires
        rooted(parents@, item),
        has_ancestor_in(parents@, humanoids@.dom(), item),
    ensures
        exists|h: u64|
            {
                &&& is_first_match(parents@, humanoids@.dom(), item, h)
                &&& match play {
                    Some(p) => is_first_match(parents@, animators@, item, p.animator)
                        && p.clip == aim_clip_spec(aim, humanoids@[h]),
                    None => search_result(parents@, animators@, item, None),
                }
            },
{
    let h = first_matching_ancestor(parents, humanoids, item);
    let h = match h {
        Some(h) => h,
        None => {
            return None;
        },
    };
    let dominant = *humanoids.get(&h).unwrap();
    match first_matching_ancestor(parents, animators, item) {
        Some(animator) => Some(ClipPlay { animator, clip: aim_clip(aim, dominant) }),
        None => None,
    }
}

/// Un-aims an item that stopped being active: the nearest animator above the item plays the
/// idle clip. `None` when no animator is above the item.
pub fn unaim_on_unactive(
    item: u64,
    idle: IdleType,
    parents: &HashMap<u64, u64>,
    animators: &HashSet<u64>,
) -> (play: Option<ClipPlay>)
    requires
        rooted(parents@, item),
    ensures
        match play {
            Some(p) => is_first_match(parents@, animators@, item, p.animator) && p.clip == AimClip::Idle,
            None => search_result(parents@, animators@, item, None),
        },
{
    match first_matching_ancestor(parents, animators, item) {
        Some(animator) => Some(ClipPlay { animator, clip: idle_clip(idle) }),
        None => None,
    }
}

} // verus!
