//! The fist: the default "weapon" while unarmed. Its punches chain into a combo.

use crate::combo::ComboStack;
use crate::equip::{Grip, HumanoidDominantHand, SlotAlignment};
use vstd::prelude::*;

verus! {

/// The attacks of the fist combo.
#[derive(Debug, Clone, Copy, PartialEq, Eq, Structural)]
pub enum FistCombo {
    LPunch,
    RPunch,
    SpinPunch,
}

/// The fist's hitboxes.
#[derive(Debug, Clone, Copy, PartialEq, Eq, Structural)]
pub enum FistHitbox {
    Left,
    Right,
}

impl FistHitbox {
    /// The name of the hitbox node in the fist scene.
    pub fn name(&self) -> (s: &'static str)
        ensures
            s@ == match self {
                FistHitbox::Left => "LFist"@,
                FistHitbox::Right => "RFist"@,
            },
    {
        match self {
            FistHitbox::Left => "LFist",
            FistHitbox::Right => "RFist",
        }
    }
}

/// How long a fist combo stays open after a punch: 1.5 seconds, in nanoseconds.
pub const FIST_COMBO_EXPIRY_NANOS: u128 = 1_500_000_000;

/// The punch that follows `last` (the latest punch of the combo, if any).
///
/// With both hands, the combo goes dominant punch, off-hand punch, spin punch, and around again.
/// With one hand, that hand always punches.
pub open spec fn next_attack_spec(
    alignment: SlotAlignment,
    last: Option<FistCombo>,
    dominant: HumanoidDominantHand,
) -> FistCombo {
    match alignment {
        SlotAlignment::Double => match last {
            Some(FistCombo::LPunch) => match dominant {
                HumanoidDominantHand::Left => FistCombo::RPunch,
                HumanoidDominantHand::Right => FistCombo::SpinPunch,
            },
            Some(FistCombo::RPunch) => match dominant {
                HumanoidDominantHand::Left => FistCombo::SpinPunch,
                HumanoidDominantHand::Right => FistCombo::LPunch,
            },
            _ => match dominant {
                HumanoidDominantHand::Left => FistCombo::LPunch,
                HumanoidDominantHand::Right => FistCombo::RPunch,
            },
        },
        SlotAlignment::Left => FistCombo::LPunch,
        _ => FistCombo::RPunch,
    }
}

/// The punch that follows `last`; see `next_attack_spec`. The fist must be equipped.
pub fn next_attack(
    alignment: SlotAlignment,
    last: Option<FistCombo>,
    dominant: HumanoidDominantHand,
) -> (a: FistCombo)
    requires
        alignment != SlotAlignment::Unequipped,
    ensures
        a == next_attack_spec(alignment, last, dominant),
{
    match alignment {
        SlotAlignment::Double => match last {
            Some(FistCombo::LPunch) => match dominant {
                HumanoidDominantHand::Left => FistCombo::RPunch,
                HumanoidDominantHand::Right => FistCombo::SpinPunch,
            },
            Some(FistCombo::RPunch) => match dominant {
                HumanoidDominantHand::Left => FistCombo::SpinPunch,
                HumanoidDominantHand::Right => FistCombo::LPunch,
            },
            _ => match dominant {
                HumanoidDominantHand::Left => FistCombo::LPunch,
                HumanoidDominantHand::Right => FistCombo::RPunch,
            },
        },
        SlotAlignment::Left => FistCombo::LPunch,
        _ => FistCombo::RPunch,
    }
}

/// The grips whose models swing (and play the swing sound) for this attack.
pub open spec fn attack_grips_spec(attack: FistCombo, dominant: HumanoidDominantHand) -> Seq<Grip> {
    match attack {
        FistCombo::LPunch => match dominant {
            HumanoidDominantHand::Left => seq![Grip::Hand],
            HumanoidDominantHand::Right => seq![Grip::Offhand],
        },
        FistCombo::RPunch => match dominant {
            HumanoidDominantHand::Left => seq![Grip::Offhand],
            HumanoidDominantHand::Right => seq![Grip::Hand],
        },
        FistCombo::SpinPunch => seq![Grip::Hand, Grip::Offhand],
    }
}

/// The grips whose models swing for this attack.
pub fn attack_grips(attack: FistCombo, dominant: HumanoidDominantHand) -> (g: Vec<Grip>)
    ensures
        g@ == attack_grips_spec(attack, dominant),
{
    let g = match attack {
        FistCombo::LPunch => match dominant {
            HumanoidDominantHand::Left => vec![Grip::Hand],
            HumanoidDominantHand::Right => vec![Grip::Offhand],
        },
        FistCombo::RPunch => match dominant {
            HumanoidDominantHand::Left => vec![Grip::Offhand],
            HumanoidDominantHand::Right => vec![Grip::Hand],
        },
        FistCombo::SpinPunch => vec![Grip::Hand, Grip::Offhand],
    };
    assert(g@ =~= attack_grips_spec(attack, dominant));
    g
}

/// The hitboxes enabled by this attack.
pub open spec fn attack_hitboxes_spec(attack: FistCombo) -> Seq<FistHitbox> {
    match attack {
        FistCombo::LPunch => seq![FistHitbox::Left],
        FistCombo::RPunch => seq![FistHitbox::Right],
        FistCombo::SpinPunch => seq![FistHitbox::Left, FistHitbox::Right],
    }
}

/// The hitboxes enabled by this attack.
pub fn attack_hitboxes(attack: FistCombo) -> (h: Vec<FistHitbox>)
    ensures
        h@ == attack_hitboxes_spec(attack),
{
    let h = match attack {
        FistCombo::LPunch => vec![FistHitbox::Left],
        FistCombo::RPunch => vec![FistHitbox::Right],
        FistCombo::SpinPunch => vec![FistHitbox::Left, FistHitbox::Right],
    };
    assert(h@ =~= attack_hitboxes_spec(attack));
    h
}

/// What a punch does besides playing effects.
pub struct Punch {
    pub attack: FistCombo,
    pub grips: Vec<Grip>,
    pub hitboxes: Vec<FistHitbox>,
}

/// A shot of the fist: picks the next attack of the combo, extends the combo (which stays
/// open for `FIST_COMBO_EXPIRY_NANOS`), and reports which models swing and which hitboxes
/// are enabled.
pub fn punch(
    combo: &mut ComboStack<FistCombo>,
    alignment: SlotAlignment,
    dominant: HumanoidDominantHand,
) -> (p: Punch)
    requires
        alignment != SlotAlignment::Unequipped,
    ensures
        p.attack == next_attack_spec(
            alignment,
            if old(combo).sequence@.len() > 0 {
                Some(old(combo).sequence@.last())
            } else {
                None
            },
            dominant,
        ),
        p.grips@ == attack_grips_spec(p.attack, dominant),
        p.hitboxes@ == attack_hitboxes_spec(p.attack),
        final(combo).sequence@ == old(combo).sequence@.push(p.attack),
        final(combo).t == FIST_COMBO_EXPIRY_NANOS,
{
    let last = match combo.last() {
        Some(a) => Some(*a),
        None => None,
    };
    let attack = next_attack(alignment, last, dominant);
    let grips = attack_grips(attack, dominant);
    let hitboxes = attack_hitboxes(attack);
    combo.push(attack, FIST_COMBO_EXPIRY_NANOS);
    Punch { attack, grips, hitboxes }
}

/// With both hands, the fist combo is a cycle of three distinct punches: three punches in a
/// row return to the first, and no punch repeats the previous one.
pub proof fn law_double_combo_cycles(start: FistCombo, dominant: HumanoidDominantHand)
    ensures
        ({
            let a1 = next_attack_spec(SlotAlignment::Double, Some(start), dominant);
            let a2 = next_attack_spec(SlotAlignment::Double, Some(a1), dominant);
            let a3 = next_attack_spec(SlotAlignment::Double, Some(a2), dominant);
            &&& a3 == start
            &&& a1 != start
            &&& a2 != a1
        }),
{
}

/// A fresh combo, or one that ended with a spin, opens with the dominant hand; a one-handed
/// fist always punches with its hand.
pub proof fn law_combo_openers(last: Option<FistCombo>, dominant: HumanoidDominantHand)
    ensures
        (last is None || last == Some(FistCombo::SpinPunch)) ==> next_attack_spec(
            SlotAlignment::Double,
            last,
            dominant,
        ) == match dominant {
            HumanoidDominantHand::Left => FistCombo::LPunch,
            HumanoidDominantHand::Right => FistCombo::RPunch,
        },
        next_attack_spec(SlotAlignment::Left, last, dominant) == FistCombo::LPunch,
        next_attack_spec(SlotAlignment::Right, last, dominant) == FistCombo::RPunch,
{
}

} // verus!
