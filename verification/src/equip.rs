//! Equipping items to humanoids: which slot an item takes, which part of the rig each of its
//! models is attached to, and which hands hold it afterwards.

use vstd::prelude::*;

verus! {

/// The item slot an item occupies. `Unequipped` means the item is not equipped.
#[derive(Debug, Clone, Copy, PartialEq, Eq, Structural)]
pub enum SlotAlignment {
    Left,
    Right,
    Double,
    Unequipped,
}

impl SlotAlignment {
    /// Unequipped is the default.
    pub fn default_alignment() -> (s: SlotAlignment)
        ensures
            s == SlotAlignment::Unequipped,
    {
        SlotAlignment::Unequipped
    }
}

/// Location for an item's model on a rig.
#[derive(Debug, Clone, Copy, PartialEq, Eq, Hash, Structural)]
pub enum Grip {
    Head,
    Body,
    Hand,
    Offhand,
}

/// Whether the item is single or double-handed.
#[derive(Debug, Clone, Copy, PartialEq, Eq, Structural)]
pub enum Handedness {
    Single,
    Double,
}

impl Handedness {
    /// Single-handed is the default.
    pub fn default_handedness() -> (h: Handedness)
        ensures
            h == Handedness::Single,
    {
        Handedness::Single
    }
}

/// The dominant hand of a humanoid.
#[derive(Debug, Clone, Copy, PartialEq, Eq, Structural)]
pub enum HumanoidDominantHand {
    Left,
    Right,
}

/// The slot requested by an equip event.
#[derive(Debug, Clone, Copy, PartialEq, Eq, Structural)]
pub enum ItemEquipEventSlot {
    /// Use exactly this alignment.
    Manual { alignment: SlotAlignment },
    /// Derive the alignment from the item's handedness and the humanoid's dominant hand.
    Auto,
}

impl ItemEquipEventSlot {
    /// `Auto` is the default.
    pub fn default_slot() -> (s: ItemEquipEventSlot)
        ensures
            s == ItemEquipEventSlot::Auto,
    {
        ItemEquipEventSlot::Auto
    }
}

/// Event that equips an item to a player or NPC. Entities are identified by their bits.
#[derive(Debug, Clone, Copy, PartialEq, Eq, Structural)]
pub struct ItemEquipEvent {
    /// Entity that the item is being equipped to.
    pub parent_entity: u64,
    /// Item to be equipped.
    pub item_entity: u64,
    /// Item slots that will be occupied by this item.
    pub slot: ItemEquipEventSlot,
}

impl ItemEquipEvent {
    /// Equips `item` to `parent`, choosing the slot automatically.
    pub fn new(parent: u64, item: u64) -> (ev: ItemEquipEvent)
        ensures
            ev == (ItemEquipEvent { parent_entity: parent, item_entity: item, slot: ItemEquipEventSlot::Auto }),
    {
        ItemEquipEvent { parent_entity: parent, item_entity: item, slot: ItemEquipEventSlot::Auto }
    }
}

/// The equip event sent after an item spawns: with a parent, the item is equipped to it
/// automatically; without one, the item is a pickup and nothing is sent.
pub fn spawn_equip_event(parent: Option<u64>, item: u64) -> (ev: Option<ItemEquipEvent>)
    ensures
        match parent {
            Some(p) => ev == Some(
                ItemEquipEvent { parent_entity: p, item_entity: item, slot: ItemEquipEventSlot::Auto },
            ),
            None => ev is None,
        },
{
    match parent {
        Some(p) => Some(ItemEquipEvent { parent_entity: p, item_entity: item, slot: ItemEquipEventSlot::Auto }),
        None => None,
    }
}

/// The part of a humanoid rig a model is parented to.
#[derive(Debug, Clone, Copy, PartialEq, Eq, Structural)]
pub enum RigAttachment {
    Head,
    Body,
    LeftHand,
    RightHand,
    DominantHand,
    OffHand,
}

/// The slot an equip event puts the item in.
pub open spec fn resolved_slot(
    slot: ItemEquipEventSlot,
    handedness: Handedness,
    dominant: HumanoidDominantHand,
) -> SlotAlignment {
    match slot {
        ItemEquipEventSlot::Manual { alignment } => alignment,
        ItemEquipEventSlot::Auto => match handedness {
            Handedness::Double => SlotAlignment::Double,
            Handedness::Single => match dominant {
                HumanoidDominantHand::Left => SlotAlignment::Left,
                HumanoidDominantHand::Right => SlotAlignment::Right,
            },
        },
    }
}

/// The slot an equip event puts the item in: the manual alignment if given, otherwise both
/// hands for double-handed items and the dominant hand for single-handed ones.
pub fn resolve_slot(
    slot: ItemEquipEventSlot,
    handedness: Handedness,
    dominant: HumanoidDominantHand,
) -> (s: SlotAlignment)
    ensures
        s == resolved_slot(slot, handedness, dominant),
{
    match slot {
        ItemEquipEventSlot::Manual { alignment } => alignment,
        ItemEquipEventSlot::Auto => match handedness {
            Handedness::Double => SlotAlignment::Double,
            Handedness::Single => match dominant {
                HumanoidDominantHand::Left => SlotAlignment::Left,
                HumanoidDominantHand::Right => SlotAlignment::Right,
            },
        },
    }
}

/// Where a model with this grip goes for an item in this slot, if anywhere.
pub open spec fn attachment_for(slot: SlotAlignment, grip: Grip) -> Option<RigAttachment> {
    match grip {
        Grip::Head => Some(RigAttachment::Head),
        Grip::Body => Some(RigAttachment::Body),
        Grip::Hand => match slot {
            SlotAlignment::Left => Some(RigAttachment::LeftHand),
            SlotAlignment::Right => Some(RigAttachment::RightHand),
            SlotAlignment::Double => Some(RigAttachment::DominantHand),
            SlotAlignment::Unequipped => None,
        },
        Grip::Offhand => match slot {
            SlotAlignment::Double => Some(RigAttachment::OffHand),
            _ => None,
        },
    }
}

/// The grips in the order the models are attached.
pub open spec fn grip_order() -> Seq<Grip> {
    seq![Grip::Head, Grip::Body, Grip::Hand, Grip::Offhand]
}

/// The attachments for an item with models at `grips`, in attachment order.
pub open spec fn attachment_plan(slot: SlotAlignment, grips: Seq<Grip>) -> Seq<(Grip, RigAttachment)> {
    grip_order().filter(|g: Grip| grips.contains(g) && attachment_for(slot, g) is Some).map_values(
        |g: Grip| (g, attachment_for(slot, g)->0),
    )
}

fn grip_listed(grips: &Vec<Grip>, g: Grip) -> (b: bool)
    ensures
        b == grips@.contains(g),
{
    let mut i: usize = 0;
    while i < grips.len()
        invariant
            i <= grips@.len(),
            forall|j: int| 0 <= j < i ==> grips@[j] != g,
        decreases grips@.len() - i,
    {
        if grips[i] == g {
            return true;
        }
        i = i + 1;
    }
    false
}

fn attachment(slot: SlotAlignment, grip: Grip) -> (a: Option<RigAttachment>)
    ensures
        a == attachment_for(slot, grip),
{
    match grip {
        Grip::Head => Some(RigAttachment::Head),
        Grip::Body => Some(RigAttachment::Body),
        Grip::Hand => match slot {
            SlotAlignment::Left => Some(RigAttachment::LeftHand),
            SlotAlignment::Right => Some(RigAttachment::RightHand),
            SlotAlignment::Double => Some(RigAttachment::DominantHand),
            SlotAlignment::Unequipped => None,
        },
        Grip::Offhand => match slot {
            SlotAlignment::Double => Some(RigAttachment::OffHand),
            _ => None,
        },
    }
}

/// Which part of the rig each of the item's models (given by its grips) is parented to:
/// head and body models always, the hand model to the hand(s) of the slot, and the offhand
/// model to the off hand of a double-handed slot.
pub fn plan_attachments(slot: SlotAlignment, grips: &Vec<Grip>) -> (plan: Vec<(Grip, RigAttachment)>)
    ensures
        plan@ == attachment_plan(slot, grips@),
{
    let order = vec![Grip::Head, Grip::Body, Grip::Hand, Grip::Offhand];
    let ghost f = |g: Grip| grips@.contains(g) && attachment_for(slot, g) is Some;
    let ghost m = |g: Grip| (g, attachment_for(slot, g)->0);
    assert(order@ =~= grip_order());
    let mut plan: Vec<(Grip, RigAttachment)> = Vec::new();
    let mut i: usize = 0;
    while i < order.len()
        invariant
            i <= order@.len(),
            order@ == grip_order(),
            f == (|g: Grip| grips@.contains(g) && attachment_for(slot, g) is Some),
            m == (|g: Grip| (g, attachment_for(slot, g)->0)),
            plan@ == order@.subrange(0, i as int).filter(f).map_values(m),
        decreases order@.len() - i,
    {
        let g = order[i];
        proof {
            assert(order@.subrange(0, i + 1).drop_last() =~= order@.subrange(0, i as int));
            reveal_with_fuel(Seq::<_>::filter, 1);
        }
        if grip_listed(grips, g) {
            match attachment(slot, g) {
                Some(a) => {
                    plan.push((g, a));
                    proof {
                        assert(plan@ =~= order@.subrange(0, i + 1).filter(f).map_values(m));
                    }
                },
                None => {
                    assert(plan@ =~= order@.subrange(0, i + 1).filter(f).map_values(m));
                },
            }
        } else {
            assert(plan@ =~= order@.subrange(0, i + 1).filter(f).map_values(m));
        }
        i = i + 1;
    }
    assert(order@.subrange(0, 4) =~= order@);
    plan
}

/// The items held in each hand (entities by their bits).
#[derive(Debug, Clone, Copy, PartialEq, Eq, Structural)]
pub struct Equipped {
    pub left: u64,
    pub right: u64,
}

impl Equipped {
    /// Holds `item` in the hands of `slot`: one hand for `Left` or `Right`, both for `Double`.
    pub fn hold(&mut self, slot: SlotAlignment, item: u64)
        requires
            slot != SlotAlignment::Unequipped,
        ensures
            final(self).left == match slot {
                SlotAlignment::Left | SlotAlignment::Double => item,
                _ => old(self).left,
            },
            final(self).right == match slot {
                SlotAlignment::Right | SlotAlignment::Double => item,
                _ => old(self).right,
            },
    {
        match slot {
            SlotAlignment::Left => {
                self.left = item;
            },
            SlotAlignment::Right => {
                self.right = item;
            },
            SlotAlignment::Double => {
                self.left = item;
                self.right = item;
            },
            SlotAlignment::Unequipped => {},
        }
    }
}

/// What equipping an item does: the slot it takes and where its models attach.
pub struct EquipPlan {
    pub slot: SlotAlignment,
    pub attachments: Vec<(Grip, RigAttachment)>,
}

/// Equips `item` (with models at `grips`) to a humanoid holding `equipped`: resolves the slot,
/// updates the hands, and plans the model attachments. An unequipped slot is not supported.
pub fn equip_item(
    equipped: &mut Equipped,
    slot: ItemEquipEventSlot,
    handedness: Handedness,
    dominant: HumanoidDominantHand,
    item: u64,
    grips: &Vec<Grip>,
) -> (plan: EquipPlan)
    requires
        resolved_slot(slot, handedness, dominant) != SlotAlignment::Unequipped,
    ensures
        plan.slot == resolved_slot(slot, handedness, dominant),
        plan.attachments@ == attachment_plan(plan.slot, grips@),
        final(equipped).left == match plan.slot {
            SlotAlignment::Left | SlotAlignment::Double => item,
            _ => old(equipped).left,
        },
        final(equipped).right == match plan.slot {
            SlotAlignment::Right | SlotAlignment::Double => item,
            _ => old(equipped).right,
        },
{
    let s = resolve_slot(slot, handedness, dominant);
    let attachments = plan_attachments(s, grips);
    equipped.hold(s, item);
    EquipPlan { slot: s, attachments }
}

/// Mouse buttons that drive items.
#[derive(Debug, Clone, Copy, PartialEq, Eq, Structural)]
pub enum MouseButton {
    Left,
    Right,
}

/// Whether an item in this slot is driven by this button: the left button drives left and
/// double-handed items, the right button right and double-handed ones.
pub fn slot_uses_button(slot: SlotAlignment, button: MouseButton) -> (b: bool)
    ensures
        b == match button {
            MouseButton::Left => slot == SlotAlignment::Left || slot == SlotAlignment::Double,
            MouseButton::Right => slot == SlotAlignment::Right || slot == SlotAlignment::Double,
        },
{
    match button {
        MouseButton::Left => match slot {
            SlotAlignment::Left | SlotAlignment::Double => true,
            _ => false,
        },
        MouseButton::Right => match slot {
            SlotAlignment::Right | SlotAlignment::Double => true,
            _ => false,
        },
    }
}

/// Whether an item driven by the mouse buttons of its hands is active, given whether the left
/// and right buttons are pressed: a one-handed item follows its hand's button, a two-handed item
/// detects both buttons, and an unequipped item is left as it is (`None`).
pub fn hmb_active(slot: SlotAlignment, lmb: bool, rmb: bool) -> (active: Option<bool>)
    ensures
        active == match slot {
            SlotAlignment::Left => Some(lmb),
            SlotAlignment::Right => Some(rmb),
            SlotAlignment::Double => Some(lmb || rmb),
            SlotAlignment::Unequipped => None::<bool>,
        },
{
    match slot {
        SlotAlignment::Left => Some(lmb),
        SlotAlignment::Right => Some(rmb),
        SlotAlignment::Double => Some(lmb || rmb),
        SlotAlignment::Unequipped => None,
    }
}

/// An automatically equipped double-handed item takes both hands; a single-handed one takes
/// exactly the dominant hand.
pub proof fn law_auto_slot_follows_handedness(handedness: Handedness, dominant: HumanoidDominantHand)
    ensures
        handedness == Handedness::Double ==> resolved_slot(ItemEquipEventSlot::Auto, handedness, dominant)
            == SlotAlignment::Double,
        handedness == Handedness::Single ==> resolved_slot(ItemEquipEventSlot::Auto, handedness, dominant)
            == match dominant {
            HumanoidDominantHand::Left => SlotAlignment::Left,
            HumanoidDominantHand::Right => SlotAlignment::Right,
        },
        resolved_slot(ItemEquipEventSlot::Auto, handedness, dominant) != SlotAlignment::Unequipped,
{
}

/// Where the models of an item go: the plan lists only grips the item has, head and body models
/// go to the head and body, the hand model to the slot's hand (the dominant hand for a
/// two-handed slot), and an offhand model is attached only for a two-handed slot, to the off
/// hand; a one-handed slot ignores it. Every model that has a place in the slot is attached.
pub proof fn law_attachments_follow_slot(slot: SlotAlignment, grips: Seq<Grip>)
    ensures
        forall|i: int|
            0 <= i < attachment_plan(slot, grips).len() ==> {
                let (g, a) = #[trigger] attachment_plan(slot, grips)[i];
                &&& grips.contains(g)
                &&& match g {
                    Grip::Head => a == RigAttachment::Head,
                    Grip::Body => a == RigAttachment::Body,
                    Grip::Hand => match slot {
                        SlotAlignment::Left => a == RigAttachment::LeftHand,
                        SlotAlignment::Right => a == RigAttachment::RightHand,
                        SlotAlignment::Double => a == RigAttachment::DominantHand,
                        SlotAlignment::Unequipped => false,
                    },
                    Grip::Offhand => slot == SlotAlignment::Double && a == RigAttachment::OffHand,
                }
            },
        slot != SlotAlignment::Double ==> forall|i: int|
            0 <= i < attachment_plan(slot, grips).len() ==> (#[trigger] attachment_plan(slot, grips)[i]).0
                != Grip::Offhand,
        forall|g: Grip|
            #![trigger grips.contains(g)]
            grips.contains(g) && (g == Grip::Head || g == Grip::Body || (g == Grip::Hand && slot
                != SlotAlignment::Unequipped) || (g == Grip::Offhand && slot == SlotAlignment::Double))
                ==> exists|i: int| 0 <= i < attachment_plan(slot, grips).len() && (#[trigger] attachment_plan(slot, grips)[i]).0 == g,
{
    broadcast use vstd::seq_lib::group_filter_ensures;

    let pred = |g: Grip| grips.contains(g) && attachment_for(slot, g) is Some;
    let f = grip_order().filter(pred);
    let plan = attachment_plan(slot, grips);
    assert forall|i: int| 0 <= i < plan.len() implies plan[i] == (f[i], attachment_for(slot, f[i])->0) && pred(f[i]) by {
        assert(pred(f[i]));
    }
    assert forall|g: Grip|
        #![trigger grips.contains(g)]
        grips.contains(g) && (g == Grip::Head || g == Grip::Body || (g == Grip::Hand && slot
            != SlotAlignment::Unequipped) || (g == Grip::Offhand && slot == SlotAlignment::Double))
        implies exists|i: int| 0 <= i < plan.len() && (#[trigger] plan[i]).0 == g by {
        let k: int = match g {
            Grip::Head => 0,
            Grip::Body => 1,
            Grip::Hand => 2,
            Grip::Offhand => 3,
        };
        assert(grip_order()[k] == g);
        assert(pred(g));
        assert(f.contains(g));
        let j = choose|j: int| 0 <= j < f.len() && f[j] == g;
        assert(plan[j].0 == g);
    }
}

} // verus!
