//! Firing decisions for items: cooldowns, semi-automatic and automatic fire.
//!
//! Spans of time are counted in nanoseconds.

use crate::combo::saturating_sub;
use vstd::prelude::*;

verus! {

/// The firing behaviours an item may support.
#[derive(Debug, Clone, Copy, PartialEq, Eq, Hash, Structural)]
pub enum FiringBehavior {
    SemiAutomatic,
    Automatic,
}

impl FiringBehavior {
    /// Semi-automatic is the default behaviour.
    pub fn default_behavior() -> (b: FiringBehavior)
        ensures
            b == FiringBehavior::SemiAutomatic,
    {
        FiringBehavior::SemiAutomatic
    }
}

/// How an item fires; an automatic item remembers whether it is currently firing.
#[derive(Debug, Clone, Copy, PartialEq, Eq, Structural)]
pub enum FiringMode {
    SemiAuto,
    Auto { firing: bool },
}

impl FiringMode {
    /// Semi-automatic is the default mode.
    pub fn default_mode() -> (m: FiringMode)
        ensures
            m == FiringMode::SemiAuto,
    {
        FiringMode::SemiAuto
    }
}

/// Time between shots, in nanoseconds.
#[derive(Debug, Clone, Copy, PartialEq, Eq, Structural)]
pub struct FireRate(pub u128);

/// One second, in nanoseconds.
pub const DEFAULT_FIRE_RATE_NANOS: u128 = 1_000_000_000;

impl FireRate {
    /// One shot per second.
    pub fn default_rate() -> (r: FireRate)
        ensures
            r.0 == DEFAULT_FIRE_RATE_NANOS,
    {
        FireRate(DEFAULT_FIRE_RATE_NANOS)
    }
}

/// Time left before the next shot, in nanoseconds.
#[derive(Debug, Clone, Copy, PartialEq, Eq, Structural)]
pub struct ShotCooldown(pub u128);

impl ShotCooldown {
    /// Ready to fire.
    pub fn new() -> (c: ShotCooldown)
        ensures
            c.0 == 0,
    {
        ShotCooldown(0)
    }

    /// Whether the item may fire now.
    pub fn ready(&self) -> (b: bool)
        ensures
            b == (self.0 == 0),
    {
        self.0 == 0
    }

    /// Lets `dt` pass.
    pub fn step(&mut self, dt: u128)
        ensures
            final(self).0 == saturating_sub(old(self).0, dt),
    {
        self.0 = if self.0 >= dt {
            self.0 - dt
        } else {
            0
        };
    }

    /// Starts a new cooldown of `duration`.
    pub fn reset(&mut self, duration: u128)
        ensures
            final(self).0 == duration,
    {
        self.0 = duration;
    }
}

/// A semi-automatic shot attempt, from cooldown left to (cooldown left, fired).
pub open spec fn semi_fire_step(cooldown: u128, fire_rate: u128) -> (u128, bool) {
    if cooldown == 0 {
        (fire_rate, true)
    } else {
        (cooldown, false)
    }
}

/// Fires a semi-automatic item that was just activated, if its cooldown allows.
/// Returns whether a shot was fired; firing restarts the cooldown at the fire rate.
pub fn semi_fire(cooldown: &mut ShotCooldown, fire_rate: &FireRate) -> (fired: bool)
    ensures
        (final(cooldown).0, fired) == semi_fire_step(old(cooldown).0, fire_rate.0),
{
    if cooldown.ready() {
        cooldown.reset(fire_rate.0);
        true
    } else {
        false
    }
}

/// Events sent by one tick of automatic fire.
#[derive(Debug, Clone, Copy, PartialEq, Eq, Structural)]
pub struct AutoFireEvents {
    /// Continuous fire began.
    pub began: bool,
    /// Continuous fire ended.
    pub ended: bool,
    /// A shot was fired.
    pub fired: bool,
}

/// Whether an automatic item is firing after this tick's input.
pub open spec fn auto_firing_after(firing: bool, active: bool, ready: bool) -> bool {
    if active && !firing && ready {
        true
    } else if !active && firing {
        false
    } else {
        firing
    }
}

/// One tick of automatic fire, from (cooldown left, firing) to (cooldown left, firing, events).
pub open spec fn auto_fire_step(cooldown: u128, fire_rate: u128, active: bool, firing: bool) -> (u128, bool, AutoFireEvents) {
    let ready = cooldown == 0;
    let now = auto_firing_after(firing, active, ready);
    let fired = now && ready;
    (
        if fired { fire_rate } else { cooldown },
        now,
        AutoFireEvents { began: active && !firing && ready, ended: !active && firing, fired },
    )
}

/// One tick of automatic fire: fire begins when the item is active and ready, ends when it is
/// no longer active, and each ready tick while firing fires a shot and restarts the cooldown.
/// A semi-automatic mode is left alone.
pub fn auto_fire(
    cooldown: &mut ShotCooldown,
    fire_rate: &FireRate,
    active: bool,
    mode: &mut FiringMode,
) -> (events: AutoFireEvents)
    ensures
        match *old(mode) {
            FiringMode::SemiAuto => {
                &&& *final(mode) == FiringMode::SemiAuto
                &&& *final(cooldown) == *old(cooldown)
                &&& events == AutoFireEvents { began: false, ended: false, fired: false }
            },
            FiringMode::Auto { firing } => {
                let step = auto_fire_step(old(cooldown).0, fire_rate.0, active, firing);
                &&& final(cooldown).0 == step.0
                &&& *final(mode) == FiringMode::Auto { firing: step.1 }
                &&& events == step.2
            },
        },
{
    let mut events = AutoFireEvents { began: false, ended: false, fired: false };
    match mode {
        FiringMode::SemiAuto => events,
        FiringMode::Auto { firing } => {
            let ready = cooldown.ready();
            if active && !*firing && ready {
                *firing = true;
                events.began = true;
            } else if !active && *firing {
                *firing = false;
                events.ended = true;
            }
            if *firing && cooldown.ready() {
                cooldown.reset(fire_rate.0);
                events.fired = true;
            }
            events
        },
    }
}

/// With a positive fire rate, a tick that fires is never followed by another shot until the
/// cooldown is stepped: neither semi-automatic nor automatic fire shoots twice in a row.
pub proof fn law_no_shot_without_cooldown(
    cooldown: u128,
    fire_rate: u128,
    active: bool,
    next_active: bool,
    firing: bool,
)
    requires
        fire_rate > 0,
    ensures
        ({
            let first = auto_fire_step(cooldown, fire_rate, active, firing);
            first.2.fired ==> !auto_fire_step(first.0, fire_rate, next_active, first.1).2.fired
        }),
        ({
            let first = semi_fire_step(cooldown, fire_rate);
            first.1 ==> !semi_fire_step(first.0, fire_rate).1
        }),
{
}

/// Continuous fire begins only when it was not firing and ends only when it was: the begin
/// and end events alternate.
pub proof fn law_begin_end_alternate(cooldown: u128, fire_rate: u128, active: bool, firing: bool)
    ensures
        ({
            let step = auto_fire_step(cooldown, fire_rate, active, firing);
            &&& step.2.began ==> !firing && step.1
            &&& step.2.ended ==> firing && !step.1
            &&& !(step.2.began && step.2.ended)
        }),
{
}

/// A semi-automatic shot fires exactly when the cooldown has run out; firing restarts the
/// cooldown at the fire rate, and a shot that does not fire leaves the cooldown as it was.
pub proof fn law_semi_fire_needs_spent_cooldown(cooldown: u128, fire_rate: u128)
    ensures
        semi_fire_step(cooldown, fire_rate).1 == (cooldown == 0),
        cooldown == 0 ==> semi_fire_step(cooldown, fire_rate).0 == fire_rate,
        cooldown != 0 ==> semi_fire_step(cooldown, fire_rate).0 == cooldown,
{
}

/// One tick of automatic fire, in plain terms: a shot fires exactly when the item is active and
/// its cooldown has run out, and then the cooldown restarts at the fire rate (otherwise it is
/// left as it was). The item keeps firing while it is active and either was firing or is ready.
/// Fire begins only for an active, ready item that was not firing, and ends only for an item
/// that was firing and is no longer active. An inactive item that is not firing does nothing.
pub proof fn law_auto_fire_follows_trigger(cooldown: u128, fire_rate: u128, active: bool, firing: bool)
    ensures
        ({
            let (next_cooldown, next_firing, events) = auto_fire_step(cooldown, fire_rate, active, firing);
            &&& events.fired == (active && cooldown == 0)
            &&& next_cooldown == if events.fired { fire_rate } else { cooldown }
            &&& next_firing == (active && (firing || cooldown == 0))
            &&& events.began == (active && !firing && cooldown == 0)
            &&& events.ended == (!active && firing)
            &&& events.began ==> active
            &&& (!active && !firing) ==> (next_cooldown == cooldown && !next_firing && !events.began
                && !events.ended && !events.fired)
        }),
{
}

} // verus!
