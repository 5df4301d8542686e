//! `ComboStack`: the actions of a combo in progress, and how long the combo stays open.
//!
//! Spans of time are counted in nanoseconds.

use vstd::prelude::*;

verus! {

/// The actions of a combo in progress. The combo is dropped when `t` runs out.
pub struct ComboStack<T> {
    /// Actions, oldest first.
    pub sequence: Vec<T>,
    /// Time left before the combo expires, in nanoseconds.
    pub t: u128,
}

/// Saturating subtraction on spans of time.
pub open spec fn saturating_sub(a: u128, b: u128) -> u128 {
    if a >= b {
        (a - b) as u128
    } else {
        0
    }
}

impl<T> ComboStack<T> {
    /// An empty combo.
    pub fn new() -> (s: Self)
        ensures
            s.sequence@ == Seq::<T>::empty(),
            s.t == 0,
    {
        ComboStack { sequence: Vec::new(), t: 0 }
    }

    /// Advances the combo timer by `dt`; an expired combo is reset.
    pub fn timestep(&mut self, dt: u128)
        ensures
            final(self).t == saturating_sub(old(self).t, dt),
            final(self).sequence@ == if final(self).t == 0 {
                Seq::<T>::empty()
            } else {
                old(self).sequence@
            },
    {
        self.t = if self.t >= dt {
            self.t - dt
        } else {
            0
        };
        if self.t == 0 {
            self.reset();
        }
    }

    /// Clears the sequence and its expiry.
    pub fn reset(&mut self)
        ensures
            final(self).sequence@ == Seq::<T>::empty(),
            final(self).t == 0,
    {
        self.sequence.clear();
        self.t = 0;
    }

    /// Adds an action to the combo, which now expires after `expiry`.
    pub fn push(&mut self, action: T, expiry: u128)
        ensures
            final(self).sequence@ == old(self).sequence@.push(action),
            final(self).t == expiry,
    {
        self.sequence.push(action);
        self.t = expiry;
    }

    /// The latest action, if any.
    pub fn last(&self) -> (r: Option<&T>)
        ensures
            match r {
                Some(a) => self.sequence@.len() > 0 && *a == self.sequence@.last(),
                None => self.sequence@.len() == 0,
            },
    {
        let n = self.sequence.len();
        if n == 0 {
            None
        } else {
            Some(&self.sequence[n - 1])
        }
    }
}

/// A combo expires exactly when a step at least as long as its remaining time passes.
pub proof fn law_combo_expiry(t: u128, dt: u128)
    ensures
        (saturating_sub(t, dt) == 0) <==> (dt >= t),
{
}

/// Two steps of the combo timer amount to one step of their total length.
pub proof fn law_combo_steps_compose(t: u128, a: u128, b: u128)
    requires
        a + b <= u128::MAX,
    ensures
        saturating_sub(saturating_sub(t, a), b) == saturating_sub(t, (a + b) as u128),
{
}

} // verus!
