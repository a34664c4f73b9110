//! The health component carried by dust, in milli-units.
//!
//! The invariant `current <= max` holds after every operation, and
//! `current` decreases only through `apply_damage`.
use vstd::prelude::*;

verus! {

/// Current and maximum hit points, in milli-units.
#[derive(Clone, Copy, PartialEq, Eq, Structural, Debug)]
pub struct Health {
    pub current: u64,
    pub max: u64,
}

impl Health {
    /// The component's invariant.
    pub open spec fn wf(&self) -> bool {
        self.current <= self.max
    }

    /// A fresh component starts at full health.
    pub fn new(max: u64) -> (h: Health)
        ensures
            h.wf(),
            h.current == max,
            h.max == max,
    {
        Health { current: max, max }
    }

    /// Subtract `min(damage, current)`, flooring at zero; the only
    /// operation that lowers `current`.
    pub fn apply_damage(&mut self, damage: u64)
        ensures
            final(self).current == if damage <= old(self).current { old(self).current - damage } else { 0 },
            final(self).max == old(self).max,
            old(self).wf() ==> final(self).wf(),
    {
        let deducted = if damage <= self.current { damage } else { self.current };
        self.current = self.current - deducted;
    }

    /// Whether any health is left.
    pub fn is_alive(&self) -> (r: bool)
        ensures
            r == (self.current > 0),
    {
        self.current > 0
    }

    /// Read the current amount; no side effect.
    pub fn current(&self) -> (r: u64)
        ensures
            r == self.current,
    {
        self.current
    }

    /// Whether the component is at full health (the health bar then hides).
    pub fn is_max_health(&self) -> (r: bool)
        ensures
            r == (self.current >= self.max),
    {
        self.current >= self.max
    }

    /// Add `amount`, clamped to the maximum; never lowers `current`.
    pub fn heal(&mut self, amount: u64)
        requires
            old(self).wf(),
        ensures
            final(self).wf(),
            final(self).current == if old(self).current + amount <= old(self).max {
                old(self).current + amount
            } else {
                old(self).max as int
            },
            final(self).current >= old(self).current,
            final(self).max == old(self).max,
    {
        if amount >= self.max - self.current {
            self.current = self.max;
        } else {
            self.current = self.current + amount;
        }
    }
}

} // verus!
