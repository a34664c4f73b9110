//! The process-wide energy pool that gates attacker charging.
//!
//! Power regenerates continuously (`regen_speed` milli-units per second,
//! applied once per tick from the elapsed milliseconds) and is consumed by
//! the charge pass. The invariant `current <= max` holds after every
//! operation; `current >= 0` is inherent in the unsigned representation.
use vstd::prelude::*;

verus! {

/// A change of the pool's stats bought in the shop.
#[derive(Clone, Copy, PartialEq, Eq, Structural, Debug)]
pub enum SetPowerStats {
    /// Set the amount of power regenerated per second, in milli-units.
    RegenSpeed(u64),
    /// Set the pool's capacity, in milli-units.
    PowerMax(u64),
}

/// Apply a bought stat change to the pool.
pub fn update_power_stats(power: &mut Power, event: SetPowerStats)
    requires
        old(power).wf(),
    ensures
        final(power).wf(),
        match event {
            SetPowerStats::RegenSpeed(speed) => {
                &&& final(power).regen_speed == speed
                &&& final(power).max == old(power).max
                &&& final(power).current == old(power).current
            },
            SetPowerStats::PowerMax(max) => {
                &&& final(power).max == max
                &&& final(power).regen_speed == old(power).regen_speed
                &&& final(power).current == if old(power).current <= max { old(power).current as int } else { max as int }
            },
        },
{
    match event {
        SetPowerStats::RegenSpeed(speed) => power.set_regen_speed(speed),
        SetPowerStats::PowerMax(max) => power.set_max(max),
    }
}

/// The shared regenerating energy pool, in milli-units.
pub struct Power {
    pub current: u64,
    pub max: u64,
    pub regen_speed: u64,
}

/// The pool after one tick of regeneration: `regen_speed * delta_ms /
/// 1000` added, clamped to the capacity.
pub open spec fn spec_regenerated(p: Power, delta_ms: int) -> Power {
    Power {
        current: if p.current + p.regen_speed * delta_ms / 1000 <= p.max {
            (p.current + p.regen_speed * delta_ms / 1000) as u64
        } else {
            p.max
        },
        ..p
    }
}

impl Power {
    /// The pool's invariant: the current amount never exceeds the capacity.
    pub open spec fn wf(&self) -> bool {
        self.current <= self.max
    }

    /// A fresh pool starts full.
    pub fn new(max: u64, regen_speed: u64) -> (p: Power)
        ensures
            p.wf(),
            p.current == max,
            p.max == max,
            p.regen_speed == regen_speed,
    {
        Power { current: max, max, regen_speed }
    }

    /// Read the current amount; no side effect.
    pub fn current(&self) -> (r: u64)
        ensures
            r == self.current,
    {
        self.current
    }

    /// Deduct `min(current, amount)` and return the amount actually
    /// deducted: a short pool deducts partially, and callers that need
    /// all-or-nothing (the charge pass) check `current` first.
    pub fn consume(&mut self, amount: u64) -> (deducted: u64)
        ensures
            deducted == if amount <= old(self).current { amount as int } else { old(self).current as int },
            final(self).current == old(self).current - deducted,
            final(self).max == old(self).max,
            final(self).regen_speed == old(self).regen_speed,
            old(self).wf() ==> final(self).wf(),
    {
        let deducted = if amount <= self.current { amount } else { self.current };
        self.current = self.current - deducted;
        deducted
    }

    /// Add `regen_speed * delta_ms / 1000`, clamped to the capacity.
    pub fn regenerate(&mut self, delta_ms: u64)
        requires
            old(self).wf(),
        ensures
            final(self).wf(),
            *final(self) == spec_regenerated(*old(self), delta_ms as int),
    {
        let speed = self.regen_speed;
        proof {
            assert((speed as int) * (delta_ms as int) < 0x1_0000_0000_0000_0000_0000_0000_0000_0000)
                by (nonlinear_arith)
                requires
                    speed <= u64::MAX,
                    delta_ms <= u64::MAX,
            ;
        }
        let add: u128 = (speed as u128) * (delta_ms as u128) / 1000;
        if add >= (self.max - self.current) as u128 {
            self.current = self.max;
        } else {
            self.current = self.current + (add as u64);
        }
    }

    /// Replace the regeneration speed (upgrade effect).
    pub fn set_regen_speed(&mut self, regen_speed: u64)
        ensures
            final(self).current == old(self).current,
            final(self).max == old(self).max,
            final(self).regen_speed == regen_speed,
            old(self).wf() ==> final(self).wf(),
    {
        self.regen_speed = regen_speed;
    }

    /// Replace the capacity (upgrade effect), clamping the current amount
    /// so the invariant is kept.
    pub fn set_max(&mut self, max: u64)
        ensures
            final(self).wf(),
            final(self).max == max,
            final(self).current == if old(self).current <= max { old(self).current as int } else { max as int },
            final(self).regen_speed == old(self).regen_speed,
    {
        self.max = max;
        if self.current > max {
            self.current = max;
        }
    }
}

} // verus!
