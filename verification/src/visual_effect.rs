//! Data the core hands to the renderer: beam lines, floating damage
//! numbers, and the short-lived timer that expires them.
use vstd::prelude::*;
use crate::geom::Pos;

verus! {

/// How long a beam line stays visible, in milliseconds.
pub const BEAM_EFFECT_MS: u64 = 100;
/// How long a damage number stays visible, in milliseconds.
pub const TEXT_EFFECT_MS: u64 = 500;

/// A countdown that expires a transient visual.
#[derive(Clone, Copy, PartialEq, Eq, Structural, Debug)]
pub struct TempoEffect {
    pub elapsed_ms: u64,
    pub duration_ms: u64,
}

/// A lightning beam spanning the packet's position and the struck dust.
#[derive(Clone, Copy, PartialEq, Eq, Structural, Debug)]
pub struct AttackLine {
    pub start: Pos,
    pub end: Pos,
}

/// A floating damage number at the struck dust's position, in milli-units.
#[derive(Clone, Copy, PartialEq, Eq, Structural, Debug)]
pub struct DamageText {
    pub amount: u64,
    pub pos: Pos,
}

impl TempoEffect {
    pub fn new(duration_ms: u64) -> (t: TempoEffect)
        ensures
            t.elapsed_ms == 0,
            t.duration_ms == duration_ms,
    {
        TempoEffect { elapsed_ms: 0, duration_ms }
    }

    /// Advance the countdown; it saturates at its duration. Returns
    /// whether the effect is now over.
    pub fn tick(&mut self, delta_ms: u64) -> (finished: bool)
        ensures
            *final(self) == spec_tempo_tick(*old(self), delta_ms as int),
            finished == (final(self).elapsed_ms >= final(self).duration_ms),
    {
        if self.elapsed_ms >= self.duration_ms || delta_ms >= self.duration_ms - self.elapsed_ms {
            self.elapsed_ms = self.duration_ms;
        } else {
            self.elapsed_ms = self.elapsed_ms + delta_ms;
        }
        self.elapsed_ms >= self.duration_ms
    }
}

/// The countdown after one tick: elapsed time grows by the tick, clamped
/// to the duration.
pub open spec fn spec_tempo_tick(t: TempoEffect, delta_ms: int) -> TempoEffect {
    TempoEffect {
        elapsed_ms: if t.elapsed_ms + delta_ms >= t.duration_ms { t.duration_ms } else { (t.elapsed_ms + delta_ms) as u64 },
        duration_ms: t.duration_ms,
    }
}

/// The effects still running after one tick, each advanced, expired ones
/// removed, order kept.
pub open spec fn spec_expire<T>(s: Seq<(TempoEffect, T)>, delta_ms: int) -> Seq<(TempoEffect, T)>
    decreases s.len(),
{
    if s.len() == 0 {
        s
    } else {
        let rest = spec_expire(s.drop_last(), delta_ms);
        let t = spec_tempo_tick(s.last().0, delta_ms);
        if t.elapsed_ms < t.duration_ms {
            rest.push((t, s.last().1))
        } else {
            rest
        }
    }
}

/// Advance every effect's countdown and drop the ones that are over.
pub fn remove_tempo_effect<T: Copy>(effects: &mut Vec<(TempoEffect, T)>, delta_ms: u64)
    ensures
        final(effects)@ == spec_expire(old(effects)@, delta_ms as int),
{
    let n = effects.len();
    let mut out: Vec<(TempoEffect, T)> = Vec::new();
    let mut i: usize = 0;
    while i < n
        invariant
            n == old(effects)@.len(),
            effects@ == old(effects)@,
            0 <= i <= n,
            out@ == spec_expire(old(effects)@.take(i as int), delta_ms as int),
        decreases n - i,
    {
        proof {
            assert(old(effects)@.take(i as int + 1).drop_last() =~= old(effects)@.take(i as int));
            assert(old(effects)@.take(i as int + 1).last() == old(effects)@[i as int]);
        }
        let (mut tempo, payload) = effects[i];
        let finished = tempo.tick(delta_ms);
        if !finished {
            out.push((tempo, payload));
        }
        i = i + 1;
    }
    proof {
        assert(old(effects)@.take(n as int) =~= old(effects)@);
    }
    *effects = out;
}

} // verus!
