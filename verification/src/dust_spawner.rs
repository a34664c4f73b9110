//! Stochastic dust production.
//!
//! Each tick the spawner owes `speed * delta` dust, split between big and
//! small by a sigmoid of the spawn speed. Whole dust is emitted and the
//! fractional remainder is carried in per-class accumulators, so no
//! expectation is lost to rounding across ticks.
use vstd::prelude::*;
use crate::dust::{Dust, DustState, FALL_SPEED_MIN, FALL_SPEED_MAX, spec_initial_health};
use crate::geom::{AREA_MIN_X, AREA_MAX_X, AREA_MAX_Y};
use crate::rng::draw_inclusive;

verus! {

/// Cap on the dust population; spawning pauses at it.
pub const DUST_LIMIT: usize = 100_000;

/// One whole dust in accumulator units: milli-speed times milliseconds
/// (per second) times permille of the class split.
pub const EMIT_SCALE: u64 = 1_000_000_000;

/// Upper bound on the spawn speed (milli-dust per second) accepted by the
/// spawner; keeps the per-tick increment inside `u64`.
pub const SPAWN_SPEED_LIMIT: u64 = 10_000_000;

/// Upper bound on a tick's duration in milliseconds.
pub const DELTA_MS_LIMIT: u64 = 1_000_000;

/// Speed, in milli-dust per second, past which the big-dust share of the
/// split saturates at one.
pub const SPLIT_SATURATION_MILLI: u64 = 13_000;

/// A change of the spawner's stats bought in the shop.
#[derive(Clone, Copy, PartialEq, Eq, Structural, Debug)]
pub enum SetDustSpawnStats {
    /// Set the spawn speed, in milli-dust per second.
    SpawnSpeed(u64),
}

/// Emits falling dust at a configurable speed, with one remainder
/// accumulator per size class.
#[derive(Clone, Copy, PartialEq, Eq, Structural, Debug)]
pub struct DustSpawner {
    pub speed_milli: u64,
    pub big_acc: u64,
    pub small_acc: u64,
}

/// The logistic split `1000 / (1 + e^(5 - s))` of the spawn speed `s` in
/// whole dust per second, rounded to permille at whole-unit speeds. The
/// knot index is the speed in whole units; values past the table are
/// saturated.
pub open spec fn spec_alpha_knot(k: int) -> int {
    if k <= 0 {
        7
    } else if k == 1 {
        18
    } else if k == 2 {
        47
    } else if k == 3 {
        119
    } else if k == 4 {
        269
    } else if k == 5 {
        500
    } else if k == 6 {
        731
    } else if k == 7 {
        881
    } else if k == 8 {
        953
    } else if k == 9 {
        982
    } else if k == 10 {
        993
    } else if k == 11 {
        998
    } else if k == 12 {
        999
    } else {
        1000
    }
}

/// The big-dust share of the expected spawn count, in permille: the
/// logistic of the spawn speed, read from the knot table at whole-unit
/// speeds and carried linearly between knots; saturated at one past
/// `SPLIT_SATURATION_MILLI`.
pub open spec fn spec_alpha_permille(speed_milli: int) -> int {
    if speed_milli >= SPLIT_SATURATION_MILLI {
        1000
    } else {
        let k = speed_milli / 1000;
        let lo = spec_alpha_knot(k);
        let hi = spec_alpha_knot(k + 1);
        lo + (hi - lo) * (speed_milli % 1000) / 1000
    }
}

/// The accumulator units owed to the big class by one tick.
pub open spec fn spec_inc_big(speed_milli: int, delta_ms: int) -> int {
    speed_milli * delta_ms * spec_alpha_permille(speed_milli)
}

/// The accumulator units owed to the small class by one tick.
pub open spec fn spec_inc_small(speed_milli: int, delta_ms: int) -> int {
    speed_milli * delta_ms * (1000 - spec_alpha_permille(speed_milli))
}

impl DustSpawner {
    /// The spawner's invariant: remainders are genuine remainders and the
    /// speed is within the accepted band.
    pub open spec fn wf(&self) -> bool {
        &&& self.big_acc < EMIT_SCALE
        &&& self.small_acc < EMIT_SCALE
        &&& self.speed_milli <= SPAWN_SPEED_LIMIT
    }

    pub fn new(speed_milli: u64) -> (s: DustSpawner)
        requires
            speed_milli <= SPAWN_SPEED_LIMIT,
        ensures
            s.wf(),
            s.speed_milli == speed_milli,
            s.big_acc == 0,
            s.small_acc == 0,
    {
        DustSpawner { speed_milli, big_acc: 0, small_acc: 0 }
    }

    /// Replace the spawn speed (upgrade effect), clamped to the accepted
    /// band; the remainders carry over.
    pub fn set_speed(&mut self, speed_milli: u64)
        requires
            old(self).wf(),
        ensures
            final(self).wf(),
            final(self).speed_milli == if speed_milli <= SPAWN_SPEED_LIMIT { speed_milli as int } else { SPAWN_SPEED_LIMIT as int },
            final(self).big_acc == old(self).big_acc,
            final(self).small_acc == old(self).small_acc,
    {
        self.speed_milli = if speed_milli <= SPAWN_SPEED_LIMIT {
            speed_milli
        } else {
            SPAWN_SPEED_LIMIT
        };
    }

    /// One knot of the logistic table.
    fn alpha_knot(k: u64) -> (r: u64)
        ensures
            r == spec_alpha_knot(k as int),
            r <= 1000,
    {
        match k {
            0 => 7,
            1 => 18,
            2 => 47,
            3 => 119,
            4 => 269,
            5 => 500,
            6 => 731,
            7 => 881,
            8 => 953,
            9 => 982,
            10 => 993,
            11 => 998,
            12 => 999,
            _ => 1000,
        }
    }

    /// The big-dust share of this spawner's output, in permille.
    pub fn alpha_permille(&self) -> (r: u64)
        requires
            self.speed_milli <= SPAWN_SPEED_LIMIT,
        ensures
            r == spec_alpha_permille(self.speed_milli as int),
            r <= 1000,
    {
        let s = self.speed_milli;
        if s >= SPLIT_SATURATION_MILLI {
            return 1000;
        }
        let k = s / 1000;
        let lo = Self::alpha_knot(k);
        let hi = Self::alpha_knot(k + 1);
        let m = s % 1000;
        proof {
            assert(spec_alpha_knot(k as int) <= spec_alpha_knot(k as int + 1));
            assert(0 <= (hi - lo) * m <= (hi - lo) * 1000 && (hi - lo) * 1000 <= 1000 * 1000)
                by (nonlinear_arith)
                requires
                    0 <= m < 1000,
                    0 <= hi - lo <= 1000,
            ;
            vstd::arithmetic::div_mod::lemma_div_is_ordered((hi - lo) * m, (hi - lo) * 1000, 1000);
            vstd::arithmetic::div_mod::lemma_div_by_multiple((hi - lo) as int, 1000);
            vstd::arithmetic::div_mod::lemma_div_pos_is_pos((hi - lo) * m, 1000);
        }
        lo + (hi - lo) * m / 1000
    }

    /// Advance one tick: add this tick's expectation to each class's
    /// accumulator and emit the whole dust it now holds. Returns
    /// `(small, big)` counts. Nothing is lost: emitted dust times
    /// `EMIT_SCALE` plus the new remainder equals the old remainder plus
    /// the tick's increment, for each class.
    pub fn step(&mut self, delta_ms: u64) -> (counts: (u64, u64))
        requires
            old(self).wf(),
            delta_ms <= DELTA_MS_LIMIT,
        ensures
            final(self).wf(),
            final(self).speed_milli == old(self).speed_milli,
            counts.1 * EMIT_SCALE + final(self).big_acc
                == old(self).big_acc + spec_inc_big(old(self).speed_milli as int, delta_ms as int),
            counts.0 * EMIT_SCALE + final(self).small_acc
                == old(self).small_acc + spec_inc_small(old(self).speed_milli as int, delta_ms as int),
    {
        let alpha = self.alpha_permille();
        let speed = self.speed_milli;
        proof {
            assert(speed * delta_ms <= 10_000_000_000_000i64 && speed * delta_ms >= 0)
                by (nonlinear_arith)
                requires
                    speed <= 10_000_000,
                    delta_ms <= 1_000_000,
            ;
            assert((speed * delta_ms) * (alpha as int) <= 10_000_000_000_000_000i64
                && (speed * delta_ms) * (1000 - alpha) <= 10_000_000_000_000_000i64
                && (speed * delta_ms) * (alpha as int) >= 0
                && (speed * delta_ms) * (1000 - alpha) >= 0) by (nonlinear_arith)
                requires
                    0 <= speed * delta_ms <= 10_000_000_000_000i64,
                    alpha <= 1000,
            ;
        }
        let expected: u64 = speed * delta_ms;
        let inc_big: u64 = expected * alpha;
        let inc_small: u64 = expected * (1000 - alpha);
        let big_total: u64 = self.big_acc + inc_big;
        let small_total: u64 = self.small_acc + inc_small;
        let n_big: u64 = big_total / EMIT_SCALE;
        let n_small: u64 = small_total / EMIT_SCALE;
        self.big_acc = big_total % EMIT_SCALE;
        self.small_acc = small_total % EMIT_SCALE;
        proof {
            vstd::arithmetic::div_mod::lemma_fundamental_div_mod(big_total as int, EMIT_SCALE as int);
            vstd::arithmetic::div_mod::lemma_fundamental_div_mod(small_total as int, EMIT_SCALE as int);
        }
        (n_small, n_big)
    }
}

/// Constructor of the level's dust spawner: the starting speed is two dust
/// per second, with empty remainders.
pub fn dust_spawner() -> (s: DustSpawner)
    ensures
        s.wf(),
        s.speed_milli == 2000,
        s.big_acc == 0,
        s.small_acc == 0,
{
    DustSpawner::new(2000)
}

/// A particle as spawning emits it: the given class at full health, at
/// the top edge of the play area, falling at a speed within the band.
pub open spec fn is_spawned(d: DustState, kind: Dust) -> bool {
    &&& d.kind == kind
    &&& d.pos.y == AREA_MAX_Y
    &&& AREA_MIN_X <= d.pos.x <= AREA_MAX_X
    &&& FALL_SPEED_MIN <= d.speed_milli <= FALL_SPEED_MAX
    &&& d.health.current == spec_initial_health(kind)
    &&& d.health.max == spec_initial_health(kind)
}

/// Append up to `count` spawned particles of one class, pausing at the
/// population cap. Each gets a uniformly random horizontal position and
/// fall speed.
fn spawn_dust_batch(dust: &mut Vec<DustState>, count: u64, kind: Dust, rng_src: &mut rand::rngs::SmallRng)
    ensures
        final(dust)@.len() >= old(dust)@.len(),
        final(dust)@.take(old(dust)@.len() as int) == old(dust)@,
        forall|i: int| old(dust)@.len() <= i < final(dust)@.len()
            ==> is_spawned(#[trigger] final(dust)@[i], kind),
        final(dust)@.len() == if old(dust)@.len() + count <= DUST_LIMIT {
            old(dust)@.len() + count
        } else if old(dust)@.len() >= DUST_LIMIT {
            old(dust)@.len() as int
        } else {
            DUST_LIMIT as int
        },
{
    let mut k: u64 = 0;
    while k < count
        invariant
            0 <= k <= count,
            dust@.len() >= old(dust)@.len(),
            dust@.take(old(dust)@.len() as int) == old(dust)@,
            forall|i: int| old(dust)@.len() <= i < dust@.len()
                ==> is_spawned(#[trigger] dust@[i], kind),
            dust@.len() == if old(dust)@.len() + k <= DUST_LIMIT {
                old(dust)@.len() + k
            } else if old(dust)@.len() >= DUST_LIMIT {
                old(dust)@.len() as int
            } else {
                DUST_LIMIT as int
            },
        decreases count - k,
    {
        if dust.len() < DUST_LIMIT {
            let x = AREA_MIN_X + draw_inclusive(rng_src, 0, (AREA_MAX_X - AREA_MIN_X) as u64) as i64;
            let speed = draw_inclusive(rng_src, FALL_SPEED_MIN, FALL_SPEED_MAX);
            let ghost prev = dust@;
            dust.push(crate::dust::dust(crate::geom::Pos::new(x, AREA_MAX_Y), speed, kind));
            proof {
                assert(dust@.take(old(dust)@.len() as int) =~= prev.take(old(dust)@.len() as int));
            }
        }
        k = k + 1;
    }
}

/// One tick of dust production: fold this tick's expectation into the
/// class accumulators, then spawn the whole dust they emit — each at the
/// top of the play area with a random horizontal position and fall
/// speed, pausing at the population cap. Returns the emitted
/// `(small, big)` counts.
pub fn spawn_dust(spawner: &mut DustSpawner, dust: &mut Vec<DustState>, delta_ms: u64, rng_src: &mut rand::rngs::SmallRng) -> (counts: (u64, u64))
    requires
        old(spawner).wf(),
        delta_ms <= DELTA_MS_LIMIT,
    ensures
        final(spawner).wf(),
        final(spawner).speed_milli == old(spawner).speed_milli,
        counts.1 * EMIT_SCALE + final(spawner).big_acc
            == old(spawner).big_acc + spec_inc_big(old(spawner).speed_milli as int, delta_ms as int),
        counts.0 * EMIT_SCALE + final(spawner).small_acc
            == old(spawner).small_acc + spec_inc_small(old(spawner).speed_milli as int, delta_ms as int),
        final(dust)@.len() >= old(dust)@.len(),
        final(dust)@.take(old(dust)@.len() as int) == old(dust)@,
        forall|i: int| old(dust)@.len() <= i < final(dust)@.len()
            ==> is_spawned(#[trigger] final(dust)@[i], Dust::Small)
                || is_spawned(#[trigger] final(dust)@[i], Dust::Big),
        old(dust)@.len() <= DUST_LIMIT ==> final(dust)@.len() <= DUST_LIMIT,
        old(dust)@.len() + counts.0 + counts.1 <= DUST_LIMIT
            ==> final(dust)@.len() == old(dust)@.len() + counts.0 + counts.1,
{
    let (n_small, n_big) = spawner.step(delta_ms);
    let ghost len0 = dust@.len();
    spawn_dust_batch(dust, n_small, Dust::Small, rng_src);
    let ghost len1 = dust@.len();
    let ghost mid = dust@;
    spawn_dust_batch(dust, n_big, Dust::Big, rng_src);
    proof {
        assert(dust@.take(len0 as int) =~= dust@.take(len1 as int).take(len0 as int));
        assert(dust@.take(len1 as int) == mid);
        assert(mid.take(len0 as int) == old(dust)@);
        assert forall|i: int| len0 <= i < dust@.len()
            implies is_spawned(#[trigger] dust@[i], Dust::Small)
                || is_spawned(dust@[i], Dust::Big) by {
            if i < len1 {
                assert(dust@[i] == dust@.take(len1 as int)[i]);
                assert(dust@[i] == mid[i]);
            }
        }
    }
    (n_small, n_big)
}

/// The sum of a sequence of per-tick increments.
pub open spec fn sum_of(incs: Seq<int>) -> int
    decreases incs.len(),
{
    if incs.len() == 0 {
        0
    } else {
        sum_of(incs.drop_last()) + incs.last()
    }
}

/// The accumulator's value after folding a run of increments into it.
pub open spec fn acc_after(acc0: int, incs: Seq<int>) -> int
    decreases incs.len(),
{
    if incs.len() == 0 {
        acc0
    } else {
        (acc_after(acc0, incs.drop_last()) + incs.last()) % (EMIT_SCALE as int)
    }
}

/// The number of dust emitted over a run of increments.
pub open spec fn emitted_after(acc0: int, incs: Seq<int>) -> int
    decreases incs.len(),
{
    if incs.len() == 0 {
        0
    } else {
        emitted_after(acc0, incs.drop_last())
            + (acc_after(acc0, incs.drop_last()) + incs.last()) / (EMIT_SCALE as int)
    }
}

/// Remainder-accumulator correctness: over any run, the emitted count
/// times `EMIT_SCALE` plus the final remainder equals the starting
/// remainder plus everything that was owed, so the count tracks the owed
/// expectation to within one dust. `step` performs exactly this fold on
/// each class's accumulator, so the law holds of each size class
/// independently.
pub proof fn lemma_spawn_count_fidelity(acc0: int, incs: Seq<int>)
    requires
        0 <= acc0 < EMIT_SCALE,
        forall|i: int| 0 <= i < incs.len() ==> #[trigger] incs[i] >= 0,
    ensures
        emitted_after(acc0, incs) * EMIT_SCALE + acc_after(acc0, incs) == acc0 + sum_of(incs),
        0 <= acc_after(acc0, incs) < EMIT_SCALE,
        sum_of(incs) - EMIT_SCALE < emitted_after(acc0, incs) * EMIT_SCALE <= acc0 + sum_of(incs),
    decreases incs.len(),
{
    if incs.len() == 0 {
    } else {
        let prefix = incs.drop_last();
        assert(forall|i: int| 0 <= i < prefix.len() ==> #[trigger] prefix[i] >= 0);
        lemma_spawn_count_fidelity(acc0, prefix);
        let a = acc_after(acc0, prefix);
        let t = a + incs.last();
        assert(t >= 0);
        vstd::arithmetic::div_mod::lemma_fundamental_div_mod(t, EMIT_SCALE as int);
        vstd::arithmetic::div_mod::lemma_mod_bound(t, EMIT_SCALE as int);
        vstd::arithmetic::div_mod::lemma_div_pos_is_pos(t, EMIT_SCALE as int);
        assert(sum_of(incs) == sum_of(prefix) + incs.last());
        assert(emitted_after(acc0, incs) * EMIT_SCALE
            == emitted_after(acc0, prefix) * EMIT_SCALE + (t / (EMIT_SCALE as int)) * EMIT_SCALE)
            by (nonlinear_arith)
            requires
                emitted_after(acc0, incs) == emitted_after(acc0, prefix) + t / (EMIT_SCALE as int),
        ;
    }
}

} // verus!
