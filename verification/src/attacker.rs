//! Player-placed towers and their charge/attack state machine.
//!
//! Every tick, first all recharge timers advance; then the charge pass
//! spends the shared power pool on the eligible attackers in a shuffled
//! order, so charging is a contested allocation with no positional bias;
//! then every fully charged, in-bounds attacker with dust in range fires
//! a damage packet, resets its timer and loses its charge. One with no
//! dust in range keeps its charge and retries next tick.
use vstd::prelude::*;
use crate::damage::{Damage, DamageType, LIGHTING_RANGE_SQ, generate_damage};
use crate::dust::DustState;
use crate::geom::{Pos, in_world, spec_dist2, dist2, spec_in_area};
use crate::power::Power;
use crate::rng::{next_seed, seed_rng, shuffle_indices};
use crate::seqs::lemma_push_keeps_contains;

verus! {

/// Largest recharge duration the simulation accepts, in milliseconds;
/// keeps the charge fraction's arithmetic inside `u64`.
pub const ATTACK_INTERVAL_LIMIT: u64 = 1_000_000_000;

/// The request, bought in the shop or raised at level start, to place a
/// new attacker.
#[derive(Clone, Copy, PartialEq, Eq, Structural, Debug)]
pub struct SpawnAttacker;

/// The recharge countdown of one attacker.
#[derive(Clone, Copy, PartialEq, Eq, Structural, Debug)]
pub struct ChargeTimer {
    pub elapsed_ms: u64,
    pub duration_ms: u64,
}

impl ChargeTimer {
    /// The timer's invariant: elapsed time is clamped to the duration,
    /// and the duration is within the accepted band.
    pub open spec fn wf(&self) -> bool {
        &&& self.elapsed_ms <= self.duration_ms
        &&& self.duration_ms <= ATTACK_INTERVAL_LIMIT
    }

    /// Whether the countdown has run out.
    pub open spec fn spec_finished(&self) -> bool {
        self.elapsed_ms >= self.duration_ms
    }

    pub fn new(duration_ms: u64) -> (t: ChargeTimer)
        requires
            duration_ms <= ATTACK_INTERVAL_LIMIT,
        ensures
            t.wf(),
            t.elapsed_ms == 0,
            t.duration_ms == duration_ms,
    {
        ChargeTimer { elapsed_ms: 0, duration_ms }
    }

    /// Advance the countdown; it saturates at its duration.
    pub fn tick(&mut self, delta_ms: u64)
        requires
            old(self).wf(),
        ensures
            final(self).wf(),
            final(self).duration_ms == old(self).duration_ms,
            final(self).elapsed_ms == if old(self).elapsed_ms + delta_ms >= old(self).duration_ms {
                old(self).duration_ms
            } else {
                (old(self).elapsed_ms + delta_ms) as u64
            },
    {
        if delta_ms >= self.duration_ms - self.elapsed_ms {
            self.elapsed_ms = self.duration_ms;
        } else {
            self.elapsed_ms = self.elapsed_ms + delta_ms;
        }
    }

    pub fn finished(&self) -> (r: bool)
        ensures
            r == self.spec_finished(),
    {
        self.elapsed_ms >= self.duration_ms
    }

    /// Restart the countdown from zero.
    pub fn reset(&mut self)
        requires
            old(self).wf(),
        ensures
            final(self).wf(),
            final(self).elapsed_ms == 0,
            final(self).duration_ms == old(self).duration_ms,
    {
        self.elapsed_ms = 0;
    }

    /// Charge progress in permille, the renderer's input for the tower's
    /// color; a zero-length countdown counts as complete.
    pub fn fraction_permille(&self) -> (r: u64)
        requires
            self.wf(),
        ensures
            r == if self.duration_ms == 0 { 1000int } else { self.elapsed_ms * 1000 / self.duration_ms as int },
            r <= 1000,
    {
        if self.duration_ms == 0 {
            1000
        } else {
            proof {
                assert(self.elapsed_ms * 1000 <= self.duration_ms * 1000) by (nonlinear_arith)
                    requires
                        self.elapsed_ms <= self.duration_ms,
                ;
                vstd::arithmetic::div_mod::lemma_div_is_ordered(
                    self.elapsed_ms * 1000,
                    self.duration_ms * 1000,
                    self.duration_ms as int,
                );
                vstd::arithmetic::div_mod::lemma_div_by_multiple(1000, self.duration_ms as int);
                vstd::arithmetic::div_mod::lemma_div_pos_is_pos(self.elapsed_ms * 1000, self.duration_ms as int);
            }
            self.elapsed_ms * 1000 / self.duration_ms
        }
    }
}

/// One tower: a position, a recharge countdown and the charge flag.
#[derive(Clone, Copy, PartialEq, Eq, Structural, Debug)]
pub struct Attacker {
    pub pos: Pos,
    pub timer: ChargeTimer,
    pub fully_charged: bool,
}

impl Attacker {
    /// The attacker's invariant.
    pub open spec fn wf(&self) -> bool {
        &&& self.timer.wf()
        &&& in_world(self.pos)
    }

    /// Reposition the tower (drag input), clamped into the world.
    pub fn set_pos(&mut self, pos: Pos)
        requires
            old(self).wf(),
            in_world(pos),
        ensures
            final(self).wf(),
            final(self).pos == pos,
            final(self).timer == old(self).timer,
            final(self).fully_charged == old(self).fully_charged,
    {
        self.pos = pos;
    }
}

/// Constructor of an attacker: timer running, not charged.
pub fn attacker(pos: Pos, attack_interval_ms: u64) -> (a: Attacker)
    requires
        in_world(pos),
        attack_interval_ms <= ATTACK_INTERVAL_LIMIT,
    ensures
        a.wf(),
        a.pos == pos,
        a.timer.elapsed_ms == 0,
        a.timer.duration_ms == attack_interval_ms,
        !a.fully_charged,
{
    Attacker { pos, timer: ChargeTimer::new(attack_interval_ms), fully_charged: false }
}

/// An attacker after its recharge countdown has advanced one tick.
pub open spec fn spec_timer_ticked(a: Attacker, delta_ms: int) -> Attacker {
    Attacker {
        timer: ChargeTimer {
            elapsed_ms: if a.timer.elapsed_ms + delta_ms >= a.timer.duration_ms {
                a.timer.duration_ms
            } else {
                (a.timer.elapsed_ms + delta_ms) as u64
            },
            duration_ms: a.timer.duration_ms,
        },
        ..a
    }
}

/// Advance every attacker's recharge countdown; nothing else changes.
pub fn tick_attacker_timer(attackers: &mut Vec<Attacker>, delta_ms: u64)
    requires
        forall|i: int| 0 <= i < old(attackers)@.len() ==> (#[trigger] old(attackers)@[i]).wf(),
    ensures
        final(attackers)@.len() == old(attackers)@.len(),
        forall|i: int| 0 <= i < final(attackers)@.len() ==> (#[trigger] final(attackers)@[i]).wf(),
        forall|i: int| 0 <= i < final(attackers)@.len()
            ==> (#[trigger] final(attackers)@[i]) == spec_timer_ticked(old(attackers)@[i], delta_ms as int),
{
    let n = attackers.len();
    let mut i: usize = 0;
    while i < n
        invariant
            n == attackers@.len(),
            0 <= i <= n,
            attackers@.len() == old(attackers)@.len(),
            forall|j: int| i <= j < n ==> attackers@[j] == old(attackers)@[j],
            forall|j: int| 0 <= j < n ==> (#[trigger] old(attackers)@[j]).wf(),
            forall|j: int| 0 <= j < i ==> (#[trigger] attackers@[j]).wf(),
            forall|j: int| 0 <= j < i
                ==> (#[trigger] attackers@[j]) == spec_timer_ticked(old(attackers)@[j], delta_ms as int),
        decreases n - i,
    {
        let mut a = attackers[i];
        a.timer.tick(delta_ms);
        attackers[i] = a;
        i = i + 1;
    }
}

/// Eligible for the charge pass: recharge complete, not yet charged.
pub open spec fn is_eligible(a: Attacker) -> bool {
    a.timer.spec_finished() && !a.fully_charged
}

/// How many attackers hold a full charge.
pub open spec fn count_charged(s: Seq<Attacker>) -> int
    decreases s.len(),
{
    if s.len() == 0 {
        0
    } else {
        count_charged(s.drop_last()) + if s.last().fully_charged {
            1int
        } else {
            0int
        }
    }
}

proof fn lemma_count_charged_set(s: Seq<Attacker>, i: int, v: Attacker)
    requires
        0 <= i < s.len(),
        !s[i].fully_charged,
        v.fully_charged,
    ensures
        count_charged(s.update(i, v)) == count_charged(s) + 1,
    decreases s.len(),
{
    let t = s.update(i, v);
    if i == s.len() - 1 {
        assert(t.drop_last() =~= s.drop_last());
    } else {
        assert(t.drop_last() =~= s.drop_last().update(i, v));
        assert(t.last() == s.last());
        lemma_count_charged_set(s.drop_last(), i, v);
    }
}

/// How the charge pass relates the attackers and the power pool before
/// and after it ran: positions and timers untouched, charges only
/// gained and only by the eligible, the pool down by exactly the cost
/// times the number newly charged, nothing at all when the pool cannot
/// cover one cost, and every eligible attacker charged whenever a
/// cost's worth of power is left over.
pub open spec fn spec_charge_rel(before: Seq<Attacker>, after: Seq<Attacker>, p_before: Power, p_after: Power, attack_energy: u64) -> bool {
    &&& p_after.wf()
    &&& p_after.max == p_before.max
    &&& p_after.regen_speed == p_before.regen_speed
    &&& p_after.current <= p_before.current
    &&& after.len() == before.len()
    &&& forall|i: int| 0 <= i < after.len() ==> {
        let a = before[i];
        let b = #[trigger] after[i];
        &&& b.pos == a.pos
        &&& b.timer == a.timer
        &&& (a.fully_charged ==> b.fully_charged)
        &&& (b.fully_charged != a.fully_charged ==> is_eligible(a))
    }
    &&& p_before.current - p_after.current == attack_energy * (count_charged(after) - count_charged(before))
    &&& (p_before.current < attack_energy ==> after == before && p_after.current == p_before.current)
    &&& (p_after.current >= attack_energy
        ==> forall|i: int| 0 <= i < before.len() && is_eligible(#[trigger] before[i])
            ==> after[i].fully_charged)
}

/// The charge pass: while the pool still covers the per-attack cost,
/// charge eligible attackers one by one, in a shuffled order. Power falls
/// by exactly the cost times the number newly charged; if any power at or
/// above the cost is left, every eligible attacker got charged.
pub fn charge_attacker(attackers: &mut Vec<Attacker>, power: &mut Power, attack_energy: u64, rng_src: &mut rand::rngs::SmallRng)
    requires
        old(power).wf(),
    ensures
        spec_charge_rel(old(attackers)@, final(attackers)@, *old(power), *final(power), attack_energy),
{
    if power.current() < attack_energy {
        return;
    }
    let n = attackers.len();
    let mut elig: Vec<usize> = Vec::new();
    let mut i: usize = 0;
    while i < n
        invariant
            n == attackers@.len(),
            attackers@ == old(attackers)@,
            0 <= i <= n,
            forall|k: int| 0 <= k < elig@.len()
                ==> (#[trigger] elig@[k]) < i && is_eligible(attackers@[elig@[k] as int]),
            forall|j: int| 0 <= j < i && is_eligible(#[trigger] attackers@[j])
                ==> elig@.contains(j as usize),
        decreases n - i,
    {
        let a = attackers[i];
        if a.timer.finished() && !a.fully_charged {
            let ghost prev = elig@;
            elig.push(i);
            proof {
                assert(elig@.last() == i);
                assert forall|j: int| 0 <= j < i + 1 && is_eligible(#[trigger] attackers@[j])
                    implies elig@.contains(j as usize) by {
                    if j < i {
                        lemma_push_keeps_contains(prev, i, j as usize);
                    } else {
                        assert(elig@[elig@.len() - 1] == j as usize);
                    }
                }
            }
        }
        i = i + 1;
    }
    let ghost pre = elig@;
    shuffle_indices(&mut elig, rng_src);
    proof {
        broadcast use vstd::seq_lib::group_to_multiset_ensures;

        assert forall|k: int| 0 <= k < elig@.len()
            implies (#[trigger] elig@[k] as int) < attackers@.len()
                && is_eligible(attackers@[elig@[k] as int]) by {
            assert(elig@.contains(elig@[k]));
            assert(elig@.to_multiset().count(elig@[k]) > 0);
            assert(pre.to_multiset().count(elig@[k]) > 0);
            assert(pre.contains(elig@[k]));
            let w = choose|w: int| 0 <= w < pre.len() && pre[w] == elig@[k];
            assert(pre[w] < n && is_eligible(attackers@[pre[w] as int]));
        }
        assert forall|j: int| 0 <= j < attackers@.len() && is_eligible(#[trigger] attackers@[j])
            implies elig@.contains(j as usize) by {
            assert(pre.contains(j as usize));
            assert(pre.to_multiset().count(j as usize) > 0);
            assert(elig@.to_multiset().count(j as usize) > 0);
        }
    }
    let m = elig.len();
    let ghost snap = attackers@;
    let ghost c0 = power.current;
    let mut t: usize = 0;
    while t < m
        invariant
            m == elig@.len(),
            attackers@.len() == snap.len(),
            snap == old(attackers)@,
            power.wf(),
            power.max == old(power).max,
            power.regen_speed == old(power).regen_speed,
            power.current <= c0,
            c0 == old(power).current,
            0 <= t <= m,
            forall|k: int| 0 <= k < elig@.len()
                ==> (#[trigger] elig@[k] as int) < snap.len() && is_eligible(snap[elig@[k] as int]),
            forall|j: int| 0 <= j < snap.len() && is_eligible(#[trigger] snap[j])
                ==> elig@.contains(j as usize),
            forall|i2: int| 0 <= i2 < snap.len() ==> {
                let a = snap[i2];
                let b = #[trigger] attackers@[i2];
                &&& b.pos == a.pos
                &&& b.timer == a.timer
                &&& (a.fully_charged ==> b.fully_charged)
                &&& (b.fully_charged != a.fully_charged ==> is_eligible(a))
            },
            c0 - power.current == attack_energy * (count_charged(attackers@) - count_charged(snap)),
            forall|u: int| 0 <= u < t
                ==> attackers@[#[trigger] elig@[u] as int].fully_charged || power.current < attack_energy,
        decreases m - t,
    {
        let idx = elig[t];
        if power.current() >= attack_energy && !attackers[idx].fully_charged {
            let ghost before = attackers@;
            let ghost pcur = power.current;
            power.consume(attack_energy);
            let mut a = attackers[idx];
            a.fully_charged = true;
            attackers[idx] = a;
            proof {
                lemma_count_charged_set(before, idx as int, a);
                assert(count_charged(attackers@) == count_charged(before) + 1);
                assert(c0 - pcur == attack_energy * (count_charged(before) - count_charged(snap)));
                assert(attack_energy * (count_charged(attackers@) - count_charged(snap))
                    == attack_energy * (count_charged(before) - count_charged(snap)) + attack_energy)
                    by (nonlinear_arith)
                    requires
                        count_charged(attackers@) == count_charged(before) + 1,
                ;
            }
        }
        t = t + 1;
    }
    proof {
        if power.current >= attack_energy {
            assert forall|i2: int| 0 <= i2 < old(attackers)@.len() && is_eligible(#[trigger] old(attackers)@[i2])
                implies attackers@[i2].fully_charged by {
                assert(elig@.contains(i2 as usize));
                let u = choose|u: int| 0 <= u < elig@.len() && elig@[u] == i2 as usize;
                assert(attackers@[elig@[u] as int].fully_charged || power.current < attack_energy);
            }
        }
    }
}

/// Whether any dust lies within the strike radius of `from`.
pub fn has_dust_in_range(dust: &Vec<DustState>, from: Pos) -> (r: bool)
    requires
        forall|i: int| 0 <= i < dust@.len() ==> (#[trigger] dust@[i]).wf(),
        in_world(from),
    ensures
        r == exists|j: int| 0 <= j < dust@.len()
            && spec_dist2((#[trigger] dust@[j]).pos, from) < LIGHTING_RANGE_SQ,
{
    let n = dust.len();
    let mut i: usize = 0;
    while i < n
        invariant
            n == dust@.len(),
            0 <= i <= n,
            in_world(from),
            forall|k: int| 0 <= k < n ==> (#[trigger] dust@[k]).wf(),
            forall|j: int| 0 <= j < i
                ==> spec_dist2((#[trigger] dust@[j]).pos, from) >= LIGHTING_RANGE_SQ,
        decreases n - i,
    {
        if dist2(dust[i].pos, from) < LIGHTING_RANGE_SQ {
            return true;
        }
        i = i + 1;
    }
    false
}

/// Whether this attacker fires this tick: fully charged, inside the play
/// area, and at least one dust within the strike radius. One that is
/// charged but finds no dust keeps its charge and its timer.
pub open spec fn spec_fires(a: Attacker, dust: Seq<DustState>) -> bool {
    &&& a.fully_charged
    &&& spec_in_area(a.pos)
    &&& exists|j: int| 0 <= j < dust.len()
        && spec_dist2((#[trigger] dust[j]).pos, a.pos) < LIGHTING_RANGE_SQ
}

/// An attacker right after firing: timer restarted, charge spent.
pub open spec fn spec_after_fire(a: Attacker) -> Attacker {
    Attacker {
        pos: a.pos,
        timer: ChargeTimer { elapsed_ms: 0, duration_ms: a.timer.duration_ms },
        fully_charged: false,
    }
}

/// The attackers that fire this tick, in index order.
pub open spec fn spec_fired(s: Seq<Attacker>, dust: Seq<DustState>) -> Seq<Attacker> {
    s.filter(|a: Attacker| spec_fires(a, dust))
}

/// How the attack pass relates the attackers before and after it ran,
/// against the dust set it saw: each firing attacker is reset and
/// discharged, every other one untouched.
pub open spec fn spec_attack_rel(before: Seq<Attacker>, after: Seq<Attacker>, dust: Seq<DustState>) -> bool {
    &&& after.len() == before.len()
    &&& forall|i: int| 0 <= i < after.len() ==> (#[trigger] after[i]) == if spec_fires(before[i], dust) {
        spec_after_fire(before[i])
    } else {
        before[i]
    }
}

/// The attack pass: every attacker that fires emits one damage packet at
/// its own position carrying `attack_energy`, with a freshly forked
/// generator and no exclusion, then resets its timer and loses its
/// charge. All other attackers are untouched.
pub fn attack_dust(attackers: &mut Vec<Attacker>, dust: &Vec<DustState>, attack_energy: u64, rng_src: &mut rand::rngs::SmallRng) -> (packets: Vec<Damage>)
    requires
        forall|i: int| 0 <= i < old(attackers)@.len() ==> (#[trigger] old(attackers)@[i]).wf(),
        forall|i: int| 0 <= i < dust@.len() ==> (#[trigger] dust@[i]).wf(),
    ensures
        spec_attack_rel(old(attackers)@, final(attackers)@, dust@),
        final(attackers)@.len() == old(attackers)@.len(),
        forall|i: int| 0 <= i < final(attackers)@.len() ==> (#[trigger] final(attackers)@[i])
            == if spec_fires(old(attackers)@[i], dust@) {
                spec_after_fire(old(attackers)@[i])
            } else {
                old(attackers)@[i]
            },
        forall|i: int| 0 <= i < final(attackers)@.len() ==> (#[trigger] final(attackers)@[i]).wf(),
        packets@.len() == spec_fired(old(attackers)@, dust@).len(),
        forall|k: int| 0 <= k < packets@.len() ==> {
            let p = #[trigger] packets@[k];
            &&& p.pos == spec_fired(old(attackers)@, dust@)[k].pos
            &&& in_world(p.pos)
            &&& p.amount == attack_energy
            &&& p.damage_type == DamageType::Lightning
            &&& p.previous is None
        },
{
    let n = attackers.len();
    let mut packets: Vec<Damage> = Vec::new();
    proof {
        reveal(Seq::filter);
        assert(spec_fired(old(attackers)@.take(0), dust@).len() == 0);
    }
    let mut i: usize = 0;
    while i < n
        invariant
            n == attackers@.len(),
            attackers@.len() == old(attackers)@.len(),
            0 <= i <= n,
            forall|j: int| 0 <= j < n ==> (#[trigger] old(attackers)@[j]).wf(),
            forall|j: int| 0 <= j < dust@.len() ==> (#[trigger] dust@[j]).wf(),
            forall|j: int| i <= j < n ==> attackers@[j] == old(attackers)@[j],
            forall|j: int| 0 <= j < i ==> (#[trigger] attackers@[j])
                == if spec_fires(old(attackers)@[j], dust@) {
                    spec_after_fire(old(attackers)@[j])
                } else {
                    old(attackers)@[j]
                },
            packets@.len() == spec_fired(old(attackers)@.take(i as int), dust@).len(),
            forall|k: int| 0 <= k < packets@.len() ==> {
                let p = #[trigger] packets@[k];
                &&& p.pos == spec_fired(old(attackers)@.take(i as int), dust@)[k].pos
                &&& in_world(p.pos)
                &&& p.amount == attack_energy
                &&& p.damage_type == DamageType::Lightning
                &&& p.previous is None
            },
        decreases n - i,
    {
        let a = attackers[i];
        proof {
            reveal(Seq::filter);
            assert(old(attackers)@.take(i as int + 1).drop_last() =~= old(attackers)@.take(i as int));
            assert(old(attackers)@.take(i as int + 1).last() == old(attackers)@[i as int]);
        }
        let fires = a.fully_charged && a.pos.in_area() && has_dust_in_range(dust, a.pos);
        if fires {
            let seed = next_seed(rng_src);
            let fork = seed_rng(seed);
            packets.push(generate_damage(a.pos, attack_energy, DamageType::Lightning, fork, None));
            let mut b = a;
            b.timer.reset();
            b.fully_charged = false;
            attackers[i] = b;
        }
        i = i + 1;
    }
    proof {
        assert(old(attackers)@.take(n as int) =~= old(attackers)@);
    }
    packets
}

} // verus!
