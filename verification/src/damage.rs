//! Damage packets and the single-tick, multi-hop chain-lightning resolver.
//!
//! Per tick, each packet picks the nearest dust within `LIGHTING_RANGE`
//! that no packet of this tick's batch has struck (nearest-target policy;
//! ties go to the lowest index), deals a drawn share of its energy, and
//! hands the rest to a successor packet that a later tick resolves. The
//! exclusion set accumulates across the whole batch, so no two packets of
//! one batch strike the same dust.
use vstd::prelude::*;
use crate::dust::DustState;
use crate::geom::{Pos, in_world, spec_dist2, dist2};
use crate::rng::{clone_rng, draw_inclusive};
use crate::seqs::lemma_push_keeps_contains;
use crate::visual_effect::{AttackLine, DamageText};
use vstd::arithmetic::power2::pow2;

verus! {

/// Radius within which a packet can strike, in milli-pixels.
pub const LIGHTING_RANGE: i64 = 100_000;

/// The squared strike radius; distances are compared squared.
pub const LIGHTING_RANGE_SQ: i64 = LIGHTING_RANGE * LIGHTING_RANGE;

/// Least energy, in milli-units, that still spawns a successor packet.
pub const MIN_CHAIN_ENERGY: u64 = 1_000;

/// The kind of damage a packet carries.
#[derive(Clone, Copy, PartialEq, Eq, Structural, Debug)]
pub enum DamageType {
    Lightning,
}

/// A transient packet of energy in flight.
pub struct Damage {
    pub pos: Pos,
    pub amount: u64,
    pub damage_type: DamageType,
    pub previous: Option<usize>,
    pub entropy: rand::rngs::SmallRng,
}

/// What resolving one packet against one dust emits: the beam's ends, the
/// struck dust's index, the energy dealt and the energy left for a
/// successor, and the packet's generator for that successor.
pub struct AttackDustEvent {
    pub source: Pos,
    pub target: Pos,
    pub previous: usize,
    pub amount: u64,
    pub remaining_energy: u64,
    pub damage_type: DamageType,
    pub entropy: rand::rngs::SmallRng,
}

/// Constructor of a damage packet.
pub fn generate_damage(pos: Pos, amount: u64, damage_type: DamageType, entropy: rand::rngs::SmallRng, previous: Option<usize>) -> (d: Damage)
    ensures
        d.pos == pos,
        d.amount == amount,
        d.damage_type == damage_type,
        d.previous == previous,
{
    Damage { pos, amount, damage_type, previous, entropy }
}

/// Dust `i` is a lawful target for a packet at `from`, given the batch's
/// exclusion set: in range and not yet struck.
pub open spec fn is_candidate(dust: Seq<DustState>, excluded: Seq<usize>, from: Pos, i: int) -> bool {
    &&& 0 <= i < dust.len()
    &&& spec_dist2(dust[i].pos, from) < LIGHTING_RANGE_SQ
    &&& !excluded.contains(i as usize)
}

/// The nearest lawful target among the first `n` dust, by squared
/// distance, ties to the lowest index: the selection the resolver makes,
/// as a function.
pub open spec fn spec_nearest_upto(dust: Seq<DustState>, excluded: Seq<usize>, from: Pos, n: int) -> Option<usize>
    decreases n,
{
    if n <= 0 {
        None
    } else {
        let prev = spec_nearest_upto(dust, excluded, from, n - 1);
        let i = n - 1;
        if is_candidate(dust, excluded, from, i) {
            match prev {
                None => Some(i as usize),
                Some(b) => if spec_dist2(dust[i].pos, from) < spec_dist2(dust[b as int].pos, from) {
                    Some(i as usize)
                } else {
                    prev
                },
            }
        } else {
            prev
        }
    }
}

/// The nearest lawful target among all the dust.
pub open spec fn spec_nearest(dust: Seq<DustState>, excluded: Seq<usize>, from: Pos) -> Option<usize> {
    spec_nearest_upto(dust, excluded, from, dust.len() as int)
}

/// Whether the index list holds `x`.
fn contains_idx(xs: &Vec<usize>, x: usize) -> (r: bool)
    ensures
        r == xs@.contains(x),
{
    let n = xs.len();
    let mut i: usize = 0;
    while i < n
        invariant
            n == xs@.len(),
            0 <= i <= n,
            forall|j: int| 0 <= j < i ==> xs@[j] != x,
        decreases n - i,
    {
        if xs[i] == x {
            return true;
        }
        i = i + 1;
    }
    false
}

/// The nearest lawful target of a packet at `from`, by squared distance;
/// ties go to the lowest index. `None` exactly when no lawful target
/// exists.
pub fn nearest_dust(dust: &Vec<DustState>, excluded: &Vec<usize>, from: Pos) -> (r: Option<usize>)
    requires
        forall|i: int| 0 <= i < dust@.len() ==> (#[trigger] dust@[i]).wf(),
        in_world(from),
    ensures
        r == spec_nearest(dust@, excluded@, from),
        match r {
            Some(t) => {
                &&& is_candidate(dust@, excluded@, from, t as int)
                &&& forall|j: int| is_candidate(dust@, excluded@, from, j)
                    ==> spec_dist2(dust@[t as int].pos, from) <= spec_dist2(#[trigger] dust@[j].pos, from)
                &&& forall|j: int| is_candidate(dust@, excluded@, from, j) && j < t
                    ==> spec_dist2(#[trigger] dust@[j].pos, from) > spec_dist2(dust@[t as int].pos, from)
            },
            None => forall|j: int| !is_candidate(dust@, excluded@, from, j),
        },
{
    let n = dust.len();
    let mut best: Option<usize> = None;
    let mut best_d2: i64 = 0;
    let mut i: usize = 0;
    while i < n
        invariant
            n == dust@.len(),
            0 <= i <= n,
            in_world(from),
            forall|k: int| 0 <= k < n ==> (#[trigger] dust@[k]).wf(),
            best == spec_nearest_upto(dust@, excluded@, from, i as int),
            match best {
                Some(b) => {
                    &&& is_candidate(dust@, excluded@, from, b as int)
                    &&& b < i
                    &&& best_d2 == spec_dist2(dust@[b as int].pos, from)
                    &&& forall|j: int| is_candidate(dust@, excluded@, from, j) && j < i
                        ==> best_d2 <= spec_dist2(#[trigger] dust@[j].pos, from)
                    &&& forall|j: int| is_candidate(dust@, excluded@, from, j) && j < b
                        ==> spec_dist2(#[trigger] dust@[j].pos, from) > best_d2
                },
                None => forall|j: int| 0 <= j < i ==> !is_candidate(dust@, excluded@, from, j),
            },
        decreases n - i,
    {
        if !contains_idx(excluded, i) {
            let d2 = dist2(dust[i].pos, from);
            if d2 < LIGHTING_RANGE_SQ {
                match best {
                    None => {
                        best = Some(i);
                        best_d2 = d2;
                    },
                    Some(_) => {
                        if d2 < best_d2 {
                            best = Some(i);
                            best_d2 = d2;
                        }
                    },
                }
            }
        }
        i = i + 1;
    }
    best
}

/// The exclusion set once a packet has declared the dust it must not
/// re-target.
pub open spec fn with_previous(attacked: Seq<usize>, previous: Option<usize>) -> Seq<usize> {
    match previous {
        Some(p) => attacked.push(p),
        None => attacked,
    }
}

/// The struck dust after a hit of `roll` milli-units.
pub open spec fn spec_damaged(d: DustState, roll: int) -> DustState {
    DustState {
        health: crate::health::Health {
            current: if roll <= d.health.current { (d.health.current - roll) as u64 } else { 0 },
            max: d.health.max,
        },
        ..d
    }
}

/// Apply one resolved hit: deal `roll` of the packet's `amount` to dust
/// `target`, record the target in the batch's exclusion set, and emit the
/// event that carries the rest of the energy. Energy is conserved
/// exactly: the event's dealt and remaining amounts sum to `amount`.
pub fn resolve_hit(source: Pos, amount: u64, roll: u64, damage_type: DamageType, target: usize, dust: &mut Vec<DustState>, attacked: &mut Vec<usize>, entropy: rand::rngs::SmallRng) -> (e: AttackDustEvent)
    requires
        (target as int) < old(dust)@.len(),
        roll <= amount,
        2 * roll >= amount,
    ensures
        e.source == source,
        e.target == old(dust)@[target as int].pos,
        e.previous == target,
        e.amount == roll,
        e.amount + e.remaining_energy == amount,
        2 * e.remaining_energy <= amount,
        e.remaining_energy <= e.amount,
        e.damage_type == damage_type,
        final(dust)@ == old(dust)@.update(target as int, spec_damaged(old(dust)@[target as int], roll as int)),
        final(attacked)@ == old(attacked)@.push(target),
{
    let tpos = dust[target].pos;
    let mut struck = dust[target];
    struck.health.apply_damage(roll);
    dust[target] = struck;
    attacked.push(target);
    AttackDustEvent {
        source,
        target: tpos,
        previous: target,
        amount: roll,
        remaining_energy: amount - roll,
        damage_type,
        entropy,
    }
}

/// Resolve one packet against the dust set: find the nearest lawful
/// target, draw the dealt share uniformly from the upper half of the
/// packet's energy, and apply the hit. `None` exactly when no lawful
/// target exists once the packet's own exclusion is recorded; the packet
/// then dissipates with no effect.
pub fn resolve_one(packet: Damage, dust: &mut Vec<DustState>, attacked: &mut Vec<usize>) -> (ev: Option<AttackDustEvent>)
    requires
        forall|i: int| 0 <= i < old(dust)@.len() ==> (#[trigger] old(dust)@[i]).wf(),
        in_world(packet.pos),
    ensures
        final(dust)@.len() == old(dust)@.len(),
        forall|i: int| 0 <= i < final(dust)@.len() ==> (#[trigger] final(dust)@[i]).wf(),
        match ev {
            Some(e) => {
                &&& spec_nearest(old(dust)@, with_previous(old(attacked)@, packet.previous), packet.pos) == Some(e.previous)
                &&& is_candidate(old(dust)@, with_previous(old(attacked)@, packet.previous), packet.pos, e.previous as int)
                &&& (forall|j: int| is_candidate(old(dust)@, with_previous(old(attacked)@, packet.previous), packet.pos, j)
                    ==> spec_dist2(old(dust)@[e.previous as int].pos, packet.pos) <= spec_dist2(#[trigger] old(dust)@[j].pos, packet.pos))
                &&& e.source == packet.pos
                &&& e.target == old(dust)@[e.previous as int].pos
                &&& e.amount + e.remaining_energy == packet.amount
                &&& 2 * e.amount >= packet.amount
                &&& 2 * e.remaining_energy <= packet.amount
                &&& e.remaining_energy <= e.amount
                &&& e.damage_type == packet.damage_type
                &&& final(dust)@ == old(dust)@.update(e.previous as int, spec_damaged(old(dust)@[e.previous as int], e.amount as int))
                &&& final(attacked)@ == with_previous(old(attacked)@, packet.previous).push(e.previous)
            },
            None => {
                &&& spec_nearest(old(dust)@, with_previous(old(attacked)@, packet.previous), packet.pos) is None
                &&& final(dust)@ == old(dust)@
                &&& final(attacked)@ == with_previous(old(attacked)@, packet.previous)
                &&& forall|j: int| !is_candidate(old(dust)@, with_previous(old(attacked)@, packet.previous), packet.pos, j)
            },
        },
{
    let mut packet = packet;
    match packet.previous {
        Some(p) => attacked.push(p),
        None => {},
    }
    let found = nearest_dust(dust, attacked, packet.pos);
    match found {
        None => None,
        Some(target) => {
            let amount = packet.amount;
            let lo = amount / 2 + amount % 2;
            proof {
                vstd::arithmetic::div_mod::lemma_fundamental_div_mod(amount as int, 2);
            }
            let roll = draw_inclusive(&mut packet.entropy, lo, amount);
            let e = resolve_hit(packet.pos, amount, roll, packet.damage_type, target, dust, attacked, clone_rng(&packet.entropy));
            proof {
                assert(dust@[e.previous as int].wf());
            }
            Some(e)
        },
    }
}

/// How a resolution batch may change one dust: everything but the health
/// left is untouched, and health only falls.
pub open spec fn damage_frame(before: DustState, after: DustState) -> bool {
    &&& after.kind == before.kind
    &&& after.pos == before.pos
    &&& after.speed_milli == before.speed_milli
    &&& after.health.max == before.health.max
    &&& after.health.current <= before.health.current
}

proof fn lemma_with_previous_keeps_contains(s: Seq<usize>, previous: Option<usize>, x: usize)
    requires
        s.contains(x),
    ensures
        with_previous(s, previous).contains(x),
{
    match previous {
        Some(p) => lemma_push_keeps_contains(s, p, x),
        None => {},
    }
}

/// One event is what resolving packet `p` against target `t` with a
/// drawn share of `roll` emits.
pub open spec fn event_matches(e: AttackDustEvent, p: Damage, t: int, roll: int, dust: Seq<DustState>) -> bool {
    &&& e.source == p.pos
    &&& e.previous == t
    &&& e.target == dust[t].pos
    &&& e.amount == roll
    &&& e.amount + e.remaining_energy == p.amount
    &&& e.damage_type == p.damage_type
}

/// The batch resolver's behaviour as a relation, folded over the packets
/// front to back: each packet first records its own exclusion, then
/// either finds no lawful target and dissipates, or strikes the nearest
/// one with some drawn share from the upper half of its energy,
/// consuming one entry of `rolls` and emitting one event. `dust1` is the
/// dust set and `attacked1` the exclusion set the batch leaves behind.
pub open spec fn spec_batch_rel(
    packets: Seq<Damage>,
    dust0: Seq<DustState>,
    attacked0: Seq<usize>,
    rolls: Seq<int>,
    events: Seq<AttackDustEvent>,
    dust1: Seq<DustState>,
    attacked1: Seq<usize>,
) -> bool
    decreases packets.len(),
{
    if packets.len() == 0 {
        &&& rolls.len() == 0
        &&& events.len() == 0
        &&& dust1 == dust0
        &&& attacked1 == attacked0
    } else {
        let p = packets.first();
        let att = with_previous(attacked0, p.previous);
        match spec_nearest(dust0, att, p.pos) {
            None => spec_batch_rel(packets.drop_first(), dust0, att, rolls, events, dust1, attacked1),
            Some(t) => {
                &&& rolls.len() >= 1
                &&& events.len() >= 1
                &&& 2 * rolls.first() >= p.amount
                &&& rolls.first() <= p.amount
                &&& event_matches(events.first(), p, t as int, rolls.first(), dust0)
                &&& spec_batch_rel(
                    packets.drop_first(),
                    dust0.update(t as int, spec_damaged(dust0[t as int], rolls.first())),
                    att.push(t),
                    rolls.drop_first(),
                    events.drop_first(),
                    dust1,
                    attacked1,
                )
            },
        }
    }
}

/// What one packet does to the state the batch has reached: exactly the
/// `Some`/`None` alternative of `resolve_one`'s contract.
pub open spec fn spec_batch_step(p: Damage, dust_mid: Seq<DustState>, attacked_mid: Seq<usize>, hit: Option<(int, AttackDustEvent)>, dust1: Seq<DustState>, attacked1: Seq<usize>) -> bool {
    let att = with_previous(attacked_mid, p.previous);
    match spec_nearest(dust_mid, att, p.pos) {
        None => {
            &&& hit is None
            &&& dust1 == dust_mid
            &&& attacked1 == att
        },
        Some(t) => match hit {
            Some(pair) => {
                &&& 2 * pair.0 >= p.amount
                &&& pair.0 <= p.amount
                &&& event_matches(pair.1, p, t as int, pair.0, dust_mid)
                &&& dust1 == dust_mid.update(t as int, spec_damaged(dust_mid[t as int], pair.0))
                &&& attacked1 == att.push(t)
            },
            None => false,
        },
    }
}

/// Folding one more packet onto a batch that relates `(dust0, attacked0)`
/// to `(dust_mid, attacked_mid)` extends the relation by that packet's
/// step.
proof fn lemma_batch_rel_extend(
    packets: Seq<Damage>,
    dust0: Seq<DustState>,
    attacked0: Seq<usize>,
    rolls: Seq<int>,
    events: Seq<AttackDustEvent>,
    dust_mid: Seq<DustState>,
    attacked_mid: Seq<usize>,
    p: Damage,
    hit: Option<(int, AttackDustEvent)>,
    dust1: Seq<DustState>,
    attacked1: Seq<usize>,
)
    requires
        spec_batch_rel(packets, dust0, attacked0, rolls, events, dust_mid, attacked_mid),
        spec_batch_step(p, dust_mid, attacked_mid, hit, dust1, attacked1),
    ensures
        match hit {
            None => spec_batch_rel(packets.push(p), dust0, attacked0, rolls, events, dust1, attacked1),
            Some(pair) => spec_batch_rel(
                packets.push(p), dust0, attacked0, rolls.push(pair.0), events.push(pair.1), dust1, attacked1,
            ),
        },
    decreases packets.len(),
{
    if packets.len() == 0 {
        assert(packets.push(p).first() == p);
        assert(packets.push(p).drop_first() =~= packets);
        assert(dust_mid == dust0 && attacked_mid == attacked0);
        let att = with_previous(attacked0, p.previous);
        match hit {
            None => {
                assert(spec_batch_rel(packets, dust0, att, rolls, events, dust1, attacked1));
            },
            Some(pair) => {
                let (roll, e) = pair;
                assert(rolls.push(roll).first() == roll);
                assert(events.push(e).first() == e);
                assert(rolls.push(roll).drop_first() =~= rolls);
                assert(events.push(e).drop_first() =~= events);
                match spec_nearest(dust0, att, p.pos) {
                    Some(t) => {
                        assert(spec_batch_rel(
                            packets,
                            dust0.update(t as int, spec_damaged(dust0[t as int], roll)),
                            att.push(t),
                            rolls.push(roll).drop_first(),
                            events.push(e).drop_first(),
                            dust1, attacked1,
                        ));
                    },
                    None => {},
                }
            },
        }
    } else {
        let q = packets.first();
        let att_q = with_previous(attacked0, q.previous);
        assert(packets.push(p).first() == q);
        assert(packets.push(p).drop_first() =~= packets.drop_first().push(p));
        match spec_nearest(dust0, att_q, q.pos) {
            None => {
                lemma_batch_rel_extend(
                    packets.drop_first(), dust0, att_q, rolls, events,
                    dust_mid, attacked_mid, p, hit, dust1, attacked1,
                );
            },
            Some(t) => {
                lemma_batch_rel_extend(
                    packets.drop_first(),
                    dust0.update(t as int, spec_damaged(dust0[t as int], rolls.first())),
                    att_q.push(t),
                    rolls.drop_first(),
                    events.drop_first(),
                    dust_mid, attacked_mid, p, hit, dust1, attacked1,
                );
                match hit {
                    None => {
                        assert(rolls.len() >= 1 && events.len() >= 1);
                    },
                    Some(pair) => {
                        let (roll, e) = pair;
                        assert(rolls.push(roll).first() == rolls.first());
                        assert(events.push(e).first() == events.first());
                        assert(rolls.push(roll).drop_first() =~= rolls.drop_first().push(roll));
                        assert(events.push(e).drop_first() =~= events.drop_first().push(e));
                        assert(spec_batch_rel(
                            packets.drop_first().push(p),
                            dust0.update(t as int, spec_damaged(dust0[t as int], rolls.first())),
                            att_q.push(t),
                            rolls.drop_first().push(roll),
                            events.drop_first().push(e),
                            dust1, attacked1,
                        ));
                    },
                }
            },
        }
    }
}

/// Resolve a whole batch of packets, in order, against the dust set,
/// sharing one exclusion set across the batch. Every packet is consumed;
/// the returned events name pairwise-distinct targets, so no two packets
/// of the batch strike the same dust; dust that no event names is left
/// untouched; and the events and the new dust set are exactly a fold of
/// the per-packet step over the packets, for some drawn shares.
pub fn deal_damage(damages: Vec<Damage>, dust: &mut Vec<DustState>) -> (events: Vec<AttackDustEvent>)
    requires
        forall|i: int| 0 <= i < old(dust)@.len() ==> (#[trigger] old(dust)@[i]).wf(),
        forall|i: int| 0 <= i < damages@.len() ==> in_world((#[trigger] damages@[i]).pos),
    ensures
        exists|rolls: Seq<int>, attacked_out: Seq<usize>| spec_batch_rel(
            damages@, old(dust)@, Seq::<usize>::empty(), rolls, events@, final(dust)@, attacked_out,
        ),
        final(dust)@.len() == old(dust)@.len(),
        forall|i: int| 0 <= i < final(dust)@.len() ==> (#[trigger] final(dust)@[i]).wf(),
        forall|i: int| 0 <= i < final(dust)@.len()
            ==> damage_frame(old(dust)@[i], #[trigger] final(dust)@[i]),
        forall|i: int| 0 <= i < final(dust)@.len()
            && (forall|k: int| 0 <= k < events@.len() ==> (#[trigger] events@[k]).previous != i)
            ==> (#[trigger] final(dust)@[i]) == old(dust)@[i],
        forall|k1: int, k2: int| 0 <= k1 < k2 < events@.len()
            ==> (#[trigger] events@[k1]).previous != (#[trigger] events@[k2]).previous,
        forall|k: int| 0 <= k < events@.len() ==> (#[trigger] events@[k]).previous < old(dust)@.len(),
        forall|k: int| 0 <= k < events@.len()
            ==> in_world((#[trigger] events@[k]).source) && in_world(events@[k].target)
                && events@[k].remaining_energy <= events@[k].amount
                && events@[k].target == old(dust)@[events@[k].previous as int].pos,
{
    let ghost orig = damages@;
    let mut rem = damages;
    let total = rem.len();
    let mut attacked: Vec<usize> = Vec::new();
    let mut events: Vec<AttackDustEvent> = Vec::new();
    let ghost mut rolls: Seq<int> = Seq::empty();
    let mut j: usize = 0;
    while j < total
        invariant
            orig.len() == total,
            orig.len() == j + rem@.len(),
            rem@ == orig.subrange(j as int, orig.len() as int),
            forall|i: int| 0 <= i < orig.len() ==> in_world((#[trigger] orig[i]).pos),
            spec_batch_rel(orig.take(j as int), old(dust)@, Seq::<usize>::empty(), rolls, events@, dust@, attacked@),
            dust@.len() == old(dust)@.len(),
            forall|i: int| 0 <= i < dust@.len() ==> (#[trigger] dust@[i]).wf(),
            forall|i: int| 0 <= i < dust@.len() ==> damage_frame(old(dust)@[i], #[trigger] dust@[i]),
            forall|i: int| 0 <= i < dust@.len()
                && (forall|k: int| 0 <= k < events@.len() ==> (#[trigger] events@[k]).previous != i)
                ==> (#[trigger] dust@[i]) == old(dust)@[i],
            forall|k1: int, k2: int| 0 <= k1 < k2 < events@.len()
                ==> (#[trigger] events@[k1]).previous != (#[trigger] events@[k2]).previous,
            forall|k: int| 0 <= k < events@.len()
                ==> attacked@.contains((#[trigger] events@[k]).previous),
            forall|k: int| 0 <= k < events@.len() ==> (#[trigger] events@[k]).previous < dust@.len(),
            forall|k: int| 0 <= k < events@.len()
                ==> in_world((#[trigger] events@[k]).source) && in_world(events@[k].target)
                    && events@[k].remaining_energy <= events@[k].amount
                    && events@[k].target == old(dust)@[events@[k].previous as int].pos,
        decreases rem@.len(),
    {
        let packet = rem.remove(0);
        proof {
            assert(packet == orig[j as int]);
        }
        let ghost snap_attacked = attacked@;
        let ghost snap_dust = dust@;
        let ghost snap_events = events@;
        let ev = resolve_one(packet, dust, &mut attacked);
        proof {
            assert forall|x: usize| snap_attacked.contains(x) implies attacked@.contains(x) by {
                lemma_with_previous_keeps_contains(snap_attacked, packet.previous, x);
                if attacked@ != with_previous(snap_attacked, packet.previous) {
                    let e = ev->Some_0;
                    lemma_push_keeps_contains(with_previous(snap_attacked, packet.previous), e.previous, x);
                }
            }
        }
        match ev {
            None => {
                proof {
                    assert(spec_batch_step(packet, snap_dust, snap_attacked, None, dust@, attacked@));
                    lemma_batch_rel_extend(
                        orig.take(j as int), old(dust)@, Seq::<usize>::empty(), rolls, events@,
                        snap_dust, snap_attacked, packet, None, dust@, attacked@,
                    );
                    assert(orig.take(j as int).push(packet) =~= orig.take(j as int + 1));
                    assert(rem@ =~= orig.subrange(j as int + 1, orig.len() as int));
                }
            },
            Some(e) => {
                proof {
                    assert(!with_previous(snap_attacked, packet.previous).contains(e.previous));
                    if snap_attacked.contains(e.previous) {
                        lemma_with_previous_keeps_contains(snap_attacked, packet.previous, e.previous);
                    }
                    assert(attacked@.last() == e.previous);
                    assert(attacked@.contains(e.previous));
                    assert forall|i: int| 0 <= i < dust@.len()
                        implies damage_frame(old(dust)@[i], #[trigger] dust@[i]) by {
                        assert(damage_frame(old(dust)@[i], snap_dust[i]));
                        if i != e.previous as int {
                            assert(dust@[i] == snap_dust[i]);
                        }
                    }
                    let roll = e.amount as int;
                    assert(spec_batch_step(packet, snap_dust, snap_attacked, Some((roll, e)), dust@, attacked@));
                    lemma_batch_rel_extend(
                        orig.take(j as int), old(dust)@, Seq::<usize>::empty(), rolls, snap_events,
                        snap_dust, snap_attacked, packet, Some((roll, e)), dust@, attacked@,
                    );
                    assert(spec_batch_rel(
                        orig.take(j as int).push(packet), old(dust)@, Seq::<usize>::empty(),
                        rolls.push(roll), snap_events.push(e), dust@, attacked@,
                    ));
                    assert(orig.take(j as int).push(packet) =~= orig.take(j as int + 1));
                    assert(rem@ =~= orig.subrange(j as int + 1, orig.len() as int));
                    rolls = rolls.push(roll);
                }
                events.push(e);
                proof {
                    assert forall|i: int| 0 <= i < dust@.len()
                        && (forall|k: int| 0 <= k < events@.len() ==> (#[trigger] events@[k]).previous != i)
                        implies (#[trigger] dust@[i]) == old(dust)@[i] by {
                        assert(events@[events@.len() - 1] == e);
                        assert(e.previous != i);
                        assert forall|k: int| 0 <= k < snap_events.len()
                            implies (#[trigger] snap_events[k]).previous != i by {
                            assert(events@[k] == snap_events[k]);
                        }
                        assert(snap_dust[i] == old(dust)@[i]);
                        assert(dust@[i] == snap_dust[i]);
                    }
                }
            },
        }
        j = j + 1;
    }
    proof {
        assert(orig.take(total as int) =~= orig);
    }
    events
}

/// Whether a successor packet matches the event that spawned it: same
/// damage type, the leftover energy, placed at the struck dust, excluded
/// from re-targeting it.
pub open spec fn matches_successor(d: Damage, e: AttackDustEvent) -> bool {
    &&& d.pos == e.target
    &&& d.amount == e.remaining_energy
    &&& d.damage_type == e.damage_type
    &&& d.previous == Some(e.previous)
}

/// The events whose leftover energy still reaches the chain threshold;
/// exactly these spawn successor packets.
pub open spec fn spec_chained(events: Seq<AttackDustEvent>) -> Seq<AttackDustEvent> {
    events.filter(|e: AttackDustEvent| e.remaining_energy >= MIN_CHAIN_ENERGY)
}

/// Turn a batch's events into their visual output and successor packets:
/// one beam line and one damage number per event, and one successor
/// packet per event whose leftover energy reaches `MIN_CHAIN_ENERGY`.
/// Successors are picked up by a later tick, never this one.
pub fn deal_attack_event(events: Vec<AttackDustEvent>) -> (out: (Vec<Damage>, Vec<AttackLine>, Vec<DamageText>))
    requires
        forall|k: int| 0 <= k < events@.len() ==> in_world((#[trigger] events@[k]).target),
    ensures
        forall|k: int| 0 <= k < out.0@.len() ==> in_world((#[trigger] out.0@[k]).pos),
        out.1@.len() == events@.len(),
        forall|k: int| 0 <= k < events@.len() ==> (#[trigger] out.1@[k]) == (AttackLine {
            start: events@[k].source,
            end: events@[k].target,
        }),
        out.2@.len() == events@.len(),
        forall|k: int| 0 <= k < events@.len() ==> (#[trigger] out.2@[k]) == (DamageText {
            amount: events@[k].amount,
            pos: events@[k].target,
        }),
        out.0@.len() == spec_chained(events@).len(),
        forall|k: int| 0 <= k < out.0@.len()
            ==> matches_successor(#[trigger] out.0@[k], spec_chained(events@)[k]),
{
    let ghost orig = events@;
    let mut rem = events;
    let total = rem.len();
    let mut successors: Vec<Damage> = Vec::new();
    let mut lines: Vec<AttackLine> = Vec::new();
    let mut texts: Vec<DamageText> = Vec::new();
    let mut i: usize = 0;
    proof {
        reveal(Seq::filter);
        assert(spec_chained(orig.take(0)).len() == 0);
    }
    while rem.len() > 0
        invariant
            orig.len() == i + rem@.len(),
            orig.len() == total,
            rem@ == orig.subrange(i as int, orig.len() as int),
            lines@.len() == i,
            forall|k: int| 0 <= k < i ==> (#[trigger] lines@[k]) == (AttackLine {
                start: orig[k].source,
                end: orig[k].target,
            }),
            texts@.len() == i,
            forall|k: int| 0 <= k < i ==> (#[trigger] texts@[k]) == (DamageText {
                amount: orig[k].amount,
                pos: orig[k].target,
            }),
            successors@.len() == spec_chained(orig.take(i as int)).len(),
            forall|k: int| 0 <= k < successors@.len()
                ==> matches_successor(#[trigger] successors@[k], spec_chained(orig.take(i as int))[k]),
            forall|k: int| 0 <= k < orig.len() ==> in_world((#[trigger] orig[k]).target),
            forall|k: int| 0 <= k < successors@.len() ==> in_world((#[trigger] successors@[k]).pos),
        decreases rem@.len(),
    {
        let e = rem.remove(0);
        proof {
            assert(e == orig[i as int]);
            reveal(Seq::filter);
            assert(orig.take(i as int + 1).drop_last() =~= orig.take(i as int));
            assert(orig.take(i as int + 1).last() == orig[i as int]);
        }
        lines.push(AttackLine { start: e.source, end: e.target });
        texts.push(DamageText { amount: e.amount, pos: e.target });
        if e.remaining_energy >= MIN_CHAIN_ENERGY {
            let target = e.previous;
            let amount = e.remaining_energy;
            let dtype = e.damage_type;
            let pos = e.target;
            successors.push(generate_damage(pos, amount, dtype, e.entropy, Some(target)));
        }
        proof {
            assert(rem@ =~= orig.subrange(i as int + 1, orig.len() as int));
        }
        i = i + 1;
    }
    proof {
        assert(orig.take(orig.len() as int) =~= orig);
    }
    (successors, lines, texts)
}

/// The energies along one lightning chain: every link carries at most
/// half of its predecessor's energy (the dealt share is drawn from the
/// upper half), and a link is only spawned when the energy left reaches
/// `threshold`.
pub open spec fn is_chain(amounts: Seq<int>, threshold: int) -> bool {
    forall|i: int| 1 <= i < amounts.len()
        ==> 2 * #[trigger] amounts[i] <= amounts[i - 1] && amounts[i] >= threshold
}

/// Termination of a chain: a chain that starts with energy `E` and halves
/// at every hop while staying at or above `threshold` can have at most
/// `log2(E / threshold) + 1` packets, because `E` must cover
/// `threshold * 2^(hops)`. With `threshold >= 1` the chain can never run
/// forever.
pub proof fn lemma_chain_termination(amounts: Seq<int>, threshold: int)
    requires
        amounts.len() >= 2,
        threshold >= 1,
        is_chain(amounts, threshold),
    ensures
        threshold * pow2((amounts.len() - 1) as nat) <= amounts[0],
    decreases amounts.len(),
{
    if amounts.len() == 2 {
        assert(2 * amounts[1] <= amounts[1 - 1] && amounts[1] >= threshold);
        assert(pow2(1) == 2) by {
            vstd::arithmetic::power2::lemma2_to64();
        }
        assert((amounts.len() - 1) as nat == 1);
        assert(threshold * pow2(1) == threshold * 2);
        assert(threshold * pow2((amounts.len() - 1) as nat) <= amounts[0]);
    } else {
        let tail = amounts.subrange(1, amounts.len() as int);
        assert forall|i: int| 1 <= i < tail.len()
            implies 2 * #[trigger] tail[i] <= tail[i - 1] && tail[i] >= threshold by {
            assert(tail[i] == amounts[i + 1]);
            assert(tail[i - 1] == amounts[i]);
            assert(2 * amounts[i + 1] <= amounts[i + 1 - 1] && amounts[i + 1] >= threshold);
        }
        assert(is_chain(tail, threshold));
        lemma_chain_termination(tail, threshold);
        assert(tail[0] == amounts[1]);
        assert(threshold * pow2((amounts.len() - 2) as nat) <= amounts[1]);
        assert(2 * amounts[1] <= amounts[1 - 1]);
        assert(pow2((amounts.len() - 1) as nat) == 2 * pow2((amounts.len() - 2) as nat)) by {
            vstd::arithmetic::power2::lemma_pow2_unfold((amounts.len() - 1) as nat);
        }
        assert(threshold * (2 * pow2((amounts.len() - 2) as nat))
            == 2 * (threshold * pow2((amounts.len() - 2) as nat))) by (nonlinear_arith);
        assert(threshold * pow2((amounts.len() - 1) as nat)
            == threshold * (2 * pow2((amounts.len() - 2) as nat)));
        assert(2 * (threshold * pow2((amounts.len() - 2) as nat)) <= 2 * amounts[1]);
        assert(threshold * pow2((amounts.len() - 1) as nat) <= amounts[0]);
    }
}

} // verus!
