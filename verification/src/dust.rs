//! Falling dust: the destructible resource units of the play area.
//!
//! Dust falls at a per-particle speed, dies when its health is exhausted
//! (crediting the inventory and, for the big class, fragmenting into four
//! small particles scattered around the death position), and is silently
//! discarded once it drops below the play area.
use vstd::prelude::*;
use crate::geom::{AREA_MIN_Y, Pos, in_world, spec_in_area};
use crate::health::Health;
use crate::inventory::Inventory;
use crate::rng::draw_inclusive;

verus! {

/// The size class of a dust particle.
#[derive(Clone, Copy, PartialEq, Eq, Structural, Debug)]
pub enum Dust {
    Small,
    Big,
}

/// Health of a small dust particle, in milli-units; big dust has twice it.
pub const DUST_HEALTH: u64 = 5_000;

/// Band of fall speeds, in milli-pixels per second.
pub const FALL_SPEED_MIN: u64 = 80_000;
/// Upper end of the fall-speed band.
pub const FALL_SPEED_MAX: u64 = 120_000;

/// Largest fall speed the simulation accepts.
pub const FALL_SPEED_LIMIT: u64 = 1_000_000;

/// Falling saturates here, one pixel below the play area, where cleanup
/// discards the particle.
pub const FALL_FLOOR: i64 = AREA_MIN_Y - 1_000;

/// Largest scatter offset of a fragment from its parent's position.
pub const SCATTER_MAX: i64 = 100_000;

/// One falling dust particle.
#[derive(Clone, Copy, PartialEq, Eq, Structural, Debug)]
pub struct DustState {
    pub kind: Dust,
    pub pos: Pos,
    pub speed_milli: u64,
    pub health: Health,
}

/// The dust data credited when a particle of this class dies.
pub open spec fn spec_credit_of(kind: Dust) -> int {
    match kind {
        Dust::Small => 1,
        Dust::Big => 2,
    }
}

/// Starting health of this class.
pub open spec fn spec_initial_health(kind: Dust) -> u64 {
    match kind {
        Dust::Small => DUST_HEALTH,
        Dust::Big => (2 * DUST_HEALTH) as u64,
    }
}

impl DustState {
    /// The particle's invariant: health well formed, position in the
    /// world, speed within the accepted band.
    pub open spec fn wf(&self) -> bool {
        &&& self.health.wf()
        &&& in_world(self.pos)
        &&& self.speed_milli <= FALL_SPEED_LIMIT
    }
}

/// Constructor of a dust particle of the given class at full health.
pub fn dust(pos: Pos, speed_milli: u64, kind: Dust) -> (d: DustState)
    requires
        in_world(pos),
        speed_milli <= FALL_SPEED_LIMIT,
    ensures
        d.wf(),
        d.kind == kind,
        d.pos == pos,
        d.speed_milli == speed_milli,
        d.health.current == spec_initial_health(kind),
        d.health.max == spec_initial_health(kind),
{
    let max = match kind {
        Dust::Small => DUST_HEALTH,
        Dust::Big => 2 * DUST_HEALTH,
    };
    DustState { kind, pos, speed_milli, health: Health::new(max) }
}

/// Where a particle's vertical coordinate ends after one tick of falling.
pub open spec fn spec_fall_y(y: int, speed_milli: int, delta_ms: int) -> int {
    let ny = y - speed_milli * delta_ms / 1000;
    if ny >= FALL_FLOOR {
        ny
    } else {
        FALL_FLOOR as int
    }
}

/// A particle after one tick of falling: only its vertical coordinate
/// moves.
pub open spec fn spec_fallen(d: DustState, delta_ms: int) -> DustState {
    DustState {
        pos: Pos {
            x: d.pos.x,
            y: spec_fall_y(d.pos.y as int, d.speed_milli as int, delta_ms) as i64,
        },
        ..d
    }
}

/// Advance every particle one tick of falling; nothing else changes.
pub fn falling_dust(dust: &mut Vec<DustState>, delta_ms: u64)
    requires
        forall|i: int| 0 <= i < old(dust)@.len() ==> (#[trigger] old(dust)@[i]).wf(),
        delta_ms <= 1_000_000,
    ensures
        final(dust)@.len() == old(dust)@.len(),
        forall|i: int| 0 <= i < old(dust)@.len()
            ==> (#[trigger] final(dust)@[i]) == spec_fallen(old(dust)@[i], delta_ms as int),
        forall|i: int| 0 <= i < final(dust)@.len() ==> (#[trigger] final(dust)@[i]).wf(),
{
    let n = dust.len();
    let mut out: Vec<DustState> = Vec::new();
    let mut i: usize = 0;
    while i < n
        invariant
            n == old(dust)@.len(),
            dust@ == old(dust)@,
            0 <= i <= n,
            delta_ms <= 1_000_000,
            forall|j: int| 0 <= j < n ==> (#[trigger] old(dust)@[j]).wf(),
            out@.len() == i,
            forall|j: int| 0 <= j < i
                ==> (#[trigger] out@[j]) == spec_fallen(old(dust)@[j], delta_ms as int),
            forall|j: int| 0 <= j < i ==> (#[trigger] out@[j]).wf(),
        decreases n - i,
    {
        let d = dust[i];
        proof {
            assert(d.speed_milli * delta_ms <= 1_000_000_000_000i64 && d.speed_milli * delta_ms >= 0)
                by (nonlinear_arith)
                requires
                    d.speed_milli <= 1_000_000,
                    delta_ms <= 1_000_000,
            ;
        }
        let drop_milli = d.speed_milli * delta_ms / 1000;
        let ny = d.pos.y - drop_milli as i64;
        let y = if ny >= FALL_FLOOR {
            ny
        } else {
            FALL_FLOOR
        };
        out.push(DustState { pos: Pos { x: d.pos.x, y }, ..d });
        i = i + 1;
    }
    *dust = out;
}

/// The particles that are still above the play area's lower bound, in
/// their original order.
pub open spec fn surviving_fall(s: Seq<DustState>) -> Seq<DustState> {
    s.filter(|d: DustState| d.pos.y >= AREA_MIN_Y)
}

/// Discard every particle that has fallen below the play area; no reward.
pub fn despawn_dust(dust: &mut Vec<DustState>)
    ensures
        final(dust)@ == surviving_fall(old(dust)@),
        final(dust)@.len() <= old(dust)@.len(),
        (forall|i: int| 0 <= i < old(dust)@.len() ==> (#[trigger] old(dust)@[i]).wf())
            ==> forall|i: int| 0 <= i < final(dust)@.len() ==> (#[trigger] final(dust)@[i]).wf(),
{
    let n = dust.len();
    let mut out: Vec<DustState> = Vec::new();
    proof {
        reveal(Seq::filter);
        assert(out@ =~= surviving_fall(old(dust)@.take(0)));
    }
    let mut i: usize = 0;
    while i < n
        invariant
            n == old(dust)@.len(),
            dust@ == old(dust)@,
            0 <= i <= n,
            out@ == surviving_fall(old(dust)@.take(i as int)),
            out@.len() <= i,
        decreases n - i,
    {
        let d = dust[i];
        proof {
            reveal(Seq::filter);
            assert(old(dust)@.take(i as int + 1).drop_last() =~= old(dust)@.take(i as int));
            assert(old(dust)@.take(i as int + 1).last() == old(dust)@[i as int]);
        }
        if d.pos.y >= AREA_MIN_Y {
            out.push(d);
        }
        i = i + 1;
    }
    proof {
        assert(old(dust)@.take(n as int) =~= old(dust)@);
        if forall|j: int| 0 <= j < old(dust)@.len() ==> (#[trigger] old(dust)@[j]).wf() {
            assert forall|j: int| 0 <= j < out@.len() implies (#[trigger] out@[j]).wf() by {
                surviving_fall_entry_wf(old(dust)@, j);
            }
        }
    }
    *dust = out;
}

/// Every entry that the fall filter keeps comes from the filtered batch,
/// so it is well formed where the whole batch is.
proof fn surviving_fall_entry_wf(s: Seq<DustState>, i: int)
    requires
        forall|j: int| 0 <= j < s.len() ==> (#[trigger] s[j]).wf(),
        0 <= i < surviving_fall(s).len(),
    ensures
        surviving_fall(s)[i].wf(),
    decreases s.len(),
{
    reveal(Seq::filter);
    if s.len() > 0 {
        let prefix = s.drop_last();
        assert(forall|j: int| 0 <= j < prefix.len() ==> (#[trigger] prefix[j]).wf());
        if s.last().pos.y >= AREA_MIN_Y {
            if i < surviving_fall(s).len() - 1 {
                assert(surviving_fall(s)[i] == surviving_fall(prefix)[i]);
                surviving_fall_entry_wf(prefix, i);
            } else {
                assert(surviving_fall(s)[i] == s.last());
            }
        } else {
            assert(surviving_fall(s) == surviving_fall(prefix));
            surviving_fall_entry_wf(prefix, i);
        }
    }
}

/// The particles still alive, in their original order.
pub open spec fn alive_only(s: Seq<DustState>) -> Seq<DustState> {
    s.filter(|d: DustState| d.health.current > 0)
}

/// The dust data owed for the dead particles of a batch.
pub open spec fn spec_credit(s: Seq<DustState>) -> int
    decreases s.len(),
{
    if s.len() == 0 {
        0
    } else {
        spec_credit(s.drop_last()) + if s.last().health.current > 0 {
            0
        } else {
            spec_credit_of(s.last().kind)
        }
    }
}

/// How many dead big particles a batch holds; each fragments into four.
pub open spec fn spec_dead_big(s: Seq<DustState>) -> int
    decreases s.len(),
{
    if s.len() == 0 {
        0
    } else {
        spec_dead_big(s.drop_last()) + if s.last().health.current == 0 && s.last().kind == Dust::Big {
            1int
        } else {
            0int
        }
    }
}

/// A particle as fragmentation emits it: small, full health, inside the
/// play area, speed within the spawn band.
pub open spec fn is_fragment(d: DustState) -> bool {
    &&& d.kind == Dust::Small
    &&& d.health.current == DUST_HEALTH
    &&& d.health.max == DUST_HEALTH
    &&& spec_in_area(d.pos)
    &&& FALL_SPEED_MIN <= d.speed_milli <= FALL_SPEED_MAX
}

proof fn lemma_credit_bound(s: Seq<DustState>)
    ensures
        0 <= spec_credit(s) <= 2 * s.len(),
        0 <= spec_dead_big(s) <= s.len(),
    decreases s.len(),
{
    if s.len() > 0 {
        lemma_credit_bound(s.drop_last());
    }
}

/// A bounded, bell-shaped scatter offset: the sum of four uniform draws.
/// Each coordinate is bounded by `SCATTER_MAX` on its own, so a
/// fragment's offset lies in the square of that half-width (not the
/// disc), before the position is clamped into the play area.
fn scatter_offset(rng_src: &mut rand::rngs::SmallRng) -> (r: i64)
    ensures
        -SCATTER_MAX <= r <= SCATTER_MAX,
{
    let a = draw_inclusive(rng_src, 0, 50_000);
    let b = draw_inclusive(rng_src, 0, 50_000);
    let c = draw_inclusive(rng_src, 0, 50_000);
    let d = draw_inclusive(rng_src, 0, 50_000);
    (a + b + c + d) as i64 - SCATTER_MAX
}

/// Remove every dead particle: credit its class's dust data to the
/// inventory (saturating), and fragment each dead big particle into four
/// small ones scattered around its death position, clamped into the play
/// area. Survivors keep their order and precede the fragments. Returns
/// the credited amount.
pub fn cleanup_unalived_dust(dust: &mut Vec<DustState>, inventory: &mut Inventory, rng_src: &mut rand::rngs::SmallRng) -> (credited: u64)
    requires
        forall|i: int| 0 <= i < old(dust)@.len() ==> (#[trigger] old(dust)@[i]).wf(),
        old(dust)@.len() <= 1_000_000_000,
    ensures
        credited == spec_credit(old(dust)@),
        credited <= 2 * old(dust)@.len(),
        final(inventory).dust_data == if old(inventory).dust_data + credited <= u64::MAX {
            old(inventory).dust_data + credited
        } else {
            u64::MAX as int
        },
        final(inventory).collect_rate_milli == old(inventory).collect_rate_milli,
        final(dust)@.len() == alive_only(old(dust)@).len() + 4 * spec_dead_big(old(dust)@),
        final(dust)@.take(alive_only(old(dust)@).len() as int) == alive_only(old(dust)@),
        forall|i: int| alive_only(old(dust)@).len() <= i < final(dust)@.len()
            ==> is_fragment(#[trigger] final(dust)@[i]),
        forall|i: int| 0 <= i < final(dust)@.len() ==> (#[trigger] final(dust)@[i]).wf(),
{
    let n = dust.len();
    let mut out: Vec<DustState> = Vec::new();
    let mut frags: Vec<DustState> = Vec::new();
    let mut credit_acc: u64 = 0;
    proof {
        reveal(Seq::filter);
        assert(out@ =~= alive_only(old(dust)@.take(0)));
    }
    let mut i: usize = 0;
    while i < n
        invariant
            n == old(dust)@.len(),
            dust@ == old(dust)@,
            0 <= i <= n,
            n <= 1_000_000_000,
            forall|j: int| 0 <= j < n ==> (#[trigger] old(dust)@[j]).wf(),
            out@ == alive_only(old(dust)@.take(i as int)),
            credit_acc == spec_credit(old(dust)@.take(i as int)),
            credit_acc <= 2 * i,
            frags@.len() == 4 * spec_dead_big(old(dust)@.take(i as int)),
            spec_dead_big(old(dust)@.take(i as int)) <= i,
            forall|k: int| 0 <= k < frags@.len() ==> is_fragment(#[trigger] frags@[k]),
        decreases n - i,
    {
        let d = dust[i];
        proof {
            reveal(Seq::filter);
            assert(old(dust)@.take(i as int + 1).drop_last() =~= old(dust)@.take(i as int));
            assert(old(dust)@.take(i as int + 1).last() == old(dust)@[i as int]);
            lemma_credit_bound(old(dust)@.take(i as int + 1));
        }
        if d.health.current() > 0 {
            out.push(d);
        } else {
            let c = match d.kind {
                Dust::Small => 1,
                Dust::Big => 2,
            };
            credit_acc = credit_acc + c;
            if matches!(d.kind, Dust::Big) {
                let mut k: usize = 0;
                while k < 4
                    invariant
                        0 <= k <= 4,
                        in_world(d.pos),
                        frags@.len() == 4 * spec_dead_big(old(dust)@.take(i as int)) + k,
                        forall|m: int| 0 <= m < frags@.len() ==> is_fragment(#[trigger] frags@[m]),
                    decreases 4 - k,
                {
                    let dx = scatter_offset(rng_src);
                    let dy = scatter_offset(rng_src);
                    let fpos = Pos::new(d.pos.x + dx, d.pos.y + dy).clamp_to_area();
                    let speed = draw_inclusive(rng_src, FALL_SPEED_MIN, FALL_SPEED_MAX);
                    frags.push(crate::dust::dust(fpos, speed, Dust::Small));
                    k = k + 1;
                }
            }
        }
        i = i + 1;
    }
    proof {
        assert(old(dust)@.take(n as int) =~= old(dust)@);
        lemma_credit_bound(old(dust)@);
    }
    inventory.credit(credit_acc);
    let n_alive = out.len();
    let mut k: usize = 0;
    let n_frag = frags.len();
    while k < n_frag
        invariant
            n_frag == frags@.len(),
            0 <= k <= n_frag,
            forall|m: int| 0 <= m < n_frag ==> is_fragment(#[trigger] frags@[m]),
            n_alive == alive_only(old(dust)@).len(),
            out@.len() == n_alive + k,
            out@.take(n_alive as int) == alive_only(old(dust)@),
            forall|m: int| n_alive <= m < out@.len() ==> is_fragment(#[trigger] out@[m]),
        decreases n_frag - k,
    {
        let ghost prev = out@;
        out.push(frags[k]);
        proof {
            assert(out@.take(n_alive as int) =~= prev.take(n_alive as int));
        }
        k = k + 1;
    }
    proof {
        assert forall|m: int| 0 <= m < out@.len() implies (#[trigger] out@[m]).wf() by {
            if m < n_alive {
                assert(out@[m] == out@.take(n_alive as int)[m]);
                seq_filter_contains_wf(old(dust)@, m);
            } else {
                assert(is_fragment(out@[m]));
            }
        }
    }
    *dust = out;
    credit_acc
}

/// Every entry of a filtered batch of well-formed particles is well
/// formed: it occurs in the unfiltered batch.
proof fn seq_filter_contains_wf(s: Seq<DustState>, i: int)
    requires
        forall|j: int| 0 <= j < s.len() ==> (#[trigger] s[j]).wf(),
        0 <= i < alive_only(s).len(),
    ensures
        alive_only(s)[i].wf(),
    decreases s.len(),
{
    reveal(Seq::filter);
    if s.len() > 0 {
        let prefix = s.drop_last();
        assert(forall|j: int| 0 <= j < prefix.len() ==> (#[trigger] prefix[j]).wf());
        if s.last().health.current > 0 {
            if i < alive_only(s).len() - 1 {
                assert(alive_only(s)[i] == alive_only(prefix)[i]);
                seq_filter_contains_wf(prefix, i);
            } else {
                assert(alive_only(s)[i] == s.last());
            }
        } else {
            assert(alive_only(s) == alive_only(prefix));
            seq_filter_contains_wf(prefix, i);
        }
    }
}

} // verus!
