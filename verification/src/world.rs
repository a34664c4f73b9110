//! The whole simulation: its state and the fixed-order tick.
//!
//! One tick advances the phases in a fixed order — timers, then the
//! update pass (regeneration, charge allocation, damage resolution,
//! attacks, falling, spawning), then cleanup (death credit,
//! fragmentation, out-of-bounds discard) — so every system observes the
//! same ordering on every tick.
use vstd::prelude::*;
use crate::attacker::{Attacker, SpawnAttacker, attacker, tick_attacker_timer, charge_attacker, attack_dust, spec_timer_ticked, spec_charge_rel, spec_attack_rel};
use crate::damage::{Damage, deal_damage, deal_attack_event, damage_frame};
use crate::dust::{Dust, DustState, cleanup_unalived_dust, despawn_dust, falling_dust, spec_fallen, spec_credit};
use crate::dust_spawner::{DustSpawner, DUST_LIMIT, DELTA_MS_LIMIT, EMIT_SCALE, dust_spawner, spawn_dust, is_spawned, spec_inc_big, spec_inc_small};
use crate::geom::{Pos, in_world};
use crate::inventory::{Inventory, spec_rate_sample, spec_smoothed};
use crate::power::{Power, spec_regenerated, update_power_stats};
use crate::progress::{CompleteTheGame, COMPLETE_COLLECTION_RATE_MILLI, send_complete_event};
use crate::rng::seed_rng;
use crate::shop::{ShopState, UpgradeItems, UpgradeEffect, spec_track_for, Upgrades};
use crate::visual_effect::{TempoEffect, AttackLine, DamageText, remove_tempo_effect, BEAM_EFFECT_MS, TEXT_EFFECT_MS};

verus! {

/// Starting capacity of the power pool, in milli-units.
pub const INITIAL_POWER_MAX: u64 = 20_000;
/// Starting regeneration, in milli-units per second.
pub const INITIAL_POWER_REGEN: u64 = 5_000;
/// Starting cost and payload of one attack, in milli-units.
pub const INITIAL_ATTACK_ENERGY: u64 = 5_000;
/// An attacker's recharge time, in milliseconds.
pub const ATTACK_INTERVAL_MS: u64 = 1_000;

/// The player's tunable combat stats.
#[derive(Clone, Copy, PartialEq, Eq, Structural, Debug)]
pub struct PlayerStats {
    /// The energy, in milli-units, one attack costs and carries.
    pub attack_energy: u64,
}

/// A change of the player's stats bought in the shop.
#[derive(Clone, Copy, PartialEq, Eq, Structural, Debug)]
pub enum ChangePlayerStats {
    /// Set the energy of one attack, in milli-units.
    SetAttackEnergy(u64),
}

/// Apply a bought stat change to the player's stats.
pub fn apply_player_stats(stats: &mut PlayerStats, event: ChangePlayerStats)
    ensures
        match event {
            ChangePlayerStats::SetAttackEnergy(amount) => final(stats).attack_energy == amount,
        },
{
    match event {
        ChangePlayerStats::SetAttackEnergy(amount) => stats.attack_energy = amount,
    }
}

/// The whole session's state.
pub struct GameWorld {
    pub power: Power,
    pub inventory: Inventory,
    pub shop: ShopState,
    pub player_stats: PlayerStats,
    pub spawner: DustSpawner,
    pub dust: Vec<DustState>,
    pub attackers: Vec<Attacker>,
    pub damages: Vec<Damage>,
    pub beams: Vec<(TempoEffect, AttackLine)>,
    pub texts: Vec<(TempoEffect, DamageText)>,
    pub complete_sent: bool,
    pub rng: rand::rngs::SmallRng,
}

impl GameWorld {
    /// The world's invariant: every component is well formed, every
    /// position in the world's bounds, and the dust population within
    /// its cap.
    pub open spec fn wf(&self) -> bool {
        &&& self.power.wf()
        &&& self.inventory.wf()
        &&& self.spawner.wf()
        &&& self.dust@.len() <= DUST_LIMIT
        &&& forall|i: int| 0 <= i < self.dust@.len() ==> (#[trigger] self.dust@[i]).wf()
        &&& forall|i: int| 0 <= i < self.attackers@.len() ==> (#[trigger] self.attackers@[i]).wf()
        &&& forall|i: int| 0 <= i < self.damages@.len() ==> in_world((#[trigger] self.damages@[i]).pos)
    }
}

/// Build the starting world: a full power pool, an empty inventory and
/// shop, the level's dust spawner, and one attacker at the origin.
pub fn spawn_level(seed: u64) -> (w: GameWorld)
    ensures
        w.wf(),
        w.power.current == INITIAL_POWER_MAX,
        w.power.max == INITIAL_POWER_MAX,
        w.power.regen_speed == INITIAL_POWER_REGEN,
        w.inventory.dust_data == 0,
        w.inventory.collect_rate_milli == 0,
        w.shop == ShopState::spec_initial(),
        w.player_stats.attack_energy == INITIAL_ATTACK_ENERGY,
        w.spawner.speed_milli == 2000,
        w.spawner.big_acc == 0,
        w.spawner.small_acc == 0,
        w.dust@.len() == 0,
        w.attackers@.len() == 1,
        w.attackers@[0].pos == (Pos { x: 0, y: 0 }),
        w.attackers@[0].timer.duration_ms == ATTACK_INTERVAL_MS,
        w.attackers@[0].timer.elapsed_ms == 0,
        !w.attackers@[0].fully_charged,
        w.damages@.len() == 0,
        w.beams@.len() == 0,
        w.texts@.len() == 0,
        !w.complete_sent,
{
    let mut attackers: Vec<Attacker> = Vec::new();
    attackers.push(attacker(Pos::new(0, 0), ATTACK_INTERVAL_MS));
    GameWorld {
        power: Power::new(INITIAL_POWER_MAX, INITIAL_POWER_REGEN),
        inventory: Inventory::new(),
        shop: ShopState::new(),
        player_stats: PlayerStats { attack_energy: INITIAL_ATTACK_ENERGY },
        spawner: dust_spawner(),
        dust: Vec::new(),
        attackers,
        damages: Vec::new(),
        beams: Vec::new(),
        texts: Vec::new(),
        complete_sent: false,
        rng: seed_rng(seed),
    }
}

/// One tick's phases, witnessed by the intermediate states they pass
/// through: the timers advance pointwise; power regenerates and the
/// charge pass spends it; the resolved packets only lower dust health;
/// the attack pass fires against the resolved dust; the dust then falls
/// and the spawner appends spawn-shaped particles; and the cleanup's
/// credit for that grown dust set lands in the inventory and its
/// smoothed rate.
pub open spec fn spec_tick_rel(
    w0: GameWorld,
    w1: GameWorld,
    delta_ms: int,
    after_timer: Seq<Attacker>,
    after_charge: Seq<Attacker>,
    after_power: Power,
    dust_resolved: Seq<DustState>,
    dust_grown: Seq<DustState>,
) -> bool {
    &&& after_timer.len() == w0.attackers@.len()
    &&& (forall|i: int| 0 <= i < after_timer.len()
        ==> (#[trigger] after_timer[i]) == spec_timer_ticked(w0.attackers@[i], delta_ms))
    &&& spec_charge_rel(after_timer, after_charge, spec_regenerated(w0.power, delta_ms), after_power, w0.player_stats.attack_energy)
    &&& w1.power == after_power
    &&& dust_resolved.len() == w0.dust@.len()
    &&& (forall|i: int| 0 <= i < dust_resolved.len()
        ==> damage_frame(w0.dust@[i], #[trigger] dust_resolved[i]))
    &&& spec_attack_rel(after_charge, w1.attackers@, dust_resolved)
    &&& dust_grown.len() >= dust_resolved.len()
    &&& (forall|i: int| 0 <= i < dust_resolved.len()
        ==> (#[trigger] dust_grown[i]) == spec_fallen(dust_resolved[i], delta_ms))
    &&& (forall|i: int| dust_resolved.len() <= i < dust_grown.len()
        ==> is_spawned(#[trigger] dust_grown[i], Dust::Small) || is_spawned(dust_grown[i], Dust::Big))
    &&& w1.inventory.dust_data == (if w0.inventory.dust_data + spec_credit(dust_grown) <= u64::MAX {
        w0.inventory.dust_data + spec_credit(dust_grown)
    } else {
        u64::MAX as int
    })
    &&& w1.inventory.collect_rate_milli == spec_smoothed(
        w0.inventory.collect_rate_milli as int,
        spec_rate_sample(spec_credit(dust_grown), delta_ms),
    )
}

impl GameWorld {
    /// Advance the simulation one tick of `delta_ms` milliseconds, in
    /// the fixed phase order. Returns the completion announcement the
    /// first tick the smoothed collection rate reaches the goal. The
    /// phases compose as `spec_tick_rel` states, for some intermediate
    /// states; the spawner's remainder accumulators advance exactly.
    pub fn tick(&mut self, delta_ms: u64) -> (completed: Option<CompleteTheGame>)
        requires
            old(self).wf(),
            1 <= delta_ms <= DELTA_MS_LIMIT,
        ensures
            final(self).wf(),
            exists|after_timer: Seq<Attacker>, after_charge: Seq<Attacker>, after_power: Power, dust_resolved: Seq<DustState>, dust_grown: Seq<DustState>|
                spec_tick_rel(*old(self), *final(self), delta_ms as int, after_timer, after_charge, after_power, dust_resolved, dust_grown),
            final(self).spawner.big_acc == (old(self).spawner.big_acc
                + spec_inc_big(old(self).spawner.speed_milli as int, delta_ms as int)) % (EMIT_SCALE as int),
            final(self).spawner.small_acc == (old(self).spawner.small_acc
                + spec_inc_small(old(self).spawner.speed_milli as int, delta_ms as int)) % (EMIT_SCALE as int),
            final(self).power.max == old(self).power.max,
            final(self).power.regen_speed == old(self).power.regen_speed,
            final(self).shop == old(self).shop,
            final(self).player_stats == old(self).player_stats,
            final(self).spawner.speed_milli == old(self).spawner.speed_milli,
            final(self).attackers@.len() == old(self).attackers@.len(),
            final(self).inventory.dust_data >= old(self).inventory.dust_data,
            (completed is Some) == (!old(self).complete_sent
                && final(self).inventory.collect_rate_milli >= COMPLETE_COLLECTION_RATE_MILLI),
            final(self).complete_sent == (old(self).complete_sent
                || final(self).inventory.collect_rate_milli >= COMPLETE_COLLECTION_RATE_MILLI),
    {
        let energy = self.player_stats.attack_energy;

        // Phase: tick timers.
        tick_attacker_timer(&mut self.attackers, delta_ms);
        remove_tempo_effect(&mut self.beams, delta_ms);
        remove_tempo_effect(&mut self.texts, delta_ms);

        // Phase: update. Power regenerates, then the charge pass spends
        // it on eligible attackers.
        self.power.regenerate(delta_ms);
        let ghost after_timer = self.attackers@;
        proof {
            assert(self.power == spec_regenerated(old(self).power, delta_ms as int));
        }
        charge_attacker(&mut self.attackers, &mut self.power, energy, &mut self.rng);
        let ghost after_charge = self.attackers@;
        let ghost after_power = self.power;
        proof {
            assert(spec_charge_rel(after_timer, after_charge, spec_regenerated(old(self).power, delta_ms as int), after_power, energy));
            assert forall|i: int| 0 <= i < self.attackers@.len()
                implies (#[trigger] self.attackers@[i]).wf() by {
                assert(after_timer[i].wf());
                assert(self.attackers@[i].pos == after_timer[i].pos);
                assert(self.attackers@[i].timer == after_timer[i].timer);
            }
        }

        // The packets in flight resolve against the dust set; their
        // events become visuals and successor packets for a later tick.
        let mut packets: Vec<Damage> = Vec::new();
        core::mem::swap(&mut packets, &mut self.damages);
        let events = deal_damage(packets, &mut self.dust);
        let ghost dust_resolved = self.dust@;
        let (successors, lines, dtexts) = deal_attack_event(events);
        let mut new_beams: Vec<(TempoEffect, AttackLine)> = Vec::new();
        let mut j: usize = 0;
        let n_lines = lines.len();
        while j < n_lines
            invariant
                n_lines == lines@.len(),
            decreases n_lines - j,
        {
            new_beams.push((TempoEffect::new(BEAM_EFFECT_MS), lines[j]));
            j = j + 1;
        }
        self.beams.append(&mut new_beams);
        let mut new_texts: Vec<(TempoEffect, DamageText)> = Vec::new();
        let mut j2: usize = 0;
        let n_texts = dtexts.len();
        while j2 < n_texts
            invariant
                n_texts == dtexts@.len(),
            decreases n_texts - j2,
        {
            new_texts.push((TempoEffect::new(TEXT_EFFECT_MS), dtexts[j2]));
            j2 = j2 + 1;
        }
        self.texts.append(&mut new_texts);
        self.damages = successors;

        // Charged, in-bounds attackers with dust in range fire.
        let mut fired = attack_dust(&mut self.attackers, &self.dust, energy, &mut self.rng);
        proof {
            assert(spec_attack_rel(after_charge, self.attackers@, dust_resolved));
        }
        let ghost succ_view = self.damages@;
        self.damages.append(&mut fired);
        proof {
            assert forall|i: int| 0 <= i < self.damages@.len()
                implies in_world((#[trigger] self.damages@[i]).pos) by {
                if i < succ_view.len() {
                    assert(self.damages@[i] == succ_view[i]);
                }
            }
        }

        // Dust falls; the spawner owes and emits new dust.
        falling_dust(&mut self.dust, delta_ms);
        let ghost pre_spawn = self.dust@;
        let counts = spawn_dust(&mut self.spawner, &mut self.dust, delta_ms, &mut self.rng);
        let ghost dust_grown = self.dust@;
        proof {
            assert forall|i: int| 0 <= i < self.dust@.len()
                implies (#[trigger] self.dust@[i]).wf() by {
                if i < pre_spawn.len() {
                    assert(self.dust@[i] == self.dust@.take(pre_spawn.len() as int)[i]);
                }
            }
            assert forall|i: int| 0 <= i < dust_resolved.len()
                implies (#[trigger] dust_grown[i]) == spec_fallen(dust_resolved[i], delta_ms as int) by {
                assert(dust_grown[i] == dust_grown.take(pre_spawn.len() as int)[i]);
                assert(dust_grown[i] == pre_spawn[i]);
            }
            vstd::arithmetic::div_mod::lemma_fundamental_div_mod_converse(
                old(self).spawner.big_acc + spec_inc_big(old(self).spawner.speed_milli as int, delta_ms as int),
                EMIT_SCALE as int,
                counts.1 as int,
                self.spawner.big_acc as int,
            );
            vstd::arithmetic::div_mod::lemma_fundamental_div_mod_converse(
                old(self).spawner.small_acc + spec_inc_small(old(self).spawner.speed_milli as int, delta_ms as int),
                EMIT_SCALE as int,
                counts.0 as int,
                self.spawner.small_acc as int,
            );
        }

        // Phase: cleanup. Dead dust credits the inventory and big dust
        // fragments; the collection rate absorbs this tick's sample;
        // dust below the play area is discarded; the population cap is
        // enforced.
        let credited = cleanup_unalived_dust(&mut self.dust, &mut self.inventory, &mut self.rng);
        proof {
            assert(credited == spec_credit(dust_grown));
        }
        self.inventory.record_collection(credited, delta_ms);
        let completed = send_complete_event(&mut self.complete_sent, self.inventory.collect_rate_milli);
        despawn_dust(&mut self.dust);
        if self.dust.len() > DUST_LIMIT {
            let ghost pre_cap = self.dust@;
            self.dust.truncate(DUST_LIMIT);
            proof {
                assert forall|i: int| 0 <= i < self.dust@.len()
                    implies (#[trigger] self.dust@[i]).wf() by {
                    assert(self.dust@[i] == pre_cap[i]);
                }
            }
        }
        proof {
            assert(spec_tick_rel(
                *old(self), *self, delta_ms as int,
                after_timer, after_charge, after_power, dust_resolved, dust_grown,
            ));
        }
        completed
    }

    /// Try to buy one tier of a shop track. On success the cost leaves
    /// the inventory, the track's level rises, and the bought effect is
    /// applied to the world: a stat change takes effect at once, and a
    /// bought attacker appears at the origin.
    pub fn purchase(&mut self, item: UpgradeItems) -> (r: Option<UpgradeEffect>)
        requires
            old(self).wf(),
        ensures
            final(self).wf(),
            final(self).inventory.collect_rate_milli == old(self).inventory.collect_rate_milli,
            match spec_track_for(item).spec_current_upgrade(old(self).shop.spec_level(item)) {
                Some(pair) => {
                    if old(self).inventory.dust_data >= pair.1 {
                        &&& r == Some(pair.0)
                        &&& final(self).inventory.dust_data == old(self).inventory.dust_data - pair.1
                        &&& final(self).shop == old(self).shop.spec_bumped(item)
                        &&& spec_effect_applied(*old(self), *final(self), pair.0)
                    } else {
                        r is None && *final(self) == *old(self)
                    }
                },
                None => r is None && *final(self) == *old(self),
            },
    {
        let r = self.shop.purchase(&mut self.inventory, item);
        match r {
            None => None,
            Some(effect) => {
                match effect {
                    UpgradeEffect::Player(e) => apply_player_stats(&mut self.player_stats, e),
                    UpgradeEffect::Power(e) => update_power_stats(&mut self.power, e),
                    UpgradeEffect::DustSpawn(e) => {
                        match e {
                            crate::dust_spawner::SetDustSpawnStats::SpawnSpeed(speed) => {
                                self.spawner.set_speed(speed);
                            },
                        }
                    },
                    UpgradeEffect::Attacker(SpawnAttacker) => {
                        let ghost prev = self.attackers@;
                        self.attackers.push(attacker(Pos::new(0, 0), ATTACK_INTERVAL_MS));
                        proof {
                            assert(self.attackers@.take(prev.len() as int) =~= prev);
                        }
                    },
                }
                Some(effect)
            },
        }
    }
}

/// How a bought effect lands on the world.
pub open spec fn spec_effect_applied(w0: GameWorld, w1: GameWorld, effect: UpgradeEffect) -> bool {
    match effect {
        UpgradeEffect::Player(ChangePlayerStats::SetAttackEnergy(v)) => {
            &&& w1.player_stats.attack_energy == v
            &&& w1.power == w0.power
            &&& w1.spawner == w0.spawner
            &&& w1.attackers@ == w0.attackers@
        },
        UpgradeEffect::Power(e) => {
            &&& match e {
                crate::power::SetPowerStats::RegenSpeed(v) => {
                    w1.power.regen_speed == v && w1.power.max == w0.power.max
                        && w1.power.current == w0.power.current
                },
                crate::power::SetPowerStats::PowerMax(v) => {
                    w1.power.max == v && w1.power.regen_speed == w0.power.regen_speed
                        && w1.power.current == (if w0.power.current <= v { w0.power.current as int } else { v as int })
                },
            }
            &&& w1.player_stats == w0.player_stats
            &&& w1.spawner == w0.spawner
            &&& w1.attackers@ == w0.attackers@
        },
        UpgradeEffect::DustSpawn(crate::dust_spawner::SetDustSpawnStats::SpawnSpeed(v)) => {
            &&& w1.spawner.speed_milli == (if v <= crate::dust_spawner::SPAWN_SPEED_LIMIT { v as int } else { crate::dust_spawner::SPAWN_SPEED_LIMIT as int })
            &&& w1.spawner.big_acc == w0.spawner.big_acc
            &&& w1.spawner.small_acc == w0.spawner.small_acc
            &&& w1.player_stats == w0.player_stats
            &&& w1.power == w0.power
            &&& w1.attackers@ == w0.attackers@
        },
        UpgradeEffect::Attacker(SpawnAttacker) => {
            &&& w1.attackers@.len() == w0.attackers@.len() + 1
            &&& w1.attackers@.take(w0.attackers@.len() as int) == w0.attackers@
            &&& w1.attackers@.last().pos == (Pos { x: 0, y: 0 })
            &&& !w1.attackers@.last().fully_charged
            &&& w1.player_stats == w0.player_stats
            &&& w1.power == w0.power
            &&& w1.spawner == w0.spawner
        },
    }
}

} // verus!
