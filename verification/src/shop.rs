//! The shop: five upgrade tracks, each a pair of infinite integer
//! sequences — an exponential cost sequence and an additive or
//! multiplicative effect sequence — indexed by the purchased level.
//!
//! Exponential terms are exact rationals `factor * num^k / den^k`,
//! floored once at the end; a term that no longer fits the machine's
//! integers is reported as `None` and the purchase is refused.
use vstd::prelude::*;
use crate::attacker::SpawnAttacker;
use crate::dust_spawner::SetDustSpawnStats;
use crate::inventory::Inventory;
use crate::power::SetPowerStats;
use crate::world::ChangePlayerStats;
use vstd::arithmetic::power::pow;

verus! {

/// `base^e`, or `None` where it exceeds `u128`.
fn checked_pow(base: u64, e: u64) -> (r: Option<u128>)
    ensures
        match r {
            Some(v) => v == pow(base as int, e as nat),
            None => pow(base as int, e as nat) > u128::MAX,
        },
{
    let mut acc: u128 = 1;
    let mut i: u64 = 0;
    proof {
        reveal(pow);
    }
    while i < e
        invariant
            0 <= i <= e,
            acc == pow(base as int, i as nat),
        decreases e - i,
    {
        if base != 0 && acc > u128::MAX / (base as u128) {
            proof {
                let b = base as int;
                let q = u128::MAX as int / b;
                vstd::arithmetic::div_mod::lemma_fundamental_div_mod(u128::MAX as int, b);
                assert(acc * b > u128::MAX) by (nonlinear_arith)
                    requires
                        acc >= q + 1,
                        b >= 1,
                        u128::MAX == b * q + u128::MAX as int % b,
                        u128::MAX as int % b < b,
                ;
                assert(pow(b, (i + 1) as nat) == b * pow(b, i as nat)) by {
                    reveal(pow);
                }
                vstd::arithmetic::power::lemma_pow_increases(base as nat, (i + 1) as nat, e as nat);
                vstd::arithmetic::mul::lemma_mul_is_commutative(acc as int, b);
            }
            return None;
        }
        proof {
            let b = base as int;
            if base != 0 {
                let q = u128::MAX as int / b;
                vstd::arithmetic::div_mod::lemma_fundamental_div_mod(u128::MAX as int, b);
                assert(acc * b <= u128::MAX) by (nonlinear_arith)
                    requires
                        0 <= acc <= q,
                        b >= 1,
                        u128::MAX == b * q + u128::MAX as int % b,
                        u128::MAX as int % b >= 0,
                ;
            }
            assert(pow(b, (i + 1) as nat) == b * pow(b, i as nat)) by {
                reveal(pow);
            }
            vstd::arithmetic::mul::lemma_mul_is_commutative(acc as int, b);
        }
        acc = acc * (base as u128);
        i = i + 1;
    }
    Some(acc)
}

/// Whether `factor * num^n / den^n` can be computed within the machine's
/// integers: both powers and the product fit `u128`, the floored
/// quotient fits `u64`.
pub open spec fn spec_rational_fits(factor: int, num: int, den: int, n: nat) -> bool {
    &&& pow(num, n) <= u128::MAX
    &&& pow(den, n) <= u128::MAX
    &&& factor * pow(num, n) <= u128::MAX
    &&& factor * pow(num, n) / pow(den, n) <= u64::MAX
}

/// The exact value `floor(factor * num^n / den^n)`.
pub open spec fn spec_rational_at(factor: int, num: int, den: int, n: nat) -> int {
    factor * pow(num, n) / pow(den, n)
}

/// The sequence term, or `None` where it no longer fits.
pub open spec fn spec_rational_value(factor: int, num: int, den: int, n: nat) -> Option<u64> {
    if spec_rational_fits(factor, num, den, n) {
        Some(spec_rational_at(factor, num, den, n) as u64)
    } else {
        None
    }
}

/// Compute `floor(factor * num^n / den^n)` exactly, or `None` where a
/// step exceeds the machine's integers.
fn rational_pow_value(factor: u64, num: u64, den: u64, n: u64) -> (r: Option<u64>)
    requires
        den >= 1,
    ensures
        r == spec_rational_value(factor as int, num as int, den as int, n as nat),
{
    let p = match checked_pow(num, n) {
        None => {
            return None;
        },
        Some(p) => p,
    };
    let q = match checked_pow(den, n) {
        None => {
            return None;
        },
        Some(q) => q,
    };
    proof {
        vstd::arithmetic::power::lemma_pow_positive(den as int, n as nat);
    }
    if factor != 0 && p > u128::MAX / (factor as u128) {
        proof {
            let f = factor as int;
            let w = u128::MAX as int / f;
            vstd::arithmetic::div_mod::lemma_fundamental_div_mod(u128::MAX as int, f);
            assert(f * (p as int) > u128::MAX) by (nonlinear_arith)
                requires
                    p >= w + 1,
                    f >= 1,
                    u128::MAX == f * w + u128::MAX as int % f,
                    u128::MAX as int % f < f,
            ;
        }
        return None;
    }
    proof {
        let f = factor as int;
        if factor != 0 {
            let w = u128::MAX as int / f;
            vstd::arithmetic::div_mod::lemma_fundamental_div_mod(u128::MAX as int, f);
            assert(f * (p as int) <= u128::MAX) by (nonlinear_arith)
                requires
                    0 <= p <= w,
                    f >= 1,
                    u128::MAX == f * w + u128::MAX as int % f,
                    u128::MAX as int % f >= 0,
            ;
        } else {
            assert(f * (p as int) == 0) by (nonlinear_arith)
                requires
                    f == 0,
            ;
        }
    }
    let t: u128 = (factor as u128) * p;
    let v: u128 = t / q;
    if v > 0xffff_ffff_ffff_ffff {
        None
    } else {
        Some(v as u64)
    }
}

/// An exponential cost sequence: `cost(k) = floor(factor * num^k / den^k)`,
/// with a cursor for reading it in order.
#[derive(Clone, Copy, PartialEq, Eq, Structural, Debug)]
pub struct ExpCosts {
    pub factor: u64,
    pub base_num: u64,
    pub base_den: u64,
    pub k: u64,
}

impl ExpCosts {
    /// The sequence's invariant: the base's denominator is nonzero.
    pub open spec fn wf(&self) -> bool {
        self.base_den >= 1
    }

    pub fn new(factor: u64, base_num: u64, base_den: u64) -> (c: ExpCosts)
        requires
            base_den >= 1,
        ensures
            c.wf(),
            c.factor == factor,
            c.base_num == base_num,
            c.base_den == base_den,
            c.k == 0,
    {
        ExpCosts { factor, base_num, base_den, k: 0 }
    }

    /// The cost at absolute level `n`; the cursor is untouched.
    pub fn nth(&self, n: u64) -> (r: Option<u64>)
        requires
            self.wf(),
        ensures
            r == spec_rational_value(self.factor as int, self.base_num as int, self.base_den as int, n as nat),
    {
        rational_pow_value(self.factor, self.base_num, self.base_den, n)
    }

    /// The cost at the cursor; the cursor then moves on.
    pub fn next(&mut self) -> (r: Option<u64>)
        requires
            old(self).wf(),
            old(self).k < u64::MAX,
        ensures
            final(self).wf(),
            r == spec_rational_value(old(self).factor as int, old(self).base_num as int, old(self).base_den as int, old(self).k as nat),
            final(self).k == old(self).k + 1,
            final(self).factor == old(self).factor,
            final(self).base_num == old(self).base_num,
            final(self).base_den == old(self).base_den,
    {
        let r = rational_pow_value(self.factor, self.base_num, self.base_den, self.k);
        self.k = self.k + 1;
        r
    }
}

/// An additive effect sequence: `value(k) = v0 + k * dv`, with a cursor.
#[derive(Clone, Copy, PartialEq, Eq, Structural, Debug)]
pub struct AdditiveEffect {
    pub initial_value: u64,
    pub increment: u64,
    pub k: u64,
}

/// The additive term, or `None` where it exceeds `u64`.
pub open spec fn spec_additive_value(v0: int, dv: int, n: nat) -> Option<u64> {
    if v0 + n * dv <= u64::MAX {
        Some((v0 + n * dv) as u64)
    } else {
        None
    }
}

impl AdditiveEffect {
    pub fn new(initial_value: u64, increment: u64) -> (e: AdditiveEffect)
        ensures
            e.initial_value == initial_value,
            e.increment == increment,
            e.k == 0,
    {
        AdditiveEffect { initial_value, increment, k: 0 }
    }

    /// The value at absolute level `n`; the cursor is untouched.
    pub fn nth(&self, n: u64) -> (r: Option<u64>)
        ensures
            r == spec_additive_value(self.initial_value as int, self.increment as int, n as nat),
    {
        let dv = self.increment;
        proof {
            assert((n as int) * (dv as int) <= 0xfffffffffffffffe_0000000000000001
                && (n as int) * (dv as int) >= 0) by (nonlinear_arith)
                requires
                    n <= u64::MAX,
                    dv <= u64::MAX,
            ;
        }
        let step: u128 = (n as u128) * (dv as u128);
        let total: u128 = (self.initial_value as u128) + step;
        if total > 0xffff_ffff_ffff_ffff {
            None
        } else {
            Some(total as u64)
        }
    }

    /// The value at the cursor; the cursor then moves on.
    pub fn next(&mut self) -> (r: Option<u64>)
        requires
            old(self).k < u64::MAX,
        ensures
            r == spec_additive_value(old(self).initial_value as int, old(self).increment as int, old(self).k as nat),
            final(self).k == old(self).k + 1,
            final(self).initial_value == old(self).initial_value,
            final(self).increment == old(self).increment,
    {
        let r = self.nth(self.k);
        self.k = self.k + 1;
        r
    }
}

/// A multiplicative effect sequence: `value(k) = floor(v0 * num^k / den^k)`,
/// with a cursor.
#[derive(Clone, Copy, PartialEq, Eq, Structural, Debug)]
pub struct MultiplicativeEffect {
    pub initial_value: u64,
    pub ratio_num: u64,
    pub ratio_den: u64,
    pub k: u64,
}

impl MultiplicativeEffect {
    /// The sequence's invariant: the ratio's denominator is nonzero.
    pub open spec fn wf(&self) -> bool {
        self.ratio_den >= 1
    }

    pub fn new(initial_value: u64, ratio_num: u64, ratio_den: u64) -> (e: MultiplicativeEffect)
        requires
            ratio_den >= 1,
        ensures
            e.wf(),
            e.initial_value == initial_value,
            e.ratio_num == ratio_num,
            e.ratio_den == ratio_den,
            e.k == 0,
    {
        MultiplicativeEffect { initial_value, ratio_num, ratio_den, k: 0 }
    }

    /// The value at absolute level `n`; the cursor is untouched.
    pub fn nth(&self, n: u64) -> (r: Option<u64>)
        requires
            self.wf(),
        ensures
            r == spec_rational_value(self.initial_value as int, self.ratio_num as int, self.ratio_den as int, n as nat),
    {
        rational_pow_value(self.initial_value, self.ratio_num, self.ratio_den, n)
    }

    /// The value at the cursor; the cursor then moves on.
    pub fn next(&mut self) -> (r: Option<u64>)
        requires
            old(self).wf(),
            old(self).k < u64::MAX,
        ensures
            final(self).wf(),
            r == spec_rational_value(old(self).initial_value as int, old(self).ratio_num as int, old(self).ratio_den as int, old(self).k as nat),
            final(self).k == old(self).k + 1,
            final(self).initial_value == old(self).initial_value,
            final(self).ratio_num == old(self).ratio_num,
            final(self).ratio_den == old(self).ratio_den,
    {
        let r = rational_pow_value(self.initial_value, self.ratio_num, self.ratio_den, self.k);
        self.k = self.k + 1;
        r
    }
}

/// The five upgrade tracks the shop sells.
#[derive(Clone, Copy, PartialEq, Eq, Structural, Debug)]
pub enum UpgradeItems {
    AttackUpgrade,
    NewAttacker,
    EnhancePowerRegen,
    SpeedUpDustGen,
    UpgradePowerMax,
}

/// The effect event a purchase emits.
#[derive(Clone, Copy, PartialEq, Eq, Structural, Debug)]
pub enum UpgradeEffect {
    Player(ChangePlayerStats),
    Power(SetPowerStats),
    DustSpawn(SetDustSpawnStats),
    Attacker(SpawnAttacker),
}

/// A track's effect sequence.
#[derive(Clone, Copy, PartialEq, Eq, Structural, Debug)]
pub enum EffectSeq {
    Additive(AdditiveEffect),
    Multiplicative(MultiplicativeEffect),
}

/// One upgrade track: which item it is, what it costs at each level, and
/// the effect value at each level.
#[derive(Clone, Copy, PartialEq, Eq, Structural, Debug)]
pub struct UpgradeTrack {
    pub item: UpgradeItems,
    pub costs: ExpCosts,
    pub effects: EffectSeq,
}

/// The effect value a track's sequence yields at `n`.
pub open spec fn spec_effect_value(effects: EffectSeq, n: nat) -> Option<u64> {
    match effects {
        EffectSeq::Additive(a) => spec_additive_value(a.initial_value as int, a.increment as int, n),
        EffectSeq::Multiplicative(m) => spec_rational_value(m.initial_value as int, m.ratio_num as int, m.ratio_den as int, n),
    }
}

/// The event this track emits for a bought effect value.
pub open spec fn spec_effect_event(item: UpgradeItems, value: u64) -> UpgradeEffect {
    match item {
        UpgradeItems::AttackUpgrade => UpgradeEffect::Player(ChangePlayerStats::SetAttackEnergy(value)),
        UpgradeItems::NewAttacker => UpgradeEffect::Attacker(SpawnAttacker),
        UpgradeItems::EnhancePowerRegen => UpgradeEffect::Power(SetPowerStats::RegenSpeed(value)),
        UpgradeItems::SpeedUpDustGen => UpgradeEffect::DustSpawn(SetDustSpawnStats::SpawnSpeed(value)),
        UpgradeItems::UpgradePowerMax => UpgradeEffect::Power(SetPowerStats::PowerMax(value)),
    }
}

/// A shop entry, defined by paired infinite cost and effect sequences.
pub trait Upgrades {
    /// The entry's invariant.
    spec fn wf(&self) -> bool;

    /// The entry's display name, for the shop's rows.
    fn name(&self) -> &'static str;

    /// What buying at `level` offers: the event carrying the next tier's
    /// effect value, and the cost of this tier — where both sequences
    /// still fit the machine's integers.
    spec fn spec_current_upgrade(&self, level: u64) -> Option<(UpgradeEffect, u64)>;

    /// The offer at `level`.
    fn get_current_upgrade(&self, level: u64) -> (r: Option<(UpgradeEffect, u64)>)
        requires
            self.wf(),
        ensures
            r == self.spec_current_upgrade(level),
    ;
}

impl UpgradeTrack {
    /// The effect value a purchase at `level` hands out: the next tier's.
    pub open spec fn spec_bought_value(&self, level: u64) -> Option<u64> {
        if level < u64::MAX {
            spec_effect_value(self.effects, (level + 1) as nat)
        } else {
            None
        }
    }
}

impl Upgrades for UpgradeTrack {
    open spec fn wf(&self) -> bool {
        &&& self.costs.wf()
        &&& match self.effects {
            EffectSeq::Additive(_) => true,
            EffectSeq::Multiplicative(m) => m.wf(),
        }
    }

    fn name(&self) -> &'static str {
        match self.item {
            UpgradeItems::AttackUpgrade => "Attack Amount",
            UpgradeItems::NewAttacker => "New Attacker",
            UpgradeItems::EnhancePowerRegen => "Charge Power",
            UpgradeItems::SpeedUpDustGen => "Dust Generation",
            UpgradeItems::UpgradePowerMax => "Power Max",
        }
    }

    open spec fn spec_current_upgrade(&self, level: u64) -> Option<(UpgradeEffect, u64)> {
        match spec_rational_value(self.costs.factor as int, self.costs.base_num as int, self.costs.base_den as int, level as nat) {
            Some(cost) => match self.spec_bought_value(level) {
                Some(value) => Some((spec_effect_event(self.item, value), cost)),
                None => None,
            },
            None => None,
        }
    }

    fn get_current_upgrade(&self, level: u64) -> (r: Option<(UpgradeEffect, u64)>) {
        let cost = match self.costs.nth(level) {
            Some(cost) => cost,
            None => {
                return None;
            },
        };
        if level == u64::MAX {
            return None;
        }
        let value = match &self.effects {
            EffectSeq::Additive(a) => a.nth(level + 1),
            EffectSeq::Multiplicative(m) => m.nth(level + 1),
        };
        let value = match value {
            Some(value) => value,
            None => {
                return None;
            },
        };
        let event = match self.item {
            UpgradeItems::AttackUpgrade => UpgradeEffect::Player(ChangePlayerStats::SetAttackEnergy(value)),
            UpgradeItems::NewAttacker => UpgradeEffect::Attacker(SpawnAttacker),
            UpgradeItems::EnhancePowerRegen => UpgradeEffect::Power(SetPowerStats::RegenSpeed(value)),
            UpgradeItems::SpeedUpDustGen => UpgradeEffect::DustSpawn(SetDustSpawnStats::SpawnSpeed(value)),
            UpgradeItems::UpgradePowerMax => UpgradeEffect::Power(SetPowerStats::PowerMax(value)),
        };
        Some((event, cost))
    }
}

/// The track sold under this item: its cost and effect parameters.
pub open spec fn spec_track_for(item: UpgradeItems) -> UpgradeTrack {
    match item {
        UpgradeItems::AttackUpgrade => UpgradeTrack {
            item,
            costs: ExpCosts { factor: 10, base_num: 12, base_den: 10, k: 0 },
            effects: EffectSeq::Multiplicative(MultiplicativeEffect { initial_value: 5_000, ratio_num: 11, ratio_den: 10, k: 0 }),
        },
        UpgradeItems::NewAttacker => UpgradeTrack {
            item,
            costs: ExpCosts { factor: 50, base_num: 12, base_den: 10, k: 0 },
            effects: EffectSeq::Additive(AdditiveEffect { initial_value: 1_000, increment: 1_000, k: 0 }),
        },
        UpgradeItems::EnhancePowerRegen => UpgradeTrack {
            item,
            costs: ExpCosts { factor: 20, base_num: 16, base_den: 10, k: 0 },
            effects: EffectSeq::Multiplicative(MultiplicativeEffect { initial_value: 5_000, ratio_num: 3, ratio_den: 2, k: 0 }),
        },
        UpgradeItems::SpeedUpDustGen => UpgradeTrack {
            item,
            costs: ExpCosts { factor: 30, base_num: 13, base_den: 10, k: 0 },
            effects: EffectSeq::Additive(AdditiveEffect { initial_value: 2_000, increment: 1_200, k: 0 }),
        },
        UpgradeItems::UpgradePowerMax => UpgradeTrack {
            item,
            costs: ExpCosts { factor: 40, base_num: 13, base_den: 10, k: 0 },
            effects: EffectSeq::Additive(AdditiveEffect { initial_value: 20_000, increment: 1_200, k: 0 }),
        },
    }
}

/// The track sold under this item.
pub fn track_for(item: UpgradeItems) -> (t: UpgradeTrack)
    ensures
        t == spec_track_for(item),
        t.wf(),
{
    match item {
        UpgradeItems::AttackUpgrade => UpgradeTrack {
            item,
            costs: ExpCosts::new(10, 12, 10),
            effects: EffectSeq::Multiplicative(MultiplicativeEffect::new(5_000, 11, 10)),
        },
        UpgradeItems::NewAttacker => UpgradeTrack {
            item,
            costs: ExpCosts::new(50, 12, 10),
            effects: EffectSeq::Additive(AdditiveEffect::new(1_000, 1_000)),
        },
        UpgradeItems::EnhancePowerRegen => UpgradeTrack {
            item,
            costs: ExpCosts::new(20, 16, 10),
            effects: EffectSeq::Multiplicative(MultiplicativeEffect::new(5_000, 3, 2)),
        },
        UpgradeItems::SpeedUpDustGen => UpgradeTrack {
            item,
            costs: ExpCosts::new(30, 13, 10),
            effects: EffectSeq::Additive(AdditiveEffect::new(2_000, 1_200)),
        },
        UpgradeItems::UpgradePowerMax => UpgradeTrack {
            item,
            costs: ExpCosts::new(40, 13, 10),
            effects: EffectSeq::Additive(AdditiveEffect::new(20_000, 1_200)),
        },
    }
}

/// The purchased level of every track.
#[derive(Clone, Copy, PartialEq, Eq, Structural, Debug)]
pub struct ShopState {
    pub attack_upgrade: u64,
    pub new_attacker: u64,
    pub enhance_power_regen: u64,
    pub speed_up_dust_gen: u64,
    pub upgrade_power_max: u64,
}

impl ShopState {
    /// The shop state with nothing bought.
    pub open spec fn spec_initial() -> ShopState {
        ShopState {
            attack_upgrade: 0,
            new_attacker: 0,
            enhance_power_regen: 0,
            speed_up_dust_gen: 0,
            upgrade_power_max: 0,
        }
    }

    /// A session starts with nothing bought.
    pub fn new() -> (s: ShopState)
        ensures
            s == ShopState::spec_initial(),
    {
        ShopState {
            attack_upgrade: 0,
            new_attacker: 0,
            enhance_power_regen: 0,
            speed_up_dust_gen: 0,
            upgrade_power_max: 0,
        }
    }

    /// The purchased level of one track.
    pub open spec fn spec_level(&self, item: UpgradeItems) -> u64 {
        match item {
            UpgradeItems::AttackUpgrade => self.attack_upgrade,
            UpgradeItems::NewAttacker => self.new_attacker,
            UpgradeItems::EnhancePowerRegen => self.enhance_power_regen,
            UpgradeItems::SpeedUpDustGen => self.speed_up_dust_gen,
            UpgradeItems::UpgradePowerMax => self.upgrade_power_max,
        }
    }

    /// This shop state with one track's level raised by one.
    pub open spec fn spec_bumped(&self, item: UpgradeItems) -> ShopState {
        match item {
            UpgradeItems::AttackUpgrade => ShopState { attack_upgrade: (self.attack_upgrade + 1) as u64, ..*self },
            UpgradeItems::NewAttacker => ShopState { new_attacker: (self.new_attacker + 1) as u64, ..*self },
            UpgradeItems::EnhancePowerRegen => ShopState { enhance_power_regen: (self.enhance_power_regen + 1) as u64, ..*self },
            UpgradeItems::SpeedUpDustGen => ShopState { speed_up_dust_gen: (self.speed_up_dust_gen + 1) as u64, ..*self },
            UpgradeItems::UpgradePowerMax => ShopState { upgrade_power_max: (self.upgrade_power_max + 1) as u64, ..*self },
        }
    }

    /// The purchased level of one track.
    pub fn level(&self, item: UpgradeItems) -> (r: u64)
        ensures
            r == self.spec_level(item),
    {
        match item {
            UpgradeItems::AttackUpgrade => self.attack_upgrade,
            UpgradeItems::NewAttacker => self.new_attacker,
            UpgradeItems::EnhancePowerRegen => self.enhance_power_regen,
            UpgradeItems::SpeedUpDustGen => self.speed_up_dust_gen,
            UpgradeItems::UpgradePowerMax => self.upgrade_power_max,
        }
    }

    /// Record one purchase on a track.
    pub fn update_by_event(&mut self, item: UpgradeItems)
        requires
            old(self).spec_level(item) < u64::MAX,
        ensures
            *final(self) == old(self).spec_bumped(item),
    {
        match item {
            UpgradeItems::AttackUpgrade => self.attack_upgrade = self.attack_upgrade + 1,
            UpgradeItems::NewAttacker => self.new_attacker = self.new_attacker + 1,
            UpgradeItems::EnhancePowerRegen => self.enhance_power_regen = self.enhance_power_regen + 1,
            UpgradeItems::SpeedUpDustGen => self.speed_up_dust_gen = self.speed_up_dust_gen + 1,
            UpgradeItems::UpgradePowerMax => self.upgrade_power_max = self.upgrade_power_max + 1,
        }
    }

    /// Try to buy one tier of a track: where the track still offers a
    /// tier and the inventory covers its cost, the cost is deducted, the
    /// level rises by one, and the effect event carrying the next tier's
    /// value is returned. Anything else changes nothing and returns
    /// `None`.
    pub fn purchase(&mut self, inventory: &mut Inventory, item: UpgradeItems) -> (r: Option<UpgradeEffect>)
        ensures
            final(inventory).collect_rate_milli == old(inventory).collect_rate_milli,
            match spec_track_for(item).spec_current_upgrade(old(self).spec_level(item)) {
                Some(pair) => {
                    if old(inventory).dust_data >= pair.1 {
                        &&& r == Some(pair.0)
                        &&& final(inventory).dust_data == old(inventory).dust_data - pair.1
                        &&& *final(self) == old(self).spec_bumped(item)
                    } else {
                        &&& r is None
                        &&& *final(self) == *old(self)
                        &&& final(inventory).dust_data == old(inventory).dust_data
                    }
                },
                None => {
                    &&& r is None
                    &&& *final(self) == *old(self)
                    &&& final(inventory).dust_data == old(inventory).dust_data
                },
            },
    {
        let track = track_for(item);
        let level = self.level(item);
        match track.get_current_upgrade(level) {
            None => None,
            Some((effect, cost)) => {
                if inventory.dust_data >= cost {
                    inventory.spend(cost);
                    self.update_by_event(item);
                    Some(effect)
                } else {
                    None
                }
            },
        }
    }
}

} // verus!
