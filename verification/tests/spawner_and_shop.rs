use dust_harvest::{
    AdditiveEffect, Dust, DustState, DustSpawner, ExpCosts, Inventory, MultiplicativeEffect,
    ShopState, UpgradeEffect, UpgradeItems, Upgrades, dust_spawner, entropy_from_seed, spawn_dust,
    track_for, ChangePlayerStats, SetPowerStats,
};

#[test]
fn spawner_emits_the_exact_expected_count() {
    // At 2 dust/s the logistic split sends 4.7% to the big class. Over
    // 60 one-second ticks the accumulators owe 60*1.906 small and
    // 60*0.094 big dust, so exactly 114 and 5 are emitted.
    let mut s = dust_spawner();
    let mut rng = entropy_from_seed(20);
    let mut dust_set: Vec<DustState> = Vec::new();
    let mut small_total: u64 = 0;
    let mut big_total: u64 = 0;
    for _ in 0..60 {
        let (n_small, n_big) = spawn_dust(&mut s, &mut dust_set, 1_000, &mut rng);
        small_total += n_small;
        big_total += n_big;
    }
    assert_eq!(small_total, 114);
    assert_eq!(big_total, 5);
    assert_eq!(dust_set.len(), 119);
    for d in &dust_set {
        assert_eq!(d.pos.y, 300_000);
        assert!(d.pos.x >= -200_000 && d.pos.x <= 200_000);
        assert!(d.speed_milli >= 80_000 && d.speed_milli <= 120_000);
    }
}

#[test]
fn spawner_remainders_stay_within_one_dust() {
    // 1.5 dust/s over 16 ms ticks: after 16 seconds the count is within
    // one of the owed 24.
    let mut s = DustSpawner::new(1_500);
    let mut rng = entropy_from_seed(21);
    let mut dust_set: Vec<DustState> = Vec::new();
    let mut total: u64 = 0;
    for _ in 0..1_000 {
        let (n_small, n_big) = spawn_dust(&mut s, &mut dust_set, 16, &mut rng);
        total += n_small + n_big;
    }
    assert!(total == 23 || total == 24);
}

#[test]
fn big_class_count_is_exact_too() {
    // Past the saturation speed the split is all big; 10 one-second
    // ticks at 13 dust/s emit exactly 130 big dust.
    let mut s = DustSpawner::new(13_000);
    let mut rng = entropy_from_seed(22);
    let mut dust_set: Vec<DustState> = Vec::new();
    let mut small_total: u64 = 0;
    let mut big_total: u64 = 0;
    for _ in 0..10 {
        let (n_small, n_big) = spawn_dust(&mut s, &mut dust_set, 1_000, &mut rng);
        small_total += n_small;
        big_total += n_big;
    }
    assert_eq!(big_total, 130);
    assert_eq!(small_total, 0);
    assert!(dust_set.iter().all(|d| matches!(d.kind, Dust::Big)));
}

#[test]
fn costs_past_the_machine_report_none() {
    let c = ExpCosts::new(10, 12, 10);
    assert_eq!(c.nth(200), None);
}

#[test]
fn split_follows_the_logistic_of_speed() {
    // Knot values are the logistic in permille at whole-unit speeds...
    assert_eq!(DustSpawner::new(0).alpha_permille(), 7);
    assert_eq!(DustSpawner::new(2_000).alpha_permille(), 47);
    assert_eq!(DustSpawner::new(5_000).alpha_permille(), 500);
    assert_eq!(DustSpawner::new(6_000).alpha_permille(), 731);
    assert_eq!(DustSpawner::new(7_000).alpha_permille(), 881);
    assert_eq!(DustSpawner::new(10_000).alpha_permille(), 993);
    assert_eq!(DustSpawner::new(13_000).alpha_permille(), 1_000);
    // ...and linearly interpolated between knots.
    assert_eq!(DustSpawner::new(5_500).alpha_permille(), 615);
    assert_eq!(DustSpawner::new(2_250).alpha_permille(), 65);
}

#[test]
fn exponential_costs_floor_exactly() {
    // factor 10, base 1.2: costs 10, 12, 14 (floor of 14.4).
    let c = ExpCosts::new(10, 12, 10);
    assert_eq!(c.nth(0), Some(10));
    assert_eq!(c.nth(1), Some(12));
    assert_eq!(c.nth(2), Some(14));
    assert_eq!(c.nth(3), Some(17));
}

#[test]
fn cost_cursor_walks_the_sequence() {
    let mut c = ExpCosts::new(10, 12, 10);
    assert_eq!(c.next(), Some(10));
    assert_eq!(c.next(), Some(12));
    assert_eq!(c.next(), Some(14));
}

#[test]
fn effect_sequences_follow_their_formulas() {
    let a = AdditiveEffect::new(2_000, 1_200);
    assert_eq!(a.nth(0), Some(2_000));
    assert_eq!(a.nth(3), Some(5_600));
    let m = MultiplicativeEffect::new(5_000, 3, 2);
    assert_eq!(m.nth(0), Some(5_000));
    assert_eq!(m.nth(1), Some(7_500));
    assert_eq!(m.nth(2), Some(11_250));
}

#[test]
fn overlong_sequences_report_none() {
    let m = MultiplicativeEffect::new(5_000, u64::MAX, 1);
    assert_eq!(m.nth(0), Some(5_000));
    assert_eq!(m.nth(3), None);
}

#[test]
fn track_offers_cost_now_and_effect_next() {
    let t = track_for(UpgradeItems::AttackUpgrade);
    // Level 0 costs 10 and previews the level-1 effect 5.5.
    match t.get_current_upgrade(0) {
        Some((UpgradeEffect::Player(ChangePlayerStats::SetAttackEnergy(v)), cost)) => {
            assert_eq!(v, 5_500);
            assert_eq!(cost, 10);
        }
        other => panic!("unexpected offer: {:?}", other),
    }
}

#[test]
fn purchase_deducts_and_levels_up() {
    let mut shop = ShopState::new();
    let mut inv = Inventory::new();
    inv.credit(100);
    let r = shop.purchase(&mut inv, UpgradeItems::AttackUpgrade);
    assert!(matches!(
        r,
        Some(UpgradeEffect::Player(ChangePlayerStats::SetAttackEnergy(5_500)))
    ));
    assert_eq!(inv.dust_data, 90);
    assert_eq!(shop.attack_upgrade, 1);
    // The next tier costs 12 and previews 6.05.
    let r2 = shop.purchase(&mut inv, UpgradeItems::AttackUpgrade);
    assert!(matches!(
        r2,
        Some(UpgradeEffect::Player(ChangePlayerStats::SetAttackEnergy(6_050)))
    ));
    assert_eq!(inv.dust_data, 78);
    assert_eq!(shop.attack_upgrade, 2);
}

#[test]
fn purchase_without_funds_changes_nothing() {
    let mut shop = ShopState::new();
    let mut inv = Inventory::new();
    inv.credit(9);
    let r = shop.purchase(&mut inv, UpgradeItems::AttackUpgrade);
    assert!(r.is_none());
    assert_eq!(inv.dust_data, 9);
    assert_eq!(shop.attack_upgrade, 0);
}

#[test]
fn regen_track_emits_power_events() {
    let mut shop = ShopState::new();
    let mut inv = Inventory::new();
    inv.credit(20);
    let r = shop.purchase(&mut inv, UpgradeItems::EnhancePowerRegen);
    assert!(matches!(
        r,
        Some(UpgradeEffect::Power(SetPowerStats::RegenSpeed(7_500)))
    ));
    assert_eq!(inv.dust_data, 0);
}
