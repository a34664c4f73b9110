use dust_harvest::{
    Dust, DustState, Health, Inventory, Pos, cleanup_unalived_dust, despawn_dust, dust,
    entropy_from_seed, falling_dust,
};

#[test]
fn damage_floors_at_zero() {
    let mut h = Health::new(5_000);
    h.apply_damage(3_000);
    assert_eq!(h.current(), 2_000);
    assert!(h.is_alive());
    h.apply_damage(9_999);
    assert_eq!(h.current(), 0);
    assert!(!h.is_alive());
}

#[test]
fn heal_clamps_at_max() {
    let mut h = Health::new(5_000);
    h.apply_damage(2_000);
    assert!(!h.is_max_health());
    h.heal(500);
    assert_eq!(h.current(), 3_500);
    h.heal(50_000);
    assert_eq!(h.current(), 5_000);
    assert!(h.is_max_health());
}

#[test]
fn dust_classes_start_at_full_health() {
    let small = dust(Pos::new(0, 300_000), 100_000, Dust::Small);
    assert_eq!(small.health.current, 5_000);
    let big = dust(Pos::new(0, 300_000), 100_000, Dust::Big);
    assert_eq!(big.health.current, 10_000);
}

#[test]
fn falling_moves_dust_down() {
    let mut v: Vec<DustState> = vec![dust(Pos::new(1_000, 0), 100_000, Dust::Small)];
    // 16 ms at 100 pixels per second drops 1.6 pixels (1600 milli-pixels).
    falling_dust(&mut v, 16);
    assert_eq!(v[0].pos.y, -1_600);
    assert_eq!(v[0].pos.x, 1_000);
}

#[test]
fn despawn_discards_dust_below_the_area() {
    let mut v: Vec<DustState> = vec![
        dust(Pos::new(0, 0), 100_000, Dust::Small),
        dust(Pos::new(0, -300_001), 100_000, Dust::Small),
        dust(Pos::new(5, -299_999), 100_000, Dust::Big),
    ];
    despawn_dust(&mut v);
    assert_eq!(v.len(), 2);
    assert_eq!(v[0].pos.y, 0);
    assert_eq!(v[1].pos.y, -299_999);
}

#[test]
fn dead_small_dust_credits_one() {
    let mut v: Vec<DustState> = vec![dust(Pos::new(0, 0), 100_000, Dust::Small)];
    v[0].health.apply_damage(5_000);
    let mut inv = Inventory::new();
    let mut rng = entropy_from_seed(1);
    let credited = cleanup_unalived_dust(&mut v, &mut inv, &mut rng);
    assert_eq!(credited, 1);
    assert_eq!(inv.dust_data, 1);
    assert_eq!(v.len(), 0);
}

#[test]
fn dead_big_dust_credits_two_and_fragments() {
    // A big dust reduced to zero is destroyed: it credits 2 and spawns
    // exactly 4 small dust, all inside the play area.
    let mut v: Vec<DustState> = vec![dust(Pos::new(199_000, -299_000), 100_000, Dust::Big)];
    v[0].health.apply_damage(10_000);
    let mut inv = Inventory::new();
    let mut rng = entropy_from_seed(2);
    let credited = cleanup_unalived_dust(&mut v, &mut inv, &mut rng);
    assert_eq!(credited, 2);
    assert_eq!(inv.dust_data, 2);
    assert_eq!(v.len(), 4);
    for d in &v {
        assert!(matches!(d.kind, Dust::Small));
        assert_eq!(d.health.current, 5_000);
        assert!(d.pos.x >= -200_000 && d.pos.x <= 200_000);
        assert!(d.pos.y >= -300_000 && d.pos.y <= 300_000);
        assert!(d.speed_milli >= 80_000 && d.speed_milli <= 120_000);
    }
}

#[test]
fn cleanup_keeps_survivors_in_order() {
    let mut v: Vec<DustState> = vec![
        dust(Pos::new(1, 0), 100_000, Dust::Small),
        dust(Pos::new(2, 0), 100_000, Dust::Small),
        dust(Pos::new(3, 0), 100_000, Dust::Small),
    ];
    v[1].health.apply_damage(5_000);
    let mut inv = Inventory::new();
    let mut rng = entropy_from_seed(3);
    let credited = cleanup_unalived_dust(&mut v, &mut inv, &mut rng);
    assert_eq!(credited, 1);
    assert_eq!(v.len(), 2);
    assert_eq!(v[0].pos.x, 1);
    assert_eq!(v[1].pos.x, 3);
}

#[test]
fn collect_rate_smooths_toward_sample() {
    let mut inv = Inventory::new();
    // 2 dust over 1000 ms is 2 dust/s: the average moves a fifth of the
    // way there.
    inv.record_collection(2, 1_000);
    assert_eq!(inv.collect_rate_milli, 400);
    inv.record_collection(2, 1_000);
    assert_eq!(inv.collect_rate_milli, 720);
    // A quiet tick pulls it back down.
    inv.record_collection(0, 1_000);
    assert_eq!(inv.collect_rate_milli, 576);
}
