use dust_harvest::{
    Attacker, ChargeTimer, Dust, DustState, Pos, Power, attack_dust, attacker, charge_attacker,
    dust, entropy_from_seed, has_dust_in_range, tick_attacker_timer,
};

#[test]
fn timer_saturates_and_reports_fraction() {
    let mut t = ChargeTimer::new(1_000);
    assert!(!t.finished());
    assert_eq!(t.fraction_permille(), 0);
    t.tick(250);
    assert_eq!(t.fraction_permille(), 250);
    t.tick(10_000);
    assert!(t.finished());
    assert_eq!(t.fraction_permille(), 1_000);
    t.reset();
    assert!(!t.finished());
    assert_eq!(t.fraction_permille(), 0);
}

#[test]
fn ticking_advances_every_attacker() {
    let mut v: Vec<Attacker> = vec![
        attacker(Pos::new(0, 0), 1_000),
        attacker(Pos::new(5, 5), 2_000),
    ];
    tick_attacker_timer(&mut v, 1_000);
    assert!(v[0].timer.elapsed_ms == 1_000);
    assert!(v[1].timer.elapsed_ms == 1_000);
}

#[test]
fn charging_is_limited_by_power() {
    // Five eligible attackers, power 12 with cost 5: exactly two charge
    // and 2 is left, whatever order the shuffle picked.
    let mut v: Vec<Attacker> = Vec::new();
    for i in 0..5 {
        let mut a = attacker(Pos::new(i, 0), 1_000);
        a.timer.tick(1_000);
        v.push(a);
    }
    let mut power = Power::new(12_000, 1_000);
    let mut rng = entropy_from_seed(10);
    charge_attacker(&mut v, &mut power, 5_000, &mut rng);
    let charged = v.iter().filter(|a| a.fully_charged).count();
    assert_eq!(charged, 2);
    assert_eq!(power.current(), 2_000);
}

#[test]
fn charging_covers_all_when_power_allows() {
    let mut v: Vec<Attacker> = Vec::new();
    for i in 0..3 {
        let mut a = attacker(Pos::new(i, 0), 1_000);
        a.timer.tick(1_000);
        v.push(a);
    }
    let mut power = Power::new(20_000, 1_000);
    let mut rng = entropy_from_seed(11);
    charge_attacker(&mut v, &mut power, 5_000, &mut rng);
    assert!(v.iter().all(|a| a.fully_charged));
    assert_eq!(power.current(), 5_000);
}

#[test]
fn free_charging_charges_everyone() {
    let mut v: Vec<Attacker> = Vec::new();
    for i in 0..4 {
        let mut a = attacker(Pos::new(i, 0), 1_000);
        a.timer.tick(1_000);
        v.push(a);
    }
    let mut power = Power::new(1_000, 1_000);
    let mut rng = entropy_from_seed(16);
    charge_attacker(&mut v, &mut power, 0, &mut rng);
    assert!(v.iter().all(|a| a.fully_charged));
    assert_eq!(power.current(), 1_000);
}

#[test]
fn uncharged_or_unfinished_attackers_do_not_charge() {
    let mut v: Vec<Attacker> = vec![attacker(Pos::new(0, 0), 1_000)];
    // Timer not finished: not eligible.
    let mut power = Power::new(20_000, 1_000);
    let mut rng = entropy_from_seed(12);
    charge_attacker(&mut v, &mut power, 5_000, &mut rng);
    assert!(!v[0].fully_charged);
    assert_eq!(power.current(), 20_000);
}

#[test]
fn charged_attacker_without_targets_keeps_its_charge() {
    // A fully charged attacker with no dust in range fires nothing: the
    // charge stays and the timer is not reset.
    let mut v: Vec<Attacker> = vec![attacker(Pos::new(0, 0), 1_000)];
    v[0].timer.tick(700);
    v[0].fully_charged = true;
    let dust_set: Vec<DustState> = vec![dust(Pos::new(150_000, 0), 100_000, Dust::Small)];
    let mut rng = entropy_from_seed(13);
    let packets = attack_dust(&mut v, &dust_set, 5_000, &mut rng);
    assert_eq!(packets.len(), 0);
    assert!(v[0].fully_charged);
    assert_eq!(v[0].timer.elapsed_ms, 700);
}

#[test]
fn charged_attacker_with_a_target_fires() {
    let mut v: Vec<Attacker> = vec![attacker(Pos::new(0, 0), 1_000)];
    v[0].timer.tick(1_000);
    v[0].fully_charged = true;
    let dust_set: Vec<DustState> = vec![dust(Pos::new(10_000, 0), 100_000, Dust::Small)];
    let mut rng = entropy_from_seed(14);
    let packets = attack_dust(&mut v, &dust_set, 5_000, &mut rng);
    assert_eq!(packets.len(), 1);
    assert_eq!(packets[0].amount, 5_000);
    assert_eq!(packets[0].pos, Pos::new(0, 0));
    assert_eq!(packets[0].previous, None);
    assert!(!v[0].fully_charged);
    assert_eq!(v[0].timer.elapsed_ms, 0);
}

#[test]
fn out_of_bounds_attacker_holds_fire() {
    let mut v: Vec<Attacker> = vec![attacker(Pos::new(250_000, 0), 1_000)];
    v[0].fully_charged = true;
    let dust_set: Vec<DustState> = vec![dust(Pos::new(240_000, 0), 100_000, Dust::Small)];
    let mut rng = entropy_from_seed(15);
    let packets = attack_dust(&mut v, &dust_set, 5_000, &mut rng);
    assert_eq!(packets.len(), 0);
    assert!(v[0].fully_charged);
}

#[test]
fn range_check_compares_squared_distances() {
    let dust_set: Vec<DustState> = vec![dust(Pos::new(60_000, 80_000), 100_000, Dust::Small)];
    // Distance is exactly 100 pixels: not strictly inside the radius.
    assert!(!has_dust_in_range(&dust_set, Pos::new(0, 0)));
    let dust_near: Vec<DustState> = vec![dust(Pos::new(60_000, 79_000), 100_000, Dust::Small)];
    assert!(has_dust_in_range(&dust_near, Pos::new(0, 0)));
}
