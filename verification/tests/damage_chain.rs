use dust_harvest::{
    Damage, DamageType, Dust, DustState, Pos, deal_attack_event, deal_damage, dust,
    entropy_from_seed, generate_damage, nearest_dust, resolve_hit, resolve_one,
};

#[test]
fn hit_conserves_energy_and_chains() {
    // Dust with health 5 struck by a packet of 10 dealing exactly 7:
    // health reaches 0, energy 3 is left, and a successor packet of 3
    // appears at the struck dust's position.
    let mut dust_set: Vec<DustState> = vec![dust(Pos::new(0, 0), 100_000, Dust::Small)];
    let mut attacked: Vec<usize> = Vec::new();
    let e = resolve_hit(
        Pos::new(10, 10),
        10_000,
        7_000,
        DamageType::Lightning,
        0,
        &mut dust_set,
        &mut attacked,
        entropy_from_seed(1),
    );
    assert_eq!(e.amount, 7_000);
    assert_eq!(e.remaining_energy, 3_000);
    assert_eq!(e.amount + e.remaining_energy, 10_000);
    assert_eq!(dust_set[0].health.current(), 0);
    assert!(!dust_set[0].health.is_alive());
    assert_eq!(attacked, vec![0]);

    let (successors, lines, texts) = deal_attack_event(vec![e]);
    assert_eq!(successors.len(), 1);
    assert_eq!(successors[0].amount, 3_000);
    assert_eq!(successors[0].pos, Pos::new(0, 0));
    assert_eq!(successors[0].previous, Some(0));
    assert_eq!(lines.len(), 1);
    assert_eq!(lines[0].start, Pos::new(10, 10));
    assert_eq!(lines[0].end, Pos::new(0, 0));
    assert_eq!(texts.len(), 1);
    assert_eq!(texts[0].amount, 7_000);
}

#[test]
fn leftover_below_threshold_does_not_chain() {
    let mut dust_set: Vec<DustState> = vec![dust(Pos::new(0, 0), 100_000, Dust::Small)];
    let mut attacked: Vec<usize> = Vec::new();
    // 999 milli-units are left: under the chain threshold of 1000.
    let e = resolve_hit(
        Pos::new(0, 0),
        1_999,
        1_000,
        DamageType::Lightning,
        0,
        &mut dust_set,
        &mut attacked,
        entropy_from_seed(1),
    );
    assert_eq!(e.remaining_energy, 999);
    let (successors, lines, _texts) = deal_attack_event(vec![e]);
    assert_eq!(successors.len(), 0);
    assert_eq!(lines.len(), 1);
}

#[test]
fn nearest_candidate_wins() {
    let dust_set: Vec<DustState> = vec![
        dust(Pos::new(50_000, 0), 100_000, Dust::Small),
        dust(Pos::new(20_000, 0), 100_000, Dust::Small),
        dust(Pos::new(900_000, 0), 100_000, Dust::Small),
    ];
    let excluded: Vec<usize> = Vec::new();
    assert_eq!(nearest_dust(&dust_set, &excluded, Pos::new(0, 0)), Some(1));
}

#[test]
fn distance_ties_go_to_the_lowest_index() {
    let dust_set: Vec<DustState> = vec![
        dust(Pos::new(30_000, 0), 100_000, Dust::Small),
        dust(Pos::new(-30_000, 0), 100_000, Dust::Small),
    ];
    let excluded: Vec<usize> = Vec::new();
    assert_eq!(nearest_dust(&dust_set, &excluded, Pos::new(0, 0)), Some(0));
}

#[test]
fn excluded_dust_is_not_targeted() {
    let dust_set: Vec<DustState> = vec![
        dust(Pos::new(10_000, 0), 100_000, Dust::Small),
        dust(Pos::new(20_000, 0), 100_000, Dust::Small),
    ];
    let excluded: Vec<usize> = vec![0];
    assert_eq!(nearest_dust(&dust_set, &excluded, Pos::new(0, 0)), Some(1));
}

#[test]
fn out_of_range_dust_dissipates_the_packet() {
    let mut dust_set: Vec<DustState> = vec![dust(Pos::new(150_000, 0), 100_000, Dust::Small)];
    let mut attacked: Vec<usize> = Vec::new();
    let packet = generate_damage(
        Pos::new(0, 0),
        5_000,
        DamageType::Lightning,
        entropy_from_seed(4),
        None,
    );
    let ev = resolve_one(packet, &mut dust_set, &mut attacked);
    assert!(ev.is_none());
    assert_eq!(dust_set[0].health.current(), 5_000);
}

#[test]
fn packet_never_retargets_its_previous_dust() {
    let mut dust_set: Vec<DustState> = vec![dust(Pos::new(0, 0), 100_000, Dust::Small)];
    let mut attacked: Vec<usize> = Vec::new();
    // The only dust in range is the one this packet chained from.
    let packet = generate_damage(
        Pos::new(0, 0),
        5_000,
        DamageType::Lightning,
        entropy_from_seed(5),
        Some(0),
    );
    let ev = resolve_one(packet, &mut dust_set, &mut attacked);
    assert!(ev.is_none());
    assert_eq!(attacked, vec![0]);
    assert_eq!(dust_set[0].health.current(), 5_000);
}

#[test]
fn batch_packets_strike_distinct_dust() {
    // Two packets in one batch with two dust in range: the exclusion set
    // forces them onto different targets.
    let mut dust_set: Vec<DustState> = vec![
        dust(Pos::new(10_000, 0), 100_000, Dust::Small),
        dust(Pos::new(20_000, 0), 100_000, Dust::Small),
    ];
    let packets: Vec<Damage> = vec![
        generate_damage(Pos::new(0, 0), 2_000, DamageType::Lightning, entropy_from_seed(6), None),
        generate_damage(Pos::new(0, 0), 2_000, DamageType::Lightning, entropy_from_seed(7), None),
    ];
    let events = deal_damage(packets, &mut dust_set);
    assert_eq!(events.len(), 2);
    assert_ne!(events[0].previous, events[1].previous);
    assert_eq!(events[0].previous, 0);
    assert_eq!(events[1].previous, 1);
}

#[test]
fn drawn_share_is_within_the_upper_half() {
    // A packet of 1 milli-unit pins the draw to exactly 1.
    let mut dust_set: Vec<DustState> = vec![dust(Pos::new(0, 0), 100_000, Dust::Small)];
    let mut attacked: Vec<usize> = Vec::new();
    let packet = generate_damage(
        Pos::new(0, 0),
        1,
        DamageType::Lightning,
        entropy_from_seed(8),
        None,
    );
    let ev = resolve_one(packet, &mut dust_set, &mut attacked).unwrap();
    assert_eq!(ev.amount, 1);
    assert_eq!(ev.remaining_energy, 0);
    assert_eq!(dust_set[0].health.current(), 4_999);
}

#[test]
fn drawn_share_halves_the_chain() {
    // Whatever is drawn, the leftover never exceeds the dealt share.
    let mut dust_set: Vec<DustState> = vec![dust(Pos::new(0, 0), 100_000, Dust::Big)];
    let mut attacked: Vec<usize> = Vec::new();
    let packet = generate_damage(
        Pos::new(0, 0),
        9_999,
        DamageType::Lightning,
        entropy_from_seed(9),
        None,
    );
    let ev = resolve_one(packet, &mut dust_set, &mut attacked).unwrap();
    assert!(ev.remaining_energy <= ev.amount);
    assert_eq!(ev.amount + ev.remaining_energy, 9_999);
}
