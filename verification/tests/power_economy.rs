use dust_harvest::{Power, SetPowerStats, update_power_stats};

#[test]
fn consume_twice_same_tick() {
    // Power at max 20 with regen 1/s; two consumes of 5 with no regen
    // between them leave 10, each deducting the full 5.
    let mut p = Power::new(20, 1);
    assert_eq!(p.current(), 20);
    assert_eq!(p.consume(5), 5);
    assert_eq!(p.consume(5), 5);
    assert_eq!(p.current(), 10);
}

#[test]
fn consume_clamps_at_zero() {
    let mut p = Power::new(10, 1);
    assert_eq!(p.consume(25), 10);
    assert_eq!(p.current(), 0);
    assert_eq!(p.consume(1), 0);
    assert_eq!(p.current(), 0);
}

#[test]
fn regenerate_is_clamped_to_max() {
    let mut p = Power::new(20_000, 5_000);
    p.consume(5_000);
    assert_eq!(p.current(), 15_000);
    // 100 ms at 5000 milli-units per second adds 500.
    p.regenerate(100);
    assert_eq!(p.current(), 15_500);
    // A long tick cannot push past the capacity.
    p.regenerate(1_000_000);
    assert_eq!(p.current(), 20_000);
    assert!(p.current() <= 20_000);
}

#[test]
fn regenerate_floors_fractions() {
    let mut p = Power::new(1_000, 3);
    p.consume(1_000);
    // 3 milli-units per second over 100 ms is 0.3 milli-units: floored away.
    p.regenerate(100);
    assert_eq!(p.current(), 0);
    p.regenerate(1_000);
    assert_eq!(p.current(), 3);
}

#[test]
fn power_stats_events_apply() {
    let mut p = Power::new(20_000, 5_000);
    update_power_stats(&mut p, SetPowerStats::RegenSpeed(7_500));
    p.consume(20_000);
    p.regenerate(1_000);
    assert_eq!(p.current(), 7_500);
    // Shrinking the capacity clamps the current amount with it.
    update_power_stats(&mut p, SetPowerStats::PowerMax(5_000));
    assert_eq!(p.current(), 5_000);
}
