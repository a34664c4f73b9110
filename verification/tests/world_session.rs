use dust_harvest::{
    CompleteTheGame, CursorEvents, CursorShape, Dust, MouseTracker, Pos, TempoEffect,
    UpgradeItems, cursor_icon_update, dust, map_range, remove_tempo_effect, send_complete_event,
    spawn_level, update_mouse_tracker,
};

#[test]
fn fresh_level_has_the_starting_layout() {
    let w = spawn_level(1);
    assert_eq!(w.power.current, 20_000);
    assert_eq!(w.power.max, 20_000);
    assert_eq!(w.power.regen_speed, 5_000);
    assert_eq!(w.inventory.dust_data, 0);
    assert_eq!(w.player_stats.attack_energy, 5_000);
    assert_eq!(w.spawner.speed_milli, 2_000);
    assert_eq!(w.attackers.len(), 1);
    assert_eq!(w.attackers[0].pos, Pos::new(0, 0));
    assert!(w.dust.is_empty());
    assert!(w.damages.is_empty());
}

#[test]
fn power_invariant_holds_across_ticks() {
    let mut w = spawn_level(2);
    for _ in 0..200 {
        w.tick(16);
        assert!(w.power.current <= w.power.max);
        assert!(w.dust.len() <= 100_000);
        for d in &w.dust {
            assert!(d.health.current <= d.health.max);
        }
    }
}

#[test]
fn same_seed_gives_the_same_session() {
    let mut a = spawn_level(7);
    let mut b = spawn_level(7);
    for _ in 0..120 {
        a.tick(16);
        b.tick(16);
    }
    assert_eq!(a.power.current, b.power.current);
    assert_eq!(a.dust.len(), b.dust.len());
    assert_eq!(a.inventory.dust_data, b.inventory.dust_data);
    assert_eq!(a.damages.len(), b.damages.len());
}

#[test]
fn fired_packets_resolve_on_the_next_tick() {
    let mut w = spawn_level(9);
    w.dust.push(dust(Pos::new(10_000, 0), 100_000, Dust::Small));
    w.attackers[0].fully_charged = true;
    // The attack pass fires this tick; the packet is picked up next tick.
    w.tick(16);
    assert_eq!(w.damages.len(), 1);
    assert_eq!(w.dust[0].health.current, 5_000);
    w.tick(16);
    assert_eq!(w.beams.len(), 1);
    assert_eq!(w.texts.len(), 1);
    if w.inventory.dust_data == 0 {
        // The drawn share left the dust alive but damaged.
        assert!(w.dust[0].health.current < 5_000);
        assert!(w.dust[0].health.current > 0);
    } else {
        // The drawn share killed it: cleanup credited one dust data.
        assert_eq!(w.inventory.dust_data, 1);
    }
}

#[test]
fn world_purchase_applies_the_effect() {
    let mut w = spawn_level(3);
    w.inventory.credit(50);
    let r = w.purchase(UpgradeItems::NewAttacker);
    assert!(r.is_some());
    assert_eq!(w.attackers.len(), 2);
    assert_eq!(w.inventory.dust_data, 0);
    assert_eq!(w.shop.new_attacker, 1);
}

#[test]
fn world_purchase_of_regen_takes_effect() {
    let mut w = spawn_level(4);
    w.inventory.credit(20);
    let r = w.purchase(UpgradeItems::EnhancePowerRegen);
    assert!(r.is_some());
    assert_eq!(w.power.regen_speed, 7_500);
}

#[test]
fn completion_fires_once() {
    let mut sent = false;
    assert!(send_complete_event(&mut sent, 7_999).is_none());
    assert!(!sent);
    let fired = send_complete_event(&mut sent, 8_000);
    assert!(matches!(fired, Some(CompleteTheGame)));
    assert!(sent);
    assert!(send_complete_event(&mut sent, 9_000).is_none());
}

#[test]
fn cursor_state_machine_follows_the_table() {
    let mut dragging = false;
    assert_eq!(
        cursor_icon_update(CursorEvents::Over, &mut dragging),
        Some(CursorShape::HandOpen)
    );
    assert!(!dragging);
    assert_eq!(
        cursor_icon_update(CursorEvents::Pressed, &mut dragging),
        Some(CursorShape::HandClosed)
    );
    assert!(dragging);
    // While dragging, hovering changes nothing.
    assert_eq!(cursor_icon_update(CursorEvents::Over, &mut dragging), None);
    assert!(dragging);
    assert_eq!(
        cursor_icon_update(CursorEvents::Released, &mut dragging),
        Some(CursorShape::HandOpen)
    );
    assert!(!dragging);
    assert_eq!(
        cursor_icon_update(CursorEvents::Out, &mut dragging),
        Some(CursorShape::HandPoint)
    );
}

#[test]
fn mouse_tracker_records_the_cursor() {
    let mut t = MouseTracker::new();
    update_mouse_tracker(&mut t, Pos::new(12, -34));
    assert_eq!(t.pos, Pos::new(12, -34));
}

#[test]
fn tempo_effects_expire_on_time() {
    let mut effects: Vec<(TempoEffect, u32)> =
        vec![(TempoEffect::new(100), 1), (TempoEffect::new(500), 2)];
    remove_tempo_effect(&mut effects, 100);
    assert_eq!(effects.len(), 1);
    assert_eq!(effects[0].1, 2);
    assert_eq!(effects[0].0.elapsed_ms, 100);
    remove_tempo_effect(&mut effects, 400);
    assert!(effects.is_empty());
}

#[test]
fn map_range_interpolates_and_guards_zero_spans() {
    assert_eq!(map_range(5, 0, 10, 0, 100), 50);
    assert_eq!(map_range(500, 0, 1_000, 500, 1_000), 750);
    assert_eq!(map_range(3, 3, 3, 7, 9), 7);
    assert_eq!(map_range(0, 0, 10, 40, 100), 40);
    assert_eq!(map_range(10, 0, 10, 40, 100), 100);
}
