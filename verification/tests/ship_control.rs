//! Ship gameplay rules: the fire cooldown and the control smoothing.

use steroids::controller::Controller;
use steroids::controller::Signals;
use steroids::entity::Ent;
use steroids::registry::Registry;
use steroids::ship::Ship;
use steroids::ship::RELOAD_TICKS;
use steroids::tick::logic_phase;

fn fire_signal() -> Signals {
    let mut s = Signals::none();
    s.pew = true;
    s
}

fn ship_of(r: &Registry, id: u64) -> &Ship {
    match r.get(id).unwrap() {
        Ent::Ship(s) => s,
        _ => panic!("expected a ship"),
    }
}

#[test]
fn fire_held_spawns_exactly_one_projectile_every_sixty_ticks() {
    let mut r = Registry::new();
    let player = r.add(Ent::Ship(Ship::new(100)));
    let control = Controller {};
    let fire = fire_signal();

    let mut spawn_ticks = Vec::new();
    for tick in 1..=181u32 {
        let (_eff, spawned) = logic_phase(&mut r, &control, player, &fire);
        assert!(spawned.len() <= 1);
        if !spawned.is_empty() {
            spawn_ticks.push(tick);
        }
        let ship = ship_of(&r, player);
        // The cooldown is never negative and never exceeds the reload
        // interval; right after tick n it reads 60 - ((n-1) % 60).
        assert!(ship.fire_delay <= RELOAD_TICKS);
        assert_eq!(ship.fire_delay, RELOAD_TICKS - ((tick - 1) % 60));
    }
    assert_eq!(spawn_ticks, vec![1, 61, 121, 181]);
    // One projectile per spawn: the live set grew by exactly 4.
    assert_eq!(r.len(), 5);
}

#[test]
fn cooldown_blocks_shot_until_it_reaches_zero() {
    let mut s = Ship::new(100);
    let eff = s.handle_controls(0, 0, 0, 0, true);
    assert!(eff.fired);
    assert_eq!(s.fire_delay, RELOAD_TICKS);
    // Firing again while the cooldown runs does nothing.
    let eff2 = s.handle_controls(0, 0, 0, 0, true);
    assert!(!eff2.fired);
    assert_eq!(s.fire_delay, RELOAD_TICKS);
}

#[test]
fn smoothing_blends_one_tenth_of_raw_input_per_tick() {
    let mut s = Ship::new(100);
    // A held full pitch-up deflection: the smoothed pitch converges
    // geometrically toward minus the raw input, one tenth per tick,
    // in fixed-point thousandths rounded toward zero.
    let expected = [-100i64, -190, -271, -343, -408, -467, -520, -568, -611, -649];
    for want in expected {
        s.handle_controls(1000, 0, 0, 0, false);
        assert_eq!(s.pitch, want);
    }
}

#[test]
fn smoothing_settles_within_nine_thousandths_of_the_target() {
    let mut s = Ship::new(100);
    for _ in 0..200 {
        s.handle_controls(1000, 0, 0, 0, false);
    }
    // The fixed-point quantization floor: steady state 9 thousandths
    // short of the -1000 target, and stable there.
    assert_eq!(s.pitch, -991);
    s.handle_controls(1000, 0, 0, 0, false);
    assert_eq!(s.pitch, -991);
}

#[test]
fn zero_raw_input_snaps_the_smoothed_value_to_zero() {
    let mut s = Ship::new(100);
    s.handle_controls(1000, 1000, -1000, 0, false);
    assert_eq!(s.pitch, -100);
    assert_eq!(s.yaw, 100);
    assert_eq!(s.roll, -100);
    // The very next zero input resets the axis exactly, not decayed.
    s.handle_controls(0, 0, 0, 0, false);
    assert_eq!(s.pitch, 0);
    assert_eq!(s.yaw, 0);
    assert_eq!(s.roll, 0);
}

#[test]
fn controller_aggregates_signals_into_axis_intents() {
    let mut r = Registry::new();
    let player = r.add(Ent::Ship(Ship::new(100)));
    let control = Controller {};

    let mut s = Signals::none();
    s.fwd = true;
    let eff = control.update(&mut r, player, &s).unwrap();
    assert_eq!(eff.thrust, 1000);
    assert!(!eff.fired);

    let mut s2 = Signals::none();
    s2.fwd = true;
    s2.rev = true;
    s2.pu = true;
    s2.pd = true;
    let eff2 = control.update(&mut r, player, &s2).unwrap();
    // Opposing signals cancel to no intent.
    assert_eq!(eff2.thrust, 0);
    assert_eq!(eff2.pitch, 0);

    // A missing target is a silent no-op.
    assert!(control.update(&mut r, 99, &s).is_none());
}
