//! Whole-tick behavior: deferred-spawn visibility and the idle tick.

use steroids::controller::Controller;
use steroids::controller::Signals;
use steroids::entity::Ent;
use steroids::registry::Registry;
use steroids::ship::Ship;
use steroids::tick::logic_phase;

#[test]
fn deferred_spawn_is_invisible_to_its_own_tick() {
    let mut r = Registry::new();
    let player = r.add(Ent::Ship(Ship::new(100)));
    let control = Controller {};
    let mut fire = Signals::none();
    fire.pew = true;

    let (eff, spawned) = logic_phase(&mut r, &control, player, &fire);
    assert!(eff.unwrap().fired);
    assert_eq!(spawned, vec![2]);
    // The projectile joined the live set only at the commit point, after
    // this tick's logic pass: its lifetime is untouched.
    match r.get(2).unwrap() {
        Ent::Bullet(b) => assert_eq!(b.ttl, 300),
        _ => panic!("expected a bullet"),
    }

    // The next tick's logic pass visits it.
    let idle = Signals::none();
    let (_eff, spawned2) = logic_phase(&mut r, &control, player, &idle);
    assert!(spawned2.is_empty());
    match r.get(2).unwrap() {
        Ent::Bullet(b) => assert_eq!(b.ttl, 299),
        _ => panic!("expected a bullet"),
    }
}

#[test]
fn idle_tick_leaves_five_fresh_ships_untouched() {
    let mut r = Registry::new();
    let player = r.add(Ent::Ship(Ship::new(100)));
    for _ in 0..4 {
        r.add(Ent::Ship(Ship::new(100)));
    }
    assert_eq!(r.len(), 5);
    let control = Controller {};
    let idle = Signals::none();

    let (eff, spawned) = logic_phase(&mut r, &control, player, &idle);
    assert!(spawned.is_empty());
    let eff = eff.unwrap();
    assert!(!eff.fired);
    assert_eq!(eff.thrust, 0);

    // The pass visited exactly the five ships, IDs 1 through 5, and each
    // still reads a zero cooldown and zero smoothed axes.
    assert_eq!(r.len(), 5);
    for id in 1..=5u64 {
        match r.get(id).unwrap() {
            Ent::Ship(s) => {
                assert_eq!(s.fire_delay, 0);
                assert_eq!(s.pitch, 0);
                assert_eq!(s.yaw, 0);
                assert_eq!(s.roll, 0);
            },
            _ => panic!("expected a ship"),
        }
    }
    assert!(r.get(6).is_none());
}
