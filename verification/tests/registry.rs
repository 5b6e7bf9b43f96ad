//! Behavior of the entity registry: ID allocation, deferred spawning,
//! pass application, and lookups.

use steroids::bullet::Bullet;
use steroids::entity::Ent;
use steroids::registry::Action;
use steroids::registry::Registry;
use steroids::roid::Roid;
use steroids::ship::Ship;

#[test]
fn ids_are_consecutive_and_never_reused() {
    let mut r = Registry::new();
    let a = r.add(Ent::Ship(Ship::new(100)));
    let b = r.add(Ent::Roid(Roid::new(50)));
    let c = r.add(Ent::Bullet(Bullet::new(1)));
    assert_eq!(a, 1);
    assert_eq!(b, 2);
    assert_eq!(c, 3);
    assert_eq!(r.len(), 3);

    r.add_deferred(Ent::Roid(Roid::new(7)));
    r.add_deferred(Ent::Roid(Roid::new(8)));
    // Nothing is allocated until the commit point.
    assert_eq!(r.next_id(), 4);
    assert_eq!(r.len(), 3);

    let spawned = r.execute_deferred();
    assert_eq!(spawned, vec![4, 5]);
    assert_eq!(r.len(), 5);
    assert_eq!(r.next_id(), 6);

    // A direct add after the commit continues above everything assigned.
    let d = r.add(Ent::Ship(Ship::new(10)));
    assert_eq!(d, 6);
}

#[test]
fn entities_are_tagged_with_their_key() {
    let mut r = Registry::new();
    let a = r.add(Ent::Ship(Ship::new(100)));
    let b = r.add(Ent::Bullet(Bullet::new(1)));
    assert_eq!(r.get(a).unwrap().entity_id(), a);
    assert_eq!(r.get(b).unwrap().entity_id(), b);
    assert!(r.get(99).is_none());
}

#[test]
fn apply_one_on_missing_id_is_a_silent_noop() {
    let mut r = Registry::new();
    let a = r.add(Ent::Ship(Ship::new(100)));
    // Never registered.
    let eff = r.apply_one(42, Action::Logic);
    assert!(eff.is_none());
    assert_eq!(r.len(), 1);
    assert_eq!(r.next_id(), 2);
    assert!(r.get(a).is_some());
    // An empty registry tolerates it too.
    let mut empty = Registry::new();
    assert!(empty.apply_one(1, Action::Logic).is_none());
    assert_eq!(empty.len(), 0);
}

#[test]
fn execute_deferred_with_empty_buffer_changes_nothing() {
    let mut r = Registry::new();
    r.add(Ent::Ship(Ship::new(100)));
    let spawned = r.execute_deferred();
    assert!(spawned.is_empty());
    assert_eq!(r.len(), 1);
    assert_eq!(r.next_id(), 2);
}

#[test]
fn logic_pass_counts_lifetimes_down_and_clamps_at_zero() {
    let mut r = Registry::new();
    let s = r.add(Ent::Ship(Ship::new(100)));
    let b = r.add(Ent::Bullet(Bullet::new(1)));
    let k = r.add(Ent::Roid(Roid::new(9)));
    r.apply_all(Action::Logic);
    match r.get(b).unwrap() {
        Ent::Bullet(bullet) => assert_eq!(bullet.ttl, 299),
        _ => panic!("expected a bullet"),
    }
    match r.get(s).unwrap() {
        Ent::Ship(ship) => assert_eq!(ship.fire_delay, 0),
        _ => panic!("expected a ship"),
    }
    match r.get(k).unwrap() {
        Ent::Roid(roid) => assert_eq!(roid.hp, 9),
        _ => panic!("expected an asteroid"),
    }
}
