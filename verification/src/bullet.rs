//! Projectiles fired by ships: short-lived entities that carry a damage
//! value and count their remaining lifetime down once per tick.

use vstd::prelude::*;
use crate::entity::Entity;
use crate::entity::NO_TAG;

verus! {

/// Number of ticks a projectile lives after being fired.
pub const BULLET_TTL: u32 = 300;

pub struct Bullet {
    pub entity: Entity,
    pub ttl: u32,
    pub damage: u32,
}

/// The per-tick logic pass of a projectile: its remaining lifetime counts
/// down toward zero and is clamped there.
pub open spec fn spec_update_logic(b: Bullet) -> Bullet {
    Bullet { ttl: if b.ttl > 0 { (b.ttl - 1) as u32 } else { 0u32 }, ..b }
}

impl Bullet {
    /// A new projectile, not yet registered, with a full lifetime. The
    /// physics body and mesh of the projectile belong to the external
    /// physics and rendering collaborators; this core keeps the gameplay
    /// state only.
    pub fn new(damage: u32) -> (b: Bullet)
        ensures
            b.entity.spec_tag() == NO_TAG,
            b.ttl == BULLET_TTL,
            b.damage == damage,
    {
        Bullet { entity: Entity::new(), ttl: BULLET_TTL, damage }
    }

    /// Per-tick logic: the remaining lifetime counts down toward zero and
    /// is clamped there, never negative.
    pub fn update_logic(&mut self)
        ensures
            *final(self) == spec_update_logic(*old(self)),
    {
        if self.ttl > 0 {
            self.ttl = self.ttl - 1;
        }
    }

    /// Tags the projectile's physics body with its logical ID.
    pub fn set_entity_id(&mut self, id: u64)
        requires
            old(self).entity.spec_tag() == NO_TAG,
            id != NO_TAG,
        ensures
            final(self).entity.spec_tag() == id,
            final(self).ttl == old(self).ttl,
            final(self).damage == old(self).damage,
    {
        self.entity.set_entity_id(id);
    }
}

} // verus!
