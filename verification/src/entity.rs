//! The common part of every game entity — the identity tag that ties a
//! physics body back to its logical ID — and the polymorphic entity sum
//! over the three variants: ships, projectiles and asteroids.

use vstd::prelude::*;
use vstd::pervasive::unreached;
use crate::bullet::Bullet;
use crate::controller::AXIS_UNIT;
use crate::roid::Roid;
use crate::ship::ControlEffect;
use crate::ship::Ship;

verus! {

/// Logical ID value reserved to mean "no tag attached".
pub const NO_TAG: u64 = 0;

/// The registry-visible face of one game entity: a handle to exactly one
/// physics body carrying one identity tag. The tag starts absent
/// (`NO_TAG`) and is written exactly once, at registration time.
pub struct Entity {
    pub tag: u64,
}

impl Entity {
    /// The identity tag currently attached to the owned physics body,
    /// `NO_TAG` while the entity is not yet registered.
    pub open spec fn spec_tag(self) -> u64 {
        self.tag
    }

    /// A freshly constructed entity carries no identity tag.
    pub fn new() -> (e: Entity)
        ensures
            e.spec_tag() == NO_TAG,
    {
        Entity { tag: NO_TAG }
    }

    /// Tags the owned physics body with the logical ID. Called exactly
    /// once, immediately after registry insertion; a second call is a
    /// contract violation and is ruled out here.
    pub fn set_entity_id(&mut self, id: u64)
        requires
            old(self).spec_tag() == NO_TAG,
            id != NO_TAG,
        ensures
            final(self).spec_tag() == id,
    {
        self.tag = id;
    }

    /// Reads the identity tag back.
    pub fn entity_id(&self) -> (id: u64)
        ensures
            id == self.spec_tag(),
    {
        self.tag
    }
}

/// One live game entity: the sum over the entity variants. Dispatch is an
/// explicit match here rather than dynamic, so every capability carries a
/// contract.
pub enum Ent {
    Ship(Ship),
    Bullet(Bullet),
    Roid(Roid),
}

/// The per-tick logic pass of any entity: ships run their cooldown down,
/// projectiles their lifetime; asteroids do nothing.
pub open spec fn spec_ent_logic(e: Ent) -> Ent {
    match e {
        Ent::Ship(s) => Ent::Ship(crate::ship::spec_update_logic(s)),
        Ent::Bullet(b) => Ent::Bullet(crate::bullet::spec_update_logic(b)),
        Ent::Roid(r) => Ent::Roid(r),
    }
}

/// The same entity with the given identity tag attached.
pub open spec fn spec_ent_with_tag(e: Ent, id: u64) -> Ent {
    match e {
        Ent::Ship(s) => Ent::Ship(Ship { entity: Entity { tag: id }, ..s }),
        Ent::Bullet(b) => Ent::Bullet(Bullet { entity: Entity { tag: id }, ..b }),
        Ent::Roid(r) => Ent::Roid(Roid { entity: Entity { tag: id }, ..r }),
    }
}

/// The state an entity reaches after one control pass; only ships are
/// controllable.
pub open spec fn spec_ent_control(e: Ent, pitch: int, yaw: int, roll: int, shoot: bool) -> Ent {
    match e {
        Ent::Ship(s) => Ent::Ship(crate::ship::spec_handle_controls(s, pitch, yaw, roll, shoot)),
        _ => e,
    }
}

/// Whether a control pass on this entity fires a shot.
pub open spec fn spec_ent_fired(e: Ent, shoot: bool) -> bool {
    match e {
        Ent::Ship(s) => crate::ship::spec_fired(s, shoot),
        _ => false,
    }
}

impl Ent {
    /// The identity tag on the variant's physics body.
    pub open spec fn spec_tag(self) -> u64 {
        match self {
            Ent::Ship(s) => s.entity.spec_tag(),
            Ent::Bullet(b) => b.entity.spec_tag(),
            Ent::Roid(r) => r.entity.spec_tag(),
        }
    }

    /// Variant-specific well-formedness; only ships carry an invariant of
    /// their own.
    pub open spec fn wf(self) -> bool {
        match self {
            Ent::Ship(s) => s.wf(),
            Ent::Bullet(_) => true,
            Ent::Roid(_) => true,
        }
    }

    /// Per-tick logic dispatch.
    pub fn update_logic(&mut self)
        ensures
            *final(self) == spec_ent_logic(*old(self)),
            old(self).wf() ==> final(self).wf(),
    {
        match self {
            Ent::Ship(s) => s.update_logic(),
            Ent::Bullet(b) => b.update_logic(),
            Ent::Roid(_) => (),
        }
    }

    /// Tags the variant's physics body with its logical ID, exactly once.
    pub fn set_entity_id(&mut self, id: u64)
        requires
            old(self).spec_tag() == NO_TAG,
            id != NO_TAG,
        ensures
            *final(self) == spec_ent_with_tag(*old(self), id),
            final(self).spec_tag() == id,
            old(self).wf() ==> final(self).wf(),
    {
        match self {
            Ent::Ship(s) => s.set_entity_id(id),
            Ent::Bullet(b) => b.set_entity_id(id),
            Ent::Roid(r) => r.set_entity_id(id),
        }
    }

    /// Reads the identity tag back.
    pub fn entity_id(&self) -> (id: u64)
        ensures
            id == self.spec_tag(),
    {
        match self {
            Ent::Ship(s) => s.entity.entity_id(),
            Ent::Bullet(b) => b.entity.entity_id(),
            Ent::Roid(r) => r.entity.entity_id(),
        }
    }

    /// Control dispatch. Only controllable variants support this; wiring
    /// the controller to any other variant is a programming-contract
    /// violation, ruled out here rather than aborting at run time.
    pub fn handle_controls(
        &mut self,
        pitch: i64,
        yaw: i64,
        roll: i64,
        throttle: i64,
        shoot: bool,
    ) -> (eff: ControlEffect)
        requires
            *old(self) is Ship,
            old(self).wf(),
            -AXIS_UNIT <= pitch <= AXIS_UNIT,
            -AXIS_UNIT <= yaw <= AXIS_UNIT,
            -AXIS_UNIT <= roll <= AXIS_UNIT,
        ensures
            *final(self) == spec_ent_control(*old(self), pitch as int, yaw as int, roll as int, shoot),
            final(self).wf(),
            final(self).spec_tag() == old(self).spec_tag(),
            eff.thrust == throttle,
            eff.fired == spec_ent_fired(*old(self), shoot),
            *final(self) matches Ent::Ship(s2) ==> eff.pitch == s2.pitch && eff.yaw == s2.yaw
                && eff.roll == s2.roll,
    {
        match self {
            Ent::Ship(s) => s.handle_controls(pitch, yaw, roll, throttle, shoot),
            _ => unreached(),
        }
    }
}

} // verus!
