//! Asteroids: inert obstacles with hit points. They drift under physics
//! alone and have no per-tick logic of their own.

use vstd::prelude::*;
use crate::entity::Entity;
use crate::entity::NO_TAG;

verus! {

pub struct Roid {
    pub entity: Entity,
    pub hp: u32,
}

impl Roid {
    /// A new asteroid, not yet registered. Its physics body and mesh live
    /// with the external collaborators.
    pub fn new(hp: u32) -> (r: Roid)
        ensures
            r.entity.spec_tag() == NO_TAG,
            r.hp == hp,
    {
        Roid { entity: Entity::new(), hp }
    }

    /// Per-tick logic: an asteroid does nothing on its own.
    pub fn update_logic(&mut self)
        ensures
            *final(self) == *old(self),
    {
    }

    /// Tags the asteroid's physics body with its logical ID.
    pub fn set_entity_id(&mut self, id: u64)
        requires
            old(self).entity.spec_tag() == NO_TAG,
            id != NO_TAG,
        ensures
            final(self).entity.spec_tag() == id,
            final(self).hp == old(self).hp,
    {
        self.entity.set_entity_id(id);
    }
}

} // verus!
