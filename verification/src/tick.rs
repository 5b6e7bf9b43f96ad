//! The decision half of one tick of the main loop. The driver around it
//! performs the outside work — polling input, stepping the physics
//! world, syncing meshes and camera, rendering — in the load-bearing
//! order: logic pass, control pass, spawn commit, physics step, mesh
//! sync. The first three of those are pure registry work and run here.

use vstd::prelude::*;
use crate::controller::Controller;
use crate::controller::Signals;
use crate::controller::control_action;
use crate::registry::Action;
use crate::registry::Registry;
use crate::registry::lemma_id_index_unique;
use crate::registry::lemma_logic_spawns_none;
use crate::registry::spec_step_effect;
use crate::ship::ControlEffect;

verus! {

/// The logic, control and spawn-commit phases of one tick, in that
/// order: every live entity takes its logic pass, the controlled entity
/// takes the control pass (which may enqueue a deferred projectile), and
/// the pending buffer is then committed so the new spawns take part in
/// the coming physics step without ever having been visible to this
/// tick's passes. Returns the control pass's force request, if any, and
/// the IDs committed from the buffer, for the driver to bind to their
/// physics bodies.
pub fn logic_phase(
    registry: &mut Registry,
    control: &Controller,
    player: u64,
    signals: &Signals,
) -> (outcome: (Option<ControlEffect>, Vec<u64>))
    requires
        old(registry)@.wf(),
        old(registry)@.contains_id(player) ==> old(registry)@.ent_at(player) is Ship,
        old(registry)@.counter + old(registry)@.buffer.len() + 1 <= u64::MAX,
    ensures
        final(registry)@.wf(),
        ({
            let v1 = old(registry)@.after_apply_all(Action::Logic);
            let v2 = v1.after_apply_one(player, control_action(*signals));
            &&& final(registry)@ == v2.after_execute_deferred()
            &&& outcome.1@ == v2.spawned_ids()
            &&& outcome.0 == (if v1.contains_id(player) {
                spec_step_effect(v1.ent_at(player), control_action(*signals))
            } else {
                None::<ControlEffect>
            })
        }),
{
    let ghost v0 = registry@;
    registry.apply_all(Action::Logic);
    let ghost v1 = registry@;

    proof {
        lemma_logic_spawns_none(v0.entities);
        assert(v1.buffer =~= v0.buffer);
        if v1.contains_id(player) {
            let i = v1.id_index(player);
            assert(v1.entities[i].0 == v0.entities[i].0);
            lemma_id_index_unique(v0, player, i);
            assert(v1.ent_at(player) == crate::entity::spec_ent_logic(v0.ent_at(player)));
        }
        if v0.contains_id(player) {
            let i = v0.id_index(player);
            assert(v1.entities[i].0 == player);
            lemma_id_index_unique(v1, player, i);
        }
    }

    let eff = control.update(registry, player, signals);
    let ghost v2 = registry@;
    proof {
        assert(v2.counter == v0.counter);
        assert(v2.buffer.len() <= v0.buffer.len() + 1);
    }
    let spawned = registry.execute_deferred();
    (eff, spawned)
}

} // verus!
