//! The controller-to-entity adapter: maps the per-tick binary input
//! signals to axis intents. Each active signal contributes plus or minus
//! one full deflection on one axis; all smoothing state lives in the
//! ship, the controller keeps none.

use vstd::prelude::*;
use crate::registry::Action;
use crate::registry::Registry;
use crate::registry::action_wf;
use crate::registry::spec_step_effect;
use crate::ship::ControlEffect;

verus! {

/// One full control deflection, in the fixed-point axis units
/// (thousandths) that the whole control path uses.
pub const AXIS_UNIT: i64 = 1000;

/// The states of the logical input signals, polled once per tick by the
/// input collaborator: pitch up/down, yaw left/right, roll left/right,
/// forward/reverse throttle, and fire.
#[derive(Clone, Copy)]
pub struct Signals {
    pub pu: bool,
    pub pd: bool,
    pub yl: bool,
    pub yr: bool,
    pub rl: bool,
    pub rr: bool,
    pub fwd: bool,
    pub rev: bool,
    pub pew: bool,
}

impl Signals {
    /// No signal active.
    pub fn none() -> (s: Signals)
        ensures
            s == (Signals {
                pu: false,
                pd: false,
                yl: false,
                yr: false,
                rl: false,
                rr: false,
                fwd: false,
                rev: false,
                pew: false,
            }),
    {
        Signals {
            pu: false,
            pd: false,
            yl: false,
            yr: false,
            rl: false,
            rr: false,
            fwd: false,
            rev: false,
            pew: false,
        }
    }
}

/// The aggregate pitch intent: up minus down, one unit each.
pub open spec fn spec_pitch(s: Signals) -> int {
    (if s.pu { AXIS_UNIT as int } else { 0 }) - (if s.pd { AXIS_UNIT as int } else { 0 })
}

/// The aggregate yaw intent: left minus right.
pub open spec fn spec_yaw(s: Signals) -> int {
    (if s.yl { AXIS_UNIT as int } else { 0 }) - (if s.yr { AXIS_UNIT as int } else { 0 })
}

/// The aggregate roll intent: left minus right.
pub open spec fn spec_roll(s: Signals) -> int {
    (if s.rl { AXIS_UNIT as int } else { 0 }) - (if s.rr { AXIS_UNIT as int } else { 0 })
}

/// The aggregate throttle intent: forward minus reverse.
pub open spec fn spec_throttle(s: Signals) -> int {
    (if s.fwd { AXIS_UNIT as int } else { 0 }) - (if s.rev { AXIS_UNIT as int } else { 0 })
}

/// The control pass one poll of the signals requests of the controlled
/// entity.
pub open spec fn control_action(s: Signals) -> Action {
    Action::Control {
        pitch: spec_pitch(s) as i64,
        yaw: spec_yaw(s) as i64,
        roll: spec_roll(s) as i64,
        throttle: spec_throttle(s) as i64,
        shoot: s.pew,
    }
}

/// The controller-to-entity adapter itself. It keeps no state between
/// ticks; the binding of physical inputs to the logical signals lives
/// with the input collaborator.
pub struct Controller {}

impl Controller {
    /// One per-tick poll: aggregates the signal states into axis intents
    /// and forwards the aggregate to the controlled entity's control
    /// pass. The controlled entity, if live, must be a controllable
    /// variant; a missing target is a silent no-op.
    pub fn update(
        &self,
        registry: &mut Registry,
        target: u64,
        signals: &Signals,
    ) -> (eff: Option<ControlEffect>)
        requires
            old(registry)@.wf(),
            old(registry)@.contains_id(target) ==> old(registry)@.ent_at(target) is Ship,
        ensures
            final(registry)@.wf(),
            final(registry)@ == old(registry)@.after_apply_one(target, control_action(*signals)),
            eff == (if old(registry)@.contains_id(target) {
                spec_step_effect(old(registry)@.ent_at(target), control_action(*signals))
            } else {
                None::<ControlEffect>
            }),
    {
        let mut pitch: i64 = 0;
        let mut yaw: i64 = 0;
        let mut roll: i64 = 0;
        let mut throttle: i64 = 0;

        if signals.pu {
            pitch = pitch + AXIS_UNIT;
        }
        if signals.pd {
            pitch = pitch - AXIS_UNIT;
        }
        if signals.yl {
            yaw = yaw + AXIS_UNIT;
        }
        if signals.yr {
            yaw = yaw - AXIS_UNIT;
        }
        if signals.rl {
            roll = roll + AXIS_UNIT;
        }
        if signals.rr {
            roll = roll - AXIS_UNIT;
        }
        if signals.fwd {
            throttle = throttle + AXIS_UNIT;
        }
        if signals.rev {
            throttle = throttle - AXIS_UNIT;
        }

        let action = Action::Control { pitch, yaw, roll, throttle, shoot: signals.pew };
        proof {
            assert(action == control_action(*signals));
            assert(action_wf(action));
        }
        registry.apply_one(target, action)
    }
}

} // verus!
