//! Ships: the controllable entity variant. A ship smooths raw control
//! input into thrust and torque requests for the physics collaborator,
//! and fires projectiles subject to a reload cooldown.
//!
//! Control axes are fixed-point values in thousandths of one full
//! deflection (`AXIS_UNIT`), so the exponential smoothing with factor 0.1
//! becomes exact integer arithmetic: one smoothing step moves the stored
//! value to `(raw + 9 * old) / 10`, rounded toward zero.

use vstd::prelude::*;
use vstd::arithmetic::div_mod::lemma_fundamental_div_mod;
use vstd::arithmetic::div_mod::lemma_fundamental_div_mod_converse_div;
use vstd::arithmetic::div_mod::lemma_fundamental_div_mod_converse_mod;
use vstd::arithmetic::power::pow;
use crate::controller::AXIS_UNIT;
use crate::entity::Entity;
use crate::entity::NO_TAG;

verus! {

/// Ticks between shots: firing resets the cooldown to this value.
pub const RELOAD_TICKS: u32 = 60;

/// Damage carried by each projectile a ship fires.
pub const SHOT_DAMAGE: u32 = 1;

/// Integer division by ten rounding toward zero, the rounding the
/// executable smoothing step performs.
pub open spec fn tdiv10(x: int) -> int {
    if x >= 0 {
        x / 10
    } else {
        -((-x) / 10)
    }
}

/// One smoothing step: a nonzero raw input is blended in with weight one
/// tenth, while a raw input of exactly zero snaps the smoothed value back
/// to zero at once, not decayed.
pub open spec fn spec_fade_in(cur: int, new: int) -> int {
    if new != 0 {
        tdiv10(new + 9 * cur)
    } else {
        0
    }
}

pub struct Ship {
    pub entity: Entity,
    pub hitpoints: u32,
    /// Smoothed control axes, in thousandths of full deflection.
    pub pitch: i64,
    pub yaw: i64,
    pub roll: i64,
    /// Ticks remaining until the ship may fire again; zero means ready.
    pub fire_delay: u32,
}

/// The local-frame force request and fire outcome of one control pass.
/// The driver rotates these into world space by the body's orientation
/// and hands them to the physics collaborator.
pub struct ControlEffect {
    /// Linear force along the body's local forward axis.
    pub thrust: i64,
    /// Angular force components, the freshly smoothed axis values.
    pub pitch: i64,
    pub yaw: i64,
    pub roll: i64,
    /// Whether a projectile spawn was requested this pass.
    pub fired: bool,
}

/// The per-tick logic pass of a ship: the fire cooldown counts down
/// toward zero and is clamped there.
pub open spec fn spec_update_logic(s: Ship) -> Ship {
    Ship {
        fire_delay: if s.fire_delay > 0 { (s.fire_delay - 1) as u32 } else { 0u32 },
        ..s
    }
}

/// Whether a control pass with fire requested actually fires: only when
/// the cooldown has fully elapsed.
pub open spec fn spec_fired(s: Ship, shoot: bool) -> bool {
    shoot && s.fire_delay == 0
}

/// The state a ship reaches after one control pass: axes smoothed (the
/// raw pitch enters negated), and the cooldown reset iff a shot leaves.
pub open spec fn spec_handle_controls(s: Ship, pitch: int, yaw: int, roll: int, shoot: bool) -> Ship {
    Ship {
        pitch: spec_fade_in(s.pitch as int, -pitch) as i64,
        yaw: spec_fade_in(s.yaw as int, yaw) as i64,
        roll: spec_fade_in(s.roll as int, roll) as i64,
        fire_delay: if spec_fired(s, shoot) { RELOAD_TICKS } else { s.fire_delay },
        ..s
    }
}

impl Ship {
    /// Smoothed axes stay within one full deflection and the cooldown
    /// never exceeds the reload interval.
    pub open spec fn wf(self) -> bool {
        &&& -AXIS_UNIT <= self.pitch <= AXIS_UNIT
        &&& -AXIS_UNIT <= self.yaw <= AXIS_UNIT
        &&& -AXIS_UNIT <= self.roll <= AXIS_UNIT
        &&& self.fire_delay <= RELOAD_TICKS
    }

    /// A new ship, not yet registered, at rest: no smoothed input and a
    /// cooldown ready to fire. Its physics body and mesh live with the
    /// external collaborators; the spawn position belongs to them too.
    pub fn new(hp: u32) -> (s: Ship)
        ensures
            s.wf(),
            s.entity.spec_tag() == NO_TAG,
            s.hitpoints == hp,
            s.pitch == 0 && s.yaw == 0 && s.roll == 0,
            s.fire_delay == 0,
    {
        Ship {
            entity: Entity::new(),
            hitpoints: hp,
            pitch: 0,
            yaw: 0,
            roll: 0,
            fire_delay: 0,
        }
    }

    /// Per-tick logic: the fire cooldown counts down, clamped at zero.
    pub fn update_logic(&mut self)
        ensures
            *final(self) == spec_update_logic(*old(self)),
            old(self).wf() ==> final(self).wf(),
    {
        if self.fire_delay > 0 {
            self.fire_delay = self.fire_delay - 1;
        }
    }

    /// The fire decision: a no-op while the cooldown runs, otherwise the
    /// cooldown resets to the reload interval and a shot leaves.
    pub fn shoot(&mut self) -> (fired: bool)
        ensures
            fired == (old(self).fire_delay == 0),
            final(self).fire_delay == if fired { RELOAD_TICKS } else { old(self).fire_delay },
            final(self).entity == old(self).entity,
            final(self).hitpoints == old(self).hitpoints,
            final(self).pitch == old(self).pitch,
            final(self).yaw == old(self).yaw,
            final(self).roll == old(self).roll,
    {
        if self.fire_delay > 0 {
            return false;
        }
        self.fire_delay = RELOAD_TICKS;
        true
    }

    /// One control pass. The raw axis intents arrive in thousandths of
    /// full deflection; the stored axes are smoothed against them and the
    /// resulting local-frame force request is returned for the driver to
    /// apply to the physics body. A shot is requested iff fire is held
    /// while the cooldown is at zero.
    pub fn handle_controls(
        &mut self,
        pitch: i64,
        yaw: i64,
        roll: i64,
        throttle: i64,
        shoot: bool,
    ) -> (eff: ControlEffect)
        requires
            old(self).wf(),
            -AXIS_UNIT <= pitch <= AXIS_UNIT,
            -AXIS_UNIT <= yaw <= AXIS_UNIT,
            -AXIS_UNIT <= roll <= AXIS_UNIT,
        ensures
            *final(self) == spec_handle_controls(
                *old(self),
                pitch as int,
                yaw as int,
                roll as int,
                shoot,
            ),
            final(self).wf(),
            eff.thrust == throttle,
            eff.pitch == final(self).pitch,
            eff.yaw == final(self).yaw,
            eff.roll == final(self).roll,
            eff.fired == spec_fired(*old(self), shoot),
    {
        self.pitch = fade_in(self.pitch, -pitch);
        self.yaw = fade_in(self.yaw, yaw);
        self.roll = fade_in(self.roll, roll);

        let fired: bool = if shoot { self.shoot() } else { false };

        ControlEffect {
            thrust: throttle,
            pitch: self.pitch,
            yaw: self.yaw,
            roll: self.roll,
            fired,
        }
    }

    /// Tags the ship's physics body with its logical ID.
    pub fn set_entity_id(&mut self, id: u64)
        requires
            old(self).entity.spec_tag() == NO_TAG,
            id != NO_TAG,
        ensures
            final(self).entity.spec_tag() == id,
            final(self).hitpoints == old(self).hitpoints,
            final(self).pitch == old(self).pitch,
            final(self).yaw == old(self).yaw,
            final(self).roll == old(self).roll,
            final(self).fire_delay == old(self).fire_delay,
    {
        self.entity.set_entity_id(id);
    }
}

/// Exponential smoothing of one axis with factor one tenth, on
/// fixed-point values: `(new + 9 * cur) / 10` rounded toward zero, except
/// that a raw input of exactly zero resets the axis to zero.
fn fade_in(cur: i64, new: i64) -> (r: i64)
    requires
        -AXIS_UNIT <= cur <= AXIS_UNIT,
        -AXIS_UNIT <= new <= AXIS_UNIT,
    ensures
        r == spec_fade_in(cur as int, new as int),
        -AXIS_UNIT <= r <= AXIS_UNIT,
{
    if new != 0 {
        let num: i64 = new + 9 * cur;
        if num >= 0 {
            num / 10
        } else {
            -((-num) / 10)
        }
    } else {
        0
    }
}

/// Division by ten toward zero loses at most nine tenths, always toward
/// zero: `10 * tdiv10(x)` lies within nine of `x`, on the zero side.
pub proof fn lemma_tdiv10_bounds(x: int)
    ensures
        x - 9 <= 10 * tdiv10(x) <= x + 9,
        x >= 0 ==> 10 * tdiv10(x) <= x,
        x <= 0 ==> 10 * tdiv10(x) >= x,
{
    if x >= 0 {
        lemma_fundamental_div_mod(x, 10);
    } else {
        lemma_fundamental_div_mod(-x, 10);
    }
}

/// Smoothing law, snap-to-zero half: when the raw input for an axis is
/// exactly zero, the very next smoothed value is exactly zero — not a
/// decayed remainder.
pub proof fn lemma_fade_snaps_to_zero(cur: int)
    ensures
        spec_fade_in(cur, 0) == 0,
{
}

/// A smoothed axis that has reached a held nonzero raw input stays there
/// exactly: the target is a fixed point of the smoothing step.
pub proof fn lemma_fade_fixpoint(t: int)
    requires
        t != 0,
    ensures
        spec_fade_in(t, t) == t,
{
    if 10 * t >= 0 {
        lemma_fundamental_div_mod_converse_div(10 * t, 10, t, 0);
    } else {
        lemma_fundamental_div_mod_converse_div(-(10 * t), 10, -t, 0);
    }
}

/// Smoothing law, per-tick ratio: under a held nonzero raw input `t`,
/// ten times the new distance to `t` lies within nine of nine times the
/// old distance — the distance shrinks with ratio exactly nine tenths,
/// up to one unit of fixed-point rounding.
pub proof fn lemma_fade_ratio(cur: int, t: int)
    requires
        t != 0,
    ensures
        9 * (cur - t) - 9 <= 10 * (spec_fade_in(cur, t) - t) <= 9 * (cur - t) + 9,
{
    lemma_tdiv10_bounds(t + 9 * cur);
}

/// Smoothing law, no overshoot: under a held nonzero raw input the
/// smoothed value moves from its current value toward the target and
/// never passes it.
pub proof fn lemma_fade_monotone(cur: int, t: int)
    requires
        t != 0,
        0 <= cur <= t || t <= cur <= 0,
    ensures
        0 <= cur <= t ==> cur <= spec_fade_in(cur, t) <= t,
        t <= cur <= 0 ==> t <= spec_fade_in(cur, t) <= cur,
{
    lemma_tdiv10_bounds(t + 9 * cur);
}

/// The smoothed value an axis holds after `n` ticks of the held raw
/// input `t`, starting from `cur`.
pub open spec fn spec_fade_iter(cur: int, t: int, n: nat) -> int
    decreases n,
{
    if n == 0 {
        cur
    } else {
        spec_fade_in(spec_fade_iter(cur, t, (n - 1) as nat), t)
    }
}

/// Smoothing law, convergence: under a held nonzero raw input `t` the
/// distance between the smoothed value and `t` decays geometrically with
/// ratio nine tenths per tick, within a nine-unit band of fixed-point
/// rounding: after `n` ticks, `10^n * (distance - 9) <= 9^n *
/// (distance_0 - 9)` and `10^n * (distance + 9) >= 9^n * (distance_0 +
/// 9)`, where distances are signed differences from `t`.
pub proof fn lemma_fade_converges(cur: int, t: int, n: nat)
    requires
        t != 0,
    ensures
        pow(10, n) * (spec_fade_iter(cur, t, n) - t - 9) <= pow(9, n) * (cur - t - 9),
        pow(10, n) * (spec_fade_iter(cur, t, n) - t + 9) >= pow(9, n) * (cur - t + 9),
    decreases n,
{
    reveal(pow);
    if n == 0 {
        assert(pow(10, 0) == 1 && pow(9, 0) == 1);
    } else {
        let m = (n - 1) as nat;
        lemma_fade_converges(cur, t, m);
        let s = spec_fade_iter(cur, t, m);
        let s2 = spec_fade_iter(cur, t, n);
        assert(s2 == spec_fade_in(s, t));
        lemma_fade_ratio(s, t);
        let p10 = pow(10, m);
        let p9 = pow(9, m);
        assert(pow(10, n) == 10 * p10 && pow(9, n) == 9 * p9);
        assert(p10 > 0) by {
            vstd::arithmetic::power::lemma_pow_positive(10, m);
        }
        assert(p9 > 0) by {
            vstd::arithmetic::power::lemma_pow_positive(9, m);
        }
        assert((10 * p10) * (s2 - t - 9) <= (9 * p9) * (cur - t - 9)) by (nonlinear_arith)
            requires
                10 * (s2 - t) <= 9 * (s - t) + 9,
                p10 * (s - t - 9) <= p9 * (cur - t - 9),
                p10 > 0,
                p9 > 0,
        ;
        assert((10 * p10) * (s2 - t + 9) >= (9 * p9) * (cur - t + 9)) by (nonlinear_arith)
            requires
                10 * (s2 - t) >= 9 * (s - t) - 9,
                p10 * (s - t + 9) >= p9 * (cur - t + 9),
                p10 > 0,
                p9 > 0,
        ;
    }
}

/// The ship state reached after one full tick with fire held and no
/// axis input: the logic pass, then the control pass.
pub open spec fn spec_fire_tick(s: Ship) -> Ship {
    spec_handle_controls(spec_update_logic(s), 0, 0, 0, true)
}

/// The ship state after `n` such ticks.
pub open spec fn spec_fire_ticks(s: Ship, n: nat) -> Ship
    decreases n,
{
    if n == 0 {
        s
    } else {
        spec_fire_tick(spec_fire_ticks(s, (n - 1) as nat))
    }
}

/// How many shots leave in the first `n` such ticks.
pub open spec fn spec_shots(s: Ship, n: nat) -> nat
    decreases n,
{
    if n == 0 {
        0
    } else {
        spec_shots(s, (n - 1) as nat) + (if spec_fired(
            spec_update_logic(spec_fire_ticks(s, (n - 1) as nat)),
            true,
        ) {
            1nat
        } else {
            0nat
        })
    }
}

/// Stepping a counter by one moves its quotient and remainder by sixty
/// in the expected way.
proof fn lemma_succ_div_mod_60(a: nat)
    ensures
        (a + 1) % 60 == (if a % 60 == 59 {
            0int
        } else {
            (a % 60 + 1) as int
        }),
        (a + 1) / 60 == (if a % 60 == 59 {
            a / 60 + 1
        } else {
            a / (60 as nat)
        }),
{
    lemma_fundamental_div_mod(a as int, 60);
    if a % 60 == 59 {
        lemma_fundamental_div_mod_converse_mod((a + 1) as int, 60, (a / 60 + 1) as int, 0);
        lemma_fundamental_div_mod_converse_div((a + 1) as int, 60, (a / 60 + 1) as int, 0);
    } else {
        lemma_fundamental_div_mod_converse_mod(
            (a + 1) as int,
            60,
            (a / 60) as int,
            (a % 60 + 1) as int,
        );
        lemma_fundamental_div_mod_converse_div(
            (a + 1) as int,
            60,
            (a / 60) as int,
            (a % 60 + 1) as int,
        );
    }
}

/// Fire-cooldown law: with fire requested on every tick of a ship whose
/// cooldown starts at zero, exactly one projectile leaves every
/// `RELOAD_TICKS` ticks — after `n` ticks, `1 + (n-1)/60` shots have
/// left — and right after the `n`th tick the cooldown reads `60 -
/// ((n-1) % 60)`; it is never negative, being a count-down clamped at
/// zero.
pub proof fn lemma_fire_cooldown(s: Ship, n: nat)
    requires
        s.fire_delay == 0,
        n >= 1,
    ensures
        spec_fire_ticks(s, n).fire_delay == RELOAD_TICKS - (((n - 1) as nat % 60) as int),
        spec_shots(s, n) == 1 + (n - 1) as nat / 60,
    decreases n,
{
    if n == 1 {
        assert(spec_fire_ticks(s, 0) == s);
        assert(spec_fired(spec_update_logic(s), true));
        assert(spec_shots(s, 1) == spec_shots(s, 0) + 1);
        assert((0 as nat) / 60 == 0 && (0 as nat) % 60 == 0) by {
            lemma_fundamental_div_mod_converse_div(0, 60, 0, 0);
            lemma_fundamental_div_mod_converse_mod(0, 60, 0, 0);
        }
    } else {
        let m = (n - 1) as nat;
        lemma_fire_cooldown(s, m);
        lemma_succ_div_mod_60((m - 1) as nat);
        let prev = spec_fire_ticks(s, m);
        assert(prev.fire_delay == 60 - ((m - 1) as nat % 60));
        let after_logic = spec_update_logic(prev);
        if (m - 1) as nat % 60 == 59 {
            assert(after_logic.fire_delay == 0);
            assert(spec_fired(after_logic, true));
            assert(spec_shots(s, n) == spec_shots(s, m) + 1);
        } else {
            assert(after_logic.fire_delay != 0);
            assert(!spec_fired(after_logic, true));
            assert(spec_shots(s, n) == spec_shots(s, m));
        }
    }
}

} // verus!
