//! The entity registry: owns all live entities by logical ID, allocates
//! IDs from a counter that only increases, buffers entities spawned
//! during a tick so they join the live set only at the commit point, and
//! recovers logical identities from collision events.

use vstd::prelude::*;
use crate::bullet::BULLET_TTL;
use crate::bullet::Bullet;
use crate::controller::AXIS_UNIT;
use crate::entity::Ent;
use crate::entity::Entity;
use crate::entity::NO_TAG;
use crate::entity::spec_ent_control;
use crate::entity::spec_ent_fired;
use crate::entity::spec_ent_logic;
use crate::entity::spec_ent_with_tag;
use crate::ship::ControlEffect;
use crate::ship::SHOT_DAMAGE;

verus! {

/// One pass over entities: the per-tick logic pass, or the control pass
/// carrying the raw axis intents and the fire flag.
pub enum Action {
    Logic,
    Control { pitch: i64, yaw: i64, roll: i64, throttle: i64, shoot: bool },
}

/// Control intents must stay within one full deflection per axis.
pub open spec fn action_wf(a: Action) -> bool {
    a matches Action::Control { pitch, yaw, roll, .. } ==> -AXIS_UNIT <= pitch <= AXIS_UNIT
        && -AXIS_UNIT <= yaw <= AXIS_UNIT && -AXIS_UNIT <= roll <= AXIS_UNIT
}

/// Which entities an action may be applied to: only ships support the
/// control pass; wiring the controller to another variant is a
/// programming-contract violation.
pub open spec fn applicable(a: Action, e: Ent) -> bool {
    a is Control ==> e is Ship
}

/// The state an entity reaches under one action.
pub open spec fn spec_step(e: Ent, a: Action) -> Ent {
    match a {
        Action::Logic => spec_ent_logic(e),
        Action::Control { pitch, yaw, roll, shoot, .. } => spec_ent_control(
            e,
            pitch as int,
            yaw as int,
            roll as int,
            shoot,
        ),
    }
}

/// Whether the action makes this entity fire a shot.
pub open spec fn spec_step_fires(e: Ent, a: Action) -> bool {
    match a {
        Action::Logic => false,
        Action::Control { shoot, .. } => spec_ent_fired(e, shoot),
    }
}

/// The projectile that a fired shot enqueues for deferred spawning.
pub open spec fn spec_shot_bullet() -> Ent {
    Ent::Bullet(Bullet { entity: Entity { tag: NO_TAG }, ttl: BULLET_TTL, damage: SHOT_DAMAGE })
}

/// The control effect an action on an entity reports back to the driver,
/// if any: only the control pass on a ship produces one.
pub open spec fn spec_step_effect(e: Ent, a: Action) -> Option<ControlEffect> {
    match a {
        Action::Logic => None,
        Action::Control { pitch, yaw, roll, throttle, shoot } => match spec_ent_control(
            e,
            pitch as int,
            yaw as int,
            roll as int,
            shoot,
        ) {
            Ent::Ship(s2) => Some(
                ControlEffect {
                    thrust: throttle,
                    pitch: s2.pitch,
                    yaw: s2.yaw,
                    roll: s2.roll,
                    fired: spec_ent_fired(e, shoot),
                },
            ),
            _ => None,
        },
    }
}

/// The projectiles that one pass over the given live sequence enqueues,
/// in visiting order.
pub open spec fn spec_spawns(s: Seq<(u64, Ent)>, a: Action) -> Seq<Ent>
    decreases s.len(),
{
    if s.len() == 0 {
        Seq::empty()
    } else {
        spec_spawns(s.drop_last(), a) + if spec_step_fires(s.last().1, a) {
            seq![spec_shot_bullet()]
        } else {
            Seq::empty()
        }
    }
}

/// Every projectile a pass enqueues is untagged and well formed.
pub proof fn lemma_spawns_wf(s: Seq<(u64, Ent)>, a: Action)
    ensures
        buffer_wf(spec_spawns(s, a)),
    decreases s.len(),
{
    if s.len() > 0 {
        lemma_spawns_wf(s.drop_last(), a);
        let t = spec_spawns(s, a);
        let p = spec_spawns(s.drop_last(), a);
        assert forall|i: int| 0 <= i < t.len() implies (#[trigger] t[i]).spec_tag() == NO_TAG
            && t[i].wf() by {
            if i < p.len() {
                assert(t[i] == p[i]);
            } else {
                assert(t[i] == spec_shot_bullet());
            }
        }
    }
}

/// The registry's live set is kept as a vector of `(id, entity)` pairs in
/// ascending ID order; IDs are allocated from `counter`, which starts at
/// 1 (0 is the absent-tag sentinel) and only ever grows.
pub struct Registry {
    counter: u64,
    entities: Vec<(u64, Ent)>,
    buffer: Vec<Ent>,
}

/// The mathematical face of a registry: the ID counter, the live
/// sequence, and the pending-spawn buffer.
#[verifier::ext_equal]
pub struct RegistryView {
    pub counter: u64,
    pub entities: Seq<(u64, Ent)>,
    pub buffer: Seq<Ent>,
}

impl View for Registry {
    type V = RegistryView;

    closed spec fn view(&self) -> RegistryView {
        RegistryView {
            counter: self.counter,
            entities: self.entities@,
            buffer: self.buffer@,
        }
    }
}

impl RegistryView {
    /// Whether some live entity carries the given ID.
    pub open spec fn contains_id(self, id: u64) -> bool {
        exists|i: int| 0 <= i < self.entities.len() && (#[trigger] self.entities[i]).0 == id
    }

    /// The position of the given ID in the live sequence (meaningful only
    /// when `contains_id` holds; under `wf` it is unique).
    pub open spec fn id_index(self, id: u64) -> int {
        choose|i: int| 0 <= i < self.entities.len() && (#[trigger] self.entities[i]).0 == id
    }

    /// The live entity at the given ID (meaningful only when
    /// `contains_id` holds).
    pub open spec fn ent_at(self, id: u64) -> Ent {
        self.entities[self.id_index(id)].1
    }

    /// The registry invariant: the live set is well formed against the
    /// counter, and every buffered entity is still untagged.
    pub open spec fn wf(self) -> bool {
        &&& live_wf(self.counter, self.entities)
        &&& buffer_wf(self.buffer)
    }

    /// The registry after one pass over every live entity.
    pub open spec fn after_apply_all(self, a: Action) -> RegistryView {
        RegistryView {
            counter: self.counter,
            entities: Seq::new(
                self.entities.len(),
                (|i: int| (self.entities[i].0, spec_step(self.entities[i].1, a))),
            ),
            buffer: self.buffer + spec_spawns(self.entities, a),
        }
    }

    /// The registry after one pass applied to the entity at `id`: the
    /// identity if `id` is not live.
    pub open spec fn after_apply_one(self, id: u64, a: Action) -> RegistryView {
        if self.contains_id(id) {
            RegistryView {
                counter: self.counter,
                entities: self.entities.update(
                    self.id_index(id),
                    (id, spec_step(self.ent_at(id), a)),
                ),
                buffer: if spec_step_fires(self.ent_at(id), a) {
                    self.buffer.push(spec_shot_bullet())
                } else {
                    self.buffer
                },
            }
        } else {
            self
        }
    }

    /// The live entries that committing the pending buffer appends:
    /// each buffered entity tagged with a consecutive ID from the
    /// counter, in buffer (FIFO) order.
    pub open spec fn committed_entries(self) -> Seq<(u64, Ent)> {
        Seq::new(
            self.buffer.len(),
            (|i: int|
                (
                    (self.counter + i) as u64,
                    spec_ent_with_tag(self.buffer[i], (self.counter + i) as u64),
                )),
        )
    }

    /// The IDs that committing the pending buffer assigns, in order.
    pub open spec fn spawned_ids(self) -> Seq<u64> {
        Seq::new(self.buffer.len(), (|i: int| (self.counter + i) as u64))
    }

    /// The registry after committing the pending buffer.
    pub open spec fn after_execute_deferred(self) -> RegistryView {
        RegistryView {
            counter: (self.counter + self.buffer.len()) as u64,
            entities: self.entities + self.committed_entries(),
            buffer: Seq::empty(),
        }
    }
}

/// Well-formedness of the live set: the counter starts no lower than 1,
/// live IDs are strictly ascending and all below the counter, and every
/// live entity is tagged with its own key.
pub open spec fn live_wf(counter: u64, entities: Seq<(u64, Ent)>) -> bool {
    &&& counter >= 1
    &&& forall|i: int|
        0 <= i < entities.len() ==> NO_TAG < (#[trigger] entities[i]).0 < counter
    &&& forall|i: int, j: int|
        0 <= i < j < entities.len() ==> (#[trigger] entities[i]).0 < (#[trigger] entities[j]).0
    &&& forall|i: int|
        0 <= i < entities.len() ==> (#[trigger] entities[i]).1.spec_tag() == entities[i].0
            && entities[i].1.wf()
}

/// Well-formedness of the pending-spawn buffer: entities waiting there
/// have no logical ID yet.
pub open spec fn buffer_wf(buffer: Seq<Ent>) -> bool {
    forall|i: int|
        0 <= i < buffer.len() ==> (#[trigger] buffer[i]).spec_tag() == NO_TAG && buffer[i].wf()
}

/// The per-tick logic pass never enqueues a spawn: only the control pass
/// can fire.
pub proof fn lemma_logic_spawns_none(s: Seq<(u64, Ent)>)
    ensures
        spec_spawns(s, Action::Logic) == Seq::<Ent>::empty(),
    decreases s.len(),
{
    if s.len() > 0 {
        lemma_logic_spawns_none(s.drop_last());
        assert(spec_spawns(s, Action::Logic) =~= Seq::<Ent>::empty());
    }
}

/// IDs are never reused: in a well-formed registry every live ID lies
/// below the counter, so any ID the registry assigns from here on — the
/// counter's value or above, since the counter only grows — differs from
/// every ID currently or previously live.
pub proof fn lemma_future_ids_fresh(v: RegistryView, id: u64)
    requires
        v.wf(),
        id >= v.counter,
    ensures
        !v.contains_id(id),
{
    if v.contains_id(id) {
        let i = v.id_index(id);
        assert(v.entities[i].0 < v.counter);
    }
}

/// Applying a pass to an ID that was never registered or has since been
/// removed is a no-op: the registry is left exactly as it was.
pub proof fn lemma_apply_one_missing_is_noop(v: RegistryView, id: u64, a: Action)
    requires
        !v.contains_id(id),
    ensures
        v.after_apply_one(id, a) == v,
{
}

/// Deferred spawns are invisible to the tick that issues them: the logic
/// and control passes of a tick visit exactly the IDs that were live
/// when the tick began, every entity committed from the pending buffer
/// at the tick's commit point carries an ID that was not live before,
/// and from the commit point on — hence for the next tick's passes — it
/// is live.
pub proof fn lemma_deferred_visibility(v0: RegistryView, player: u64, a: Action)
    requires
        v0.wf(),
        v0.counter + v0.buffer.len() + 1 <= u64::MAX,
    ensures
        ({
            let v1 = v0.after_apply_all(Action::Logic);
            let v2 = v1.after_apply_one(player, a);
            let v3 = v2.after_execute_deferred();
            &&& v1.entities.len() == v0.entities.len()
            &&& v2.entities.len() == v0.entities.len()
            &&& forall|i: int|
                0 <= i < v0.entities.len() ==> (#[trigger] v1.entities[i]).0 == v0.entities[i].0
                    && (#[trigger] v2.entities[i]).0 == v0.entities[i].0
            &&& forall|j: int|
                v2.entities.len() <= j < v3.entities.len() ==> !v0.contains_id(
                    (#[trigger] v3.entities[j]).0,
                ) && v3.contains_id(v3.entities[j].0)
        }),
{
    let v1 = v0.after_apply_all(Action::Logic);
    let v2 = v1.after_apply_one(player, a);
    let v3 = v2.after_execute_deferred();
    assert(v1.counter == v0.counter && v2.counter == v0.counter);
    assert(v2.buffer.len() <= v0.buffer.len() + 1) by {
        lemma_logic_spawns_none(v0.entities);
        assert(v1.buffer =~= v0.buffer);
    }
    assert forall|j: int| v2.entities.len() <= j < v3.entities.len() implies !v0.contains_id(
        (#[trigger] v3.entities[j]).0,
    ) && v3.contains_id(v3.entities[j].0) by {
        let k = j - v2.entities.len();
        assert(v3.entities[j] == v2.committed_entries()[k]);
        assert(v3.entities[j].0 == (v2.counter + k) as u64);
        assert(v3.entities[j].0 >= v0.counter);
        lemma_future_ids_fresh(v0, v3.entities[j].0);
    }
}

/// Under the registry invariant, no two live entities share an ID.
pub proof fn lemma_live_ids_unique(v: RegistryView)
    requires
        v.wf(),
    ensures
        forall|i: int, j: int|
            0 <= i < v.entities.len() && 0 <= j < v.entities.len() && i != j
                ==> (#[trigger] v.entities[i]).0 != (#[trigger] v.entities[j]).0,
{
}

/// Under the registry invariant, the position of a live ID is exactly the
/// index where it is found: any index holding `id` is `id_index(id)`.
pub proof fn lemma_id_index_unique(v: RegistryView, id: u64, i: int)
    requires
        v.wf(),
        0 <= i < v.entities.len(),
        v.entities[i].0 == id,
    ensures
        v.contains_id(id),
        v.id_index(id) == i,
        v.ent_at(id) == v.entities[i].1,
{
    lemma_live_ids_unique(v);
}

impl Registry {
    /// An empty registry; the first assigned ID will be 1.
    pub fn new() -> (r: Registry)
        ensures
            r@.wf(),
            r@.counter == 1,
            r@.entities.len() == 0,
            r@.buffer.len() == 0,
    {
        Registry { counter: 1, entities: Vec::new(), buffer: Vec::new() }
    }

    /// Registers an already-constructed, untagged entity immediately:
    /// allocates the next logical ID, tags the entity with it, and
    /// appends it to the live set. Infallible; the returned ID is fresh —
    /// above every ID ever assigned before.
    pub fn add(&mut self, entity: Ent) -> (id: u64)
        requires
            old(self)@.wf(),
            entity.spec_tag() == NO_TAG,
            entity.wf(),
            old(self)@.counter < u64::MAX,
        ensures
            final(self)@.wf(),
            id == old(self)@.counter,
            final(self)@.counter == old(self)@.counter + 1,
            final(self)@.entities == old(self)@.entities.push((id, spec_ent_with_tag(entity, id))),
            final(self)@.buffer == old(self)@.buffer,
            final(self)@.contains_id(id),
    {
        let id = self.counter;
        self.counter = self.counter + 1;

        let mut entity = entity;
        entity.set_entity_id(id);
        self.entities.push((id, entity));

        proof {
            let pre = old(self)@;
            let post = self@;
            assert(post.entities == pre.entities.push(
                (id, spec_ent_with_tag(entity, id)),
            ));
            assert forall|i: int| 0 <= i < post.entities.len() implies NO_TAG
                < (#[trigger] post.entities[i]).0 < post.counter by {
                if i < pre.entities.len() {
                    assert(post.entities[i] == pre.entities[i]);
                }
            }
            assert forall|i: int, j: int| 0 <= i < j < post.entities.len() implies (
            #[trigger] post.entities[i]).0 < (#[trigger] post.entities[j]).0 by {
                if j < pre.entities.len() {
                    assert(post.entities[i] == pre.entities[i]);
                    assert(post.entities[j] == pre.entities[j]);
                } else {
                    assert(post.entities[i] == pre.entities[i]);
                    assert(post.entities[j].0 == id);
                }
            }
            assert forall|i: int| 0 <= i < post.entities.len() implies (
            #[trigger] post.entities[i]).1.spec_tag() == post.entities[i].0
                && post.entities[i].1.wf() by {
                if i < pre.entities.len() {
                    assert(post.entities[i] == pre.entities[i]);
                }
            }
            assert(post.entities[post.entities.len() - 1].0 == id);
        }
        id
    }

    /// Appends an entity to the pending-spawn buffer. No ID is allocated
    /// and the live set is untouched, so this is safe to request from
    /// within a pass that is iterating the live set; the entity becomes
    /// live only when `execute_deferred` commits it.
    pub fn add_deferred(&mut self, entity: Ent)
        requires
            old(self)@.wf(),
            entity.spec_tag() == NO_TAG,
            entity.wf(),
        ensures
            final(self)@.wf(),
            final(self)@.counter == old(self)@.counter,
            final(self)@.entities == old(self)@.entities,
            final(self)@.buffer == old(self)@.buffer.push(entity),
    {
        self.buffer.push(entity);
        proof {
            let pre = old(self)@;
            let post = self@;
            assert forall|i: int| 0 <= i < post.buffer.len() implies (
            #[trigger] post.buffer[i]).spec_tag() == NO_TAG && post.buffer[i].wf() by {
                if i < pre.buffer.len() {
                    assert(post.buffer[i] == pre.buffer[i]);
                }
            }
        }
    }

    /// Drains the pending buffer in FIFO order, committing each buffered
    /// entity into the live set through the same path as `add`. Invoked
    /// once per tick, after the logic and control passes and before the
    /// physics step, so that freshly spawned entities take part in the
    /// step but were never visible to this tick's passes. Returns the
    /// assigned IDs, consecutive from the old counter, in commit order.
    #[verifier::loop_isolation(false)]
    pub fn execute_deferred(&mut self) -> (spawned: Vec<u64>)
        requires
            old(self)@.wf(),
            old(self)@.counter + old(self)@.buffer.len() <= u64::MAX,
        ensures
            final(self)@.wf(),
            final(self)@ == old(self)@.after_execute_deferred(),
            spawned@ == old(self)@.spawned_ids(),
    {
        let ghost pre = self@;
        let ghost committed = (|i: int|
            (
                (pre.counter + i) as u64,
                spec_ent_with_tag(pre.buffer[i], (pre.counter + i) as u64),
            ));
        let mut spawned: Vec<u64> = Vec::new();

        while self.buffer.len() > 0
            invariant
                self@.wf(),
                pre.wf(),
                pre.counter + pre.buffer.len() <= u64::MAX,
                spawned@.len() + self@.buffer.len() == pre.buffer.len(),
                self@.counter == pre.counter + spawned@.len(),
                self@.buffer == pre.buffer.skip(spawned@.len() as int),
                self@.entities == pre.entities + Seq::new(spawned@.len() as nat, committed),
                spawned@ == Seq::new(spawned@.len() as nat, (|i: int| (pre.counter + i) as u64)),
            decreases self.buffer.len(),
        {
            let ghost k = spawned@.len() as int;
            let e = self.buffer.remove(0);
            proof {
                assert(e == pre.buffer[k]);
                let buf = self@.buffer;
                assert forall|i: int| 0 <= i < buf.len() implies (#[trigger] buf[i]).spec_tag()
                    == NO_TAG && buf[i].wf() by {
                    assert(buf[i] == pre.buffer[k + 1 + i]);
                }
            }
            let id = self.add(e);
            spawned.push(id);
            proof {
                assert(self@.buffer =~= pre.buffer.skip(k + 1));
                assert(Seq::new((k + 1) as nat, committed) =~= Seq::new(k as nat, committed).push(
                    committed(k),
                ));
                assert(id == (pre.counter + k) as u64);
                assert(e == pre.buffer[k]);
                assert(committed(k) == (
                    (pre.counter + k) as u64,
                    spec_ent_with_tag(pre.buffer[k], (pre.counter + k) as u64),
                ));
                assert((id, spec_ent_with_tag(e, id)) == committed(k));
                assert((pre.entities + Seq::new(k as nat, committed)).push(committed(k))
                    =~= pre.entities + Seq::new(k as nat, committed).push(committed(k)));
                assert(self@.entities =~= pre.entities + Seq::new((k + 1) as nat, committed));
                assert(spawned@ =~= Seq::new(
                    (k + 1) as nat,
                    (|i: int| (pre.counter + i) as u64),
                ));
            }
        }
        proof {
            assert(self@.entities =~= pre.after_execute_deferred().entities);
            assert(self@ =~= pre.after_execute_deferred());
            assert(spawned@ =~= pre.spawned_ids());
        }
        spawned
    }

    /// Applies one action to the entity at `id`, if present. A missing
    /// `id` — never registered, or since removed — is a no-op, not an
    /// error, and never panics. A control pass returns the force request
    /// for the driver; a shot fired enqueues a projectile in the pending
    /// buffer, never in the live set.
    #[verifier::loop_isolation(false)]
    pub fn apply_one(&mut self, id: u64, action: Action) -> (eff: Option<ControlEffect>)
        requires
            old(self)@.wf(),
            action_wf(action),
            old(self)@.contains_id(id) ==> applicable(action, old(self)@.ent_at(id)),
        ensures
            final(self)@.wf(),
            final(self)@ == old(self)@.after_apply_one(id, action),
            eff == (if old(self)@.contains_id(id) {
                spec_step_effect(old(self)@.ent_at(id), action)
            } else {
                None::<ControlEffect>
            }),
    {
        let ghost pre = self@;
        let n = self.entities.len();
        let mut j: usize = 0;
        while j < n
            invariant
                j <= n,
                *self == *old(self),
                forall|k: int| 0 <= k < j ==> (#[trigger] pre.entities[k]).0 != id,
            decreases n - j,
        {
            if self.entities[j].0 == id {
                proof {
                    lemma_id_index_unique(pre, id, j as int);
                }
                let (eid, mut e) = self.entities.remove(j);
                let mut fired = false;
                let mut eff: Option<ControlEffect> = None;
                match action {
                    Action::Logic => {
                        e.update_logic();
                    },
                    Action::Control { pitch, yaw, roll, throttle, shoot } => {
                        let f = e.handle_controls(pitch, yaw, roll, throttle, shoot);
                        fired = f.fired;
                        eff = Some(f);
                    },
                }
                self.entities.insert(j, (eid, e));
                if fired {
                    self.buffer.push(Ent::Bullet(Bullet::new(SHOT_DAMAGE)));
                }
                proof {
                    let post = self@;
                    let stepped = spec_step(pre.ent_at(id), action);
                    assert(post.entities =~= pre.entities.update(j as int, (id, stepped)));
                    assert forall|i: int| 0 <= i < post.entities.len() implies NO_TAG < (
                    #[trigger] post.entities[i]).0 < post.counter by {
                        if i != j {
                            assert(post.entities[i] == pre.entities[i]);
                        }
                    }
                    assert forall|i: int, k: int| 0 <= i < k < post.entities.len() implies (
                    #[trigger] post.entities[i]).0 < (#[trigger] post.entities[k]).0 by {
                        assert(post.entities[i].0 == pre.entities[i].0);
                        assert(post.entities[k].0 == pre.entities[k].0);
                    }
                    assert forall|i: int| 0 <= i < post.entities.len() implies (
                    #[trigger] post.entities[i]).1.spec_tag() == post.entities[i].0
                        && post.entities[i].1.wf() by {
                        if i != j {
                            assert(post.entities[i] == pre.entities[i]);
                        }
                    }
                    if spec_step_fires(pre.ent_at(id), action) {
                        assert(post.buffer =~= pre.buffer.push(spec_shot_bullet()));
                        assert forall|i: int| 0 <= i < post.buffer.len() implies (
                        #[trigger] post.buffer[i]).spec_tag() == NO_TAG && post.buffer[i].wf() by {
                            if i < pre.buffer.len() {
                                assert(post.buffer[i] == pre.buffer[i]);
                            } else {
                                assert(post.buffer[i] == spec_shot_bullet());
                            }
                        }
                    }
                    assert(post =~= pre.after_apply_one(id, action));
                }
                return eff;
            }
            j = j + 1;
        }
        proof {
            assert(!pre.contains_id(id));
            assert(self@ =~= pre.after_apply_one(id, action));
        }
        None
    }

    /// Applies one action to every live entity, in ascending ID order;
    /// callers must not depend on the order across ticks. The live set
    /// keeps exactly its IDs; shots fired are enqueued in the pending
    /// buffer, in visiting order, and are not visited by this pass.
    #[verifier::loop_isolation(false)]
    pub fn apply_all(&mut self, action: Action)
        requires
            old(self)@.wf(),
            action_wf(action),
            forall|i: int|
                0 <= i < old(self)@.entities.len() ==> applicable(
                    action,
                    (#[trigger] old(self)@.entities[i]).1,
                ),
        ensures
            final(self)@.wf(),
            final(self)@ == old(self)@.after_apply_all(action),
    {
        let ghost pre = self@;
        let n = self.entities.len();
        let mut j: usize = 0;
        while j < n
            invariant
                j <= n,
                self@.counter == pre.counter,
                self@.entities.len() == n,
                forall|k: int|
                    j <= k < n ==> #[trigger] self@.entities[k] == pre.entities[k],
                forall|k: int|
                    0 <= k < j ==> #[trigger] self@.entities[k] == (
                        pre.entities[k].0,
                        spec_step(pre.entities[k].1, action),
                    ),
                self@.buffer == pre.buffer + spec_spawns(
                    pre.entities.take(j as int),
                    action,
                ),
            decreases n - j,
        {
            let ghost mid = self@;
            let (eid, mut e) = self.entities.remove(j);
            proof {
                assert(e == pre.entities[j as int].1);
            }
            let mut fired = false;
            match action {
                Action::Logic => {
                    e.update_logic();
                },
                Action::Control { pitch, yaw, roll, throttle, shoot } => {
                    let f = e.handle_controls(pitch, yaw, roll, throttle, shoot);
                    fired = f.fired;
                },
            }
            self.entities.insert(j, (eid, e));
            if fired {
                self.buffer.push(Ent::Bullet(Bullet::new(SHOT_DAMAGE)));
            }
            proof {
                let post = self@;
                assert(post.entities =~= mid.entities.update(
                    j as int,
                    (pre.entities[j as int].0, spec_step(pre.entities[j as int].1, action)),
                ));
                let front = pre.entities.take(j as int);
                let front1 = pre.entities.take(j + 1);
                assert(front1.drop_last() =~= front);
                assert(front1.last() == pre.entities[j as int]);
                if spec_step_fires(pre.entities[j as int].1, action) {
                    assert(post.buffer =~= pre.buffer + (spec_spawns(front, action)
                        + seq![spec_shot_bullet()]));
                } else {
                    assert(spec_spawns(front1, action) =~= spec_spawns(front, action));
                }
                assert(post.buffer =~= pre.buffer + spec_spawns(front1, action));
            }
            j = j + 1;
        }
        proof {
            let post = self@;
            assert(pre.entities.take(n as int) =~= pre.entities);
            assert forall|i: int| 0 <= i < post.entities.len() implies NO_TAG < (
            #[trigger] post.entities[i]).0 < post.counter by {
                assert(post.entities[i].0 == pre.entities[i].0);
            }
            assert forall|i: int, k: int| 0 <= i < k < post.entities.len() implies (
            #[trigger] post.entities[i]).0 < (#[trigger] post.entities[k]).0 by {
                assert(post.entities[i].0 == pre.entities[i].0);
                assert(post.entities[k].0 == pre.entities[k].0);
            }
            assert forall|i: int| 0 <= i < post.entities.len() implies (
            #[trigger] post.entities[i]).1.spec_tag() == post.entities[i].0
                && post.entities[i].1.wf() by {
                assert(post.entities[i] == (
                    pre.entities[i].0,
                    spec_step(pre.entities[i].1, action),
                ));
            }
            lemma_spawns_wf(pre.entities, action);
            let spawns = spec_spawns(pre.entities, action);
            assert forall|i: int| 0 <= i < post.buffer.len() implies (
            #[trigger] post.buffer[i]).spec_tag() == NO_TAG && post.buffer[i].wf() by {
                if i < pre.buffer.len() {
                    assert(post.buffer[i] == pre.buffer[i]);
                } else {
                    assert(post.buffer[i] == spawns[i - pre.buffer.len()]);
                }
            }
            assert(post.entities =~= pre.after_apply_all(action).entities);
            assert(post =~= pre.after_apply_all(action));
        }
    }

    /// The number of live entities.
    pub fn len(&self) -> (n: usize)
        ensures
            n == self@.entities.len(),
    {
        self.entities.len()
    }

    /// The number of entities waiting in the pending-spawn buffer.
    pub fn pending_len(&self) -> (n: usize)
        ensures
            n == self@.buffer.len(),
    {
        self.buffer.len()
    }

    /// The next logical ID the registry will assign.
    pub fn next_id(&self) -> (id: u64)
        ensures
            id == self@.counter,
    {
        self.counter
    }

    /// The live entity at `id`, if any.
    #[verifier::loop_isolation(false)]
    pub fn get(&self, id: u64) -> (r: Option<&Ent>)
        requires
            self@.wf(),
        ensures
            match r {
                Some(e) => self@.contains_id(id) && *e == self@.ent_at(id),
                None => !self@.contains_id(id),
            },
    {
        let n = self.entities.len();
        let mut j: usize = 0;
        while j < n
            invariant
                j <= n,
                forall|k: int| 0 <= k < j ==> (#[trigger] self@.entities[k]).0 != id,
            decreases n - j,
        {
            if self.entities[j].0 == id {
                proof {
                    lemma_id_index_unique(self@, id, j as int);
                }
                return Some(&self.entities[j].1);
            }
            j = j + 1;
        }
        None
    }
}

/// Recovers a logical ID from the identity slot read off one collision
/// participant's physics body: the reserved value `NO_TAG` means the
/// participant carries no identity (static scenery, a foreign body) and
/// yields nothing.
pub fn unpack_user_data(data: u64) -> (id: Option<u64>)
    ensures
        id == spec_unpack(data),
{
    if data != NO_TAG {
        Some(data)
    } else {
        None
    }
}

/// What `unpack_user_data` recovers.
pub open spec fn spec_unpack(data: u64) -> Option<u64> {
    if data != NO_TAG {
        Some(data)
    } else {
        None
    }
}

/// The report a contact-started event produces: the pair of logical IDs,
/// if both participants resolve; nothing — a normal outcome, not an
/// error — if either participant is untagged.
pub open spec fn spec_contact_report(data1: u64, data2: u64) -> Option<(u64, u64)> {
    if data1 != NO_TAG && data2 != NO_TAG {
        Some((data1, data2))
    } else {
        None
    }
}

/// Swapping the participants of a contact never changes whether a report
/// is produced, and the reported pair is the same two IDs, swapped: the
/// pairing is order-insensitive.
pub proof fn lemma_contact_report_symmetric(data1: u64, data2: u64)
    ensures
        spec_contact_report(data1, data2) is Some <==> spec_contact_report(data2, data1) is Some,
        spec_contact_report(data1, data2) matches Some(p) ==> spec_contact_report(data2, data1)
            == Some((p.1, p.0)),
{
}

impl Registry {
    /// The narrow-phase contact callback target, handed the identity
    /// slots read off the two colliding bodies. Produces the attributed
    /// `(id, id)` pair exactly once per contact-started event, or nothing
    /// if either participant is untagged.
    pub fn handle_contact_started(&self, data1: u64, data2: u64) -> (report: Option<(u64, u64)>)
        ensures
            report == spec_contact_report(data1, data2),
    {
        let id1 = match unpack_user_data(data1) {
            Some(id) => id,
            None => {
                return None;
            },
        };
        let id2 = match unpack_user_data(data2) {
            Some(id) => id,
            None => {
                return None;
            },
        };
        Some((id1, id2))
    }

    /// Contact-ended events are observed and deliberately produce no
    /// action.
    pub fn handle_contact_stopped(&self, data1: u64, data2: u64) {
        let _ = data1;
        let _ = data2;
    }
}

} // verus!
