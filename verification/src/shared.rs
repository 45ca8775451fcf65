//! The world that server and client share, and one step of its physics.
//!
//! A step reads every body as it was when the step began and writes each body
//! once, so what one body does never depends on whether another was stepped
//! before it.

use vstd::prelude::*;
use hecs::World;
use crate::components::{MoveState, PhysicsObject, Player};
use crate::fixed::{
    fx_add, fx_div, fx_mul, fx_neg, fx_sub, spec_add, spec_div, spec_mul, spec_neg, spec_sub,
    Fixed,
};
use crate::store::{
    contents, entity_ids, evict, get_components, handles_in_use, order, put_components,
    spawn_components, spawn_components_at, well_formed, world_new, Component, Components,
    EntityId, NoSuchEntity,
};
use crate::vec3::Vec3;

verus! {

/// The downward acceleration, in units per second squared.
pub const GRAVITY: Fixed = 10_000_000;

/// What one held direction adds to the velocity at each step.
pub const MOVE_SPEED: Fixed = 100_000;

/// What a jump adds to the upward velocity.
pub const JUMP_SPEED: Fixed = 5_000_000;

/// The length of one step of the physics, in seconds: a sixtieth.
pub const PHYSICS_STEP: Fixed = 16_667;

/// The world of entities.
pub struct Shared {
    pub ecs: World,
}

/// What a world holds, as far as the simulation is concerned.
pub struct WorldView {
    /// The record of each entity, by the bits of its handle.
    pub store: Map<u64, Components>,
    /// The handles in the order in which the world walks its entities.
    pub order: Seq<u64>,
    /// The number of handles in use.
    pub handles: nat,
}

impl View for Shared {
    type V = WorldView;

    open spec fn view(&self) -> WorldView {
        WorldView {
            store: contents(self.ecs),
            order: order(self.ecs),
            handles: handles_in_use(self.ecs),
        }
    }
}

/// The body `obj` after gravity has acted on it for `dt`: it falls faster and
/// is taken off the ground until a contact puts it back.
pub open spec fn spec_fall(obj: PhysicsObject, dt: Fixed) -> PhysicsObject {
    PhysicsObject {
        vel: Vec3 {
            y: spec_sub(obj.vel.y as int, spec_mul(GRAVITY as int, dt as int)) as i64,
            ..obj.vel
        },
        on_ground: false,
        ..obj
    }
}

/// The body `obj` after its contact with `other`. Standing on `other` puts it
/// on the ground, stops its fall and slows it by the friction of `other`.
/// Intersecting `other` without standing on it pushes it away from the centre
/// of `other` at unit speed. Otherwise nothing changes.
pub open spec fn spec_touch(obj: PhysicsObject, other: PhysicsObject) -> PhysicsObject {
    if obj.spec_standing_on(other) {
        PhysicsObject {
            on_ground: true,
            vel: Vec3 {
                x: spec_div(obj.vel.x as int, other.friction as int) as i64,
                y: 0,
                z: spec_div(obj.vel.z as int, other.friction as int) as i64,
            },
            ..obj
        }
    } else if obj.spec_intersects(other) {
        PhysicsObject {
            vel: obj.spec_pos().spec_minus(other.spec_pos()).spec_normalize(),
            ..obj
        }
    } else {
        obj
    }
}

/// The body `obj` of the entity `me` after its contacts with the first `n`
/// entities of the walk, in that order. An entity has no contact with itself,
/// nor with one that has no body.
pub open spec fn spec_touch_all(
    obj: PhysicsObject,
    store: Map<u64, Components>,
    order: Seq<u64>,
    me: u64,
    n: int,
) -> PhysicsObject
    decreases n,
{
    if n <= 0 {
        obj
    } else {
        let before = spec_touch_all(obj, store, order, me, n - 1);
        match store[order[n - 1]].physics {
            Some(other) => if order[n - 1] != me {
                spec_touch(before, other)
            } else {
                before
            },
            None => before,
        }
    }
}

/// The step of velocity for the direction "forward": a quarter turn of the
/// orientation about the vertical axis, scaled by [`MOVE_SPEED`].
pub open spec fn step_forward(orientation: Vec3) -> Vec3 {
    Vec3 {
        x: orientation.z,
        y: orientation.y,
        z: spec_neg(orientation.x as int) as i64,
    }.spec_scale(MOVE_SPEED)
}

/// The step of velocity for the direction "right": the orientation itself,
/// scaled by [`MOVE_SPEED`].
pub open spec fn step_right(orientation: Vec3) -> Vec3 {
    orientation.spec_scale(MOVE_SPEED)
}

/// The velocity `vel` after the held directions of `state` have each added
/// their step. The steps add up: two directions held together give more speed
/// than one.
pub open spec fn spec_steer(vel: Vec3, orientation: Vec3, state: MoveState) -> Vec3 {
    let ahead = step_forward(orientation);
    let aside = step_right(orientation);
    let v1 = if state.forward {
        vel.spec_plus(ahead)
    } else {
        vel
    };
    let v2 = if state.back {
        v1.spec_minus(ahead)
    } else {
        v1
    };
    let v3 = if state.left {
        v2.spec_minus(aside)
    } else {
        v2
    };
    if state.right {
        v3.spec_plus(aside)
    } else {
        v3
    }
}

/// The body `obj` after the movement that `state` asks for: the held
/// directions steer it, and a jump asked for while it is on the ground adds
/// [`JUMP_SPEED`] to its upward velocity.
pub open spec fn spec_movement(obj: PhysicsObject, state: MoveState) -> PhysicsObject {
    let steered = spec_steer(obj.vel, obj.obb().orientation, state);
    PhysicsObject {
        vel: if state.jump && obj.on_ground {
            Vec3 { y: spec_add(steered.y as int, JUMP_SPEED as int) as i64, ..steered }
        } else {
            steered
        },
        ..obj
    }
}

/// The body `obj` after it has moved with its velocity for `dt`. A fixed body
/// stays where it is.
pub open spec fn spec_integrate(obj: PhysicsObject, dt: Fixed) -> PhysicsObject {
    if obj.fixed {
        obj
    } else {
        obj.with_pos(obj.spec_pos().spec_plus(obj.vel.spec_scale(dt)))
    }
}

/// The body of each entity of the walk, `None` for one that has none.
pub open spec fn bodies_of(store: Map<u64, Components>, order: Seq<u64>) -> Seq<
    Option<PhysicsObject>,
> {
    Seq::new(order.len(), |j: int| store[order[j]].physics)
}

/// The record of the entity `k` after one step of length `dt`, in a world
/// that held `store` when the step began.
///
/// A body that is not fixed falls, meets every other body as that body was
/// when the step began, then moves as its player asks and is carried along by
/// its velocity. A fixed body is neither accelerated nor pushed nor carried;
/// only its player's movement reaches its velocity. The player's request for
/// a jump is used up. An entity without a body is left as it is.
pub open spec fn step_entity(
    store: Map<u64, Components>,
    order: Seq<u64>,
    k: u64,
    dt: Fixed,
) -> Components {
    let c = store[k];
    match c.physics {
        None => c,
        Some(obj) => {
            let touched = if obj.fixed {
                obj
            } else {
                spec_touch_all(spec_fall(obj, dt), store, order, k, order.len() as int)
            };
            match c.player {
                None => Components { physics: Some(spec_integrate(touched, dt)), ..c },
                Some(player) => Components {
                    physics: Some(spec_integrate(spec_movement(touched, player.moves), dt)),
                    player: Some(
                        Player { moves: MoveState { jump: false, ..player.moves }, ..player },
                    ),
                    ..c
                },
            }
        },
    }
}

/// What a world that held `store` holds after one step of length `dt`: the
/// same entities, each stepped by [`step_entity`].
pub open spec fn step_store(store: Map<u64, Components>, order: Seq<u64>, dt: Fixed) -> Map<
    u64,
    Components,
> {
    Map::new(|k: u64| store.contains_key(k), |k: u64| step_entity(store, order, k, dt))
}

/// What a world that held `store` holds after `n` steps of length `dt`.
pub open spec fn repeat_step(
    store: Map<u64, Components>,
    order: Seq<u64>,
    dt: Fixed,
    n: nat,
) -> Map<u64, Components>
    decreases n,
{
    if n == 0 {
        store
    } else {
        step_store(repeat_step(store, order, dt, (n - 1) as nat), order, dt)
    }
}

/// The number of whole steps of the physics that fit into the time `total`.
pub open spec fn steps_due(total: int) -> nat {
    if total < PHYSICS_STEP {
        0
    } else {
        (total / (PHYSICS_STEP as int)) as nat
    }
}

/// What is left of the time `total` after the whole steps are taken out.
pub open spec fn time_left(total: int) -> int {
    if total < PHYSICS_STEP {
        total
    } else {
        total % (PHYSICS_STEP as int)
    }
}

/// Gravity acting on `obj` for `dt`.
fn fall(obj: &mut PhysicsObject, dt: Fixed)
    ensures
        *final(obj) == spec_fall(*old(obj), dt),
{
    obj.vel.y = fx_sub(obj.vel.y, fx_mul(GRAVITY, dt));
    obj.on_ground = false;
}

/// The contact of `obj` with `other`.
fn touch(obj: &mut PhysicsObject, other: &PhysicsObject)
    ensures
        *final(obj) == spec_touch(*old(obj), *other),
{
    let (standing, _) = obj.standing_on(other);
    if standing {
        obj.on_ground = true;
        obj.vel = Vec3 {
            x: fx_div(obj.vel.x, other.friction),
            y: 0,
            z: fx_div(obj.vel.z, other.friction),
        };
    } else if obj.intersects(other) {
        obj.vel = obj.pos().minus(other.pos()).normalize();
    }
}

/// The contacts of `obj`, the body of the entity number `me` of the walk,
/// with all the others, whose bodies are `bodies`.
fn touch_all(
    obj: &mut PhysicsObject,
    bodies: &Vec<Option<PhysicsObject>>,
    me: usize,
    Ghost(store): Ghost<Map<u64, Components>>,
    Ghost(walk): Ghost<Seq<u64>>,
)
    requires
        bodies@ == bodies_of(store, walk),
        walk.no_duplicates(),
        me < walk.len(),
    ensures
        *final(obj) == spec_touch_all(*old(obj), store, walk, walk[me as int], walk.len() as int),
{
    let mut j: usize = 0;
    while j < bodies.len()
        invariant
            j <= bodies@.len(),
            bodies@ == bodies_of(store, walk),
            walk.no_duplicates(),
            me < walk.len(),
            *obj == spec_touch_all(*old(obj), store, walk, walk[me as int], j as int),
        decreases bodies@.len() - j,
    {
        assert(bodies@[j as int] == store[walk[j as int]].physics);
        if j != me {
            match &bodies[j] {
                Some(other) => {
                    touch(obj, other);
                },
                None => {},
            }
        }
        j += 1;
    }
}

/// The body moving with its velocity for `dt`, unless it is fixed.
fn integrate(obj: &mut PhysicsObject, dt: Fixed)
    ensures
        *final(obj) == spec_integrate(*old(obj), dt),
{
    if !obj.fixed {
        let step = obj.vel.scale(dt);
        obj.move_pos(step);
    }
}

impl Shared {
    /// What holds of every world: its walk visits each entity it holds once.
    pub open spec fn well_formed(&self) -> bool {
        well_formed(self.ecs)
    }

    /// An empty world.
    pub fn new() -> (shared: Shared)
        ensures
            shared@.store == Map::<u64, Components>::empty(),
            shared@.order == Seq::<u64>::empty(),
            shared@.handles == 0,
            shared.well_formed(),
    {
        Shared { ecs: world_new() }
    }

    /// Creates an entity that carries `c` and returns its handle, which named
    /// no entity before. The world must have a handle left to give.
    pub fn spawn(&mut self, c: Components) -> (id: EntityId)
        requires
            old(self)@.handles < u32::MAX,
        ensures
            !old(self)@.store.contains_key(id.bits),
            id.spec_valid(),
            final(self)@.store == old(self)@.store.insert(id.bits, c),
            final(self)@.handles == old(self)@.handles + 1,
            final(self).well_formed(),
    {
        spawn_components(&mut self.ecs, c)
    }

    /// Creates the entity `id` with the record `c`, if the handle can name an
    /// entity and names none yet, and returns whether it did. An entity that
    /// exists is left as it is, with all it carries. A new entity takes the
    /// slot of its handle, and whatever occupied the slot is gone.
    pub fn spawn_at(&mut self, id: EntityId, c: Components) -> (spawned: bool)
        requires
            old(self)@.handles < u32::MAX,
        ensures
            spawned == (id.spec_valid() && !old(self)@.store.contains_key(id.bits)),
            final(self)@.store == if spawned {
                evict(old(self)@.store, id.bits).insert(id.bits, c)
            } else {
                old(self)@.store
            },
            old(self)@.handles <= final(self)@.handles <= old(self)@.handles + 1,
            final(self).well_formed(),
    {
        match get_components(&mut self.ecs, id) {
            Some(_) => false,
            None => {
                if id.valid() {
                    spawn_components_at(&mut self.ecs, id, c);
                    true
                } else {
                    false
                }
            },
        }
    }

    /// Gives the entity `id` the component `part`, in the place of the one of
    /// its kind if it has one. Fails, and changes nothing, if the handle
    /// names no entity.
    pub fn insert(&mut self, id: EntityId, part: Component) -> (done: Result<(), NoSuchEntity>)
        ensures
            done is Ok == old(self)@.store.contains_key(id.bits),
            final(self)@.store == if done is Ok {
                old(self)@.store.insert(id.bits, old(self)@.store[id.bits].spec_with(part))
            } else {
                old(self)@.store
            },
            final(self)@.order == old(self)@.order,
            final(self)@.handles == old(self)@.handles,
            final(self).well_formed(),
    {
        match get_components(&mut self.ecs, id) {
            Some(c) => {
                put_components(&mut self.ecs, id, c.with(part));
                Ok(())
            },
            None => Err(NoSuchEntity),
        }
    }

    /// What the entity `id` carries, or an error if the handle names no
    /// entity. The world is left as it was.
    pub fn get(&mut self, id: EntityId) -> (found: Result<Components, NoSuchEntity>)
        ensures
            found == if old(self)@.store.contains_key(id.bits) {
                Ok::<Components, NoSuchEntity>(old(self)@.store[id.bits])
            } else {
                Err::<Components, NoSuchEntity>(NoSuchEntity)
            },
            final(self)@ == old(self)@,
            final(self).well_formed(),
    {
        match get_components(&mut self.ecs, id) {
            Some(c) => Ok(c),
            None => Err(NoSuchEntity),
        }
    }

    /// Whether the handle names an entity of the world. The world is left as
    /// it was.
    pub fn contains(&mut self, id: EntityId) -> (known: bool)
        ensures
            known == old(self)@.store.contains_key(id.bits),
            final(self)@ == old(self)@,
            final(self).well_formed(),
    {
        get_components(&mut self.ecs, id).is_some()
    }

    /// The entities of the world, in the order of its walk: each once. The
    /// world is left as it was.
    pub fn ids(&mut self) -> (ids: Vec<EntityId>)
        ensures
            ids@.len() == old(self)@.order.len(),
            forall|i: int| 0 <= i < ids@.len() ==> ids@[i].bits == old(self)@.order[i],
            forall|k: u64|
                old(self)@.store.contains_key(k) <==> exists|i: int|
                    0 <= i < ids@.len() && ids@[i].bits == k,
            forall|i: int, j: int| 0 <= i < j < ids@.len() ==> ids@[i] != ids@[j],
            final(self)@ == old(self)@,
            final(self).well_formed(),
    {
        let ids = entity_ids(&mut self.ecs);
        proof {
            let walk = old(self)@.order;
            assert forall|k: u64| old(self)@.store.contains_key(k) implies exists|i: int|
                0 <= i < ids@.len() && ids@[i].bits == k by {
                assert(walk.contains(k));
                let i = choose|i: int| 0 <= i < walk.len() && walk[i] == k;
                assert(ids@[i].bits == k);
            }
            assert forall|k: u64|
                (exists|i: int| 0 <= i < ids@.len() && ids@[i].bits == k) implies old(
                    self,
                )@.store.contains_key(k) by {
                let i = choose|i: int| 0 <= i < ids@.len() && ids@[i].bits == k;
                assert(walk[i] == k);
                assert(walk.contains(k));
            }
            assert forall|i: int, j: int| 0 <= i < j < ids@.len() implies ids@[i] != ids@[j] by {
                assert(walk[i] != walk[j]);
            }
        }
        ids
    }

    /// Lets `delta` seconds pass for a world whose leftover time is
    /// `accumulator`: the time is added to what was left over, the world is
    /// advanced by as many whole steps of [`PHYSICS_STEP`] as fit into the
    /// sum, and the rest is kept for the next call. Returns the number of
    /// steps taken. Each step has the same length, whatever the rhythm of the
    /// calls.
    pub fn run_steps(&mut self, accumulator: &mut Fixed, delta: Fixed) -> (steps: u64)
        ensures
            steps == steps_due(spec_add(*old(accumulator) as int, delta as int)),
            *final(accumulator) == time_left(spec_add(*old(accumulator) as int, delta as int)),
            final(self)@.store == repeat_step(
                old(self)@.store,
                old(self)@.order,
                PHYSICS_STEP,
                steps as nat,
            ),
            final(self)@.order == old(self)@.order,
            final(self)@.handles == old(self)@.handles,
            old(self).well_formed() ==> final(self).well_formed(),
    {
        let total = fx_add(*accumulator, delta);
        *accumulator = total;
        let mut steps: u64 = 0;
        while *accumulator >= PHYSICS_STEP
            invariant
                total == *accumulator + steps * PHYSICS_STEP,
                steps > 0 ==> *accumulator >= 0,
                self@.store == repeat_step(
                    old(self)@.store,
                    old(self)@.order,
                    PHYSICS_STEP,
                    steps as nat,
                ),
                self@.order == old(self)@.order,
                self@.handles == old(self)@.handles,
                old(self).well_formed() ==> self.well_formed(),
            decreases *accumulator,
        {
            self.handle_physics(PHYSICS_STEP);
            *accumulator = *accumulator - PHYSICS_STEP;
            steps = steps + 1;
        }
        steps
    }

    /// Applies the movement that `state` asks for to `obj`, and uses up the
    /// request for a jump, so that a request that is not renewed gives no
    /// second jump.
    pub fn handle_movement(state: &mut MoveState, obj: &mut PhysicsObject)
        ensures
            *final(obj) == spec_movement(*old(obj), *old(state)),
            *final(state) == (MoveState { jump: false, ..*old(state) }),
    {
        let orientation = obj.orientation();
        let ahead = Vec3 {
            x: orientation.z,
            y: orientation.y,
            z: fx_neg(orientation.x),
        }.scale(MOVE_SPEED);
        let aside = orientation.scale(MOVE_SPEED);
        if state.forward {
            obj.vel = obj.vel.plus(ahead);
        }
        if state.back {
            obj.vel = obj.vel.minus(ahead);
        }
        if state.left {
            obj.vel = obj.vel.minus(aside);
        }
        if state.right {
            obj.vel = obj.vel.plus(aside);
        }
        if state.get_jump() && obj.on_ground {
            obj.vel.y = fx_add(obj.vel.y, JUMP_SPEED);
        }
    }

    /// The bodies of the entities `ids`, as the world holds them now.
    pub(crate) fn bodies(&mut self, ids: &Vec<EntityId>) -> (bodies: Vec<Option<PhysicsObject>>)
        requires
            ids@.len() == old(self)@.order.len(),
            forall|i: int| 0 <= i < ids@.len() ==> ids@[i].bits == old(self)@.order[i],
            old(self).well_formed(),
        ensures
            final(self)@ == old(self)@,
            final(self).well_formed(),
            bodies@ == bodies_of(old(self)@.store, old(self)@.order),
    {
        let mut bodies: Vec<Option<PhysicsObject>> = Vec::new();
        let mut i: usize = 0;
        while i < ids.len()
            invariant
                i <= ids@.len(),
                ids@.len() == old(self)@.order.len(),
                forall|k: int| 0 <= k < ids@.len() ==> ids@[k].bits == old(self)@.order[k],
                self@ == old(self)@,
                self.well_formed(),
                bodies@.len() == i,
                forall|k: int|
                    0 <= k < i ==> bodies@[k] == old(self)@.store[old(self)@.order[k]].physics,
            decreases ids@.len() - i,
        {
            let found = get_components(&mut self.ecs, ids[i]);
            assert(old(self)@.order.contains(old(self)@.order[i as int]));
            match found {
                Some(c) => {
                    bodies.push(c.physics);
                },
                None => {
                    bodies.push(None);
                },
            }
            i += 1;
        }
        assert(bodies@ =~= bodies_of(old(self)@.store, old(self)@.order));
        bodies
    }

    /// Advances the world by one step of length `dt`: gravity, contacts, the
    /// movement that players ask for, and motion, for every entity that has a
    /// body. The entities and the order of the walk stay as they were.
    pub fn handle_physics(&mut self, dt: Fixed)
        ensures
            final(self)@.store == step_store(old(self)@.store, old(self)@.order, dt),
            final(self)@.order == old(self)@.order,
            final(self)@.handles == old(self)@.handles,
            final(self).well_formed(),
    {
        let ids = entity_ids(&mut self.ecs);
        let bodies = self.bodies(&ids);
        let ghost before = old(self)@.store;
        let ghost walk = old(self)@.order;
        let mut i: usize = 0;
        while i < ids.len()
            invariant
                i <= ids@.len(),
                ids@.len() == walk.len(),
                forall|k: int| 0 <= k < ids@.len() ==> ids@[k].bits == walk[k],
                before == old(self)@.store,
                walk == old(self)@.order,
                bodies@ == bodies_of(before, walk),
                self@.order == walk,
                self@.handles == old(self)@.handles,
                self.well_formed(),
                self@.store.dom() == before.dom(),
                forall|k: int|
                    0 <= k < i ==> self@.store[walk[k]] == step_entity(before, walk, walk[k], dt),
                forall|k: int| i <= k < walk.len() ==> self@.store[walk[k]] == before[walk[k]],
            decreases ids@.len() - i,
        {
            let id = ids[i];
            assert(walk.contains(walk[i as int]));
            let found = get_components(&mut self.ecs, id);
            match found {
                Some(c) => {
                    let mut c = c;
                    match c.physics {
                        Some(body) => {
                            let mut obj = body;
                            if !obj.fixed {
                                fall(&mut obj, dt);
                                touch_all(&mut obj, &bodies, i, Ghost(before), Ghost(walk));
                            }
                            match c.player {
                                Some(player) => {
                                    let mut moves = player.moves;
                                    Shared::handle_movement(&mut moves, &mut obj);
                                    c.player = Some(Player { hp: player.hp, moves });
                                },
                                None => {},
                            }
                            integrate(&mut obj, dt);
                            c.physics = Some(obj);
                            let ghost prior = self@.store;
                            put_components(&mut self.ecs, id, c);
                            assert forall|k: int| 0 <= k < walk.len() && k != i implies #[trigger]
                                self@.store[walk[k]] == prior[walk[k]] by {
                                assert(walk[k] != walk[i as int]);
                            }
                        },
                        None => {},
                    }
                },
                None => {},
            }
            i += 1;
        }
        assert forall|k: u64| self@.store.contains_key(k) implies self@.store[k] == step_entity(
            before,
            walk,
            k,
            dt,
        ) by {
            assert(walk.contains(k));
        }
        assert(self@.store =~= step_store(before, walk, dt));
    }
}

/// Contacts change how a body moves, never what it is: its shape, whether it
/// is fixed and its friction stay as they were.
pub proof fn lemma_touch_all_keeps_shape(
    obj: PhysicsObject,
    store: Map<u64, Components>,
    order: Seq<u64>,
    me: u64,
    n: int,
)
    ensures
        spec_touch_all(obj, store, order, me, n).shape == obj.shape,
        spec_touch_all(obj, store, order, me, n).fixed == obj.fixed,
        spec_touch_all(obj, store, order, me, n).friction == obj.friction,
    decreases n,
{
    if n > 0 {
        lemma_touch_all_keeps_shape(obj, store, order, me, n - 1);
    }
}

/// Whether some other entity among the first `n` of the walk has a body on
/// which `obj`, the body of `me`, stands.
pub open spec fn stands_on_one(
    obj: PhysicsObject,
    store: Map<u64, Components>,
    order: Seq<u64>,
    me: u64,
    n: int,
) -> bool {
    exists|j: int|
        0 <= j < n && order[j] != me && (#[trigger] store[order[j]]).physics is Some
            && obj.spec_standing_on(store[order[j]].physics.unwrap())
}

/// Whether `obj`, the body of `me`, stands on every other body among the
/// first `n` of the walk that it intersects, so that none pushes it away.
pub open spec fn pushed_by_none(
    obj: PhysicsObject,
    store: Map<u64, Components>,
    order: Seq<u64>,
    me: u64,
    n: int,
) -> bool {
    forall|j: int|
        0 <= j < n && order[j] != me && (#[trigger] store[order[j]]).physics is Some
            && obj.spec_intersects(store[order[j]].physics.unwrap()) ==> obj.spec_standing_on(
            store[order[j]].physics.unwrap(),
        )
}

/// A body that stands on another and is pushed by none is on the ground after
/// its contacts and does not fall, in whatever order it met the others.
pub proof fn lemma_touch_all_grounds(
    obj: PhysicsObject,
    store: Map<u64, Components>,
    order: Seq<u64>,
    me: u64,
    n: int,
)
    requires
        pushed_by_none(obj, store, order, me, n),
    ensures
        stands_on_one(obj, store, order, me, n) ==> {
            &&& spec_touch_all(obj, store, order, me, n).on_ground
            &&& spec_touch_all(obj, store, order, me, n).vel.y == 0
        },
    decreases n,
{
    if n > 0 {
        let before = spec_touch_all(obj, store, order, me, n - 1);
        lemma_touch_all_keeps_shape(obj, store, order, me, n - 1);
        lemma_touch_all_grounds(obj, store, order, me, n - 1);
        assert(pushed_by_none(obj, store, order, me, n - 1));
        if stands_on_one(obj, store, order, me, n) {
            let j = choose|j: int|
                0 <= j < n && order[j] != me && (#[trigger] store[order[j]]).physics is Some
                    && obj.spec_standing_on(store[order[j]].physics.unwrap());
            if j < n - 1 {
                assert(stands_on_one(obj, store, order, me, n - 1));
            }
            let last = store[order[n - 1]];
            if order[n - 1] != me && last.physics is Some {
                let other = last.physics.unwrap();
                assert(before.spec_standing_on(other) == obj.spec_standing_on(other));
                assert(before.spec_intersects(other) == obj.spec_intersects(other));
            }
        }
    }
}

/// A body that rests on another is held by it: if the body of the entity `k`
/// is free to move, stands on the body of some other entity of the walk, is
/// pushed away by none, and no player steers it or makes it jump, then after
/// one step it is on the ground and its vertical velocity is zero. This holds
/// for every order in which the world may walk its entities.
pub proof fn lemma_resting_body_stays(
    store: Map<u64, Components>,
    order: Seq<u64>,
    k: u64,
    dt: Fixed,
)
    requires
        store[k].physics is Some,
        !store[k].physics.unwrap().fixed,
        store[k].player matches Some(player) ==> player.moves.still() && !player.moves.jump,
        stands_on_one(store[k].physics.unwrap(), store, order, k, order.len() as int),
        pushed_by_none(store[k].physics.unwrap(), store, order, k, order.len() as int),
    ensures
        step_entity(store, order, k, dt).physics.unwrap().on_ground,
        step_entity(store, order, k, dt).physics.unwrap().vel.y == 0,
{
    let obj = store[k].physics.unwrap();
    let fallen = spec_fall(obj, dt);
    let n = order.len() as int;
    assert(pushed_by_none(fallen, store, order, k, n)) by {
        assert forall|j: int|
            0 <= j < n && order[j] != k && (#[trigger] store[order[j]]).physics is Some
                && fallen.spec_intersects(
                store[order[j]].physics.unwrap(),
            ) implies fallen.spec_standing_on(store[order[j]].physics.unwrap()) by {
            let other = store[order[j]].physics.unwrap();
            assert(fallen.spec_intersects(other) == obj.spec_intersects(other));
            assert(fallen.spec_standing_on(other) == obj.spec_standing_on(other));
        }
    }
    assert(stands_on_one(fallen, store, order, k, n)) by {
        let j = choose|j: int|
            0 <= j < n && order[j] != k && (#[trigger] store[order[j]]).physics is Some
                && obj.spec_standing_on(store[order[j]].physics.unwrap());
        assert(fallen.spec_standing_on(store[order[j]].physics.unwrap()));
    }
    lemma_touch_all_grounds(fallen, store, order, k, n);
    lemma_touch_all_keeps_shape(fallen, store, order, k, n);
}

/// A step of velocity is short: each of its components is at most a tenth of
/// what fits in 64 bits, and the step for a direction turned about is the
/// step turned about.
proof fn lemma_step_component(v: Fixed)
    ensures
        -1_000_000_000_000_000_000 < spec_mul(v as int, MOVE_SPEED as int)
            < 1_000_000_000_000_000_000,
        spec_mul(spec_neg(v as int), MOVE_SPEED as int) == -spec_mul(v as int, MOVE_SPEED as int),
{
}

/// Moving diagonally is faster than moving straight: whenever the step for
/// "forward" is not zero, the velocity that "forward" and "right" held
/// together give a body at rest is the sum of the two steps, and it is longer
/// than the step for "forward" alone.
pub proof fn lemma_diagonal_is_faster(orientation: Vec3)
    requires
        step_forward(orientation) != Vec3::spec_zero(),
    ensures
        spec_steer(
            Vec3::spec_zero(),
            orientation,
            MoveState { forward: true, right: true, ..MoveState::idle() },
        ) == step_forward(orientation).spec_plus(step_right(orientation)),
        step_forward(orientation).spec_plus(step_right(orientation)).spec_length_sq()
            > step_forward(orientation).spec_length_sq(),
{
    let ahead = step_forward(orientation);
    let aside = step_right(orientation);
    lemma_step_component(orientation.x);
    lemma_step_component(orientation.y);
    lemma_step_component(orientation.z);
    let a = ahead.x as int;
    let b = ahead.y as int;
    let p = aside.x as int;
    assert(ahead.z == -p);
    assert(aside.y == b && aside.z == a);
    let sum = ahead.spec_plus(aside);
    assert(sum.x == a + p && sum.y == b + b && sum.z == a - p);
    assert(a != 0 || b != 0 || p != 0);
    let sx = (a + p) * (a + p);
    let sy = (b + b) * (b + b);
    let sz = (a - p) * (a - p);
    let fx = a * a;
    let fy = b * b;
    let fz = (-p) * (-p);
    assert(sx >= 0 && sy >= 0 && sz >= 0 && fx >= 0 && fy >= 0 && fz >= 0) by (nonlinear_arith)
        requires
            sx == (a + p) * (a + p),
            sy == (b + b) * (b + b),
            sz == (a - p) * (a - p),
            fx == a * a,
            fy == b * b,
            fz == (-p) * (-p),
    ;
    assert(sx + sy + sz > fx + fy + fz) by (nonlinear_arith)
        requires
            a != 0 || b != 0 || p != 0,
            sx == (a + p) * (a + p),
            sy == (b + b) * (b + b),
            sz == (a - p) * (a - p),
            fx == a * a,
            fy == b * b,
            fz == (-p) * (-p),
    ;
    assert(sum.spec_length_sq() == sx + sy + sz);
    assert(ahead.spec_length_sq() == fx + fy + fz);
    assert(Vec3::spec_zero().spec_plus(ahead) == ahead);
}

/// A jump asked for is made once: on the ground, a request for a jump adds
/// [`JUMP_SPEED`] to the upward velocity that the held directions give, up to
/// saturation; and with the request cleared, as [`Shared::handle_movement`]
/// leaves it, the same movement adds nothing, though the body is still on the
/// ground.
pub proof fn lemma_jump_once(obj: PhysicsObject, state: MoveState)
    requires
        obj.on_ground,
        state.jump,
    ensures
        spec_movement(obj, state).vel.y == spec_add(
            spec_movement(obj, MoveState { jump: false, ..state }).vel.y as int,
            JUMP_SPEED as int,
        ),
        state.still() ==> spec_movement(obj, state).vel.y == spec_add(
            obj.vel.y as int,
            JUMP_SPEED as int,
        ),
        state.still() && obj.vel.y + JUMP_SPEED <= i64::MAX ==> spec_movement(obj, state).vel.y
            == obj.vel.y + JUMP_SPEED,
        state.still() ==> spec_movement(
            spec_movement(obj, state),
            MoveState { jump: false, ..state },
        ).vel.y == spec_movement(obj, state).vel.y,
        spec_movement(obj, state).on_ground,
{
}

/// Level geometry stays where it is: a step leaves the shape of a fixed body
/// as it was, and with it the body's place and size, whatever touches it and
/// however long the step. If the body is no player's, the step does not
/// change it at all.
pub proof fn lemma_fixed_body_stays(
    store: Map<u64, Components>,
    order: Seq<u64>,
    k: u64,
    dt: Fixed,
)
    requires
        store[k].physics is Some,
        store[k].physics.unwrap().fixed,
    ensures
        step_entity(store, order, k, dt).physics.unwrap().shape
            == store[k].physics.unwrap().shape,
        step_entity(store, order, k, dt).physics.unwrap().fixed,
        store[k].player is None ==> step_entity(store, order, k, dt) == store[k],
{
}

/// A body that is free to move is on the ground after a step exactly if it
/// stood on some other body when the step began: being on the ground is
/// worked out anew in every step, from the places of the bodies alone, in
/// whatever order the world walks them.
pub proof fn lemma_on_ground_is_derived(
    store: Map<u64, Components>,
    order: Seq<u64>,
    k: u64,
    dt: Fixed,
)
    requires
        store[k].physics is Some,
        !store[k].physics.unwrap().fixed,
    ensures
        step_entity(store, order, k, dt).physics.unwrap().on_ground == stands_on_one(
            store[k].physics.unwrap(),
            store,
            order,
            k,
            order.len() as int,
        ),
{
    let obj = store[k].physics.unwrap();
    lemma_touch_all_on_ground(spec_fall(obj, dt), store, order, k, order.len() as int);
    let fallen = spec_fall(obj, dt);
    let n = order.len() as int;
    if stands_on_one(obj, store, order, k, n) {
        let j = choose|j: int|
            0 <= j < n && order[j] != k && (#[trigger] store[order[j]]).physics is Some
                && obj.spec_standing_on(store[order[j]].physics.unwrap());
        assert(fallen.spec_standing_on(store[order[j]].physics.unwrap()));
        assert(stands_on_one(fallen, store, order, k, n));
    }
    if stands_on_one(fallen, store, order, k, n) {
        let j = choose|j: int|
            0 <= j < n && order[j] != k && (#[trigger] store[order[j]]).physics is Some
                && fallen.spec_standing_on(store[order[j]].physics.unwrap());
        assert(obj.spec_standing_on(store[order[j]].physics.unwrap()));
        assert(stands_on_one(obj, store, order, k, n));
    }
}

/// After its contacts a body is on the ground if it was before or stands on
/// one of the bodies it met.
proof fn lemma_touch_all_on_ground(
    obj: PhysicsObject,
    store: Map<u64, Components>,
    order: Seq<u64>,
    me: u64,
    n: int,
)
    ensures
        spec_touch_all(obj, store, order, me, n).on_ground == (obj.on_ground || stands_on_one(
            obj,
            store,
            order,
            me,
            n,
        )),
    decreases n,
{
    if n > 0 {
        let before = spec_touch_all(obj, store, order, me, n - 1);
        lemma_touch_all_keeps_shape(obj, store, order, me, n - 1);
        lemma_touch_all_on_ground(obj, store, order, me, n - 1);
        let last = store[order[n - 1]];
        if order[n - 1] != me && last.physics is Some {
            let other = last.physics.unwrap();
            assert(before.spec_standing_on(other) == obj.spec_standing_on(other));
        }
        if stands_on_one(obj, store, order, me, n - 1) {
            let j = choose|j: int|
                0 <= j < n - 1 && order[j] != me && (#[trigger] store[order[j]]).physics is Some
                    && obj.spec_standing_on(store[order[j]].physics.unwrap());
            assert(0 <= j < n);
        }
        if stands_on_one(obj, store, order, me, n) {
            let j = choose|j: int|
                0 <= j < n && order[j] != me && (#[trigger] store[order[j]]).physics is Some
                    && obj.spec_standing_on(store[order[j]].physics.unwrap());
            if j < n - 1 {
                assert(stands_on_one(obj, store, order, me, n - 1));
            }
        }
    } else {
        assert(!stands_on_one(obj, store, order, me, n));
    }
}

} // verus!
