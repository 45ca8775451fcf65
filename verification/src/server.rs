//! The authoritative side: who is connected, what their messages do to the
//! world, and what the world sends back.

use std::collections::HashMap;
use vstd::prelude::*;
use macroquad::rand::ChooseRandom;
use crate::components::physicsobject::half_of;
use crate::components::player::FULL_HEALTH;
use crate::components::{MoveState, Obb, PhysicsObject, Player, Shape};
use crate::fixed::{magnitude, spec_add, Fixed, ONE};
use crate::network::{ClientMessage, Columns, ServerMessage, ServerMessages};
use crate::query::{bodies_column, meshes_column, players_column};
use crate::shared::{repeat_step, steps_due, time_left, Shared, PHYSICS_STEP};
use crate::store::{
    entity_ids, get_components, put_components, spawn_components, Components, EntityId,
};
use crate::vec3::Vec3;

verus! {

broadcast use vstd::std_specs::hash::group_hash_axioms;

/// What one shot takes from the health of the player it hits.
pub const SHOT_DAMAGE: u16 = 20;

/// The height at which a player who was shot dead comes back.
pub const RESPAWN_HEIGHT: Fixed = 60_000_000;

/// The length of the sides of a fragment.
pub const GIB_SIZE: Fixed = 500_000;

/// The upward speed of a fragment.
pub const GIB_LIFT: Fixed = 10_000_000;

/// The number of fragments that a death leaves: four corners and a centre.
pub const GIB_COUNT: usize = 5;

/// The state of the server: the world, the entity of each connected client,
/// and the time that has passed but has not been simulated yet.
pub struct Server {
    pub shared: Shared,
    pub client_ids: HashMap<u64, EntityId>,
    pub dt_accumulator: Fixed,
}

/// The place where a player who was shot dead comes back.
pub open spec fn respawn_point() -> Vec3 {
    Vec3 { x: 0, y: RESPAWN_HEIGHT, z: 0 }
}

/// The size of a player's body.
pub open spec fn player_size() -> Vec3 {
    Vec3 { x: ONE, y: 2_000_000, z: ONE }
}

/// The record of a player who has just connected and stands at `pos`.
pub open spec fn newcomer(pos: Vec3) -> Components {
    Components {
        physics: Some(
            PhysicsObject::spec_new(Shape::Obb(Obb::spec_from_pos_size(pos, player_size()))),
        ),
        player: Some(Player { hp: FULL_HEALTH, moves: MoveState::idle() }),
        ..Components::spec_empty()
    }
}

/// Where the fragment number `k` starts, seen from the place of death: the
/// first four at the corners of a square around it, the fifth above it.
pub open spec fn gib_offset(k: int) -> Vec3 {
    if k == 4 {
        Vec3 { x: 0, y: ONE, z: 0 }
    } else {
        Vec3 {
            x: if k < 2 {
                -500_000i64
            } else {
                500_000i64
            },
            y: 0,
            z: if k % 2 == 0 {
                -500_000i64
            } else {
                500_000i64
            },
        }
    }
}

/// The velocity of the fragment number `k`: upward, and for the first four
/// outward from the place of death.
pub open spec fn gib_velocity(k: int) -> Vec3 {
    if k == 4 {
        Vec3 { x: 0, y: GIB_LIFT, z: 0 }
    } else {
        Vec3 {
            x: if k < 2 {
                -1_000_000i64
            } else {
                1_000_000i64
            },
            y: GIB_LIFT,
            z: if k % 2 == 0 {
                -1_000_000i64
            } else {
                1_000_000i64
            },
        }
    }
}

/// The body of the fragment number `k` of a death at `target`.
pub open spec fn spec_gib(target: Vec3, k: int) -> PhysicsObject {
    PhysicsObject {
        vel: gib_velocity(k),
        ..PhysicsObject::spec_new(
            Shape::Obb(
                Obb::spec_from_pos_size(
                    target.spec_plus(gib_offset(k)),
                    Vec3 { x: GIB_SIZE, y: GIB_SIZE, z: GIB_SIZE },
                ),
            ),
        )
    }
}

/// The record of an entity that is a body and nothing else.
pub open spec fn body_only(obj: PhysicsObject) -> Components {
    Components { physics: Some(obj), ..Components::spec_empty() }
}

/// `store` with the first `n` fragments of a death at `target` added under
/// the handles `ids`.
pub open spec fn with_gibs(
    store: Map<u64, Components>,
    ids: Seq<EntityId>,
    target: Vec3,
    n: int,
) -> Map<u64, Components>
    decreases n,
{
    if n <= 0 {
        store
    } else {
        with_gibs(store, ids, target, n - 1).insert(
            ids[n - 1].bits,
            body_only(spec_gib(target, n - 1)),
        )
    }
}

/// Whether the handles `ids` are `n` handles that differ from each other and
/// name no entity of `store`.
pub open spec fn fresh(store: Map<u64, Components>, ids: Seq<EntityId>, n: int) -> bool {
    &&& ids.len() == n
    &&& forall|i: int| 0 <= i < n ==> !store.contains_key(#[trigger] ids[i].bits)
    &&& forall|i: int, j: int| 0 <= i < j < n ==> ids[i] != ids[j]
}

/// The movement a player has pending after a client has sent `wanted`: what
/// the client wants, and a jump if one was asked for before and has not been
/// used, so that a jump asked for between two steps is not lost.
pub open spec fn merged_moves(pending: MoveState, wanted: MoveState) -> MoveState {
    MoveState { jump: pending.jump || wanted.jump, ..wanted }
}

/// `store` after the player `id` has sent the movement `wanted`. An entity
/// that is no player is left alone.
pub open spec fn after_move_state(
    store: Map<u64, Components>,
    id: u64,
    wanted: MoveState,
) -> Map<u64, Components> {
    if store.contains_key(id) {
        match store[id].player {
            Some(player) => store.insert(
                id,
                Components {
                    player: Some(
                        Player { moves: merged_moves(player.moves, wanted), ..player },
                    ),
                    ..store[id]
                },
            ),
            None => store,
        }
    } else {
        store
    }
}

/// `store` after the entity `id` has turned to face along `rotation`. An
/// entity without a body is left alone.
pub open spec fn after_rotation(
    store: Map<u64, Components>,
    id: u64,
    rotation: Vec3,
) -> Map<u64, Components> {
    if store.contains_key(id) {
        match store[id].physics {
            Some(obj) => store.insert(
                id,
                Components { physics: Some(obj.with_orientation(rotation)), ..store[id] },
            ),
            None => store,
        }
    } else {
        store
    }
}

/// Whether `target` is a player with a body: what a shot can hurt.
pub open spec fn can_be_shot(store: Map<u64, Components>, target: u64) -> bool {
    &&& store.contains_key(target)
    &&& store[target].physics is Some
    &&& store[target].player is Some
}

/// Whether a shot at `target` uses up its health.
pub open spec fn shot_kills(store: Map<u64, Components>, target: u64) -> bool {
    &&& can_be_shot(store, target)
    &&& Player::remaining(store[target].player.unwrap().hp, SHOT_DAMAGE) == 0
}

/// `store` after a shot at `target`, before any fragment is added. A player
/// with a body loses [`SHOT_DAMAGE`]; one whose health is used up comes back
/// at the respawn point with full health. Anything else is left alone.
pub open spec fn after_shot(store: Map<u64, Components>, target: u64) -> Map<u64, Components> {
    if can_be_shot(store, target) {
        let c = store[target];
        let player = c.player.unwrap();
        if shot_kills(store, target) {
            store.insert(
                target,
                Components {
                    physics: Some(c.physics.unwrap().with_pos(respawn_point())),
                    player: Some(Player { hp: FULL_HEALTH, ..player }),
                    ..c
                },
            )
        } else {
            store.insert(
                target,
                Components {
                    player: Some(
                        Player { hp: Player::remaining(player.hp, SHOT_DAMAGE), ..player },
                    ),
                    ..c
                },
            )
        }
    } else {
        store
    }
}

/// `store` after the message `msg` of the client whose entity is `id`,
/// before any fragment is added.
pub open spec fn dealt(
    store: Map<u64, Components>,
    id: u64,
    msg: ClientMessage,
) -> Map<u64, Components> {
    match msg {
        ClientMessage::SetMoveState(wanted) => after_move_state(store, id, wanted),
        ClientMessage::SetRotation(rotation) => after_rotation(store, id, rotation),
        ClientMessage::Shot(target) => after_shot(store, target.bits),
    }
}

/// The place where `msg` kills a player, if it does.
pub open spec fn death_place(store: Map<u64, Components>, msg: ClientMessage) -> Option<Vec3> {
    match msg {
        ClientMessage::Shot(target) => if shot_kills(store, target.bits) {
            Some(store[target.bits].physics.unwrap().spec_pos())
        } else {
            None
        },
        _ => None,
    }
}

/// What the world holds after the first `n` messages of `inbox` have been
/// dealt with in their order, given that the fragments they spawned are
/// `fragments`, and how many of those fragments they have used. Each message
/// comes with the client that sent it; one of a client without an entity
/// changes nothing; one that kills a player takes the next [`GIB_COUNT`]
/// handles for the fragments.
pub open spec fn received(
    store: Map<u64, Components>,
    clients: Map<u64, EntityId>,
    inbox: Seq<(u64, ClientMessage)>,
    fragments: Seq<EntityId>,
    n: int,
) -> (Map<u64, Components>, int)
    decreases n,
{
    if n <= 0 {
        (store, 0)
    } else {
        let (before, used) = received(store, clients, inbox, fragments, n - 1);
        let (cli, msg) = inbox[n - 1];
        if clients.contains_key(cli) {
            let id = clients[cli].bits;
            match death_place(before, msg) {
                Some(place) => (
                    with_gibs(
                        dealt(before, id, msg),
                        fragments.subrange(used, used + GIB_COUNT),
                        place,
                        GIB_COUNT as int,
                    ),
                    used + GIB_COUNT,
                ),
                None => (dealt(before, id, msg), used),
            }
        } else {
            (before, used)
        }
    }
}

/// The positions of the first `n` entities of the walk that are marked as
/// places where players spawn.
pub open spec fn spec_spawn_points(store: Map<u64, Components>, order: Seq<u64>, n: int) -> Seq<
    Vec3,
>
    decreases n,
{
    if n <= 0 {
        Seq::empty()
    } else {
        let before = spec_spawn_points(store, order, n - 1);
        let c = store[order[n - 1]];
        match (c.point, c.properties) {
            (Some(point), Some(properties)) => if properties.spec_is_spawn() {
                before.push(point.0)
            } else {
                before
            },
            _ => before,
        }
    }
}

/// Whether `columns` is what a joining peer is sent of a world: every body
/// and every mesh, and nothing else.
pub open spec fn is_snapshot(
    columns: Columns,
    store: Map<u64, Components>,
    order: Seq<u64>,
) -> bool {
    &&& columns.physics_object@ == bodies_column(store, order, false, order.len() as int)
    &&& columns.mesh_wrapper@ == meshes_column(store, order, order.len() as int)
    &&& columns.player@.len() == 0
    &&& columns.spawn@.len() == 0
    &&& columns.properties@.len() == 0
}

/// Whether `columns` is what every peer is sent of a world after a tick:
/// every body that can move and every player, and nothing else.
pub open spec fn is_delta(columns: Columns, store: Map<u64, Components>, order: Seq<u64>) -> bool {
    &&& columns.physics_object@ == bodies_column(store, order, true, order.len() as int)
    &&& columns.player@ == players_column(store, order, order.len() as int)
    &&& columns.mesh_wrapper@.len() == 0
    &&& columns.spawn@.len() == 0
    &&& columns.properties@.len() == 0
}

/// Whether `pos` is a place where a player may spawn in a level whose spawn
/// points are `points`: one of them if there is any, the origin if not.
pub open spec fn may_spawn_at(points: Seq<Vec3>, pos: Vec3) -> bool {
    if points.len() > 0 {
        points.contains(pos)
    } else {
        pos == Vec3::spec_zero()
    }
}

/// `ChooseRandom::choose` of `macroquad::rand` on the points: one of them,
/// picked by the global generator, and `None` only if there is none. The
/// generator draws an index below the length and looks it up. Which point
/// it is is a matter of chance, and nothing is said of it.
#[verifier::external_body]
fn choose_point(points: &Vec<Vec3>) -> (chosen: Option<Vec3>)
    ensures
        chosen matches Some(p) ==> points@.contains(p),
        points@.len() > 0 ==> chosen is Some,
{
    points.choose().copied()
}

/// The point that was chosen, or the origin if none was.
pub fn spawn_or_origin(chosen: Option<Vec3>) -> (pos: Vec3)
    ensures
        pos == match chosen {
            Some(p) => p,
            None => Vec3::spec_zero(),
        },
{
    match chosen {
        Some(p) => p,
        None => Vec3::zero(),
    }
}

/// The body of the fragment number `k` of a death at `target`.
fn gib(target: Vec3, k: usize) -> (obj: PhysicsObject)
    requires
        k < GIB_COUNT,
    ensures
        obj == spec_gib(target, k as int),
{
    let (offset, vel) = if k == 4 {
        (Vec3 { x: 0, y: ONE, z: 0 }, Vec3 { x: 0, y: GIB_LIFT, z: 0 })
    } else {
        let x: i64 = if k < 2 {
            -1
        } else {
            1
        };
        let z: i64 = if k % 2 == 0 {
            -1
        } else {
            1
        };
        (Vec3 { x: x * 500_000, y: 0, z: z * 500_000 }, Vec3 { x: x * ONE, y: GIB_LIFT, z: z * ONE })
    };
    let size = Vec3 { x: GIB_SIZE, y: GIB_SIZE, z: GIB_SIZE };
    PhysicsObject::new(Shape::Obb(Obb::from_pos_size(target.plus(offset), size))).vel(vel)
}

impl Server {
    /// A server with an empty world and no client.
    pub fn new() -> (server: Server)
        ensures
            server.shared@.store == Map::<u64, Components>::empty(),
            server.shared@.handles == 0,
            server.shared.well_formed(),
            server.client_ids@ == Map::<u64, EntityId>::empty(),
            server.dt_accumulator == 0,
    {
        Server { shared: Shared::new(), client_ids: HashMap::new(), dt_accumulator: 0 }
    }

    /// The positions of the entities that are marked as places where players
    /// spawn, in the order of the walk. The world is left as it was.
    pub fn spawn_points(&mut self) -> (points: Vec<Vec3>)
        ensures
            points@ == spec_spawn_points(
                old(self).shared@.store,
                old(self).shared@.order,
                old(self).shared@.order.len() as int,
            ),
            final(self).shared@ == old(self).shared@,
            final(self).shared.well_formed(),
            final(self).client_ids == old(self).client_ids,
            final(self).dt_accumulator == old(self).dt_accumulator,
    {
        let ids = entity_ids(&mut self.shared.ecs);
        let ghost store = old(self).shared@.store;
        let ghost walk = old(self).shared@.order;
        let mut points: Vec<Vec3> = Vec::new();
        let mut i: usize = 0;
        while i < ids.len()
            invariant
                i <= ids@.len(),
                ids@.len() == walk.len(),
                forall|k: int| 0 <= k < ids@.len() ==> ids@[k].bits == walk[k],
                self.shared@ == old(self).shared@,
                store == old(self).shared@.store,
                walk == old(self).shared@.order,
                self.shared.well_formed(),
                self.client_ids == old(self).client_ids,
                self.dt_accumulator == old(self).dt_accumulator,
                points@ == spec_spawn_points(store, walk, i as int),
            decreases ids@.len() - i,
        {
            assert(walk.contains(walk[i as int]));
            match get_components(&mut self.shared.ecs, ids[i]) {
                Some(c) => {
                    match (c.point, c.properties) {
                        (Some(point), Some(properties)) => {
                            if properties.is_spawn() {
                                points.push(point.0);
                            }
                        },
                        _ => {},
                    }
                },
                None => {},
            }
            i += 1;
        }
        points
    }

    /// A place for a player to spawn: one of the spawn points, picked at
    /// random, whenever the level has any, and the origin if it has none.
    /// The world is left as it was.
    pub fn get_random_spawn(&mut self) -> (pos: Vec3)
        ensures
            may_spawn_at(
                spec_spawn_points(
                    old(self).shared@.store,
                    old(self).shared@.order,
                    old(self).shared@.order.len() as int,
                ),
                pos,
            ),
            final(self).shared@ == old(self).shared@,
            final(self).shared.well_formed(),
            final(self).client_ids == old(self).client_ids,
            final(self).dt_accumulator == old(self).dt_accumulator,
    {
        let points = self.spawn_points();
        spawn_or_origin(choose_point(&points))
    }

    /// Spawns the fragments of a death at `target` and returns their
    /// entities: four at the corners of a square around the place, flying
    /// outward, and one above it, all flying upward.
    pub fn spawn_gibs(&mut self, target: Vec3) -> (ids: Vec<EntityId>)
        requires
            old(self).shared@.handles + GIB_COUNT <= u32::MAX,
        ensures
            fresh(old(self).shared@.store, ids@, GIB_COUNT as int),
            final(self).shared@.store == with_gibs(
                old(self).shared@.store,
                ids@,
                target,
                GIB_COUNT as int,
            ),
            final(self).shared@.handles == old(self).shared@.handles + GIB_COUNT,
            final(self).shared.well_formed(),
            final(self).client_ids == old(self).client_ids,
            final(self).dt_accumulator == old(self).dt_accumulator,
    {
        let ghost before = old(self).shared@.store;
        let mut ids: Vec<EntityId> = Vec::new();
        let mut k: usize = 0;
        while k < GIB_COUNT
            invariant
                k <= GIB_COUNT,
                before == old(self).shared@.store,
                fresh(before, ids@, k as int),
                self.shared@.store == with_gibs(before, ids@, target, k as int),
                forall|i: int| 0 <= i < k ==> self.shared@.store.contains_key(#[trigger] ids@[i].bits),
                self.shared@.handles == old(self).shared@.handles + k,
                old(self).shared@.handles + GIB_COUNT <= u32::MAX,
                self.client_ids == old(self).client_ids,
                self.dt_accumulator == old(self).dt_accumulator,
                k > 0 ==> self.shared.well_formed(),
                k == 0 ==> self.shared@ == old(self).shared@,
            decreases GIB_COUNT - k,
        {
            let obj = gib(target, k);
            let c = Components {
                physics: Some(obj),
                player: None,
                mesh: None,
                point: None,
                properties: None,
                spawn: None,
            };
            let ghost earlier = ids@;
            let id = spawn_components(&mut self.shared.ecs, c);
            ids.push(id);
            proof {
                lemma_with_gibs_prefix(before, earlier, ids@, target, k as int);
                assert(!before.contains_key(id.bits)) by {
                    lemma_with_gibs_keeps(before, earlier, target, k as int, id.bits);
                }
            }
            k += 1;
        }
        ids
    }

    /// What a joining peer is sent of the world: every body and every mesh.
    /// The world is left as it was.
    pub fn snapshot(&mut self) -> (columns: Columns)
        ensures
            is_snapshot(columns, old(self).shared@.store, old(self).shared@.order),
            final(self).shared@ == old(self).shared@,
            final(self).shared.well_formed(),
            final(self).client_ids == old(self).client_ids,
            final(self).dt_accumulator == old(self).dt_accumulator,
    {
        let mut columns = Columns::new();
        columns.physics_object = self.shared.query_bodies(false);
        columns.mesh_wrapper = self.shared.query_meshes();
        columns
    }

    /// What every peer is sent after a tick: one message with every body
    /// that can move and every player. The world is left as it was.
    pub fn network_send(&mut self) -> (messages: ServerMessages)
        ensures
            messages@.len() == 1,
            messages@[0] matches ServerMessage::Ecs(columns) && is_delta(
                columns,
                old(self).shared@.store,
                old(self).shared@.order,
            ),
            final(self).shared@ == old(self).shared@,
            final(self).shared.well_formed(),
            final(self).client_ids == old(self).client_ids,
            final(self).dt_accumulator == old(self).dt_accumulator,
    {
        let mut columns = Columns::new();
        columns.physics_object = self.shared.query_bodies(true);
        columns.player = self.shared.query_players();
        let mut messages: Vec<ServerMessage> = Vec::new();
        messages.push(ServerMessage::Ecs(columns));
        messages
    }

    /// Takes in a client that has connected: spawns its player at `pos`,
    /// notes which entity is its own, and returns what it is to be sent: the
    /// handle of its entity, then the world as it is with the newcomer in it.
    pub fn connect_at(&mut self, client_id: u64, pos: Vec3) -> (messages: ServerMessages)
        requires
            old(self).shared@.handles < u32::MAX,
        ensures
            messages@.len() == 2,
            messages@[0] matches ServerMessage::AssignId(id) && {
                &&& !old(self).shared@.store.contains_key(id.bits)
                &&& final(self).shared@.store == old(self).shared@.store.insert(
                    id.bits,
                    newcomer(pos),
                )
                &&& final(self).client_ids@ == old(self).client_ids@.insert(client_id, id)
            },
            messages@[1] matches ServerMessage::Ecs(columns) && is_snapshot(
                columns,
                final(self).shared@.store,
                final(self).shared@.order,
            ),
            final(self).shared@.handles == old(self).shared@.handles + 1,
            final(self).shared.well_formed(),
            final(self).dt_accumulator == old(self).dt_accumulator,
    {
        let size = Vec3 { x: ONE, y: 2_000_000, z: ONE };
        let c = Components {
            physics: Some(PhysicsObject::new(Shape::Obb(Obb::from_pos_size(pos, size)))),
            player: Some(Player::new()),
            mesh: None,
            point: None,
            properties: None,
            spawn: None,
        };
        let id = spawn_components(&mut self.shared.ecs, c);
        self.client_ids.insert(client_id, id);
        let columns = self.snapshot();
        let mut messages: Vec<ServerMessage> = Vec::new();
        messages.push(ServerMessage::AssignId(id));
        messages.push(ServerMessage::Ecs(columns));
        messages
    }

    /// Takes in a client that has connected, at a spawn point picked at
    /// random, or at the origin if the level has none. Whatever point is
    /// picked, the outcome is that of [`Server::connect_at`] for that point.
    pub fn client_connected(&mut self, client_id: u64) -> (messages: ServerMessages)
        requires
            old(self).shared@.handles < u32::MAX,
        ensures
            messages@.len() == 2,
            messages@[0] matches ServerMessage::AssignId(id) && {
                &&& !old(self).shared@.store.contains_key(id.bits)
                &&& exists|pos: Vec3|
                    {
                        &&& may_spawn_at(
                            spec_spawn_points(
                                old(self).shared@.store,
                                old(self).shared@.order,
                                old(self).shared@.order.len() as int,
                            ),
                            pos,
                        )
                        &&& final(self).shared@.store == old(self).shared@.store.insert(
                            id.bits,
                            #[trigger] newcomer(pos),
                        )
                    }
                &&& final(self).client_ids@ == old(self).client_ids@.insert(client_id, id)
            },
            messages@[1] matches ServerMessage::Ecs(columns) && is_snapshot(
                columns,
                final(self).shared@.store,
                final(self).shared@.order,
            ),
            final(self).shared@.handles == old(self).shared@.handles + 1,
            final(self).shared.well_formed(),
            final(self).dt_accumulator == old(self).dt_accumulator,
    {
        let pos = self.get_random_spawn();
        let messages = self.connect_at(client_id, pos);
        assert(self.shared@.store == old(self).shared@.store.insert(
            match messages@[0] {
                ServerMessage::AssignId(id) => id.bits,
                _ => 0,
            },
            newcomer(pos),
        ));
        messages
    }

    /// Applies one message of the client `cli_id` to the world and returns
    /// the fragments it has spawned, if any.
    ///
    /// A movement replaces what the client's player had pending, but keeps a
    /// jump that was asked for and not yet made. A rotation turns the
    /// client's body. A shot takes [`SHOT_DAMAGE`] from the player it names;
    /// if that uses up the player's health, the player comes back at the
    /// respawn point with full health and leaves fragments where it died. A
    /// message of a client that has no entity, or that names an entity that
    /// is gone, changes nothing.
    pub fn handle_msg(&mut self, cli_id: u64, msg: ClientMessage) -> (fragments: Vec<EntityId>)
        requires
            old(self).shared@.handles + GIB_COUNT <= u32::MAX,
        ensures
            final(self).client_ids == old(self).client_ids,
            final(self).dt_accumulator == old(self).dt_accumulator,
            old(self).shared.well_formed() ==> final(self).shared.well_formed(),
            if old(self).client_ids@.contains_key(cli_id) {
                let id = old(self).client_ids@[cli_id].bits;
                let before = old(self).shared@.store;
                match death_place(before, msg) {
                    Some(place) => {
                        &&& fresh(dealt(before, id, msg), fragments@, GIB_COUNT as int)
                        &&& final(self).shared@.store == with_gibs(
                            dealt(before, id, msg),
                            fragments@,
                            place,
                            GIB_COUNT as int,
                        )
                        &&& final(self).shared@.handles == old(self).shared@.handles + GIB_COUNT
                    },
                    None => {
                        &&& fragments@.len() == 0
                        &&& final(self).shared@.store == dealt(before, id, msg)
                        &&& final(self).shared@.order == old(self).shared@.order
                        &&& final(self).shared@.handles == old(self).shared@.handles
                    },
                }
            } else {
                fragments@.len() == 0 && final(self).shared@ == old(self).shared@
            },
    {
        let id = match self.client_ids.get(&cli_id) {
            Some(id) => *id,
            None => {
                return Vec::new();
            },
        };
        match msg {
            ClientMessage::SetMoveState(wanted) => {
                match get_components(&mut self.shared.ecs, id) {
                    Some(c) => {
                        let mut c = c;
                        match c.player {
                            Some(player) => {
                                let jumping = player.moves.jump;
                                let mut moves = wanted;
                                moves.jump = jumping || moves.jump;
                                c.player = Some(Player { hp: player.hp, moves });
                                put_components(&mut self.shared.ecs, id, c);
                            },
                            None => {},
                        }
                    },
                    None => {},
                }
                Vec::new()
            },
            ClientMessage::SetRotation(rotation) => {
                match get_components(&mut self.shared.ecs, id) {
                    Some(c) => {
                        let mut c = c;
                        match c.physics {
                            Some(body) => {
                                let mut obj = body;
                                obj.set_orientation(rotation);
                                c.physics = Some(obj);
                                put_components(&mut self.shared.ecs, id, c);
                            },
                            None => {},
                        }
                    },
                    None => {},
                }
                Vec::new()
            },
            ClientMessage::Shot(target) => {
                let died = match get_components(&mut self.shared.ecs, target) {
                    Some(c) => {
                        let mut c = c;
                        match (c.physics, c.player) {
                            (Some(body), Some(hit)) => {
                                let mut obj = body;
                                let mut player = hit;
                                player.hurt(SHOT_DAMAGE);
                                let died = if player.dead() {
                                    let place = obj.pos();
                                    obj.set_pos(Vec3 { x: 0, y: RESPAWN_HEIGHT, z: 0 });
                                    player.reset_hp();
                                    Some(place)
                                } else {
                                    None
                                };
                                c.physics = Some(obj);
                                c.player = Some(player);
                                put_components(&mut self.shared.ecs, target, c);
                                died
                            },
                            _ => None,
                        }
                    },
                    None => None,
                };
                match died {
                    Some(place) => self.spawn_gibs(place),
                    None => Vec::new(),
                }
            },
        }
    }

    /// Lets `delta` seconds pass: the time is added to what was left over,
    /// the world is advanced by as many whole steps of [`PHYSICS_STEP`] as
    /// fit into the sum, and the rest is kept for the next call. Returns the
    /// number of steps taken. Each step has the same length, whatever the
    /// rhythm of the calls.
    pub fn advance(&mut self, delta: Fixed) -> (steps: u64)
        ensures
            steps == steps_due(spec_add(old(self).dt_accumulator as int, delta as int)),
            final(self).dt_accumulator == time_left(
                spec_add(old(self).dt_accumulator as int, delta as int),
            ),
            final(self).shared@.store == repeat_step(
                old(self).shared@.store,
                old(self).shared@.order,
                PHYSICS_STEP,
                steps as nat,
            ),
            final(self).shared@.order == old(self).shared@.order,
            final(self).shared@.handles == old(self).shared@.handles,
            final(self).client_ids == old(self).client_ids,
    {
        let mut left = self.dt_accumulator;
        let steps = self.shared.run_steps(&mut left, delta);
        self.dt_accumulator = left;
        steps
    }

    /// One tick of the server: every message of `inbox` is dealt with, in
    /// order, before the world moves; then `delta` seconds pass in whole
    /// steps; and only then is it worked out what the peers are sent.
    /// Returns that message, and the fragments that the messages spawned.
    pub fn tick(&mut self, inbox: &Vec<(u64, ClientMessage)>, delta: Fixed) -> (out: (
        ServerMessages,
        Vec<EntityId>,
    ))
        requires
            old(self).shared@.handles + GIB_COUNT * inbox@.len() <= u32::MAX,
        ensures
            received(
                old(self).shared@.store,
                old(self).client_ids@,
                inbox@,
                out.1@,
                inbox@.len() as int,
            ).1 == out.1@.len(),
            forall|i: int|
                0 <= i < out.1@.len() ==> !old(self).shared@.store.contains_key(
                    #[trigger] out.1@[i].bits,
                ),
            forall|i: int, j: int| 0 <= i < j < out.1@.len() ==> out.1@[i] != out.1@[j],
            final(self).shared@.store == repeat_step(
                received(
                    old(self).shared@.store,
                    old(self).client_ids@,
                    inbox@,
                    out.1@,
                    inbox@.len() as int,
                ).0,
                final(self).shared@.order,
                PHYSICS_STEP,
                steps_due(spec_add(old(self).dt_accumulator as int, delta as int)),
            ),
            final(self).dt_accumulator == time_left(
                spec_add(old(self).dt_accumulator as int, delta as int),
            ),
            out.0@.len() == 1,
            out.0@[0] matches ServerMessage::Ecs(columns) && is_delta(
                columns,
                final(self).shared@.store,
                final(self).shared@.order,
            ),
            final(self).client_ids == old(self).client_ids,
    {
        let ghost start = old(self).shared@.store;
        let ghost clients = old(self).client_ids@;
        let mut fragments: Vec<EntityId> = Vec::new();
        let mut i: usize = 0;
        while i < inbox.len()
            invariant
                i <= inbox@.len(),
                start == old(self).shared@.store,
                clients == old(self).client_ids@,
                self.client_ids == old(self).client_ids,
                self.dt_accumulator == old(self).dt_accumulator,
                fragments@.len() <= GIB_COUNT * i,
                self.shared@.handles == old(self).shared@.handles + fragments@.len(),
                old(self).shared@.handles + GIB_COUNT * inbox@.len() <= u32::MAX,
                received(start, clients, inbox@, fragments@, i as int) == (
                    self.shared@.store,
                    fragments@.len() as int,
                ),
                forall|k: u64| start.contains_key(k) ==> self.shared@.store.contains_key(k),
                forall|j: int|
                    0 <= j < fragments@.len() ==> self.shared@.store.contains_key(
                        #[trigger] fragments@[j].bits,
                    ) && !start.contains_key(fragments@[j].bits),
                forall|a: int, b: int| 0 <= a < b < fragments@.len() ==> fragments@[a] != fragments@[b],
            decreases inbox@.len() - i,
        {
            let (cli, msg) = inbox[i];
            let ghost before = self.shared@.store;
            let ghost earlier = fragments@;
            let mut spawned = self.handle_msg(cli, msg);
            proof {
                lemma_received_prefix(start, clients, inbox@, earlier, earlier + spawned@, i as int);
                if clients.contains_key(cli) {
                    let id = clients[cli].bits;
                    lemma_dealt_keeps(before, id, msg);
                    if death_place(before, msg) is Some {
                        let place = death_place(before, msg).unwrap();
                        assert((earlier + spawned@).subrange(
                            earlier.len() as int,
                            earlier.len() + GIB_COUNT,
                        ) == spawned@);
                        assert forall|k: u64| before.contains_key(k) implies self.shared@.store.contains_key(
                            k,
                        ) by {
                            lemma_with_gibs_keeps(
                                dealt(before, id, msg),
                                spawned@,
                                place,
                                GIB_COUNT as int,
                                k,
                            );
                        }
                        assert forall|j: int| 0 <= j < GIB_COUNT implies self.shared@.store.contains_key(
                            #[trigger] spawned@[j].bits,
                        ) by {
                            lemma_with_gibs_holds(
                                dealt(before, id, msg),
                                spawned@,
                                place,
                                GIB_COUNT as int,
                                j,
                            );
                        }
                    }
                }
            }
            let ghost added = spawned@;
            fragments.append(&mut spawned);
            proof {
                assert(fragments@ == earlier + added);
                assert forall|a: int, b: int| 0 <= a < b < fragments@.len() implies fragments@[a]
                    != fragments@[b] by {
                    if b >= earlier.len() {
                        let id = clients[cli].bits;
                        assert(fresh(dealt(before, id, msg), added, GIB_COUNT as int));
                        if a >= earlier.len() {
                            assert(added[a - earlier.len()] != added[b - earlier.len()]);
                        } else {
                            assert(before.contains_key(earlier[a].bits));
                            assert(!dealt(before, id, msg).contains_key(
                                added[b - earlier.len()].bits,
                            ));
                        }
                    }
                }
            }
            i += 1;
        }
        self.advance(delta);
        let messages = self.network_send();
        (messages, fragments)
    }
}

/// Handles that agree on the first `n` places give the same first `n`
/// fragments.
pub proof fn lemma_with_gibs_prefix(
    store: Map<u64, Components>,
    a: Seq<EntityId>,
    b: Seq<EntityId>,
    target: Vec3,
    n: int,
)
    requires
        n <= a.len(),
        n <= b.len(),
        forall|i: int| 0 <= i < n ==> a[i] == b[i],
    ensures
        with_gibs(store, a, target, n) == with_gibs(store, b, target, n),
    decreases n,
{
    if n > 0 {
        lemma_with_gibs_prefix(store, a, b, target, n - 1);
    }
}

/// Adding fragments takes no entity away.
pub proof fn lemma_with_gibs_keeps(
    store: Map<u64, Components>,
    ids: Seq<EntityId>,
    target: Vec3,
    n: int,
    k: u64,
)
    ensures
        store.contains_key(k) ==> with_gibs(store, ids, target, n).contains_key(k),
    decreases n,
{
    if n > 0 {
        lemma_with_gibs_keeps(store, ids, target, n - 1, k);
    }
}

/// Adding fragments puts each of them into the world.
pub proof fn lemma_with_gibs_holds(
    store: Map<u64, Components>,
    ids: Seq<EntityId>,
    target: Vec3,
    n: int,
    j: int,
)
    requires
        0 <= j < n,
    ensures
        with_gibs(store, ids, target, n).contains_key(ids[j].bits),
    decreases n,
{
    if j < n - 1 {
        lemma_with_gibs_holds(store, ids, target, n - 1, j);
    }
}

/// Dealing with a message takes no entity away and brings none: it changes
/// what entities carry.
pub proof fn lemma_dealt_keeps(store: Map<u64, Components>, id: u64, msg: ClientMessage)
    ensures
        dealt(store, id, msg).dom() == store.dom(),
{
    assert(dealt(store, id, msg).dom() =~= store.dom());
}

/// What the first `n` messages do depends on the fragments they have used
/// and on no others.
pub proof fn lemma_received_prefix(
    store: Map<u64, Components>,
    clients: Map<u64, EntityId>,
    inbox: Seq<(u64, ClientMessage)>,
    a: Seq<EntityId>,
    b: Seq<EntityId>,
    n: int,
)
    requires
        received(store, clients, inbox, a, n).1 <= a.len() <= b.len(),
        forall|i: int| 0 <= i < a.len() ==> a[i] == b[i],
    ensures
        received(store, clients, inbox, a, n) == received(store, clients, inbox, b, n),
        0 <= received(store, clients, inbox, a, n).1,
    decreases n,
{
    if n > 0 {
        lemma_received_used(store, clients, inbox, a, n - 1);
        lemma_received_used(store, clients, inbox, a, n);
        lemma_received_prefix(store, clients, inbox, a, b, n - 1);
        let (before, used) = received(store, clients, inbox, a, n - 1);
        let (cli, msg) = inbox[n - 1];
        if clients.contains_key(cli) && death_place(before, msg) is Some {
            assert(a.subrange(used, used + GIB_COUNT) == b.subrange(used, used + GIB_COUNT));
        }
    }
}

/// The fragments used never become fewer.
pub proof fn lemma_received_used(
    store: Map<u64, Components>,
    clients: Map<u64, EntityId>,
    inbox: Seq<(u64, ClientMessage)>,
    fragments: Seq<EntityId>,
    n: int,
)
    ensures
        0 <= received(store, clients, inbox, fragments, n).1,
        n > 0 ==> received(store, clients, inbox, fragments, n - 1).1 <= received(
            store,
            clients,
            inbox,
            fragments,
            n,
        ).1,
    decreases n,
{
    if n > 0 {
        lemma_received_used(store, clients, inbox, fragments, n - 1);
    }
}

/// What a shot that kills does. Let `target` be a player with a body whose
/// health is no more than [`SHOT_DAMAGE`], and let `ids` be the handles of
/// the fragments. Then after the shot the player has full health again and
/// has lost nothing else, its body is at the respawn point, every entity
/// that was there is still there, and exactly [`GIB_COUNT`] entities have
/// come: each a body of the size of a fragment that is free to move, at its
/// place around the place of death and with its velocity, and no player.
pub proof fn lemma_fatal_shot(store: Map<u64, Components>, target: u64, ids: Seq<EntityId>)
    requires
        can_be_shot(store, target),
        store[target].player.unwrap().hp <= SHOT_DAMAGE,
        fresh(after_shot(store, target), ids, GIB_COUNT as int),
    ensures
        shot_kills(store, target),
        ({
            let place = store[target].physics.unwrap().spec_pos();
            let after = with_gibs(after_shot(store, target), ids, place, GIB_COUNT as int);
            &&& after[target].player == Some(
                Player { hp: FULL_HEALTH, ..store[target].player.unwrap() },
            )
            &&& after[target].physics == Some(
                store[target].physics.unwrap().with_pos(respawn_point()),
            )
            &&& after[target].physics.unwrap().spec_pos() == respawn_point()
            &&& forall|k: u64|
                after.contains_key(k) <==> store.contains_key(k) || exists|j: int|
                    0 <= j < GIB_COUNT && #[trigger] ids[j].bits == k
            &&& forall|j: int|
                0 <= j < GIB_COUNT ==> {
                    &&& !store.contains_key(#[trigger] ids[j].bits)
                    &&& after[ids[j].bits] == body_only(spec_gib(place, j))
                    &&& after[ids[j].bits].player is None
                    &&& !after[ids[j].bits].physics.unwrap().fixed
                    &&& after[ids[j].bits].physics.unwrap().obb().half_extents == (Vec3 {
                        x: 250_000,
                        y: 250_000,
                        z: 250_000,
                    })
                    &&& after[ids[j].bits].physics.unwrap().vel == gib_velocity(j)
                    &&& after[ids[j].bits].physics.unwrap().spec_pos() == place.spec_plus(
                        gib_offset(j),
                    )
                }
        }),
{
    reveal_with_fuel(with_gibs, 6);
    assert(half_of(GIB_SIZE as int) == 250_000) by {
        assert(magnitude(500_000) == 500_000 && magnitude(2) == 2);
        assert(500_000nat / 2nat == 250_000nat);
    }
    let place = store[target].physics.unwrap().spec_pos();
    let base = after_shot(store, target);
    let after = with_gibs(base, ids, place, GIB_COUNT as int);
    assert(base.dom() =~= store.dom());
    assert(ids[0] != ids[1] && ids[0] != ids[2] && ids[0] != ids[3] && ids[0] != ids[4]);
    assert(ids[1] != ids[2] && ids[1] != ids[3] && ids[1] != ids[4]);
    assert(ids[2] != ids[3] && ids[2] != ids[4] && ids[3] != ids[4]);
    assert forall|j: int| 0 <= j < GIB_COUNT implies !store.contains_key(
        #[trigger] ids[j].bits,
    ) by {
        assert(!base.contains_key(ids[j].bits));
    }
}

} // verus!
