//! The mirroring side: a client takes the columns the server sends into its
//! own world, and smooths what it sees.

use vstd::prelude::*;
use crate::components::{MeshWrapper, MoveState, PhysicsObject, Player, Properties, Spawn};
use crate::fixed::{fx_add, isqrt, lemma_isqrt_bounds, magnitude, spec_add, Fixed};
use crate::hitscan::{candidate, nearest};
use crate::network::{ClientMessage, ClientMessages, Columns, ServerMessage};
use crate::shared::{repeat_step, steps_due, time_left, Shared, PHYSICS_STEP};
use crate::store::{
    evict, get_components, index_of, put_components, spawn_components_at, Component, Components,
    EntityId,
};
use crate::vec3::{
    dist_sq, lemma_far_component, lemma_long_enough, lemma_shorter, lemma_strictly_shorter,
    square, Vec3,
};

verus! {

/// The distance from which a correction by the server is taken at once.
pub const SNAP_DISTANCE: Fixed = 500_000;

/// How far one message moves a body toward where the server says it is.
pub const SMOOTH_STEP: Fixed = 5_000;

/// The state of a client: its copy of the world, and its own entity once the
/// server has named it.
pub struct Client {
    pub shared: Shared,
    pub player: Option<EntityId>,
    /// The time that has passed but has not been simulated yet.
    pub dt_accumulator: Fixed,
}

/// Where a body is shown when the client holds it at `local` and the server
/// says it is at `authoritative`. A difference below [`SNAP_DISTANCE`] is
/// jitter: the body moves [`SMOOTH_STEP`] toward the server's place. A
/// larger one is a jump, and the body is put at the server's place at once.
pub open spec fn spec_reconcile(local: Vec3, authoritative: Vec3) -> Vec3 {
    if local.spec_within(authoritative, SNAP_DISTANCE) {
        local.spec_move_towards(authoritative, SMOOTH_STEP)
    } else {
        authoritative
    }
}

/// The body that the client holds after the server has sent `authoritative`
/// for a body it held as `local`: the server's body, shown where
/// [`spec_reconcile`] puts it.
pub open spec fn reconciled(local: PhysicsObject, authoritative: PhysicsObject) -> PhysicsObject {
    authoritative.with_pos(spec_reconcile(local.spec_pos(), authoritative.spec_pos()))
}

/// The record `c` after the component `part` has arrived for it. A component
/// replaces the one of its kind; a body that replaces a body is reconciled
/// with it.
pub open spec fn patched(c: Components, part: Component) -> Components {
    match (part, c.physics) {
        (Component::Body(obj), Some(local)) => c.spec_with(
            Component::Body(reconciled(local, obj)),
        ),
        _ => c.spec_with(part),
    }
}

/// `store` after the component `part` has arrived for the entity `id`. An
/// entity that the world knows takes the component into its record. One that
/// it does not know comes into being under the handle the server gave it,
/// with that component alone, and whatever occupied its slot is gone. A
/// handle that can name no entity is passed over.
pub open spec fn absorbed(
    store: Map<u64, Components>,
    id: EntityId,
    part: Component,
) -> Map<u64, Components> {
    if store.contains_key(id.bits) {
        store.insert(id.bits, patched(store[id.bits], part))
    } else if id.spec_valid() {
        evict(store, id.bits).insert(id.bits, patched(Components::spec_empty(), part))
    } else {
        store
    }
}

/// `store` after the first `n` entries of `column` have arrived, in their
/// order, each as the component that `wrap` makes of it.
pub open spec fn absorbed_column<T>(
    store: Map<u64, Components>,
    column: Seq<(EntityId, T)>,
    wrap: spec_fn(T) -> Component,
    n: int,
) -> Map<u64, Components>
    decreases n,
{
    if n <= 0 {
        store
    } else {
        absorbed(
            absorbed_column(store, column, wrap, n - 1),
            column[n - 1].0,
            wrap(column[n - 1].1),
        )
    }
}

/// A body, as a component.
pub open spec fn wrap_body() -> spec_fn(PhysicsObject) -> Component {
    |obj: PhysicsObject| Component::Body(obj)
}

/// A player, as a component.
pub open spec fn wrap_player() -> spec_fn(Player) -> Component {
    |player: Player| Component::Player(player)
}

/// A mesh, as a component.
pub open spec fn wrap_mesh() -> spec_fn(MeshWrapper) -> Component {
    |mesh: MeshWrapper| Component::Mesh(mesh)
}

/// A spawn, as a component.
pub open spec fn wrap_spawn() -> spec_fn(Spawn) -> Component {
    |spawn: Spawn| Component::Spawn(spawn)
}

/// Properties, as a component.
pub open spec fn wrap_properties() -> spec_fn(Properties) -> Component {
    |properties: Properties| Component::Properties(properties)
}

/// `store` after `columns` have arrived: the bodies first, then the players,
/// the meshes, the spawns and the properties.
pub open spec fn applied(store: Map<u64, Components>, columns: Columns) -> Map<u64, Components> {
    let bodies = absorbed_column(
        store,
        columns.physics_object@,
        wrap_body(),
        columns.physics_object@.len() as int,
    );
    let players = absorbed_column(
        bodies,
        columns.player@,
        wrap_player(),
        columns.player@.len() as int,
    );
    let meshes = absorbed_column(
        players,
        columns.mesh_wrapper@,
        wrap_mesh(),
        columns.mesh_wrapper@.len() as int,
    );
    let spawns = absorbed_column(meshes, columns.spawn@, wrap_spawn(), columns.spawn@.len() as int);
    absorbed_column(
        spawns,
        columns.properties@,
        wrap_properties(),
        columns.properties@.len() as int,
    )
}

/// Whether the client's entity is a player with a body, so that what the
/// player does is sent to the server.
pub open spec fn drives(store: Map<u64, Components>, player: Option<EntityId>) -> bool {
    match player {
        Some(id) => store.contains_key(id.bits) && store[id.bits].physics is Some
            && store[id.bits].player is Some,
        None => false,
    }
}

/// `store` after the client's player has turned to face along `orientation`
/// and asked for the movement `keys`.
pub open spec fn commanded(
    store: Map<u64, Components>,
    player: Option<EntityId>,
    orientation: Vec3,
    keys: MoveState,
) -> Map<u64, Components> {
    match player {
        Some(id) => if store.contains_key(id.bits) {
            let c = store[id.bits];
            match c.physics {
                Some(obj) => store.insert(
                    id.bits,
                    Components {
                        physics: Some(obj.with_orientation(orientation)),
                        player: match c.player {
                            Some(p) => Some(Player { moves: keys, ..p }),
                            None => None,
                        },
                        ..c
                    },
                ),
                None => store,
            }
        } else {
            store
        },
        None => store,
    }
}

/// The client's entity and the place of its body, from where it shoots, if
/// it has one.
pub open spec fn aim(store: Map<u64, Components>, player: Option<EntityId>) -> Option<
    (EntityId, Vec3),
> {
    match player {
        Some(id) => if store.contains_key(id.bits) {
            match store[id.bits].physics {
                Some(obj) => Some((id, obj.spec_pos())),
                None => None,
            }
        } else {
            None
        },
        None => None,
    }
}

/// Whether `shot` is the right report of a shot that `me` fires from `origin`
/// along `front`: the shot at the first body that the ray meets, the
/// shooter's own aside, if that body belongs to a player, and nothing
/// otherwise.
pub open spec fn reports_first_player(
    store: Map<u64, Components>,
    order: Seq<u64>,
    me: EntityId,
    origin: Vec3,
    front: Vec3,
    shot: Option<ClientMessage>,
) -> bool {
    match shot {
        Some(msg) => exists|j: int|
            {
                &&& nearest(store, order, origin, front, seq![me], j)
                &&& store[order[j]].player is Some
                &&& msg == ClientMessage::Shot(EntityId { bits: order[j] })
            },
        None => forall|j: int|
            nearest(store, order, origin, front, seq![me], j) ==> store[order[j]].player is None,
    }
}

/// Points closer than a radius differ by less than the radius on each axis.
proof fn lemma_within_reachable(a: Vec3, b: Vec3, radius: Fixed)
    requires
        a.spec_within(b, radius),
    ensures
        a.reachable(b),
{
    lemma_far_component(a.x - b.x, radius as int);
    lemma_far_component(a.y - b.y, radius as int);
    lemma_far_component(a.z - b.z, radius as int);
    assert(square(a.x - b.x) >= 0 && square(a.y - b.y) >= 0 && square(a.z - b.z) >= 0);
}

/// Where a body is shown when the client holds it at `local` and the server
/// says it is at `authoritative`.
pub fn reconcile(local: Vec3, authoritative: Vec3) -> (shown: Vec3)
    ensures
        shown == spec_reconcile(local, authoritative),
{
    if local.within(authoritative, SNAP_DISTANCE) {
        proof {
            lemma_within_reachable(local, authoritative, SNAP_DISTANCE);
        }
        local.move_towards(authoritative, SMOOTH_STEP)
    } else {
        authoritative
    }
}

/// The record `c` after the component `part` has arrived for it.
fn patch(c: Components, part: Component) -> (r: Components)
    ensures
        r == patched(c, part),
{
    match (part, c.physics) {
        (Component::Body(obj), Some(local)) => {
            let mut obj = obj;
            let shown = reconcile(local.pos(), obj.pos());
            obj.set_pos(shown);
            c.with(Component::Body(obj))
        },
        (part, _) => c.with(part),
    }
}

impl Client {
    /// A client with an empty world that has not been given an entity yet.
    pub fn new() -> (client: Client)
        ensures
            client.shared@.store == Map::<u64, Components>::empty(),
            client.shared@.handles == 0,
            client.shared.well_formed(),
            client.player is None,
            client.dt_accumulator == 0,
    {
        Client { shared: Shared::new(), player: None, dt_accumulator: 0 }
    }

    /// Whether the server has named the client's entity and the world holds
    /// it: until then the client is still connecting. The world is left as
    /// it was.
    pub fn connected(&mut self) -> (ready: bool)
        ensures
            ready == match old(self).player {
                Some(id) => old(self).shared@.store.contains_key(id.bits),
                None => false,
            },
            final(self).shared@ == old(self).shared@,
            final(self).player == old(self).player,
            final(self).dt_accumulator == old(self).dt_accumulator,
    {
        match self.player {
            Some(id) => get_components(&mut self.shared.ecs, id).is_some(),
            None => false,
        }
    }

    /// Turns what the player does in one frame into what the server is told,
    /// and applies it to the client's own copy so that it can run ahead of
    /// the server. The client's body turns to face along `orientation`. If
    /// the client's entity is a player with a body, its pending movement
    /// becomes `keys`, and the server is sent the rotation and the movement,
    /// in full. Until then nothing is sent.
    pub fn command(&mut self, orientation: Vec3, keys: MoveState) -> (messages: ClientMessages)
        ensures
            final(self).player == old(self).player,
            final(self).dt_accumulator == old(self).dt_accumulator,
            final(self).shared@.order == old(self).shared@.order,
            final(self).shared@.handles == old(self).shared@.handles,
            final(self).shared@.store == commanded(
                old(self).shared@.store,
                old(self).player,
                orientation,
                keys,
            ),
            messages@ == if drives(old(self).shared@.store, old(self).player) {
                seq![ClientMessage::SetRotation(orientation), ClientMessage::SetMoveState(keys)]
            } else {
                Seq::empty()
            },
    {
        let mut messages: Vec<ClientMessage> = Vec::new();
        let id = match self.player {
            Some(id) => id,
            None => {
                return messages;
            },
        };
        match get_components(&mut self.shared.ecs, id) {
            Some(c) => {
                let mut c = c;
                match c.physics {
                    Some(body) => {
                        let mut obj = body;
                        obj.set_orientation(orientation);
                        c.physics = Some(obj);
                        match c.player {
                            Some(player) => {
                                c.player = Some(Player { hp: player.hp, moves: keys });
                                messages.push(ClientMessage::SetRotation(orientation));
                                messages.push(ClientMessage::SetMoveState(keys));
                            },
                            None => {},
                        }
                        put_components(&mut self.shared.ecs, id, c);
                    },
                    None => {},
                }
            },
            None => {},
        }
        messages
    }

    /// Lets `delta` seconds pass. The time is always added to what was left
    /// over. Once the client's entity is there, the world is advanced by as
    /// many whole steps as fit into the sum and the rest is kept: see
    /// [`Shared::run_steps`]. Until then the world stands still and the time
    /// piles up, to be made good when the entity appears. Returns the number
    /// of steps taken.
    pub fn advance(&mut self, delta: Fixed) -> (steps: u64)
        ensures
            final(self).player == old(self).player,
            final(self).shared@.order == old(self).shared@.order,
            final(self).shared@.handles == old(self).shared@.handles,
            if old(self).player matches Some(id) && old(self).shared@.store.contains_key(id.bits) {
                &&& steps == steps_due(spec_add(old(self).dt_accumulator as int, delta as int))
                &&& final(self).dt_accumulator == time_left(
                    spec_add(old(self).dt_accumulator as int, delta as int),
                )
                &&& final(self).shared@.store == repeat_step(
                    old(self).shared@.store,
                    old(self).shared@.order,
                    PHYSICS_STEP,
                    steps as nat,
                )
            } else {
                &&& steps == 0
                &&& final(self).dt_accumulator == spec_add(
                    old(self).dt_accumulator as int,
                    delta as int,
                )
                &&& final(self).shared@.store == old(self).shared@.store
            },
    {
        if self.connected() {
            let mut left = self.dt_accumulator;
            let steps = self.shared.run_steps(&mut left, delta);
            self.dt_accumulator = left;
            steps
        } else {
            self.dt_accumulator = fx_add(self.dt_accumulator, delta);
            0
        }
    }

    /// Fires along `front` from where the client's body is. Returns the shot
    /// to report to the server if the first body that the ray meets, the
    /// client's own aside, belongs to a player; `None` if it meets no body or
    /// one that is no player, or if the client has no body yet. The world is
    /// left as it was.
    pub fn shoot(&mut self, front: Vec3) -> (shot: Option<ClientMessage>)
        ensures
            final(self).shared@ == old(self).shared@,
            final(self).player == old(self).player,
            final(self).dt_accumulator == old(self).dt_accumulator,
            match aim(old(self).shared@.store, old(self).player) {
                Some((me, origin)) => reports_first_player(
                    old(self).shared@.store,
                    old(self).shared@.order,
                    me,
                    origin,
                    front,
                    shot,
                ),
                None => shot is None,
            },
    {
        let me = match self.player {
            Some(id) => id,
            None => {
                return None;
            },
        };
        let origin = match get_components(&mut self.shared.ecs, me) {
            Some(c) => match c.physics {
                Some(obj) => obj.pos(),
                None => {
                    return None;
                },
            },
            None => {
                return None;
            },
        };
        let mut ignore: Vec<EntityId> = Vec::new();
        ignore.push(me);
        assert(ignore@ == seq![me]);
        let ghost store = old(self).shared@.store;
        let ghost walk = old(self).shared@.order;
        match self.shared.ray_intersection(origin, front, &ignore) {
            Some((_, id)) => {
                let ghost first = choose|j: int|
                    nearest(store, walk, origin, front, seq![me], j) && id.bits == walk[j];
                assert(walk.contains(walk[first]));
                let hit = match get_components(&mut self.shared.ecs, id) {
                    Some(c) => c.player.is_some(),
                    None => false,
                };
                proof {
                    assert forall|j: int|
                        nearest(store, walk, origin, front, seq![me], j) implies j == first by {
                        let a = candidate(store, walk, origin, front, seq![me], j);
                        let b = candidate(store, walk, origin, front, seq![me], first);
                        assert(a is Some && b is Some);
                    }
                }
                assert(id == EntityId { bits: walk[first] });
                assert(hit == (store[walk[first]].player is Some));
                let shot = if hit {
                    assert(nearest(store, walk, origin, front, seq![me], first));
                    Some(ClientMessage::Shot(id))
                } else {
                    None
                };
                assert(reports_first_player(store, walk, me, origin, front, shot));
                shot
            },
            None => {
                assert forall|j: int| !nearest(store, walk, origin, front, seq![me], j) by {
                    assert(candidate(store, walk, origin, front, seq![me], j) is None);
                }
                assert(reports_first_player(store, walk, me, origin, front, None));
                None
            },
        }
    }

    /// Takes the component `part` into the record of the entity `id`, which
    /// comes into being if the world does not know it.
    pub fn absorb(&mut self, id: EntityId, part: Component)
        requires
            old(self).shared@.handles < u32::MAX,
        ensures
            final(self).shared@.store == absorbed(old(self).shared@.store, id, part),
            old(self).shared@.handles <= final(self).shared@.handles <= old(self).shared@.handles
                + 1,
            old(self).shared.well_formed() ==> final(self).shared.well_formed(),
            final(self).player == old(self).player,
            final(self).dt_accumulator == old(self).dt_accumulator,
    {
        match get_components(&mut self.shared.ecs, id) {
            Some(c) => {
                put_components(&mut self.shared.ecs, id, patch(c, part));
            },
            None => {
                if id.valid() {
                    spawn_components_at(&mut self.shared.ecs, id, patch(Components::empty(), part));
                }
            },
        }
    }

    /// Takes in a column of bodies, entry by entry.
    fn absorb_bodies(&mut self, column: &Vec<(EntityId, PhysicsObject)>)
        requires
            old(self).shared@.handles + column@.len() <= u32::MAX,
        ensures
            final(self).shared@.store == absorbed_column(
                old(self).shared@.store,
                column@,
                wrap_body(),
                column@.len() as int,
            ),
            old(self).shared@.handles <= final(self).shared@.handles <= old(self).shared@.handles
                + column@.len(),
            old(self).shared.well_formed() ==> final(self).shared.well_formed(),
            final(self).player == old(self).player,
            final(self).dt_accumulator == old(self).dt_accumulator,
    {
        let mut i: usize = 0;
        while i < column.len()
            invariant
                i <= column@.len(),
                old(self).shared@.handles + column@.len() <= u32::MAX,
                self.shared@.store == absorbed_column(
                    old(self).shared@.store,
                    column@,
                    wrap_body(),
                    i as int,
                ),
                old(self).shared@.handles <= self.shared@.handles <= old(self).shared@.handles + i,
                old(self).shared.well_formed() ==> self.shared.well_formed(),
                self.player == old(self).player,
                self.dt_accumulator == old(self).dt_accumulator,
            decreases column@.len() - i,
        {
            let (id, part) = column[i];
            self.absorb(id, Component::Body(part));
            i += 1;
        }
    }

    /// Takes in a column of players, entry by entry.
    fn absorb_players(&mut self, column: &Vec<(EntityId, Player)>)
        requires
            old(self).shared@.handles + column@.len() <= u32::MAX,
        ensures
            final(self).shared@.store == absorbed_column(
                old(self).shared@.store,
                column@,
                wrap_player(),
                column@.len() as int,
            ),
            old(self).shared@.handles <= final(self).shared@.handles <= old(self).shared@.handles
                + column@.len(),
            old(self).shared.well_formed() ==> final(self).shared.well_formed(),
            final(self).player == old(self).player,
            final(self).dt_accumulator == old(self).dt_accumulator,
    {
        let mut i: usize = 0;
        while i < column.len()
            invariant
                i <= column@.len(),
                old(self).shared@.handles + column@.len() <= u32::MAX,
                self.shared@.store == absorbed_column(
                    old(self).shared@.store,
                    column@,
                    wrap_player(),
                    i as int,
                ),
                old(self).shared@.handles <= self.shared@.handles <= old(self).shared@.handles + i,
                old(self).shared.well_formed() ==> self.shared.well_formed(),
                self.player == old(self).player,
                self.dt_accumulator == old(self).dt_accumulator,
            decreases column@.len() - i,
        {
            let (id, part) = column[i];
            self.absorb(id, Component::Player(part));
            i += 1;
        }
    }

    /// Takes in a column of spawns, entry by entry.
    fn absorb_spawns(&mut self, column: &Vec<(EntityId, Spawn)>)
        requires
            old(self).shared@.handles + column@.len() <= u32::MAX,
        ensures
            final(self).shared@.store == absorbed_column(
                old(self).shared@.store,
                column@,
                wrap_spawn(),
                column@.len() as int,
            ),
            old(self).shared@.handles <= final(self).shared@.handles <= old(self).shared@.handles
                + column@.len(),
            old(self).shared.well_formed() ==> final(self).shared.well_formed(),
            final(self).player == old(self).player,
            final(self).dt_accumulator == old(self).dt_accumulator,
    {
        let mut i: usize = 0;
        while i < column.len()
            invariant
                i <= column@.len(),
                old(self).shared@.handles + column@.len() <= u32::MAX,
                self.shared@.store == absorbed_column(
                    old(self).shared@.store,
                    column@,
                    wrap_spawn(),
                    i as int,
                ),
                old(self).shared@.handles <= self.shared@.handles <= old(self).shared@.handles + i,
                old(self).shared.well_formed() ==> self.shared.well_formed(),
                self.player == old(self).player,
                self.dt_accumulator == old(self).dt_accumulator,
            decreases column@.len() - i,
        {
            let (id, part) = column[i];
            self.absorb(id, Component::Spawn(part));
            i += 1;
        }
    }

    /// Takes in a column of properties, entry by entry.
    fn absorb_properties(&mut self, column: &Vec<(EntityId, Properties)>)
        requires
            old(self).shared@.handles + column@.len() <= u32::MAX,
        ensures
            final(self).shared@.store == absorbed_column(
                old(self).shared@.store,
                column@,
                wrap_properties(),
                column@.len() as int,
            ),
            old(self).shared@.handles <= final(self).shared@.handles <= old(self).shared@.handles
                + column@.len(),
            old(self).shared.well_formed() ==> final(self).shared.well_formed(),
            final(self).player == old(self).player,
            final(self).dt_accumulator == old(self).dt_accumulator,
    {
        let mut i: usize = 0;
        while i < column.len()
            invariant
                i <= column@.len(),
                old(self).shared@.handles + column@.len() <= u32::MAX,
                self.shared@.store == absorbed_column(
                    old(self).shared@.store,
                    column@,
                    wrap_properties(),
                    i as int,
                ),
                old(self).shared@.handles <= self.shared@.handles <= old(self).shared@.handles + i,
                old(self).shared.well_formed() ==> self.shared.well_formed(),
                self.player == old(self).player,
                self.dt_accumulator == old(self).dt_accumulator,
            decreases column@.len() - i,
        {
            let (id, part) = column[i];
            self.absorb(id, Component::Properties(part));
            i += 1;
        }
    }

    /// Takes in a column of meshes, entry by entry.
    fn absorb_meshes(&mut self, column: Vec<(EntityId, MeshWrapper)>)
        requires
            old(self).shared@.handles + column@.len() <= u32::MAX,
        ensures
            final(self).shared@.store == absorbed_column(
                old(self).shared@.store,
                column@,
                wrap_mesh(),
                column@.len() as int,
            ),
            old(self).shared@.handles <= final(self).shared@.handles <= old(self).shared@.handles
                + column@.len(),
            old(self).shared.well_formed() ==> final(self).shared.well_formed(),
            final(self).player == old(self).player,
            final(self).dt_accumulator == old(self).dt_accumulator,
    {
        let ghost all = column@;
        for entry in it: column.into_iter()
            invariant
                it.seq() == all,
                old(self).shared@.handles + all.len() <= u32::MAX,
                self.shared@.store == absorbed_column(
                    old(self).shared@.store,
                    all,
                    wrap_mesh(),
                    it.index() as int,
                ),
                old(self).shared@.handles <= self.shared@.handles <= old(self).shared@.handles
                    + it.index(),
                old(self).shared.well_formed() ==> self.shared.well_formed(),
                self.player == old(self).player,
                self.dt_accumulator == old(self).dt_accumulator,
        {
            let (id, mesh) = entry;
            self.absorb(id, Component::Mesh(mesh));
        }
    }

    /// Takes in one message of the server. A handle makes the entity it names
    /// the client's own. Columns are taken into the world: for each entry the
    /// entity takes the component into its record, and comes into being
    /// first if the world did not know it. A body that the world already
    /// held is not overwritten outright: see [`spec_reconcile`].
    pub fn handle_msg(&mut self, msg: ServerMessage)
        requires
            msg matches ServerMessage::Ecs(columns) ==> old(self).shared@.handles
                + columns.entries() <= u32::MAX,
        ensures
            match msg {
                ServerMessage::AssignId(id) => {
                    &&& final(self).player == Some(id)
                    &&& final(self).shared@ == old(self).shared@
                },
                ServerMessage::Ecs(columns) => {
                    &&& final(self).player == old(self).player
                    &&& final(self).shared@.store == applied(old(self).shared@.store, columns)
                    &&& old(self).shared@.handles <= final(self).shared@.handles <= old(
                        self,
                    ).shared@.handles + columns.entries()
                },
            },
            old(self).shared.well_formed() ==> final(self).shared.well_formed(),
            final(self).dt_accumulator == old(self).dt_accumulator,
    {
        match msg {
            ServerMessage::AssignId(id) => {
                self.player = Some(id);
            },
            ServerMessage::Ecs(columns) => {
                let Columns { physics_object, mesh_wrapper, player, spawn, properties } = columns;
                self.absorb_bodies(&physics_object);
                self.absorb_players(&player);
                self.absorb_meshes(mesh_wrapper);
                self.absorb_spawns(&spawn);
                self.absorb_properties(&properties);
            },
        }
    }
}

/// Whether `v` lies between `a` and `b`, ends included.
pub open spec fn between(a: int, v: int, b: int) -> bool {
    (a <= v <= b) || (b <= v <= a)
}

/// The largest of the magnitudes of three differences is at least half of
/// the root of the sum of their squares.
proof fn lemma_largest_component(dx: int, dy: int, dz: int, len: int)
    requires
        0 <= len,
        len * len <= dx * dx + dy * dy + dz * dz,
        magnitude(dy) <= magnitude(dx),
        magnitude(dz) <= magnitude(dx),
    ensures
        len <= 2 * magnitude(dx),
{
    let m = magnitude(dx) as int;
    assert(dx * dx == m * m && dy * dy <= m * m && dz * dz <= m * m) by (nonlinear_arith)
        requires
            m == (if dx < 0 { -dx } else { dx }),
            -m <= dy <= m,
            -m <= dz <= m,
    ;
    if len > 2 * m {
        assert(len * len > 3 * (m * m)) by (nonlinear_arith)
            requires
                len >= 2 * m + 1,
                m >= 0,
        ;
    }
}

/// What reconciling does. A body that the server reports at least
/// [`SNAP_DISTANCE`] away from where the client holds it is put where the
/// server says. One that is closer is moved toward the server's place and no
/// further: each coordinate ends between the two. While the whole distance
/// is more than [`SMOOTH_STEP`], that move neither leaves the body where it
/// was nor takes it all the way.
pub proof fn lemma_reconcile(local: Vec3, authoritative: Vec3)
    ensures
        !local.spec_within(authoritative, SNAP_DISTANCE) ==> spec_reconcile(local, authoritative)
            == authoritative,
        local.spec_within(authoritative, SNAP_DISTANCE) ==> {
            let shown = spec_reconcile(local, authoritative);
            &&& shown == local.spec_move_towards(authoritative, SMOOTH_STEP)
            &&& between(local.x as int, shown.x as int, authoritative.x as int)
            &&& between(local.y as int, shown.y as int, authoritative.y as int)
            &&& between(local.z as int, shown.z as int, authoritative.z as int)
            &&& isqrt(dist_sq(authoritative, local)) > SMOOTH_STEP ==> shown != authoritative
                && shown != local
        },
{
    if local.spec_within(authoritative, SNAP_DISTANCE) {
        let len = isqrt(dist_sq(authoritative, local)) as int;
        let step = SMOOTH_STEP as int;
        let dx = authoritative.x - local.x;
        let dy = authoritative.y - local.y;
        let dz = authoritative.z - local.z;
        if len > step {
            lemma_shorter(dx, step, len);
            lemma_shorter(dy, step, len);
            lemma_shorter(dz, step, len);
            lemma_isqrt_bounds(dist_sq(authoritative, local));
            assert(dist_sq(authoritative, local) == dx * dx + dy * dy + dz * dz) by {
                assert(dx * dx >= 0 && dy * dy >= 0 && dz * dz >= 0) by (nonlinear_arith);
            }
            if dx == 0 && dy == 0 && dz == 0 {
                assert(len * len <= 0);
                assert(false) by (nonlinear_arith)
                    requires
                        len > 5_000,
                        len * len <= 0,
                ;
            }
            if dx != 0 {
                lemma_strictly_shorter(dx, step, len);
            }
            if dy != 0 {
                lemma_strictly_shorter(dy, step, len);
            }
            if dz != 0 {
                lemma_strictly_shorter(dz, step, len);
            }
            if magnitude(dy) <= magnitude(dx) && magnitude(dz) <= magnitude(dx) {
                lemma_largest_component(dx, dy, dz, len);
                lemma_long_enough(dx, step, len);
            } else if magnitude(dx) <= magnitude(dy) && magnitude(dz) <= magnitude(dy) {
                lemma_largest_component(dy, dx, dz, len);
                lemma_long_enough(dy, step, len);
            } else {
                lemma_largest_component(dz, dx, dy, len);
                lemma_long_enough(dz, step, len);
            }
        }
    }
}

/// Whether every entry of `column` but the one at `skip` is about another
/// slot than that of `id`.
pub open spec fn leaves_alone<T>(column: Seq<(EntityId, T)>, id: EntityId, skip: int) -> bool {
    forall|j: int|
        0 <= j < column.len() && j != skip ==> index_of((#[trigger] column[j]).0.bits) != index_of(
            id.bits,
        )
}

/// Whether every entry of `column` is about `id` itself or about another
/// slot than that of `id`, so that none puts another entity in its place.
pub open spec fn spares<T>(column: Seq<(EntityId, T)>, id: EntityId) -> bool {
    forall|j: int|
        0 <= j < column.len() ==> (#[trigger] column[j]).0 == id || index_of(column[j].0.bits)
            != index_of(id.bits)
}

/// A component that arrives for an entity in another slot leaves the record
/// of `id` as it is.
proof fn lemma_absorbed_elsewhere(
    store: Map<u64, Components>,
    other: EntityId,
    part: Component,
    id: EntityId,
)
    requires
        index_of(other.bits) != index_of(id.bits),
    ensures
        absorbed(store, other, part).contains_key(id.bits) == store.contains_key(id.bits),
        store.contains_key(id.bits) ==> absorbed(store, other, part)[id.bits] == store[id.bits],
{
}

/// A column without bodies that spares `id` leaves the body of `id` as it
/// is.
proof fn lemma_column_keeps_body<T>(
    store: Map<u64, Components>,
    column: Seq<(EntityId, T)>,
    wrap: spec_fn(T) -> Component,
    id: EntityId,
    n: int,
)
    requires
        store.contains_key(id.bits),
        spares(column, id),
        forall|t: T| !(#[trigger] wrap(t) is Body),
        0 <= n <= column.len(),
    ensures
        absorbed_column(store, column, wrap, n).contains_key(id.bits),
        absorbed_column(store, column, wrap, n)[id.bits].physics == store[id.bits].physics,
    decreases n,
{
    if n > 0 {
        lemma_column_keeps_body(store, column, wrap, id, n - 1);
        let before = absorbed_column(store, column, wrap, n - 1);
        let entry = column[n - 1];
        if entry.0 != id {
            lemma_absorbed_elsewhere(before, entry.0, wrap(entry.1), id);
        }
    }
}

/// A column of bodies whose entry number `i` is the only one about the slot
/// of `id` reconciles the body of `id` with that entry, once.
proof fn lemma_bodies_reconcile_one(
    store: Map<u64, Components>,
    column: Seq<(EntityId, PhysicsObject)>,
    id: EntityId,
    local: PhysicsObject,
    i: int,
    n: int,
)
    requires
        store.contains_key(id.bits),
        store[id.bits].physics == Some(local),
        0 <= i < column.len(),
        column[i].0 == id,
        leaves_alone(column, id, i),
        0 <= n <= column.len(),
    ensures
        absorbed_column(store, column, wrap_body(), n).contains_key(id.bits),
        absorbed_column(store, column, wrap_body(), n)[id.bits].physics == if n <= i {
            Some(local)
        } else {
            Some(reconciled(local, column[i].1))
        },
    decreases n,
{
    if n > 0 {
        lemma_bodies_reconcile_one(store, column, id, local, i, n - 1);
        let before = absorbed_column(store, column, wrap_body(), n - 1);
        let entry = column[n - 1];
        if n - 1 != i {
            lemma_absorbed_elsewhere(before, entry.0, wrap_body()(entry.1), id);
        }
    }
}

/// What a message does to a body that the client holds. Let the client hold
/// the body `local` for the entity `id`, and let a message bring one body for
/// `id` and nothing else about the slot of `id` but components for `id`
/// itself. Then the client holds the server's body for `id` afterwards, shown
/// where reconciling puts it: at the server's place if that is
/// [`SNAP_DISTANCE`] or more away from where the client held the body, and
/// one step of [`SMOOTH_STEP`] toward the server's place if it is closer.
/// [`lemma_reconcile`] says what such a step is.
pub proof fn lemma_message_reconciles(
    store: Map<u64, Components>,
    columns: Columns,
    i: int,
    id: EntityId,
    local: PhysicsObject,
)
    requires
        store.contains_key(id.bits),
        store[id.bits].physics == Some(local),
        0 <= i < columns.physics_object@.len(),
        columns.physics_object@[i].0 == id,
        leaves_alone(columns.physics_object@, id, i),
        spares(columns.player@, id),
        spares(columns.mesh_wrapper@, id),
        spares(columns.spawn@, id),
        spares(columns.properties@, id),
    ensures
        applied(store, columns).contains_key(id.bits),
        applied(store, columns)[id.bits].physics == Some(
            reconciled(local, columns.physics_object@[i].1),
        ),
        ({
            let held = local.spec_pos();
            let sent = columns.physics_object@[i].1.spec_pos();
            let shown = applied(store, columns)[id.bits].physics.unwrap().spec_pos();
            &&& !held.spec_within(sent, SNAP_DISTANCE) ==> shown == sent
            &&& held.spec_within(sent, SNAP_DISTANCE) ==> shown == held.spec_move_towards(
                sent,
                SMOOTH_STEP,
            )
        }),
{
    let bodies = absorbed_column(
        store,
        columns.physics_object@,
        wrap_body(),
        columns.physics_object@.len() as int,
    );
    lemma_bodies_reconcile_one(
        store,
        columns.physics_object@,
        id,
        local,
        i,
        columns.physics_object@.len() as int,
    );
    let players = absorbed_column(
        bodies,
        columns.player@,
        wrap_player(),
        columns.player@.len() as int,
    );
    lemma_column_keeps_body(bodies, columns.player@, wrap_player(), id, columns.player@.len() as int);
    let meshes = absorbed_column(
        players,
        columns.mesh_wrapper@,
        wrap_mesh(),
        columns.mesh_wrapper@.len() as int,
    );
    lemma_column_keeps_body(
        players,
        columns.mesh_wrapper@,
        wrap_mesh(),
        id,
        columns.mesh_wrapper@.len() as int,
    );
    let spawns = absorbed_column(meshes, columns.spawn@, wrap_spawn(), columns.spawn@.len() as int);
    lemma_column_keeps_body(meshes, columns.spawn@, wrap_spawn(), id, columns.spawn@.len() as int);
    lemma_column_keeps_body(
        spawns,
        columns.properties@,
        wrap_properties(),
        id,
        columns.properties@.len() as int,
    );
}

} // verus!
