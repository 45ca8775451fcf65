//! The messages of the replication protocol.
//!
//! State crosses the network in columns: for each kind of component a list of
//! entities with the component each carries. There is no message that says an
//! entity exists; a receiver learns of an entity by finding it in a column.

use vstd::prelude::*;
use crate::components::{MeshWrapper, MoveState, PhysicsObject, Player, Properties, Spawn};
use crate::store::EntityId;
use crate::vec3::Vec3;

verus! {

/// What the server sends in one packet.
pub type ServerMessages = Vec<ServerMessage>;

/// What a client sends in one packet.
pub type ClientMessages = Vec<ClientMessage>;

/// The components of one kind, each with the entity that carries it.
pub type Column<T> = Vec<(EntityId, T)>;

/// A message from the server.
#[derive(Clone, Debug, PartialEq, Eq)]
pub enum ServerMessage {
    /// Tells a peer which entity is its own.
    AssignId(EntityId),
    /// State of the world, whole or in part.
    Ecs(Columns),
}

/// A message from a client: what its player wants, in full each time, so that
/// a lost packet leaves no flag stuck.
#[derive(Clone, Copy, Debug, PartialEq, Eq, Structural)]
pub enum ClientMessage {
    SetMoveState(MoveState),
    SetRotation(Vec3),
    Shot(EntityId),
}

/// How a packet travels: on a channel that delivers every packet, in order,
/// or on one that may lose a packet or deliver it late.
#[derive(Clone, Copy, Debug, PartialEq, Eq, Structural)]
pub enum Channel {
    ReliableOrdered,
    Unreliable,
}

/// One column for each kind of component. A column may be empty.
#[derive(Clone, Debug, PartialEq, Eq)]
pub struct Columns {
    pub physics_object: Column<PhysicsObject>,
    pub mesh_wrapper: Column<MeshWrapper>,
    pub player: Column<Player>,
    pub spawn: Column<Spawn>,
    pub properties: Column<Properties>,
}

/// Whether one of the messages tells a peer which entity is its own.
pub open spec fn assigns_id(messages: Seq<ServerMessage>) -> bool {
    exists|i: int| 0 <= i < messages.len() && #[trigger] messages[i] is AssignId
}

/// The channel for a packet of the server. A packet that tells a peer which
/// entity is its own is sent once, when the peer joins, together with the
/// world as it is then: it must arrive. The state that is sent after every
/// tick is replaced by the next, so a packet of it may be lost.
pub fn server_channel(messages: &Vec<ServerMessage>) -> (channel: Channel)
    ensures
        channel == if assigns_id(messages@) {
            Channel::ReliableOrdered
        } else {
            Channel::Unreliable
        },
{
    let mut i: usize = 0;
    while i < messages.len()
        invariant
            i <= messages@.len(),
            forall|k: int| 0 <= k < i ==> !(#[trigger] messages@[k] is AssignId),
        decreases messages@.len() - i,
    {
        match &messages[i] {
            ServerMessage::AssignId(_) => {
                return Channel::ReliableOrdered;
            },
            ServerMessage::Ecs(_) => {},
        }
        i += 1;
    }
    Channel::Unreliable
}

/// The channel for a packet of a client: what the player wants is sent in
/// full with every frame, so a packet of it may be lost.
pub fn client_channel() -> (channel: Channel)
    ensures
        channel == Channel::Unreliable,
{
    Channel::Unreliable
}

/// The entities of a column, in its order.
pub open spec fn column_ids<T>(column: Seq<(EntityId, T)>) -> Seq<EntityId> {
    Seq::new(column.len(), |i: int| column[i].0)
}

/// `acc` followed by those of `more` that have not occurred before, each
/// once, in the order in which they first occur.
pub open spec fn extend_distinct(acc: Seq<EntityId>, more: Seq<EntityId>) -> Seq<EntityId>
    decreases more.len(),
{
    if more.len() == 0 {
        acc
    } else {
        let before = extend_distinct(acc, more.drop_last());
        if before.contains(more.last()) {
            before
        } else {
            before.push(more.last())
        }
    }
}

/// Extending a list without repetitions gives a list without repetitions,
/// which holds what either list held.
pub proof fn lemma_extend_distinct(acc: Seq<EntityId>, more: Seq<EntityId>)
    requires
        acc.no_duplicates(),
    ensures
        extend_distinct(acc, more).no_duplicates(),
        forall|id: EntityId|
            extend_distinct(acc, more).contains(id) <==> acc.contains(id) || more.contains(id),
    decreases more.len(),
{
    if more.len() > 0 {
        let init = more.drop_last();
        let before = extend_distinct(acc, init);
        lemma_extend_distinct(acc, init);
        assert forall|id: EntityId|
            extend_distinct(acc, more).contains(id) <==> acc.contains(id) || more.contains(
                id,
            ) by {
            if more.contains(id) {
                let i = choose|i: int| 0 <= i < more.len() && more[i] == id;
                if i < more.len() - 1 {
                    assert(init[i] == id);
                }
            }
            if init.contains(id) {
                let i = choose|i: int| 0 <= i < init.len() && init[i] == id;
                assert(more[i] == id);
            }
            if !before.contains(more.last()) {
                let grown = before.push(more.last());
                assert(grown[grown.len() - 1] == more.last());
                if before.contains(id) {
                    let i = choose|i: int| 0 <= i < before.len() && before[i] == id;
                    assert(grown[i] == id);
                }
                if grown.contains(id) {
                    let i = choose|i: int| 0 <= i < grown.len() && grown[i] == id;
                    if i < before.len() {
                        assert(before[i] == id);
                    }
                }
            }
            assert(more[more.len() - 1] == more.last());
        }
    }
}

/// Adds to `ids` the entities of `column` that it does not hold yet.
fn push_ids<T>(ids: &mut Vec<EntityId>, column: &Vec<(EntityId, T)>)
    ensures
        final(ids)@ == extend_distinct(old(ids)@, column_ids(column@)),
{
    let ghost wanted = column_ids(column@);
    let mut i: usize = 0;
    while i < column.len()
        invariant
            i <= column@.len(),
            wanted == column_ids(column@),
            ids@ == extend_distinct(old(ids)@, wanted.take(i as int)),
        decreases column@.len() - i,
    {
        let id = column[i].0;
        let mut known = false;
        let mut k: usize = 0;
        while k < ids.len()
            invariant
                k <= ids@.len(),
                known == exists|j: int| 0 <= j < k && ids@[j] == id,
            decreases ids@.len() - k,
        {
            if ids[k].bits == id.bits {
                known = true;
            }
            k += 1;
        }
        assert(wanted.take(i + 1).drop_last() == wanted.take(i as int));
        assert(wanted.take(i + 1).last() == id);
        if !known {
            ids.push(id);
        }
        i += 1;
    }
    assert(wanted.take(column@.len() as int) == wanted);
}

impl Columns {
    /// Columns that are all empty.
    pub open spec fn spec_empty(self) -> bool {
        &&& self.physics_object@.len() == 0
        &&& self.mesh_wrapper@.len() == 0
        &&& self.player@.len() == 0
        &&& self.spawn@.len() == 0
        &&& self.properties@.len() == 0
    }

    /// Columns that are all empty.
    pub fn new() -> (columns: Columns)
        ensures
            columns.spec_empty(),
    {
        Columns {
            physics_object: Vec::new(),
            mesh_wrapper: Vec::new(),
            player: Vec::new(),
            spawn: Vec::new(),
            properties: Vec::new(),
        }
    }

    /// The number of entries of all the columns together.
    pub open spec fn entries(self) -> nat {
        self.physics_object@.len() + self.mesh_wrapper@.len() + self.player@.len()
            + self.spawn@.len() + self.properties@.len()
    }

    /// The entities that occur in any column, each once, in the order in
    /// which they first occur when the columns are read one after the other.
    pub open spec fn spec_ids(self) -> Seq<EntityId> {
        extend_distinct(
            extend_distinct(
                extend_distinct(
                    extend_distinct(
                        extend_distinct(Seq::empty(), column_ids(self.physics_object@)),
                        column_ids(self.mesh_wrapper@),
                    ),
                    column_ids(self.player@),
                ),
                column_ids(self.spawn@),
            ),
            column_ids(self.properties@),
        )
    }

    /// Whether `id` occurs in any column.
    pub open spec fn mentions(self, id: EntityId) -> bool {
        ||| column_ids(self.physics_object@).contains(id)
        ||| column_ids(self.mesh_wrapper@).contains(id)
        ||| column_ids(self.player@).contains(id)
        ||| column_ids(self.spawn@).contains(id)
        ||| column_ids(self.properties@).contains(id)
    }

    /// The entities that occur in any column, each once.
    pub fn ids(&self) -> (ids: Vec<EntityId>)
        ensures
            ids@ == self.spec_ids(),
            ids@.no_duplicates(),
            forall|id: EntityId| ids@.contains(id) <==> self.mentions(id),
    {
        let mut ids: Vec<EntityId> = Vec::new();
        push_ids(&mut ids, &self.physics_object);
        push_ids(&mut ids, &self.mesh_wrapper);
        push_ids(&mut ids, &self.player);
        push_ids(&mut ids, &self.spawn);
        push_ids(&mut ids, &self.properties);
        proof {
            let a = extend_distinct(Seq::empty(), column_ids(self.physics_object@));
            let b = extend_distinct(a, column_ids(self.mesh_wrapper@));
            let c = extend_distinct(b, column_ids(self.player@));
            let d = extend_distinct(c, column_ids(self.spawn@));
            lemma_extend_distinct(Seq::empty(), column_ids(self.physics_object@));
            lemma_extend_distinct(a, column_ids(self.mesh_wrapper@));
            lemma_extend_distinct(b, column_ids(self.player@));
            lemma_extend_distinct(c, column_ids(self.spawn@));
            lemma_extend_distinct(d, column_ids(self.properties@));
        }
        ids
    }
}

impl Default for Columns {
    fn default() -> (columns: Columns)
        ensures
            columns.spec_empty(),
    {
        Columns::new()
    }
}

} // verus!
