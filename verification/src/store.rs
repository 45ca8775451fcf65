//! The entity store: a `hecs::World` in which every entity of the simulation
//! carries one [`Components`] record.
//!
//! The world itself is not verified. What this module states of it stands in
//! the contracts of the functions marked `external_body`, over three names:
//! what the world holds, in which order it walks its entities, and how many
//! handles it has given out.

use vstd::prelude::*;
use hecs::World;
use crate::components::{MeshWrapper, PhysicsObject, Player, PointObject, Properties, Spawn};

verus! {

/// An entity store of the crate `hecs`, opaque to the verifier.
#[verifier::external_type_specification]
#[verifier::external_body]
pub struct ExWorld(World);

/// The handle of an entity: the bit pattern that `hecs` gives it, which holds
/// the slot index in the low 32 bits and the generation of the slot in the
/// high 32. Two handles name the same entity only if both parts agree, so a
/// handle kept from an entity that is gone never names the one that took its
/// slot.
#[derive(Clone, Copy, Debug, PartialEq, Eq, Hash, Structural)]
pub struct EntityId {
    pub bits: u64,
}

/// Everything an entity can carry. A part that is `None` is a component the
/// entity does not have.
#[derive(Clone, Debug, PartialEq, Eq)]
pub struct Components {
    pub physics: Option<PhysicsObject>,
    pub player: Option<Player>,
    pub mesh: Option<MeshWrapper>,
    pub point: Option<PointObject>,
    pub properties: Option<Properties>,
    pub spawn: Option<Spawn>,
}

/// One component, of any kind.
#[derive(Clone, Debug, PartialEq, Eq)]
pub enum Component {
    Body(PhysicsObject),
    Mesh(MeshWrapper),
    Player(Player),
    Point(PointObject),
    Properties(Properties),
    Spawn(Spawn),
}

/// The handle names no entity of the world.
#[derive(Clone, Copy, Debug, PartialEq, Eq, Structural)]
pub struct NoSuchEntity;

/// The records that `w` holds, by the bits of their entity's handle.
pub uninterp spec fn contents(w: World) -> Map<u64, Components>;

/// The handles of the entities that carry a record, in the order in which a
/// query of `w` walks them.
pub uninterp spec fn order(w: World) -> Seq<u64>;

/// The number of entity handles of `w` that are in use.
pub uninterp spec fn handles_in_use(w: World) -> nat;

/// The slot index of a handle.
pub open spec fn index_of(bits: u64) -> u64 {
    bits % 0x1_0000_0000
}

/// The generation of a handle.
pub open spec fn generation_of(bits: u64) -> u64 {
    bits / 0x1_0000_0000
}

/// Whether the two worlds hold the same records, walk them in the same order
/// and have as many handles in use.
pub open spec fn same_world(a: World, b: World) -> bool {
    &&& contents(a) == contents(b)
    &&& order(a) == order(b)
    &&& handles_in_use(a) == handles_in_use(b)
}

/// Whether the walk `order` visits each entity of `store` once, every handle
/// has a generation other than zero, and no two entities share a slot.
pub open spec fn consistent(store: Map<u64, Components>, order: Seq<u64>) -> bool {
    &&& order.no_duplicates()
    &&& forall|k: u64| order.contains(k) <==> store.contains_key(k)
    &&& forall|k: u64| store.contains_key(k) ==> generation_of(k) != 0
    &&& forall|j: u64, k: u64|
        store.contains_key(j) && store.contains_key(k) && index_of(j) == index_of(k) ==> j == k
}

/// What holds of every world: a query walks each entity that carries a record
/// once, every handle has a generation other than zero, and a slot holds one
/// entity at a time.
pub open spec fn well_formed(w: World) -> bool {
    consistent(contents(w), order(w))
}

/// `m` without the entities that occupy the slot of the handle `bits`.
pub open spec fn evict(m: Map<u64, Components>, bits: u64) -> Map<u64, Components> {
    m.remove_keys(Set::new(|k: u64| index_of(k) == index_of(bits)))
}

impl EntityId {
    /// Whether the handle can name an entity: its generation is not zero.
    pub open spec fn spec_valid(self) -> bool {
        generation_of(self.bits) != 0
    }

    /// Whether the handle can name an entity: its generation is not zero.
    pub fn valid(&self) -> (ok: bool)
        ensures
            ok == self.spec_valid(),
    {
        self.bits / 0x1_0000_0000 != 0
    }
}

impl Components {
    /// The record of an entity that carries nothing.
    pub open spec fn spec_empty() -> Components {
        Components {
            physics: None,
            player: None,
            mesh: None,
            point: None,
            properties: None,
            spawn: None,
        }
    }

    /// The record with `part` in the place of the component of its kind.
    pub open spec fn spec_with(self, part: Component) -> Components {
        match part {
            Component::Body(obj) => Components { physics: Some(obj), ..self },
            Component::Mesh(mesh) => Components { mesh: Some(mesh), ..self },
            Component::Player(player) => Components { player: Some(player), ..self },
            Component::Point(point) => Components { point: Some(point), ..self },
            Component::Properties(properties) => Components {
                properties: Some(properties),
                ..self
            },
            Component::Spawn(spawn) => Components { spawn: Some(spawn), ..self },
        }
    }

    /// The record with `part` in the place of the component of its kind.
    pub fn with(self, part: Component) -> (c: Components)
        ensures
            c == self.spec_with(part),
    {
        let mut c = self;
        match part {
            Component::Body(obj) => {
                c.physics = Some(obj);
            },
            Component::Mesh(mesh) => {
                c.mesh = Some(mesh);
            },
            Component::Player(player) => {
                c.player = Some(player);
            },
            Component::Point(point) => {
                c.point = Some(point);
            },
            Component::Properties(properties) => {
                c.properties = Some(properties);
            },
            Component::Spawn(spawn) => {
                c.spawn = Some(spawn);
            },
        }
        c
    }

    /// The record of an entity that carries nothing.
    pub fn empty() -> (c: Components)
        ensures
            c == Components::spec_empty(),
    {
        Components {
            physics: None,
            player: None,
            mesh: None,
            point: None,
            properties: None,
            spawn: None,
        }
    }
}

/// `World::new`: a world that holds nothing.
#[verifier::external_body]
pub(crate) fn world_new() -> (world: World)
    ensures
        contents(world) == (Map::<u64, Components>::empty()),
        order(world) == Seq::<u64>::empty(),
        handles_in_use(world) == 0,
        well_formed(world),
{
    World::new()
}

/// `World::query_mut` for the records, collected: the handles in the order
/// of the walk. The world is left as it was. The walk visits each entity
/// that carries a record once.
#[verifier::external_body]
pub(crate) fn entity_ids(world: &mut World) -> (ids: Vec<EntityId>)
    ensures
        ids@.len() == order(*old(world)).len(),
        forall|i: int| 0 <= i < ids@.len() ==> ids@[i].bits == order(*old(world))[i],
        same_world(*old(world), *final(world)),
        well_formed(*final(world)),
{
    world
        .query_mut::<&Components>()
        .into_iter()
        .map(|(e, _)| EntityId { bits: e.to_bits().get() })
        .collect()
}

/// `World::query_one_mut` for the record of one entity, cloned: `None` when
/// the handle names no entity of the world or the entity carries no record.
/// The world is left as it was.
#[verifier::external_body]
pub(crate) fn get_components(world: &mut World, id: EntityId) -> (found: Option<Components>)
    ensures
        found == if contents(*old(world)).contains_key(id.bits) {
            Some(contents(*old(world))[id.bits])
        } else {
            None
        },
        same_world(*old(world), *final(world)),
        well_formed(*final(world)),
{
    let e = hecs::Entity::from_bits(id.bits)?;
    world.query_one_mut::<&Components>(e).ok().cloned()
}

/// `World::query_one_mut` for the record of one entity, overwritten in place
/// with `c`. Returns whether the entity carries a record; if it does not,
/// nothing changes. The order of the walk stays as it was.
#[verifier::external_body]
pub(crate) fn put_components(world: &mut World, id: EntityId, c: Components) -> (found: bool)
    ensures
        found == contents(*old(world)).contains_key(id.bits),
        contents(*final(world)) == if found {
            contents(*old(world)).insert(id.bits, c)
        } else {
            contents(*old(world))
        },
        order(*final(world)) == order(*old(world)),
        handles_in_use(*final(world)) == handles_in_use(*old(world)),
        well_formed(*final(world)),
{
    let Some(e) = hecs::Entity::from_bits(id.bits) else { return false };
    match world.query_one_mut::<&mut Components>(e) {
        Ok(slot) => {
            *slot = c;
            true
        },
        Err(_) => false,
    }
}

/// `World::spawn` of an entity that carries `c`. The handle it returns named
/// no entity before. `hecs` panics when no handle is left, so one must be.
#[verifier::external_body]
pub(crate) fn spawn_components(world: &mut World, c: Components) -> (id: EntityId)
    requires
        handles_in_use(*old(world)) < u32::MAX,
    ensures
        !contents(*old(world)).contains_key(id.bits),
        id.spec_valid(),
        contents(*final(world)) == contents(*old(world)).insert(id.bits, c),
        handles_in_use(*final(world)) == handles_in_use(*old(world)) + 1,
        well_formed(*final(world)),
{
    EntityId { bits: world.spawn((c,)).to_bits().get() }
}

/// `World::spawn_at` of an entity that carries `c` under the handle `id`.
/// Whatever occupied the slot of `id` before is despawned. `hecs` counts the
/// handle anew if the slot was free, so one must be left.
#[verifier::external_body]
pub(crate) fn spawn_components_at(world: &mut World, id: EntityId, c: Components)
    requires
        id.spec_valid(),
        handles_in_use(*old(world)) < u32::MAX,
    ensures
        contents(*final(world)) == evict(contents(*old(world)), id.bits).insert(id.bits, c),
        handles_in_use(*old(world)) <= handles_in_use(*final(world)) <= handles_in_use(*old(world))
            + 1,
        well_formed(*final(world)),
{
    if let Some(e) = hecs::Entity::from_bits(id.bits) {
        world.spawn_at(e, (c,));
    }
}

} // verus!
