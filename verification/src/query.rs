//! Queries: the components of one kind that the world holds, each with its
//! entity, in the order of the walk.

use vstd::prelude::*;
use crate::components::{MeshWrapper, PhysicsObject, Player};
use crate::network::message::Column;
use crate::shared::Shared;
use crate::store::{entity_ids, get_components, Components, EntityId};

verus! {

/// The bodies of the first `n` entities of the walk, each with its entity;
/// with `moving_only`, without the fixed ones.
pub open spec fn bodies_column(
    store: Map<u64, Components>,
    order: Seq<u64>,
    moving_only: bool,
    n: int,
) -> Seq<(EntityId, PhysicsObject)>
    decreases n,
{
    if n <= 0 {
        Seq::empty()
    } else {
        let before = bodies_column(store, order, moving_only, n - 1);
        match store[order[n - 1]].physics {
            Some(obj) => if moving_only && obj.fixed {
                before
            } else {
                before.push((EntityId { bits: order[n - 1] }, obj))
            },
            None => before,
        }
    }
}

/// The meshes of the first `n` entities of the walk, each with its entity.
pub open spec fn meshes_column(store: Map<u64, Components>, order: Seq<u64>, n: int) -> Seq<
    (EntityId, MeshWrapper),
>
    decreases n,
{
    if n <= 0 {
        Seq::empty()
    } else {
        let before = meshes_column(store, order, n - 1);
        match store[order[n - 1]].mesh {
            Some(mesh) => before.push((EntityId { bits: order[n - 1] }, mesh)),
            None => before,
        }
    }
}

/// The players among the first `n` entities of the walk, each with its
/// entity.
pub open spec fn players_column(store: Map<u64, Components>, order: Seq<u64>, n: int) -> Seq<
    (EntityId, Player),
>
    decreases n,
{
    if n <= 0 {
        Seq::empty()
    } else {
        let before = players_column(store, order, n - 1);
        match store[order[n - 1]].player {
            Some(player) => before.push((EntityId { bits: order[n - 1] }, player)),
            None => before,
        }
    }
}

impl Shared {
    /// The bodies that the world holds, each with its entity; with
    /// `moving_only`, without the fixed ones. The world is left as it was.
    pub fn query_bodies(&mut self, moving_only: bool) -> (column: Column<PhysicsObject>)
        ensures
            column@ == bodies_column(
                old(self)@.store,
                old(self)@.order,
                moving_only,
                old(self)@.order.len() as int,
            ),
            final(self)@ == old(self)@,
            final(self).well_formed(),
    {
        let ids = entity_ids(&mut self.ecs);
        let ghost store = old(self)@.store;
        let ghost walk = old(self)@.order;
        let mut column: Vec<(EntityId, PhysicsObject)> = Vec::new();
        let mut i: usize = 0;
        while i < ids.len()
            invariant
                i <= ids@.len(),
                ids@.len() == walk.len(),
                forall|k: int| 0 <= k < ids@.len() ==> ids@[k].bits == walk[k],
                self@ == old(self)@,
                store == old(self)@.store,
                walk == old(self)@.order,
                self.well_formed(),
                column@ == bodies_column(store, walk, moving_only, i as int),
            decreases ids@.len() - i,
        {
            let id = ids[i];
            assert(walk.contains(walk[i as int]));
            match get_components(&mut self.ecs, id) {
                Some(c) => {
                    match c.physics {
                        Some(obj) => {
                            if !(moving_only && obj.fixed) {
                                column.push((id, obj));
                            }
                        },
                        None => {},
                    }
                },
                None => {},
            }
            i += 1;
        }
        column
    }

    /// The meshes that the world holds, each with its entity. The world is
    /// left as it was.
    pub fn query_meshes(&mut self) -> (column: Column<MeshWrapper>)
        ensures
            column@ == meshes_column(
                old(self)@.store,
                old(self)@.order,
                old(self)@.order.len() as int,
            ),
            final(self)@ == old(self)@,
            final(self).well_formed(),
    {
        let ids = entity_ids(&mut self.ecs);
        let ghost store = old(self)@.store;
        let ghost walk = old(self)@.order;
        let mut column: Vec<(EntityId, MeshWrapper)> = Vec::new();
        let mut i: usize = 0;
        while i < ids.len()
            invariant
                i <= ids@.len(),
                ids@.len() == walk.len(),
                forall|k: int| 0 <= k < ids@.len() ==> ids@[k].bits == walk[k],
                self@ == old(self)@,
                store == old(self)@.store,
                walk == old(self)@.order,
                self.well_formed(),
                column@ == meshes_column(store, walk, i as int),
            decreases ids@.len() - i,
        {
            let id = ids[i];
            assert(walk.contains(walk[i as int]));
            match get_components(&mut self.ecs, id) {
                Some(c) => {
                    match c.mesh {
                        Some(mesh) => {
                            column.push((id, mesh));
                        },
                        None => {},
                    }
                },
                None => {},
            }
            i += 1;
        }
        column
    }

    /// The players that the world holds, each with its entity. The world is
    /// left as it was.
    pub fn query_players(&mut self) -> (column: Column<Player>)
        ensures
            column@ == players_column(
                old(self)@.store,
                old(self)@.order,
                old(self)@.order.len() as int,
            ),
            final(self)@ == old(self)@,
            final(self).well_formed(),
    {
        let ids = entity_ids(&mut self.ecs);
        let ghost store = old(self)@.store;
        let ghost walk = old(self)@.order;
        let mut column: Vec<(EntityId, Player)> = Vec::new();
        let mut i: usize = 0;
        while i < ids.len()
            invariant
                i <= ids@.len(),
                ids@.len() == walk.len(),
                forall|k: int| 0 <= k < ids@.len() ==> ids@[k].bits == walk[k],
                self@ == old(self)@,
                store == old(self)@.store,
                walk == old(self)@.order,
                self.well_formed(),
                column@ == players_column(store, walk, i as int),
            decreases ids@.len() - i,
        {
            let id = ids[i];
            assert(walk.contains(walk[i as int]));
            match get_components(&mut self.ecs, id) {
                Some(c) => {
                    match c.player {
                        Some(player) => {
                            column.push((id, player));
                        },
                        None => {},
                    }
                },
                None => {},
            }
            i += 1;
        }
        column
    }
}

} // verus!
