//! The hit-scan query: which box does a ray meet first, and where.
//!
//! A point of the ray is `origin + dir * t` for a parameter `t >= 0`. For
//! each axis the box bounds the parameters at which the ray is inside its
//! slab; the ray meets the box where the three bounds have a parameter in
//! common.

use vstd::prelude::*;
use crate::components::PhysicsObject;
use crate::fixed::{clamp, clamp_wide, quot, quot_wide, Fixed, ONE};
use crate::shared::Shared;
use crate::store::{entity_ids, Components, EntityId};
use crate::vec3::Vec3;

verus! {

/// A parameter beyond every one that a slab can give: it stands for a bound
/// that is not there.
pub const FAR: i128 = 0x1_0000_0000_0000_0000_0000_0000;

/// The parameters at which a ray that starts at `o` and advances by `d` is
/// between `lo` and `hi` on one axis, as a closed interval, or `None` if
/// there are none. A ray that does not advance on the axis is inside for all
/// parameters or for none.
pub open spec fn spec_slab(o: int, d: int, lo: int, hi: int) -> Option<(int, int)> {
    if d == 0 {
        if lo <= o <= hi {
            Some((-FAR, FAR as int))
        } else {
            None
        }
    } else {
        let t0 = quot((lo - o) * ONE, d);
        let t1 = quot((hi - o) * ONE, d);
        if t0 <= t1 {
            Some((t0, t1))
        } else {
            Some((t1, t0))
        }
    }
}

/// The parameters that `span` and `axis` have in common.
pub open spec fn spec_narrow(span: Option<(int, int)>, axis: Option<(int, int)>) -> Option<
    (int, int),
> {
    match (span, axis) {
        (Some(s), Some(a)) => {
            let lo = if s.0 >= a.0 {
                s.0
            } else {
                a.0
            };
            let hi = if s.1 <= a.1 {
                s.1
            } else {
                a.1
            };
            if lo <= hi {
                Some((lo, hi))
            } else {
                None
            }
        },
        _ => None,
    }
}

/// The parameter at which the ray enters the box of `obj`, or `None` if it
/// misses the box or the box lies behind its origin. A ray that starts inside
/// the box enters it at zero.
pub open spec fn spec_entry(obj: PhysicsObject, origin: Vec3, dir: Vec3) -> Option<Fixed> {
    let b = obj.obb();
    let x = spec_slab(
        origin.x as int,
        dir.x as int,
        b.pos.x - b.half_extents.x,
        b.pos.x + b.half_extents.x,
    );
    let y = spec_slab(
        origin.y as int,
        dir.y as int,
        b.pos.y - b.half_extents.y,
        b.pos.y + b.half_extents.y,
    );
    let z = spec_slab(
        origin.z as int,
        dir.z as int,
        b.pos.z - b.half_extents.z,
        b.pos.z + b.half_extents.z,
    );
    match spec_narrow(spec_narrow(x, y), z) {
        Some((lo, hi)) => if hi < 0 {
            None
        } else if lo > 0 {
            Some(clamp(lo) as i64)
        } else {
            Some(0)
        },
        None => None,
    }
}

/// The point of the ray at the parameter `t`.
pub open spec fn point_at(origin: Vec3, dir: Vec3, t: Fixed) -> Vec3 {
    origin.spec_plus(dir.spec_scale(t))
}

/// The parameter at which the ray enters the body of the entity number `j` of
/// the walk, or `None` if that entity has no body, is to be ignored, or is
/// not met by the ray.
pub open spec fn candidate(
    store: Map<u64, Components>,
    order: Seq<u64>,
    origin: Vec3,
    dir: Vec3,
    ignore: Seq<EntityId>,
    j: int,
) -> Option<Fixed> {
    if 0 <= j < order.len() && !ignore.contains(EntityId { bits: order[j] }) {
        match store[order[j]].physics {
            Some(obj) => spec_entry(obj, origin, dir),
            None => None,
        }
    } else {
        None
    }
}

/// Whether the entity number `j` of the walk is the one the ray meets first:
/// no entity is entered at a smaller parameter, and none that comes earlier
/// in the walk at the same.
pub open spec fn nearest(
    store: Map<u64, Components>,
    order: Seq<u64>,
    origin: Vec3,
    dir: Vec3,
    ignore: Seq<EntityId>,
    j: int,
) -> bool {
    &&& candidate(store, order, origin, dir, ignore, j) is Some
    &&& forall|k: int|
        0 <= k < order.len() ==> match #[trigger] candidate(store, order, origin, dir, ignore, k) {
            Some(t) => {
                let best = candidate(store, order, origin, dir, ignore, j).unwrap();
                best <= t && (k < j ==> best < t)
            },
            None => true,
        }
}

/// Whether an exec span and a spec span are the same.
spec fn same_span(r: Option<(i128, i128)>, s: Option<(int, int)>) -> bool {
    match (r, s) {
        (Some(a), Some(b)) => a.0 == b.0 && a.1 == b.1,
        (None, None) => true,
        _ => false,
    }
}

/// The span of parameters at which the ray is inside the slab of a box with
/// centre `pos` and half extent `half` on one axis.
fn slab(o: Fixed, d: Fixed, pos: Fixed, half: Fixed) -> (r: Option<(i128, i128)>)
    ensures
        same_span(r, spec_slab(o as int, d as int, pos - half, pos + half)),
{
    let lo: i128 = pos as i128 - half as i128;
    let hi: i128 = pos as i128 + half as i128;
    let at: i128 = o as i128;
    if d == 0 {
        if lo <= at && at <= hi {
            Some((-FAR, FAR))
        } else {
            None
        }
    } else {
        let one: i128 = ONE as i128;
        let t0 = quot_wide((lo - at) * one, d as i128);
        let t1 = quot_wide((hi - at) * one, d as i128);
        if t0 <= t1 {
            Some((t0, t1))
        } else {
            Some((t1, t0))
        }
    }
}

/// The parameters that two spans have in common.
fn narrow(span: Option<(i128, i128)>, axis: Option<(i128, i128)>) -> (r: Option<(i128, i128)>)
    ensures
        forall|s: Option<(int, int)>, a: Option<(int, int)>|
            same_span(span, s) && same_span(axis, a) ==> same_span(r, spec_narrow(s, a)),
{
    match (span, axis) {
        (Some(s), Some(a)) => {
            let lo = if s.0 >= a.0 {
                s.0
            } else {
                a.0
            };
            let hi = if s.1 <= a.1 {
                s.1
            } else {
                a.1
            };
            if lo <= hi {
                Some((lo, hi))
            } else {
                None
            }
        },
        _ => None,
    }
}

/// The parameter at which the ray enters the box of `obj`, if it does.
pub fn entry(obj: &PhysicsObject, origin: Vec3, dir: Vec3) -> (t: Option<Fixed>)
    ensures
        t == spec_entry(*obj, origin, dir),
{
    let pos = obj.pos();
    let half = obj.half_extents();
    let x = slab(origin.x, dir.x, pos.x, half.x);
    let y = slab(origin.y, dir.y, pos.y, half.y);
    let z = slab(origin.z, dir.z, pos.z, half.z);
    let ghost sx = spec_slab(origin.x as int, dir.x as int, pos.x - half.x, pos.x + half.x);
    let ghost sy = spec_slab(origin.y as int, dir.y as int, pos.y - half.y, pos.y + half.y);
    let ghost sz = spec_slab(origin.z as int, dir.z as int, pos.z - half.z, pos.z + half.z);
    let xy = narrow(x, y);
    assert(same_span(xy, spec_narrow(sx, sy)));
    let xyz = narrow(xy, z);
    assert(same_span(xyz, spec_narrow(spec_narrow(sx, sy), sz)));
    match xyz {
        Some((lo, hi)) => {
            if hi < 0 {
                None
            } else if lo > 0 {
                Some(clamp_wide(lo))
            } else {
                Some(0)
            }
        },
        None => None,
    }
}

/// Whether `id` is among `list`.
fn listed(list: &Vec<EntityId>, id: EntityId) -> (found: bool)
    ensures
        found == list@.contains(id),
{
    let mut i: usize = 0;
    while i < list.len()
        invariant
            i <= list@.len(),
            forall|k: int| 0 <= k < i ==> list@[k] != id,
        decreases list@.len() - i,
    {
        if list[i].bits == id.bits {
            return true;
        }
        i += 1;
    }
    false
}

impl Shared {
    /// The first body that the ray from `origin` along `dir` meets, apart
    /// from those of the entities `ignore_ids`: the point where the ray
    /// enters it, and its entity. Of two bodies entered at the same
    /// parameter, the one that the world walks first is returned. `None` if
    /// the ray meets no body.
    ///
    /// The world is taken exclusively so that none of its records can be
    /// borrowed elsewhere while it is walked; it is left as it was.
    pub fn ray_intersection(&mut self, origin: Vec3, dir: Vec3, ignore_ids: &Vec<EntityId>) -> (hit:
        Option<(Vec3, EntityId)>)
        ensures
            final(self)@ == old(self)@,
            final(self).well_formed(),
            match hit {
                Some((point, id)) => exists|j: int|
                    {
                        &&& nearest(
                            old(self)@.store,
                            old(self)@.order,
                            origin,
                            dir,
                            ignore_ids@,
                            j,
                        )
                        &&& id.bits == old(self)@.order[j]
                        &&& point == point_at(
                            origin,
                            dir,
                            candidate(
                                old(self)@.store,
                                old(self)@.order,
                                origin,
                                dir,
                                ignore_ids@,
                                j,
                            ).unwrap(),
                        )
                    },
                None => forall|j: int|
                    candidate(old(self)@.store, old(self)@.order, origin, dir, ignore_ids@, j)
                        is None,
            },
    {
        let ids = entity_ids(&mut self.ecs);
        let bodies = self.bodies(&ids);
        let ghost store = old(self)@.store;
        let ghost walk = old(self)@.order;
        let mut best: Option<(Fixed, usize)> = None;
        let mut i: usize = 0;
        while i < ids.len()
            invariant
                i <= ids@.len(),
                ids@.len() == walk.len(),
                bodies@.len() == walk.len(),
                forall|k: int| 0 <= k < ids@.len() ==> ids@[k].bits == walk[k],
                forall|k: int| 0 <= k < walk.len() ==> bodies@[k] == store[walk[k]].physics,
                match best {
                    Some((t, j)) => {
                        &&& j < i
                        &&& candidate(store, walk, origin, dir, ignore_ids@, j as int) == Some(t)
                        &&& forall|k: int|
                            0 <= k < i ==> match #[trigger] candidate(
                                store,
                                walk,
                                origin,
                                dir,
                                ignore_ids@,
                                k,
                            ) {
                                Some(u) => t <= u && (k < j ==> t < u),
                                None => true,
                            }
                    },
                    None => forall|k: int|
                        0 <= k < i ==> candidate(store, walk, origin, dir, ignore_ids@, k) is None,
                },
            decreases ids@.len() - i,
        {
            let id = ids[i];
            assert(id == EntityId { bits: walk[i as int] });
            if !listed(ignore_ids, id) {
                match &bodies[i] {
                    Some(obj) => {
                        match entry(obj, origin, dir) {
                            Some(t) => {
                                let closer = match best {
                                    Some((u, _)) => t < u,
                                    None => true,
                                };
                                if closer {
                                    best = Some((t, i));
                                }
                            },
                            None => {},
                        }
                    },
                    None => {},
                }
            }
            i += 1;
        }
        match best {
            Some((t, j)) => {
                assert(nearest(store, walk, origin, dir, ignore_ids@, j as int));
                Some((origin.plus(dir.scale(t)), ids[j]))
            },
            None => None,
        }
    }
}

} // verus!
