//! Rigid boxes: where they are, how large, how fast, and how they touch.

use vstd::prelude::*;
use crate::fixed::{clamp, clamp_wide, magnitude, quot, Fixed, ONE};
use crate::vec3::Vec3;

verus! {

/// The vertical distance within which one box counts as standing on another.
pub const EPS_STAND: Fixed = 500_000;

/// The divisor applied to the horizontal velocity of whatever stands on a box
/// that was given no friction of its own.
pub const DEFAULT_FRICTION: Fixed = 1_020_000;

/// A box with its sides along the axes of the world, and the direction in
/// which it faces.
#[derive(Clone, Copy, Debug, PartialEq, Eq, Structural)]
pub struct Obb {
    /// The centre.
    pub pos: Vec3,
    /// Half of the size along each axis.
    pub half_extents: Vec3,
    /// The forward direction.
    pub orientation: Vec3,
}

/// The shapes a body can have.
#[derive(Clone, Copy, Debug, PartialEq, Eq, Structural)]
pub enum Shape {
    Obb(Obb),
}

/// A body of the simulation.
#[derive(Clone, Copy, Debug, PartialEq, Eq, Structural)]
pub struct PhysicsObject {
    pub shape: Shape,
    pub vel: Vec3,
    /// What standing on this body divides a horizontal velocity by.
    pub friction: Fixed,
    /// A fixed body is level geometry: no step moves it.
    pub fixed: bool,
    /// Whether the last step found the body standing on another.
    pub on_ground: bool,
}

/// Half of `v`, rounded toward zero.
pub open spec fn half_of(v: int) -> int {
    quot(v, 2)
}

/// Whether the closed intervals `[p1 - h1, p1 + h1]` and `[p2 - h2, p2 + h2]`
/// have a point in common.
pub open spec fn axis_overlap(p1: int, h1: int, p2: int, h2: int) -> bool {
    p1 - h1 <= p2 + h2 && p2 - h2 <= p1 + h1
}

/// Whether the closed intervals `[p1 - h1, p1 + h1]` and `[p2 - h2, p2 + h2]`
/// have a point in common.
fn overlaps_on_axis(p1: Fixed, h1: Fixed, p2: Fixed, h2: Fixed) -> (hit: bool)
    ensures
        hit == axis_overlap(p1 as int, h1 as int, p2 as int, h2 as int),
{
    let lo1: i128 = p1 as i128 - h1 as i128;
    let hi1: i128 = p1 as i128 + h1 as i128;
    let lo2: i128 = p2 as i128 - h2 as i128;
    let hi2: i128 = p2 as i128 + h2 as i128;
    lo1 <= hi2 && lo2 <= hi1
}

/// Half of `v`, rounded toward zero.
fn halve(v: Fixed) -> (h: Fixed)
    ensures
        h == half_of(v as int),
{
    if v >= 0 {
        v / 2
    } else if v == i64::MIN {
        assert(magnitude(i64::MIN as int) / 2 == 0x4000_0000_0000_0000);
        -0x4000_0000_0000_0000
    } else {
        -((-v) / 2)
    }
}

impl Obb {
    /// The direction a box faces until it is told otherwise.
    pub open spec fn default_orientation() -> Vec3 {
        Vec3 { x: ONE, y: 0, z: 0 }
    }

    /// The box centred at `pos` whose full size is `size`.
    pub open spec fn spec_from_pos_size(pos: Vec3, size: Vec3) -> Obb {
        Obb {
            pos,
            half_extents: Vec3 {
                x: half_of(size.x as int) as i64,
                y: half_of(size.y as int) as i64,
                z: half_of(size.z as int) as i64,
            },
            orientation: Obb::default_orientation(),
        }
    }

    /// The box centred at `pos` whose full size is `size`.
    pub fn from_pos_size(pos: Vec3, size: Vec3) -> (obb: Obb)
        ensures
            obb == Obb::spec_from_pos_size(pos, size),
    {
        Obb {
            pos,
            half_extents: Vec3 { x: halve(size.x), y: halve(size.y), z: halve(size.z) },
            orientation: Vec3 { x: ONE, y: 0, z: 0 },
        }
    }
}

impl PhysicsObject {
    /// The box that bounds the body.
    pub open spec fn obb(self) -> Obb {
        match self.shape {
            Shape::Obb(obb) => obb,
        }
    }

    /// The centre of the body.
    pub open spec fn spec_pos(self) -> Vec3 {
        self.obb().pos
    }

    /// The body with its centre at `pos` and everything else as before.
    pub open spec fn with_pos(self, pos: Vec3) -> PhysicsObject {
        PhysicsObject { shape: Shape::Obb(Obb { pos, ..self.obb() }), ..self }
    }

    /// The body facing along `orientation` and everything else as before.
    pub open spec fn with_orientation(self, orientation: Vec3) -> PhysicsObject {
        PhysicsObject { shape: Shape::Obb(Obb { orientation, ..self.obb() }), ..self }
    }

    /// A body at rest of the given shape, free to move, with the default
    /// friction.
    pub open spec fn spec_new(shape: Shape) -> PhysicsObject {
        PhysicsObject {
            shape,
            vel: Vec3::spec_zero(),
            friction: DEFAULT_FRICTION,
            fixed: false,
            on_ground: false,
        }
    }

    /// A body at rest of the given shape, free to move, with the default
    /// friction.
    pub fn new(shape: Shape) -> (obj: PhysicsObject)
        ensures
            obj == PhysicsObject::spec_new(shape),
    {
        PhysicsObject {
            shape,
            vel: Vec3::zero(),
            friction: DEFAULT_FRICTION,
            fixed: false,
            on_ground: false,
        }
    }

    /// The same body, made part of the level.
    pub fn fixed(self) -> (obj: PhysicsObject)
        ensures
            obj == (PhysicsObject { fixed: true, ..self }),
    {
        let mut obj = self;
        obj.fixed = true;
        obj
    }

    /// The same body with the velocity `vel`.
    pub fn vel(self, vel: Vec3) -> (obj: PhysicsObject)
        ensures
            obj == (PhysicsObject { vel, ..self }),
    {
        let mut obj = self;
        obj.vel = vel;
        obj
    }

    /// The centre of the body.
    pub fn pos(&self) -> (pos: Vec3)
        ensures
            pos == self.spec_pos(),
    {
        match &self.shape {
            Shape::Obb(obb) => obb.pos,
        }
    }

    /// Half of the body's size along each axis.
    pub fn half_extents(&self) -> (half: Vec3)
        ensures
            half == self.obb().half_extents,
    {
        match &self.shape {
            Shape::Obb(obb) => obb.half_extents,
        }
    }

    /// The direction the body faces.
    pub fn orientation(&self) -> (orientation: Vec3)
        ensures
            orientation == self.obb().orientation,
    {
        match &self.shape {
            Shape::Obb(obb) => obb.orientation,
        }
    }

    /// Puts the centre of the body at `pos`.
    pub fn set_pos(&mut self, pos: Vec3)
        ensures
            *final(self) == old(self).with_pos(pos),
    {
        match self.shape {
            Shape::Obb(obb) => {
                self.shape = Shape::Obb(Obb { pos, ..obb });
            },
        }
    }

    /// Turns the body to face along `orientation`.
    pub fn set_orientation(&mut self, orientation: Vec3)
        ensures
            *final(self) == old(self).with_orientation(orientation),
    {
        match self.shape {
            Shape::Obb(obb) => {
                self.shape = Shape::Obb(Obb { orientation, ..obb });
            },
        }
    }

    /// Moves the centre of the body by `delta_pos`.
    pub fn move_pos(&mut self, delta_pos: Vec3)
        ensures
            *final(self) == old(self).with_pos(old(self).spec_pos().spec_plus(delta_pos)),
    {
        let pos = self.pos().plus(delta_pos);
        self.set_pos(pos);
    }

    /// Whether the two boxes have a point in common: their intervals overlap
    /// on all three axes. Boxes that only touch do intersect.
    pub open spec fn spec_intersects(self, rcs: PhysicsObject) -> bool {
        let a = self.obb();
        let b = rcs.obb();
        &&& axis_overlap(
            a.pos.x as int,
            a.half_extents.x as int,
            b.pos.x as int,
            b.half_extents.x as int,
        )
        &&& axis_overlap(
            a.pos.y as int,
            a.half_extents.y as int,
            b.pos.y as int,
            b.half_extents.y as int,
        )
        &&& axis_overlap(
            a.pos.z as int,
            a.half_extents.z as int,
            b.pos.z as int,
            b.half_extents.z as int,
        )
    }

    /// Whether the two boxes have a point in common.
    pub fn intersects(&self, rcs: &PhysicsObject) -> (hit: bool)
        ensures
            hit == self.spec_intersects(*rcs),
    {
        let a = self.pos();
        let ah = self.half_extents();
        let b = rcs.pos();
        let bh = rcs.half_extents();
        overlaps_on_axis(a.x, ah.x, b.x, bh.x) && overlaps_on_axis(a.y, ah.y, b.y, bh.y)
            && overlaps_on_axis(a.z, ah.z, b.z, bh.z)
    }

    /// The height of the body's underside.
    pub open spec fn bottom(self) -> int {
        self.obb().pos.y - self.obb().half_extents.y
    }

    /// The height of the body's upper side.
    pub open spec fn top(self) -> int {
        self.obb().pos.y + self.obb().half_extents.y
    }

    /// Whether `self` stands on `rcs`: its underside is within [`EPS_STAND`]
    /// of the upper side of `rcs`, and the two overlap seen from above. This
    /// is a relation of vertical nearness; the boxes need not intersect.
    pub open spec fn spec_standing_on(self, rcs: PhysicsObject) -> bool {
        let a = self.obb();
        let b = rcs.obb();
        &&& -EPS_STAND < self.bottom() - rcs.top() < EPS_STAND
        &&& axis_overlap(
            a.pos.x as int,
            a.half_extents.x as int,
            b.pos.x as int,
            b.half_extents.x as int,
        )
        &&& axis_overlap(
            a.pos.z as int,
            a.half_extents.z as int,
            b.pos.z as int,
            b.half_extents.z as int,
        )
    }

    /// The height at which the centre of `self` rests when it stands on
    /// `rcs`.
    pub open spec fn resting_height(self, rcs: PhysicsObject) -> int {
        clamp(rcs.top() + self.obb().half_extents.y)
    }

    /// Whether `self` stands on `rcs`, and the height at which its centre
    /// rests when it does.
    pub fn standing_on(&self, rcs: &PhysicsObject) -> (r: (bool, Fixed))
        ensures
            r.0 == self.spec_standing_on(*rcs),
            r.1 == self.resting_height(*rcs),
    {
        let a = self.pos();
        let ah = self.half_extents();
        let b = rcs.pos();
        let bh = rcs.half_extents();
        let feet: i128 = a.y as i128 - ah.y as i128;
        let ground: i128 = b.y as i128 + bh.y as i128;
        let gap: i128 = feet - ground;
        let eps: i128 = EPS_STAND as i128;
        let near = -eps < gap && gap < eps;
        let over = overlaps_on_axis(a.x, ah.x, b.x, bh.x) && overlaps_on_axis(a.z, ah.z, b.z, bh.z);
        (near && over, clamp_wide(ground + ah.y as i128))
    }

    /// The full size of the body along each axis.
    pub open spec fn spec_bounding_box(self) -> Vec3 {
        self.obb().half_extents.spec_plus(self.obb().half_extents)
    }

    /// The full size of the body along each axis.
    pub fn bounding_box(&self) -> (size: Vec3)
        ensures
            size == self.spec_bounding_box(),
    {
        let half = self.half_extents();
        half.plus(half)
    }
}

} // verus!
