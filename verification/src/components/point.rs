//! A bare position marker.

use vstd::prelude::*;
use crate::vec3::Vec3;

verus! {

/// A point of the level that carries no geometry, such as a spawn point.
#[derive(Clone, Copy, Debug, PartialEq, Eq, Structural)]
pub struct PointObject(pub Vec3);

} // verus!
