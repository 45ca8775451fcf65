//! Places where something enters the world.

use vstd::prelude::*;
use crate::vec3::Vec3;

verus! {

/// What enters the world at a spawn.
#[derive(Clone, Copy, Debug, PartialEq, Eq, Structural)]
pub enum SpawnKind {
    Player,
}

/// A place where something of a given kind enters the world.
#[derive(Clone, Copy, Debug, PartialEq, Eq, Structural)]
pub struct Spawn {
    pub kind: SpawnKind,
    pub pos: Vec3,
}

impl Spawn {
    /// A place where players enter the world.
    pub fn player(pos: Vec3) -> (spawn: Spawn)
        ensures
            spawn == (Spawn { kind: SpawnKind::Player, pos }),
    {
        Spawn { kind: SpawnKind::Player, pos }
    }
}

} // verus!
