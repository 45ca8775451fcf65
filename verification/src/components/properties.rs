//! Free-form properties that the level attaches to a node.

use vstd::prelude::*;
use crate::vec3::Vec3;

verus! {

/// The properties the level can attach to a node.
#[derive(Clone, Copy, Debug, PartialEq, Eq, Structural)]
pub struct Properties {
    /// Whether players may spawn here.
    pub spawn: Option<bool>,
    /// The velocity given to whatever touches the node.
    pub launch: Option<Vec3>,
}

impl Properties {
    /// Whether the node is marked as a place where players spawn.
    pub open spec fn spec_is_spawn(self) -> bool {
        self.spawn == Some(true)
    }

    /// Whether the node is marked as a place where players spawn.
    pub fn is_spawn(&self) -> (marked: bool)
        ensures
            marked == self.spec_is_spawn(),
    {
        match self.spawn {
            Some(flag) => flag,
            None => false,
        }
    }
}

} // verus!
