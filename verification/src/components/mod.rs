//! The component records that an entity can carry.

pub mod model;
pub mod physicsobject;
pub mod player;
pub mod point;
pub mod properties;
pub mod spawn;

pub use model::{ImageWrapper, MeshWrapper, VertexWrapper};
pub use physicsobject::{Obb, PhysicsObject, Shape};
pub use player::{MoveState, Player};
pub use point::PointObject;
pub use properties::Properties;
pub use spawn::{Spawn, SpawnKind};
