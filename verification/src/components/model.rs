//! Render geometry. The simulation never reads it; it is stored and handed on
//! so that a joining peer can draw the level.

use vstd::prelude::*;

verus! {

/// One vertex of a mesh. Position, texture coordinate and normal are IEEE 754
/// single-precision bit patterns, carried through untouched.
#[derive(Clone, Copy, Debug, PartialEq, Eq)]
pub struct VertexWrapper {
    pub position: [u32; 3],
    pub uv: [u32; 2],
    pub color: [u8; 4],
    pub normal: [u32; 4],
}

/// An RGBA image, four bytes to the pixel.
#[derive(Clone, Debug, PartialEq, Eq)]
pub struct ImageWrapper {
    pub bytes: Vec<u8>,
    pub width: u16,
    pub height: u16,
}

/// An indexed triangle mesh with an optional texture.
#[derive(Clone, Debug, PartialEq, Eq)]
pub struct MeshWrapper {
    pub vertices: Vec<VertexWrapper>,
    pub indices: Vec<u16>,
    pub texture: Option<ImageWrapper>,
}

} // verus!
