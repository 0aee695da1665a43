use vstd::prelude::*;
use crate::generation_vec::Handle;
use crate::vertex_layout::VertexLayout;

verus! {

/// How vertices are assembled into primitives.
#[derive(Debug, Copy, Clone, PartialEq, Eq, Structural)]
pub enum Primitive {
    Triangles,
    TriangleStrip,
    Lines,
    LineStrip,
    Points,
}

/// A range of vertices (or indices) of a vertex layout, drawn as `primitive`. It only refers to
/// the layout and owns no backend state.
#[derive(Debug, Copy, Clone)]
pub struct Mesh {
    pub vertex_layout: Handle<VertexLayout>,
    pub start_index: usize,
    pub count: u32,
    pub primitive: Primitive,
}

} // verus!
