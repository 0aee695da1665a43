//! A backend-agnostic rendering layer: generation-checked resource arenas, backend resource
//! lifecycles, uniform reflection and material packing, and per-frame draw planning.
pub mod buffer;
pub mod color;
pub mod draw_list;
pub mod error;
pub mod generation_vec;
pub mod headless;
pub mod material;
pub mod mesh;
pub mod mesh_buffer;
pub mod render_target;
pub mod renderer;
pub mod shader;
pub mod vertex_layout;

pub use buffer::{Buffer, BufferAttributes, BufferUsage};
pub use color::Color8;
pub use draw_list::{DrawCommand, DrawStep, InstanceValue};
pub use error::RendererError;
pub use generation_vec::{GenerationVec, Handle};
pub use headless::{Headless, HeadlessCall, HeadlessContext};
pub use material::{Material, MaterialProperty, PropertyId, PropertyValue};
pub use mesh::{Mesh, Primitive};
pub use render_target::ClearFlags;
pub use renderer::{
    BackendCall, BufferEntry, Context, CreateBuffer, CreateShader, CreateShaderProgram, CreateVertexLayout,
    LayoutEntry, ProgramEntry, Renderer,
};
pub use shader::{
    ActiveUniform, Shader, ShaderProgram, UniformDescription, UniformKind, UniformLayout,
};
pub use vertex_layout::{
    AttributeSemantic, SemanticLocations, VertexAttribute, VertexAttributeKind, VertexLayout,
};
