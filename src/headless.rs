use vstd::prelude::*;
use crate::buffer::BufferUsage;
use crate::error::RendererError;
use crate::mesh::Primitive;
use crate::generation_vec::Handle;
use crate::material::Material;
use crate::renderer::{
    BackendCall, Context, CreateBuffer, CreateShader, CreateShaderProgram, CreateVertexLayout, Renderer,
};
use crate::shader::{ActiveUniform, UniformDescription};
use crate::vertex_layout::{AttributeBinding, VertexLayout};

verus! {

/// A call as the headless backend records it, with copies of the bytes uploaded.
#[derive(Clone, Debug, PartialEq, Eq)]
pub enum HeadlessCall {
    Clear,
    BindLayout { layout: Handle<VertexLayout> },
    UploadMaterial { material: Handle<Material>, data: Vec<u8> },
    SetUniform { location: u32, data: Vec<u8> },
    Draw { primitive: Primitive, start_index: usize, count: u32, indexed: bool },
    Present,
}

impl HeadlessCall {
    /// The call this record stands for.
    pub open spec fn model(self) -> BackendCall {
        match self {
            HeadlessCall::Clear => BackendCall::Clear,
            HeadlessCall::BindLayout { layout } => BackendCall::BindLayout { layout },
            HeadlessCall::UploadMaterial { material, data } => BackendCall::UploadMaterial {
                material,
                data: data@,
            },
            HeadlessCall::SetUniform { location, data } => BackendCall::SetUniform { location, data: data@ },
            HeadlessCall::Draw { primitive, start_index, count, indexed } => BackendCall::Draw {
                primitive,
                start_index,
                count,
                indexed,
            },
            HeadlessCall::Present => BackendCall::Present,
        }
    }
}

/// The headless backend's context: no device, only the record of the calls made.
pub struct HeadlessContext {
    pub calls: Vec<HeadlessCall>,
}

fn record(ctx: &mut HeadlessContext, call: HeadlessCall)
    ensures
        Headless::calls(*final(ctx)) == Headless::calls(*old(ctx)).push(call.model()),
{
    let ghost before = ctx.calls@;
    ctx.calls.push(call);
    proof {
        assert(ctx.calls@.map_values(|c: HeadlessCall| c.model()) =~= before.map_values(
            |c: HeadlessCall| c.model(),
        ).push(call.model()));
    }
}

/// A headless buffer: its byte size only.
pub struct HeadlessBuffer {
    pub size: usize,
}

/// A headless vertex layout: the attribute bindings it was given.
pub struct HeadlessLayout {
    pub bindings: Vec<AttributeBinding>,
}

/// A headless shader: whether it is a vertex shader.
pub struct HeadlessShader {
    pub vertex: bool,
}

/// A headless program; it reports no uniforms.
pub struct HeadlessProgram {}

/// Backend that sends nothing to a device and records what it is asked to do, for running the
/// renderer without a graphics context.
pub struct Headless {}

/// Vertex-input locations the headless backend offers.
pub const HEADLESS_MAX_ATTRIBUTES: u8 = 16;

impl CreateBuffer for HeadlessBuffer {
    fn with_vertex<T>(_data: &[T], size: usize, _usage: BufferUsage) -> Result<Self, RendererError> {
        Ok(HeadlessBuffer { size })
    }

    fn with_index<T>(_data: &[T], size: usize, _usage: BufferUsage) -> Result<Self, RendererError> {
        Ok(HeadlessBuffer { size })
    }
}

impl CreateVertexLayout for HeadlessLayout {
    type Buffer = HeadlessBuffer;

    fn new() -> Result<Self, RendererError> {
        Ok(HeadlessLayout { bindings: Vec::new() })
    }

    fn max_attributes(&self) -> u8 {
        HEADLESS_MAX_ATTRIBUTES
    }

    fn set_buffer_attributes(&mut self, _buffer: &HeadlessBuffer, bindings: &[AttributeBinding]) -> Result<
        (),
        RendererError,
    > {
        let mut i: usize = 0;
        while i < bindings.len()
            decreases bindings@.len() - i,
        {
            self.bindings.push(bindings[i]);
            i = i + 1;
        }
        Ok(())
    }
}

impl CreateShader for HeadlessShader {
    fn with_vertex(_source: &str) -> Result<Self, RendererError> {
        Ok(HeadlessShader { vertex: true })
    }

    fn with_fragment(_source: &str) -> Result<Self, RendererError> {
        Ok(HeadlessShader { vertex: false })
    }
}

impl CreateShaderProgram for HeadlessProgram {
    type VertexShader = HeadlessShader;

    type FragmentShader = HeadlessShader;

    /// Fails as a linker would when the shaders are not one vertex and one fragment shader.
    fn new(vertex_shader: &HeadlessShader, fragment_shader: &HeadlessShader) -> Result<
        (Self, Vec<ActiveUniform>),
        RendererError,
    > {
        if !vertex_shader.vertex {
            return Err(
                RendererError::FailedToLinkProgram {
                    error: "argument vertex_shader is not a vertex shader".to_owned(),
                },
            );
        }
        if fragment_shader.vertex {
            return Err(
                RendererError::FailedToLinkProgram {
                    error: "argument fragment_shader is not a fragment shader".to_owned(),
                },
            );
        }
        Ok((HeadlessProgram {}, Vec::new()))
    }
}

impl Context for Headless {
    type Context = HeadlessContext;

    type Buffer = HeadlessBuffer;

    type VertexLayout = HeadlessLayout;

    type Shader = HeadlessShader;

    type ShaderProgram = HeadlessProgram;

    open spec fn calls(ctx: HeadlessContext) -> Seq<BackendCall> {
        ctx.calls@.map_values(|c: HeadlessCall| c.model())
    }

    fn context_description(_ctx: &HeadlessContext) -> String {
        "Headless Renderer".to_owned()
    }

    fn clear(ctx: &mut HeadlessContext) {
        record(ctx, HeadlessCall::Clear);
    }

    fn bind_layout(ctx: &mut HeadlessContext, handle: Handle<VertexLayout>, _layout: &HeadlessLayout) {
        record(ctx, HeadlessCall::BindLayout { layout: handle });
    }

    fn set_uniform_data(
        ctx: &mut HeadlessContext,
        material: Handle<Material>,
        _program: &HeadlessProgram,
        _uniforms: &[UniformDescription],
        data: &[u8],
    ) {
        record(ctx, HeadlessCall::UploadMaterial { material, data: vstd::slice::slice_to_vec(data) });
    }

    fn set_uniform(
        ctx: &mut HeadlessContext,
        _program: &HeadlessProgram,
        uniform: &UniformDescription,
        data: &[u8],
    ) {
        record(ctx, HeadlessCall::SetUniform { location: uniform.location, data: vstd::slice::slice_to_vec(data) });
    }

    fn draw(ctx: &mut HeadlessContext, primitive: Primitive, start_index: usize, count: u32, indexed: bool) {
        record(ctx, HeadlessCall::Draw { primitive, start_index, count, indexed });
    }

    fn present(ctx: &mut HeadlessContext) {
        record(ctx, HeadlessCall::Present);
    }
}

impl Renderer<Headless> {
    /// A renderer on the headless backend. It cannot fail; the result type matches the other
    /// backends' constructors.
    pub fn new_headless() -> (r: Result<Self, RendererError>)
        ensures
            r matches Ok(renderer) && renderer.wf() && renderer.context.calls@.len() == 0,
    {
        Ok(Renderer::new(HeadlessContext { calls: Vec::new() }))
    }
}

} // verus!
