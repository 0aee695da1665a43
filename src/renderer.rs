use vstd::prelude::*;
use crate::buffer::{buffer_byte_size, Buffer, BufferAttributes, BufferUsage};
use crate::draw_list::{
    plan_frame, runnable_draws, step_for, DrawCommand, DrawStep, InstanceValue, LayoutInfo,
};
use crate::error::RendererError;
use crate::generation_vec::{GenerationVec, Handle};
use crate::material::{
    apply_properties, find_uniform, find_uniform_exec, write_floats, write_floats_exec, Material,
    MaterialProperty, PropertyValue,
};
use crate::mesh::{Mesh, Primitive};
use crate::shader::{
    bound_uniforms, has_sampler, reflect_uniforms, uniforms_size, ActiveUniform, Shader, ShaderProgram, UniformDescription, UniformLayout,
};
use crate::generation_vec::ArenaModel;
use crate::vertex_layout::{
    bind_attributes, check_attributes, default_locations, same_error, AttributeBinding,
    AttributeSemantic, SemanticLocations, VertexLayout,
};

verus! {

/// A backend's buffer objects.
pub trait CreateBuffer: Sized {
    /// A vertex buffer holding `data`, `size` bytes in all (at most `isize::MAX`).
    fn with_vertex<T>(data: &[T], size: usize, usage: BufferUsage) -> Result<Self, RendererError>;

    /// An index buffer holding `data`, `size` bytes in all (at most `isize::MAX`).
    fn with_index<T>(data: &[T], size: usize, usage: BufferUsage) -> Result<Self, RendererError>;
}

/// A backend's vertex-layout objects.
pub trait CreateVertexLayout: Sized {
    type Buffer;

    fn new() -> Result<Self, RendererError>;

    /// How many vertex-input locations the backend offers.
    fn max_attributes(&self) -> u8;

    /// Enables validated attribute bindings that read from `buffer`.
    fn set_buffer_attributes(&mut self, buffer: &Self::Buffer, bindings: &[AttributeBinding]) -> Result<
        (),
        RendererError,
    >;
}

/// A backend's compiled shaders.
pub trait CreateShader: Sized {
    fn with_vertex(source: &str) -> Result<Self, RendererError>;

    fn with_fragment(source: &str) -> Result<Self, RendererError>;
}

/// A backend's linked programs.
pub trait CreateShaderProgram: Sized {
    type VertexShader;

    type FragmentShader;

    /// Links the two shaders; on success, the program and its active uniforms as the backend
    /// enumerates them.
    fn new(
        vertex_shader: &Self::VertexShader,
        fragment_shader: &Self::FragmentShader,
    ) -> Result<(Self, Vec<ActiveUniform>), RendererError>;
}

/// A backend: the resource types it uses and the per-frame operations the renderer drives.
pub trait Context {
    type Context;

    type Buffer: CreateBuffer;

    type VertexLayout: CreateVertexLayout<Buffer = Self::Buffer>;

    type Shader: CreateShader;

    type ShaderProgram: CreateShaderProgram<
        VertexShader = Self::Shader,
        FragmentShader = Self::Shader,
    >;

    /// The calls made on `ctx` so far, first to last. A backend verified against this trait
    /// defines it from the record it keeps. The default, an empty record, cannot meet the
    /// contracts of the methods below: a backend that keeps it (one driving a device from outside
    /// the verified library) is not held to them, and nothing is proved of its calls.
    closed spec fn calls(ctx: Self::Context) -> Seq<BackendCall> {
        Seq::empty()
    }

    /// Vendor, device and API version of the backend's context.
    fn context_description(ctx: &Self::Context) -> String;

    /// Clears the screen target as configured.
    fn clear(ctx: &mut Self::Context)
        ensures
            Self::calls(*final(ctx)) == Self::calls(*old(ctx)).push(BackendCall::Clear),
    ;

    /// Binds the vertex layout that `handle` reaches.
    fn bind_layout(ctx: &mut Self::Context, handle: Handle<VertexLayout>, layout: &Self::VertexLayout)
        ensures
            Self::calls(*final(ctx)) == Self::calls(*old(ctx)).push(BackendCall::BindLayout { layout: handle }),
    ;

    /// Uploads the blob of the material `material` to its program: each uniform reads its bytes at
    /// its offset in `data`.
    fn set_uniform_data(
        ctx: &mut Self::Context,
        material: Handle<Material>,
        program: &Self::ShaderProgram,
        uniforms: &[UniformDescription],
        data: &[u8],
    )
        ensures
            Self::calls(*final(ctx)) == Self::calls(*old(ctx)).push(
                BackendCall::UploadMaterial { material, data: data@ },
            ),
    ;

    /// Uploads the bytes of one uniform.
    fn set_uniform(
        ctx: &mut Self::Context,
        program: &Self::ShaderProgram,
        uniform: &UniformDescription,
        data: &[u8],
    )
        ensures
            Self::calls(*final(ctx)) == Self::calls(*old(ctx)).push(
                BackendCall::SetUniform { location: uniform.location, data: data@ },
            ),
    ;

    /// Draws `count` indices (or vertices, when not `indexed`) from `start_index` on.
    fn draw(ctx: &mut Self::Context, primitive: Primitive, start_index: usize, count: u32, indexed: bool)
        ensures
            Self::calls(*final(ctx)) == Self::calls(*old(ctx)).push(
                BackendCall::Draw { primitive, start_index, count, indexed },
            ),
    ;

    /// Shows the frame.
    fn present(ctx: &mut Self::Context)
        ensures
            Self::calls(*final(ctx)) == Self::calls(*old(ctx)).push(BackendCall::Present),
    ;
}

/// A per-frame call the renderer makes on its backend, with the bytes it uploads.
pub enum BackendCall {
    Clear,
    BindLayout { layout: Handle<VertexLayout> },
    UploadMaterial { material: Handle<Material>, data: Seq<u8> },
    SetUniform { location: u32, data: Seq<u8> },
    Draw { primitive: Primitive, start_index: usize, count: u32, indexed: bool },
    Present,
}

/// A buffer in the renderer's arena, with whether it holds indices.
pub struct BufferEntry<B> {
    pub buffer: B,
    pub is_index: bool,
}

/// A vertex layout in the renderer's arena, with whether any of its buffers holds indices.
pub struct LayoutEntry<L> {
    pub layout: L,
    pub has_indices: bool,
}

impl<L> LayoutInfo for LayoutEntry<L> {
    open spec fn spec_has_indices(&self) -> bool {
        self.has_indices
    }

    fn has_indices(&self) -> (r: bool) {
        self.has_indices
    }
}

/// A linked program in the renderer's arena, with its reflected uniform table.
pub struct ProgramEntry<P> {
    pub program: P,
    pub uniforms: UniformLayout,
}

/// Owns one arena per resource kind, the backend's context, the location table for vertex
/// semantics and the draws queued for the next frame.
pub struct Renderer<C: Context> {
    pub context: C::Context,
    pub buffers: GenerationVec<Buffer, BufferEntry<C::Buffer>>,
    pub layouts: GenerationVec<VertexLayout, LayoutEntry<C::VertexLayout>>,
    pub shaders: GenerationVec<Shader, C::Shader>,
    pub programs: GenerationVec<ShaderProgram, ProgramEntry<C::ShaderProgram>>,
    pub materials: GenerationVec<Material, Material>,
    pub semantic_locations: SemanticLocations,
    pub draw_list: Vec<DrawCommand>,
}

/// `n` zero bytes.
fn zeroed(n: usize) -> (r: Vec<u8>)
    ensures
        r@ == Seq::new(n as nat, |i: int| 0u8),
{
    let mut v: Vec<u8> = Vec::with_capacity(n);
    let mut i: usize = 0;
    while i < n
        invariant
            0 <= i <= n,
            v@ == Seq::new(i as nat, |k: int| 0u8),
        decreases n - i,
    {
        v.push(0u8);
        i = i + 1;
        proof {
            assert(v@ =~= Seq::new(i as nat, |k: int| 0u8));
        }
    }
    v
}

/// The per-draw overrides that `props` give for a program with `uniforms`: for each property
/// that names a uniform, that uniform's index and its bytes (zeros, with the property's floats
/// written from the start).
pub open spec fn instance_values(
    uniforms: Seq<UniformDescription>,
    props: Seq<MaterialProperty>,
) -> Seq<(int, Seq<u8>)>
    decreases props.len(),
{
    if props.len() == 0 {
        Seq::empty()
    } else {
        let before = instance_values(uniforms, props.drop_last());
        match find_uniform(uniforms, props.last().property) {
            Some(k) => before.push(
                (k, write_floats(Seq::new(uniforms[k].size as nat, |i: int| 0u8), 0, props.last().value.bits())),
            ),
            None => before,
        }
    }
}

fn resolve_instance(uniforms: &[UniformDescription], props: &[MaterialProperty]) -> (r: Vec<
    InstanceValue,
>)
    ensures
        r@.len() == instance_values(uniforms@, props@).len(),
        forall|j: int|
            0 <= j < r@.len() ==> (#[trigger] r@[j]).uniform as int == instance_values(uniforms@, props@)[j].0
                && r@[j].data@ == instance_values(uniforms@, props@)[j].1,
{
    let mut out: Vec<InstanceValue> = Vec::new();
    let mut i: usize = 0;
    while i < props.len()
        invariant
            0 <= i <= props@.len(),
            out@.len() == instance_values(uniforms@, props@.subrange(0, i as int)).len(),
            forall|j: int|
                0 <= j < out@.len() ==> (#[trigger] out@[j]).uniform as int == instance_values(
                    uniforms@,
                    props@.subrange(0, i as int),
                )[j].0 && out@[j].data@ == instance_values(uniforms@, props@.subrange(0, i as int))[j].1,
        decreases props@.len() - i,
    {
        proof {
            assert(props@.subrange(0, i + 1).drop_last() =~= props@.subrange(0, i as int));
        }
        let prop = props[i];
        match find_uniform_exec(uniforms, prop.property) {
            Some(k) => {
                let mut data = zeroed(uniforms[k].size);
                match prop.value {
                    PropertyValue::F32(values) => {
                        write_floats_exec(&mut data, 0, values);
                    },
                }
                out.push(InstanceValue { uniform: k, data });
            },
            None => {},
        }
        i = i + 1;
    }
    proof {
        assert(props@.subrange(0, i as int) =~= props@);
    }
    out
}

/// The calls that uploading a draw's overrides makes: one per override whose uniform index is in
/// the program's table, in order.
pub open spec fn override_calls(instance: Seq<InstanceValue>, uniforms: Seq<UniformDescription>) -> Seq<
    BackendCall,
>
    decreases instance.len(),
{
    if instance.len() == 0 {
        Seq::empty()
    } else {
        let before = override_calls(instance.drop_last(), uniforms);
        let v = instance.last();
        if (v.uniform as int) < uniforms.len() {
            before.push(
                BackendCall::SetUniform {
                    location: uniforms[v.uniform as int].location,
                    data: v.data@,
                },
            )
        } else {
            before
        }
    }
}

/// The calls one step makes: the layout bind if the step asks for it, then (when the draw's
/// material and its program exist) the material upload if the step asks for it and the draw's
/// overrides, then the draw.
pub open spec fn step_calls<L, P>(
    draws: Seq<DrawCommand>,
    step: DrawStep,
    layouts: ArenaModel<LayoutEntry<L>>,
    materials: ArenaModel<Material>,
    programs: ArenaModel<ProgramEntry<P>>,
) -> Seq<BackendCall> {
    if step.command >= draws.len() {
        Seq::empty()
    } else {
        let c = draws[step.command as int];
        let bind = if step.bind_layout && layouts.lookup(
            c.mesh.vertex_layout.index,
            c.mesh.vertex_layout.generation,
        ) is Some {
            seq![BackendCall::BindLayout { layout: c.mesh.vertex_layout }]
        } else {
            Seq::empty()
        };
        let uniforms = match materials.lookup(c.material.index, c.material.generation) {
            Some(m) => match programs.lookup(m.program.index, m.program.generation) {
                Some(e) => (if step.upload_material {
                    seq![BackendCall::UploadMaterial { material: c.material, data: m.data@ }]
                } else {
                    Seq::empty()
                }) + override_calls(c.instance@, e.uniforms.uniforms@),
                None => Seq::empty(),
            },
            None => Seq::empty(),
        };
        bind + uniforms + seq![
            BackendCall::Draw {
                primitive: c.mesh.primitive,
                start_index: c.mesh.start_index,
                count: c.mesh.count,
                indexed: step.indexed,
            },
        ]
    }
}

/// The calls a sequence of steps makes, step after step.
pub open spec fn frame_calls<L, P>(
    draws: Seq<DrawCommand>,
    steps: Seq<DrawStep>,
    layouts: ArenaModel<LayoutEntry<L>>,
    materials: ArenaModel<Material>,
    programs: ArenaModel<ProgramEntry<P>>,
) -> Seq<BackendCall>
    decreases steps.len(),
{
    if steps.len() == 0 {
        Seq::empty()
    } else {
        frame_calls(draws, steps.drop_last(), layouts, materials, programs) + step_calls(
            draws,
            steps.last(),
            layouts,
            materials,
            programs,
        )
    }
}

/// The steps [`plan_frame`] gives for `draws`: one per runnable draw, as [`step_for`] says.
pub open spec fn planned_steps<L, P>(
    draws: Seq<DrawCommand>,
    layouts: ArenaModel<LayoutEntry<L>>,
    materials: ArenaModel<Material>,
    programs: ArenaModel<ProgramEntry<P>>,
) -> Seq<DrawStep> {
    let ks = runnable_draws(draws, layouts, materials, programs);
    Seq::new(ks.len(), |j: int| step_for::<LayoutEntry<L>, ProgramEntry<P>>(draws, ks, j, layouts))
}

proof fn lemma_override_calls_set_uniform(instance: Seq<InstanceValue>, uniforms: Seq<UniformDescription>)
    ensures
        forall|k: int|
            0 <= k < override_calls(instance, uniforms).len() ==> #[trigger] override_calls(instance, uniforms)[k] is SetUniform,
    decreases instance.len(),
{
    if instance.len() > 0 {
        lemma_override_calls_set_uniform(instance.drop_last(), uniforms);
    }
}

/// In the calls [`Renderer::update`] makes, two runnable draws in a row on the same vertex layout
/// bind it once: the second draw's calls hold no bind, and the first draw's calls open with a bind
/// of that layout exactly when the runnable draw before it (if any) used another layout.
pub proof fn lemma_update_binds_layout_once<L, P>(
    draws: Seq<DrawCommand>,
    layouts: ArenaModel<LayoutEntry<L>>,
    materials: ArenaModel<Material>,
    programs: ArenaModel<ProgramEntry<P>>,
    j: int,
)
    requires
        draws.len() <= usize::MAX,
        0 < j < runnable_draws(draws, layouts, materials, programs).len(),
        draws[runnable_draws(draws, layouts, materials, programs)[j - 1]].mesh.vertex_layout
            == draws[runnable_draws(draws, layouts, materials, programs)[j]].mesh.vertex_layout,
    ensures
        ({
            let ks = runnable_draws(draws, layouts, materials, programs);
            let steps = planned_steps(draws, layouts, materials, programs);
            let second = step_calls(draws, steps[j], layouts, materials, programs);
            let first = step_calls(draws, steps[j - 1], layouts, materials, programs);
            &&& forall|k: int| 0 <= k < second.len() ==> !(#[trigger] second[k] is BindLayout)
            &&& (first[0] == BackendCall::BindLayout { layout: draws[ks[j - 1]].mesh.vertex_layout }) == (j
                == 1 || draws[ks[j - 2]].mesh.vertex_layout != draws[ks[j - 1]].mesh.vertex_layout)
        }),
{
    let ks = runnable_draws(draws, layouts, materials, programs);
    crate::draw_list::lemma_runnable_bounds(draws, layouts, materials, programs);
    let steps = planned_steps(draws, layouts, materials, programs);
    assert(ks[j] == ks[j] as usize as int);
    assert(ks[j - 1] == ks[j - 1] as usize as int);
    let c = draws[ks[j]];
    let second = step_calls(draws, steps[j], layouts, materials, programs);
    assert(!steps[j].bind_layout);
    match materials.lookup(c.material.index, c.material.generation) {
        Some(m) => match programs.lookup(m.program.index, m.program.generation) {
            Some(e) => {
                lemma_override_calls_set_uniform(c.instance@, e.uniforms.uniforms@);
            },
            None => {},
        },
        None => {},
    }
    assert forall|k: int| 0 <= k < second.len() implies !(#[trigger] second[k] is BindLayout) by {
        match materials.lookup(c.material.index, c.material.generation) {
            Some(m) => match programs.lookup(m.program.index, m.program.generation) {
                Some(e) => {
                    let o = override_calls(c.instance@, e.uniforms.uniforms@);
                    let up = if steps[j].upload_material {
                        seq![BackendCall::UploadMaterial { material: c.material, data: m.data@ }]
                    } else {
                        Seq::<BackendCall>::empty()
                    };
                    if k >= up.len() && k < up.len() + o.len() {
                        assert(second[k] == o[k - up.len()]);
                    }
                },
                None => {},
            },
            None => {},
        }
    }
    let d = draws[ks[j - 1]];
    let first = step_calls(draws, steps[j - 1], layouts, materials, programs);
    if !steps[j - 1].bind_layout {
        match materials.lookup(d.material.index, d.material.generation) {
            Some(m) => match programs.lookup(m.program.index, m.program.generation) {
                Some(e) => {
                    lemma_override_calls_set_uniform(d.instance@, e.uniforms.uniforms@);
                    let o = override_calls(d.instance@, e.uniforms.uniforms@);
                    if !steps[j - 1].upload_material && o.len() > 0 {
                        assert(first[0] == o[0]);
                    }
                },
                None => {},
            },
            None => {},
        }
    }
}

/// In the calls [`Renderer::update`] makes, two runnable draws in a row with the same material
/// upload its blob once: the second draw's calls hold no upload.
pub proof fn lemma_update_uploads_material_once<L, P>(
    draws: Seq<DrawCommand>,
    layouts: ArenaModel<LayoutEntry<L>>,
    materials: ArenaModel<Material>,
    programs: ArenaModel<ProgramEntry<P>>,
    j: int,
)
    requires
        draws.len() <= usize::MAX,
        0 < j < runnable_draws(draws, layouts, materials, programs).len(),
        draws[runnable_draws(draws, layouts, materials, programs)[j - 1]].material
            == draws[runnable_draws(draws, layouts, materials, programs)[j]].material,
    ensures
        ({
            let steps = planned_steps(draws, layouts, materials, programs);
            let second = step_calls(draws, steps[j], layouts, materials, programs);
            forall|k: int| 0 <= k < second.len() ==> !(#[trigger] second[k] is UploadMaterial)
        }),
{
    let ks = runnable_draws(draws, layouts, materials, programs);
    crate::draw_list::lemma_runnable_bounds(draws, layouts, materials, programs);
    let steps = planned_steps(draws, layouts, materials, programs);
    assert(ks[j] == ks[j] as usize as int);
    let c = draws[ks[j]];
    let second = step_calls(draws, steps[j], layouts, materials, programs);
    assert(!steps[j].upload_material);
    assert forall|k: int| 0 <= k < second.len() implies !(#[trigger] second[k] is UploadMaterial) by {
        let bind = if steps[j].bind_layout && layouts.lookup(
            c.mesh.vertex_layout.index,
            c.mesh.vertex_layout.generation,
        ) is Some {
            seq![BackendCall::BindLayout { layout: c.mesh.vertex_layout }]
        } else {
            Seq::<BackendCall>::empty()
        };
        match materials.lookup(c.material.index, c.material.generation) {
            Some(m) => match programs.lookup(m.program.index, m.program.generation) {
                Some(e) => {
                    lemma_override_calls_set_uniform(c.instance@, e.uniforms.uniforms@);
                    let o = override_calls(c.instance@, e.uniforms.uniforms@);
                    if k >= bind.len() && k < bind.len() + o.len() {
                        assert(second[k] == o[k - bind.len()]);
                    }
                },
                None => {},
            },
            None => {},
        }
    }
}

impl<C: Context> Renderer<C> {
    pub open spec fn wf(&self) -> bool {
        &&& self.buffers.wf()
        &&& self.layouts.wf()
        &&& self.shaders.wf()
        &&& self.programs.wf()
        &&& self.materials.wf()
    }

    /// A renderer with no resources that drives the backend context `context`.
    pub fn new(context: C::Context) -> (r: Self)
        ensures
            r.wf(),
            r.context == context,
            r.buffers@.slots.len() == 0,
            r.layouts@.slots.len() == 0,
            r.shaders@.slots.len() == 0,
            r.programs@.slots.len() == 0,
            r.materials@.slots.len() == 0,
            r.semantic_locations@ == default_locations(),
            r.draw_list@.len() == 0,
    {
        Renderer {
            context,
            buffers: GenerationVec::with_capacity(10),
            layouts: GenerationVec::with_capacity(5),
            shaders: GenerationVec::with_capacity(10),
            programs: GenerationVec::with_capacity(5),
            materials: GenerationVec::with_capacity(10),
            semantic_locations: SemanticLocations::default(),
            draw_list: Vec::new(),
        }
    }

    /// The backend's description of its context: vendor, device, API version.
    pub fn context_description(&self) -> String {
        C::context_description(&self.context)
    }

    /// Creates a material for `program`: a zeroed blob of the program's data size with
    /// `properties` applied. Fails with `ResourceNotFound` when `program` reaches no program.
    pub fn create_material(
        &mut self,
        program: Handle<ShaderProgram>,
        properties: &[MaterialProperty],
    ) -> (r: Result<Handle<Material>, RendererError>)
        requires
            old(self).wf(),
        ensures
            final(self).wf(),
            final(self).buffers@ == old(self).buffers@,
            final(self).layouts@ == old(self).layouts@,
            final(self).shaders@ == old(self).shaders@,
            final(self).programs@ == old(self).programs@,
            final(self).draw_list@ == old(self).draw_list@,
            r is Err <==> old(self).programs.lookup(program) is None,
            r matches Err(e) ==> e is ResourceNotFound && final(self).materials@ == old(self).materials@,
            r matches Ok(h) ==> {
                let entry = old(self).programs.lookup(program)->0;
                let m = final(self).materials.lookup(h)->0;
                &&& (h.index, h.generation) == old(self).materials@.next_handle()
                &&& final(self).materials.lookup(h) is Some
                &&& final(self).materials@ == old(self).materials@.push_spec(m)
                &&& m.program == program
                &&& m.data@ == apply_properties(
                    Seq::new(entry.uniforms.data_size as nat, |i: int| 0u8),
                    entry.uniforms.uniforms@,
                    properties@,
                )
            },
    {
        match self.programs.get(program) {
            Some(entry) => {
                let mut material = Material { program, data: zeroed(entry.uniforms.data_size) };
                material.update(entry.uniforms.uniforms.as_slice(), properties);
                let h = self.materials.push(material);
                Ok(h)
            },
            None => Err(RendererError::ResourceNotFound { resource: "shader program".to_owned() }),
        }
    }

    /// Uploads the blob of the material `handle` reaches to its program, when both exist.
    pub fn use_material(&mut self, handle: Handle<Material>)
        requires
            old(self).wf(),
        ensures
            final(self).wf(),
            final(self).buffers@ == old(self).buffers@,
            final(self).layouts@ == old(self).layouts@,
            final(self).shaders@ == old(self).shaders@,
            final(self).programs@ == old(self).programs@,
            final(self).materials@ == old(self).materials@,
            final(self).draw_list@ == old(self).draw_list@,
            final(self).semantic_locations == old(self).semantic_locations,
            match old(self).materials.lookup(handle) {
                Some(m) => match old(self).programs.lookup(m.program) {
                    Some(_) => C::calls(final(self).context) == C::calls(old(self).context).push(
                        BackendCall::UploadMaterial { material: handle, data: m.data@ },
                    ),
                    None => final(self).context == old(self).context,
                },
                None => final(self).context == old(self).context,
            },
    {
        if let Some(material) = self.materials.get(handle) {
            if let Some(entry) = self.programs.get(material.program) {
                C::set_uniform_data(
                    &mut self.context,
                    handle,
                    &entry.program,
                    entry.uniforms.uniforms.as_slice(),
                    material.data.as_slice(),
                );
            }
        }
    }

    /// Applies `properties` to the material `handle` reaches, laid out by its program's uniform
    /// table. Nothing changes when the material or its program is gone.
    pub fn update_material(&mut self, handle: Handle<Material>, properties: &[MaterialProperty])
        requires
            old(self).wf(),
        ensures
            final(self).wf(),
            final(self).buffers@ == old(self).buffers@,
            final(self).layouts@ == old(self).layouts@,
            final(self).shaders@ == old(self).shaders@,
            final(self).programs@ == old(self).programs@,
            final(self).draw_list@ == old(self).draw_list@,
            match old(self).materials.lookup(handle) {
                Some(m) => match old(self).programs.lookup(m.program) {
                    Some(entry) => final(self).materials.lookup(handle) matches Some(m2) && m2.program
                        == m.program && m2.data@ == apply_properties(
                        m.data@,
                        entry.uniforms.uniforms@,
                        properties@,
                    ) && final(self).materials@ == old(self).materials@.update_spec(
                        handle.index,
                        handle.generation,
                        m2,
                    ),
                    None => final(self).materials@ == old(self).materials@,
                },
                None => final(self).materials@ == old(self).materials@,
            },
    {
        let program = match self.materials.get(handle) {
            Some(m) => m.program,
            None => {
                return;
            },
        };
        if let Some(entry) = self.programs.get(program) {
            if let Some(material) = self.materials.get_mut(handle) {
                material.update(entry.uniforms.uniforms.as_slice(), properties);
            }
        }
    }

    /// Queues a draw of `mesh` with `material` for the next `update`. Instance properties are
    /// resolved now against the material's program and override its data for this draw only.
    pub fn draw(&mut self, mesh: Mesh, material: Handle<Material>, instance_properties: &[MaterialProperty])
        requires
            old(self).wf(),
        ensures
            final(self).wf(),
            final(self).buffers@ == old(self).buffers@,
            final(self).layouts@ == old(self).layouts@,
            final(self).shaders@ == old(self).shaders@,
            final(self).programs@ == old(self).programs@,
            final(self).materials@ == old(self).materials@,
            final(self).context == old(self).context,
            final(self).semantic_locations == old(self).semantic_locations,
            final(self).draw_list@.len() == old(self).draw_list@.len() + 1,
            final(self).draw_list@.drop_last() == old(self).draw_list@,
            ({
                let c = final(self).draw_list@.last();
                &&& c.mesh == mesh
                &&& c.material == material
                &&& match old(self).materials.lookup(material) {
                    Some(m) => match old(self).programs.lookup(m.program) {
                        Some(entry) => {
                            let iv = instance_values(entry.uniforms.uniforms@, instance_properties@);
                            &&& c.instance@.len() == iv.len()
                            &&& forall|j: int|
                                0 <= j < iv.len() ==> (#[trigger] c.instance@[j]).uniform as int == iv[j].0
                                    && c.instance@[j].data@ == iv[j].1
                        },
                        None => c.instance@.len() == 0,
                    },
                    None => c.instance@.len() == 0,
                }
            }),
    {
        let mut instance: Vec<InstanceValue> = Vec::new();
        if let Some(m) = self.materials.get(material) {
            if let Some(entry) = self.programs.get(m.program) {
                instance = resolve_instance(entry.uniforms.uniforms.as_slice(), instance_properties);
            }
        }
        let ghost before = self.draw_list@;
        self.draw_list.push(DrawCommand { mesh, material, instance });
        proof {
            assert(self.draw_list@.drop_last() =~= before);
        }
    }

    /// Runs the frame: clears the screen target, carries out the steps [`plan_frame`] gives for
    /// the queued draws in submission order (binding a layout or uploading a material only where
    /// it changes, then the draw's overrides, then the draw), presents, and empties the draw list.
    pub fn update(&mut self)
        requires
            old(self).wf(),
        ensures
            final(self).wf(),
            final(self).buffers@ == old(self).buffers@,
            final(self).layouts@ == old(self).layouts@,
            final(self).shaders@ == old(self).shaders@,
            final(self).programs@ == old(self).programs@,
            final(self).materials@ == old(self).materials@,
            final(self).semantic_locations == old(self).semantic_locations,
            final(self).draw_list@.len() == 0,
            C::calls(final(self).context) == C::calls(old(self).context).push(BackendCall::Clear)
                + frame_calls(
                old(self).draw_list@,
                planned_steps(old(self).draw_list@, old(self).layouts@, old(self).materials@, old(self).programs@),
                old(self).layouts@,
                old(self).materials@,
                old(self).programs@,
            ).push(BackendCall::Present),
    {
        C::clear(&mut self.context);
        let ghost start = C::calls(self.context);
        let steps = plan_frame(&self.draw_list, &self.layouts, &self.materials, &self.programs);
        proof {
            assert(steps@ =~= planned_steps(self.draw_list@, self.layouts@, self.materials@, self.programs@));
        }
        let mut i: usize = 0;
        while i < steps.len()
            invariant
                0 <= i <= steps@.len(),
                self.wf(),
                self.buffers@ == old(self).buffers@,
                self.layouts@ == old(self).layouts@,
                self.shaders@ == old(self).shaders@,
                self.programs@ == old(self).programs@,
                self.materials@ == old(self).materials@,
                self.draw_list@ == old(self).draw_list@,
                self.semantic_locations == old(self).semantic_locations,
                C::calls(self.context) == start + frame_calls(
                    self.draw_list@,
                    steps@.subrange(0, i as int),
                    self.layouts@,
                    self.materials@,
                    self.programs@,
                ),
            decreases steps@.len() - i,
        {
            let step = steps[i];
            proof {
                assert(steps@.subrange(0, i + 1).drop_last() =~= steps@.subrange(0, i as int));
            }
            if step.command < self.draw_list.len() {
                self.run_step(step);
            } else {
                proof {
                    assert(C::calls(self.context) =~= C::calls(self.context) + step_calls(
                        self.draw_list@,
                        step,
                        self.layouts@,
                        self.materials@,
                        self.programs@,
                    ));
                }
            }
            proof {
                assert(start + frame_calls(self.draw_list@, steps@.subrange(0, i + 1), self.layouts@, self.materials@, self.programs@)
                    =~= start + frame_calls(self.draw_list@, steps@.subrange(0, i as int), self.layouts@, self.materials@, self.programs@)
                    + step_calls(self.draw_list@, step, self.layouts@, self.materials@, self.programs@));
            }
            i = i + 1;
        }
        proof {
            assert(steps@.subrange(0, i as int) =~= steps@);
        }
        C::present(&mut self.context);
        self.draw_list.clear();
    }

    fn run_step(&mut self, step: DrawStep)
        requires
            old(self).wf(),
            step.command < old(self).draw_list@.len(),
        ensures
            final(self).wf(),
            final(self).buffers@ == old(self).buffers@,
            final(self).layouts@ == old(self).layouts@,
            final(self).shaders@ == old(self).shaders@,
            final(self).programs@ == old(self).programs@,
            final(self).materials@ == old(self).materials@,
            final(self).draw_list@ == old(self).draw_list@,
            final(self).semantic_locations == old(self).semantic_locations,
            C::calls(final(self).context) == C::calls(old(self).context) + step_calls(
                old(self).draw_list@,
                step,
                old(self).layouts@,
                old(self).materials@,
                old(self).programs@,
            ),
    {
        let ghost start = C::calls(self.context);
        let c = &self.draw_list[step.command];
        if step.bind_layout {
            if let Some(entry) = self.layouts.get(c.mesh.vertex_layout) {
                C::bind_layout(&mut self.context, c.mesh.vertex_layout, &entry.layout);
            }
        }
        let ghost after_bind = C::calls(self.context);
        if let Some(m) = self.materials.get(c.material) {
            if let Some(entry) = self.programs.get(m.program) {
                let uniforms = entry.uniforms.uniforms.as_slice();
                if step.upload_material {
                    C::set_uniform_data(&mut self.context, c.material, &entry.program, uniforms, m.data.as_slice());
                }
                let ghost after_upload = C::calls(self.context);
                let mut k: usize = 0;
                while k < c.instance.len()
                    invariant
                        0 <= k <= c.instance@.len(),
                        self.wf(),
                        self.buffers@ == old(self).buffers@,
                        self.layouts@ == old(self).layouts@,
                        self.shaders@ == old(self).shaders@,
                        self.programs@ == old(self).programs@,
                        self.materials@ == old(self).materials@,
                        self.draw_list@ == old(self).draw_list@,
                        self.semantic_locations == old(self).semantic_locations,
                        C::calls(self.context) == after_upload + override_calls(
                            c.instance@.subrange(0, k as int),
                            uniforms@,
                        ),
                    decreases c.instance@.len() - k,
                {
                    proof {
                        assert(c.instance@.subrange(0, k + 1).drop_last() =~= c.instance@.subrange(0, k as int));
                    }
                    let value = &c.instance[k];
                    if value.uniform < uniforms.len() {
                        C::set_uniform(&mut self.context, &entry.program, &uniforms[value.uniform], value.data.as_slice());
                    }
                    k = k + 1;
                }
                proof {
                    assert(c.instance@.subrange(0, k as int) =~= c.instance@);
                }
            }
        }
        let ghost before_draw = C::calls(self.context);
        C::draw(&mut self.context, c.mesh.primitive, c.mesh.start_index, c.mesh.count, step.indexed);
        proof {
            let steps_calls = step_calls(old(self).draw_list@, step, old(self).layouts@, old(self).materials@, old(self).programs@);
            assert(C::calls(self.context) =~= start + steps_calls);
        }
    }
}

impl Buffer {
    /// Creates a vertex buffer holding `data` and stores it in the renderer. Fails with a
    /// conversion error when the data's byte size exceeds `isize::MAX`, and with the backend's
    /// error when it cannot create the buffer; nothing is stored then.
    pub fn with_vertex<T, C: Context>(ctx: &mut Renderer<C>, data: &[T], usage: BufferUsage) -> (r: Result<
        Handle<Buffer>,
        RendererError,
    >)
        requires
            old(ctx).wf(),
        ensures
            final(ctx).wf(),
            final(ctx).layouts@ == old(ctx).layouts@,
            final(ctx).shaders@ == old(ctx).shaders@,
            final(ctx).programs@ == old(ctx).programs@,
            final(ctx).materials@ == old(ctx).materials@,
            final(ctx).draw_list@ == old(ctx).draw_list@,
            vstd::layout::size_of::<T>() * data@.len() > isize::MAX ==> (r matches Err(e) && e is ConversionError),
            r is Err ==> final(ctx).buffers@ == old(ctx).buffers@,
            r matches Ok(h) ==> final(ctx).buffers.lookup(h) matches Some(e) && !e.is_index
                && final(ctx).buffers@ == old(ctx).buffers@.push_spec(e) && (h.index, h.generation)
                == old(ctx).buffers@.next_handle(),
    {
        let size = buffer_byte_size(core::mem::size_of::<T>(), data.len())?;
        let buffer = C::Buffer::with_vertex(data, size, usage)?;
        Ok(ctx.buffers.push(BufferEntry { buffer, is_index: false }))
    }

    /// Creates an index buffer holding `data` and stores it in the renderer; fails as
    /// [`Buffer::with_vertex`] does.
    pub fn with_index<T, C: Context>(ctx: &mut Renderer<C>, data: &[T], usage: BufferUsage) -> (r: Result<
        Handle<Buffer>,
        RendererError,
    >)
        requires
            old(ctx).wf(),
        ensures
            final(ctx).wf(),
            final(ctx).layouts@ == old(ctx).layouts@,
            final(ctx).shaders@ == old(ctx).shaders@,
            final(ctx).programs@ == old(ctx).programs@,
            final(ctx).materials@ == old(ctx).materials@,
            final(ctx).draw_list@ == old(ctx).draw_list@,
            vstd::layout::size_of::<T>() * data@.len() > isize::MAX ==> (r matches Err(e) && e is ConversionError),
            r is Err ==> final(ctx).buffers@ == old(ctx).buffers@,
            r matches Ok(h) ==> final(ctx).buffers.lookup(h) matches Some(e) && e.is_index
                && final(ctx).buffers@ == old(ctx).buffers@.push_spec(e) && (h.index, h.generation)
                == old(ctx).buffers@.next_handle(),
    {
        let size = buffer_byte_size(core::mem::size_of::<T>(), data.len())?;
        let buffer = C::Buffer::with_index(data, size, usage)?;
        Ok(ctx.buffers.push(BufferEntry { buffer, is_index: true }))
    }
}

/// Bindings for a vertex layout: for each of the layout's entries, its index and its validated
/// attribute bindings, and whether any of its buffers holds indices.
pub struct LayoutPlan {
    pub buffers: Vec<(usize, Vec<AttributeBinding>)>,
    pub has_indices: bool,
}

/// What planning a layout from `attrs` gives: the entries are taken in order, each must name a
/// stored buffer (else `ResourceNotFound`) whose attributes validate, and the first failure is
/// the result.
pub open spec fn layout_plan<B>(
    attrs: Seq<BufferAttributes>,
    buffers: ArenaModel<BufferEntry<B>>,
    table: Seq<Option<AttributeSemantic>>,
    max: u8,
) -> Result<(Seq<(usize, Seq<AttributeBinding>)>, bool), RendererError>
    decreases attrs.len(),
{
    if attrs.len() == 0 {
        Ok((Seq::empty(), false))
    } else {
        match layout_plan(attrs.drop_last(), buffers, table, max) {
            Err(e) => Err(e),
            Ok((plan, has_indices)) => {
                let a = attrs.last();
                match buffers.lookup(a.buffer.index, a.buffer.generation) {
                    None => Err(RendererError::ResourceNotFound { resource: vstd::pervasive::arbitrary() }),
                    Some(entry) => match check_attributes(a.attributes@, a.offset, table, max) {
                        Err(e) => Err(e),
                        Ok(bs) => Ok(
                            (plan.push(((attrs.len() - 1) as usize, bs)), has_indices || entry.is_index),
                        ),
                    },
                }
            },
        }
    }
}

proof fn lemma_layout_plan_err_extends<B>(
    attrs: Seq<BufferAttributes>,
    i: int,
    buffers: ArenaModel<BufferEntry<B>>,
    table: Seq<Option<AttributeSemantic>>,
    max: u8,
)
    requires
        0 <= i <= attrs.len(),
        layout_plan(attrs.subrange(0, i), buffers, table, max) is Err,
    ensures
        layout_plan(attrs, buffers, table, max) == layout_plan(attrs.subrange(0, i), buffers, table, max),
    decreases attrs.len() - i,
{
    if i < attrs.len() {
        assert(attrs.subrange(0, i + 1).drop_last() =~= attrs.subrange(0, i));
        lemma_layout_plan_err_extends(attrs, i + 1, buffers, table, max);
    } else {
        assert(attrs.subrange(0, i) =~= attrs);
    }
}

/// Validates the attributes of every stored buffer in `buffer_attributes` against `table` and a
/// backend offering `max_attributes` locations, as [`layout_plan`] states: on success the
/// bindings to apply, otherwise the first failure.
pub fn plan_layout<B>(
    buffer_attributes: &[BufferAttributes],
    buffers: &GenerationVec<Buffer, BufferEntry<B>>,
    table: &SemanticLocations,
    max_attributes: u8,
) -> (r: Result<LayoutPlan, RendererError>)
    ensures
        match r {
            Ok(p) => layout_plan(buffer_attributes@, buffers@, table@, max_attributes) matches Ok((s, hi))
                && p.has_indices == hi && p.buffers@.len() == s.len() && forall|k: int|
                0 <= k < s.len() ==> (#[trigger] p.buffers@[k]).0 == s[k].0 && p.buffers@[k].1@ == s[k].1,
            Err(e) => layout_plan(buffer_attributes@, buffers@, table@, max_attributes) matches Err(e2)
                && same_error(e, e2),
        },
{
    let mut planned: Vec<(usize, Vec<AttributeBinding>)> = Vec::new();
    let mut has_indices = false;
    let mut i: usize = 0;
    while i < buffer_attributes.len()
        invariant
            0 <= i <= buffer_attributes@.len(),
            layout_plan(buffer_attributes@.subrange(0, i as int), buffers@, table@, max_attributes) matches Ok(
                (s, hi),
            ) && has_indices == hi && planned@.len() == s.len() && forall|k: int|
                0 <= k < s.len() ==> (#[trigger] planned@[k]).0 == s[k].0 && planned@[k].1@ == s[k].1,
        decreases buffer_attributes@.len() - i,
    {
        proof {
            assert(buffer_attributes@.subrange(0, i + 1).drop_last() =~= buffer_attributes@.subrange(0, i as int));
        }
        let entry = &buffer_attributes[i];
        let buffer = match buffers.get(entry.buffer) {
            Some(buffer) => buffer,
            None => {
                proof {
                    lemma_layout_plan_err_extends(buffer_attributes@, i + 1, buffers@, table@, max_attributes);
                }
                return Err(RendererError::ResourceNotFound { resource: "vertex buffer".to_owned() });
            },
        };
        match bind_attributes(entry.attributes.as_slice(), entry.offset, table, max_attributes) {
            Ok(bindings) => {
                if buffer.is_index {
                    has_indices = true;
                }
                planned.push((i, bindings));
            },
            Err(e) => {
                proof {
                    lemma_layout_plan_err_extends(buffer_attributes@, i + 1, buffers@, table@, max_attributes);
                }
                return Err(e);
            },
        }
        i = i + 1;
    }
    proof {
        assert(buffer_attributes@.subrange(0, i as int) =~= buffer_attributes@);
    }
    Ok(LayoutPlan { buffers: planned, has_indices })
}

impl VertexLayout {
    /// Builds a vertex layout from the buffers in `buffer_attributes` and stores it: the backend
    /// creates the layout, and [`VertexLayout::build`] validates and applies the bindings against
    /// the backend's attribute count. On any failure nothing is stored; an entry naming no stored
    /// buffer fails with `ResourceNotFound`.
    pub fn new<C: Context>(ctx: &mut Renderer<C>, buffer_attributes: &[BufferAttributes]) -> (r: Result<
        Handle<VertexLayout>,
        RendererError,
    >)
        requires
            old(ctx).wf(),
        ensures
            final(ctx).wf(),
            final(ctx).buffers@ == old(ctx).buffers@,
            final(ctx).shaders@ == old(ctx).shaders@,
            final(ctx).programs@ == old(ctx).programs@,
            final(ctx).materials@ == old(ctx).materials@,
            final(ctx).draw_list@ == old(ctx).draw_list@,
            r is Err ==> final(ctx).layouts@ == old(ctx).layouts@,
            (forall|max: u8|
                #[trigger] layout_plan(buffer_attributes@, old(ctx).buffers@, old(ctx).semantic_locations@, max)
                    is Err) ==> r is Err,
            r matches Ok(h) ==> final(ctx).layouts.lookup(h) matches Some(e) && (exists|max: u8|
                #[trigger] layout_plan(buffer_attributes@, old(ctx).buffers@, old(ctx).semantic_locations@, max) matches Ok(
                    (s, hi),
                ) && e.has_indices == hi) && final(ctx).layouts@ == old(ctx).layouts@.push_spec(e) && (
            h.index, h.generation) == old(ctx).layouts@.next_handle(),
    {
        let layout = C::VertexLayout::new()?;
        let max_attributes = layout.max_attributes();
        VertexLayout::build(ctx, layout, max_attributes, buffer_attributes)
    }

    /// Validates `buffer_attributes` as [`plan_layout`] does for a backend offering
    /// `max_attributes` locations, applies the bindings to the backend's `layout`, and stores it.
    /// A validation failure is returned as planned; otherwise only the backend applying a binding
    /// can fail. On any failure nothing is stored.
    pub fn build<C: Context>(
        ctx: &mut Renderer<C>,
        layout: C::VertexLayout,
        max_attributes: u8,
        buffer_attributes: &[BufferAttributes],
    ) -> (r: Result<Handle<VertexLayout>, RendererError>)
        requires
            old(ctx).wf(),
        ensures
            final(ctx).wf(),
            final(ctx).buffers@ == old(ctx).buffers@,
            final(ctx).shaders@ == old(ctx).shaders@,
            final(ctx).programs@ == old(ctx).programs@,
            final(ctx).materials@ == old(ctx).materials@,
            final(ctx).draw_list@ == old(ctx).draw_list@,
            r is Err ==> final(ctx).layouts@ == old(ctx).layouts@,
            layout_plan(buffer_attributes@, old(ctx).buffers@, old(ctx).semantic_locations@, max_attributes) matches Err(e2)
                ==> (r matches Err(e) && same_error(e, e2)),
            r matches Ok(h) ==> final(ctx).layouts.lookup(h) matches Some(e) && layout_plan(
                buffer_attributes@,
                old(ctx).buffers@,
                old(ctx).semantic_locations@,
                max_attributes,
            ) matches Ok((s, hi)) && e.has_indices == hi && final(ctx).layouts@ == old(ctx).layouts@.push_spec(e)
                && (h.index, h.generation) == old(ctx).layouts@.next_handle(),
    {
        let mut layout = layout;
        let plan = plan_layout(buffer_attributes, &ctx.buffers, &ctx.semantic_locations, max_attributes)?;
        let mut k: usize = 0;
        while k < plan.buffers.len()
            invariant
                0 <= k <= plan.buffers@.len(),
                ctx.wf(),
                *ctx == *old(ctx),
                layout_plan(buffer_attributes@, ctx.buffers@, ctx.semantic_locations@, max_attributes) is Ok,
            decreases plan.buffers@.len() - k,
        {
            let (index, bindings) = &plan.buffers[k];
            if *index < buffer_attributes.len() {
                if let Some(buffer) = ctx.buffers.get(buffer_attributes[*index].buffer) {
                    layout.set_buffer_attributes(&buffer.buffer, bindings.as_slice())?;
                }
            }
            k = k + 1;
        }
        Ok(ctx.layouts.push(LayoutEntry { layout, has_indices: plan.has_indices }))
    }
}

impl Shader {
    /// Compiles a vertex shader and stores it; a compile failure returns the backend's error and
    /// stores nothing.
    pub fn with_vertex<C: Context>(ctx: &mut Renderer<C>, source: &str) -> (r: Result<Handle<Shader>, RendererError>)
        requires
            old(ctx).wf(),
        ensures
            final(ctx).wf(),
            final(ctx).buffers@ == old(ctx).buffers@,
            final(ctx).layouts@ == old(ctx).layouts@,
            final(ctx).programs@ == old(ctx).programs@,
            final(ctx).materials@ == old(ctx).materials@,
            final(ctx).draw_list@ == old(ctx).draw_list@,
            r is Err ==> final(ctx).shaders@ == old(ctx).shaders@,
            r matches Ok(h) ==> final(ctx).shaders.lookup(h) matches Some(s) && final(ctx).shaders@
                == old(ctx).shaders@.push_spec(s) && (h.index, h.generation)
                == old(ctx).shaders@.next_handle(),
    {
        let shader = C::Shader::with_vertex(source)?;
        Ok(ctx.shaders.push(shader))
    }

    /// Compiles a fragment shader and stores it; fails as [`Shader::with_vertex`] does.
    pub fn with_fragment<C: Context>(ctx: &mut Renderer<C>, source: &str) -> (r: Result<Handle<Shader>, RendererError>)
        requires
            old(ctx).wf(),
        ensures
            final(ctx).wf(),
            final(ctx).buffers@ == old(ctx).buffers@,
            final(ctx).layouts@ == old(ctx).layouts@,
            final(ctx).programs@ == old(ctx).programs@,
            final(ctx).materials@ == old(ctx).materials@,
            final(ctx).draw_list@ == old(ctx).draw_list@,
            r is Err ==> final(ctx).shaders@ == old(ctx).shaders@,
            r matches Ok(h) ==> final(ctx).shaders.lookup(h) matches Some(s) && final(ctx).shaders@
                == old(ctx).shaders@.push_spec(s) && (h.index, h.generation)
                == old(ctx).shaders@.next_handle(),
    {
        let shader = C::Shader::with_fragment(source)?;
        Ok(ctx.shaders.push(shader))
    }
}

impl ShaderProgram {
    /// Links the two stored shaders into a program, reflects its uniform table and stores both.
    /// Fails with `ResourceNotFound` when either handle reaches no shader, and otherwise with the
    /// backend's link error or the table's rejection; nothing is stored then.
    pub fn new<C: Context>(
        ctx: &mut Renderer<C>,
        vertex_shader: Handle<Shader>,
        fragment_shader: Handle<Shader>,
    ) -> (r: Result<Handle<ShaderProgram>, RendererError>)
        requires
            old(ctx).wf(),
        ensures
            final(ctx).wf(),
            final(ctx).buffers@ == old(ctx).buffers@,
            final(ctx).layouts@ == old(ctx).layouts@,
            final(ctx).shaders@ == old(ctx).shaders@,
            final(ctx).materials@ == old(ctx).materials@,
            final(ctx).draw_list@ == old(ctx).draw_list@,
            old(ctx).shaders.lookup(vertex_shader) is None || old(ctx).shaders.lookup(fragment_shader) is None
                ==> (r matches Err(e) && e is ResourceNotFound),
            r is Err ==> final(ctx).programs@ == old(ctx).programs@,
            r matches Ok(h) ==> final(ctx).programs.lookup(h) matches Some(p) && p.uniforms.wf()
                && final(ctx).programs@ == old(ctx).programs@.push_spec(p) && (h.index, h.generation)
                == old(ctx).programs@.next_handle(),
    {
        let vertex = match ctx.shaders.get(vertex_shader) {
            Some(s) => s,
            None => {
                return Err(RendererError::ResourceNotFound { resource: "vertex shader".to_owned() });
            },
        };
        let fragment = match ctx.shaders.get(fragment_shader) {
            Some(s) => s,
            None => {
                return Err(RendererError::ResourceNotFound { resource: "fragment shader".to_owned() });
            },
        };
        let linked = C::ShaderProgram::new(vertex, fragment);
        ShaderProgram::store(ctx, linked)
    }

    /// Stores the outcome of linking: a link error is returned as it is; a linked program is
    /// stored with the uniform table [`reflect_uniforms`] builds from its reported uniforms, unless
    /// that table is rejected.
    pub fn store<C: Context>(
        ctx: &mut Renderer<C>,
        linked: Result<(C::ShaderProgram, Vec<ActiveUniform>), RendererError>,
    ) -> (r: Result<Handle<ShaderProgram>, RendererError>)
        requires
            old(ctx).wf(),
        ensures
            final(ctx).wf(),
            final(ctx).buffers@ == old(ctx).buffers@,
            final(ctx).layouts@ == old(ctx).layouts@,
            final(ctx).shaders@ == old(ctx).shaders@,
            final(ctx).materials@ == old(ctx).materials@,
            final(ctx).draw_list@ == old(ctx).draw_list@,
            r is Err ==> final(ctx).programs@ == old(ctx).programs@,
            linked matches Err(e) ==> r == Err::<Handle<ShaderProgram>, RendererError>(e),
            linked matches Ok((_, reports)) ==> {
                let bound = bound_uniforms(reports@);
                &&& (r is Ok <==> !has_sampler(bound) && uniforms_size(bound) <= usize::MAX)
                &&& (r matches Err(e) ==> if has_sampler(bound) {
                    e is FailedToLinkProgram
                } else {
                    e is ConversionError
                })
            },
            r matches Ok(h) ==> final(ctx).programs.lookup(h) matches Some(p) && p.uniforms.wf()
                && final(ctx).programs@ == old(ctx).programs@.push_spec(p) && (h.index, h.generation)
                == old(ctx).programs@.next_handle() && (linked matches Ok((_, reports)) && p.uniforms.data_size
                == uniforms_size(bound_uniforms(reports@)) && p.uniforms.uniforms@.len() == bound_uniforms(
                reports@,
            ).len()),
    {
        let (program, reports) = linked?;
        let uniforms = reflect_uniforms(reports.as_slice())?;
        Ok(ctx.programs.push(ProgramEntry { program, uniforms }))
    }

    /// Compiles both sources, links them, and drops the two shaders once the program is stored.
    pub fn from_sources<C: Context>(
        ctx: &mut Renderer<C>,
        vertex_shader: &str,
        fragment_shader: &str,
    ) -> (r: Result<Handle<ShaderProgram>, RendererError>)
        requires
            old(ctx).wf(),
        ensures
            final(ctx).wf(),
            final(ctx).buffers@ == old(ctx).buffers@,
            final(ctx).layouts@ == old(ctx).layouts@,
            final(ctx).materials@ == old(ctx).materials@,
            final(ctx).draw_list@ == old(ctx).draw_list@,
            r is Err ==> final(ctx).programs@ == old(ctx).programs@,
            r matches Ok(h) ==> final(ctx).programs.lookup(h) matches Some(p) && p.uniforms.wf()
                && final(ctx).programs@ == old(ctx).programs@.push_spec(p),
    {
        let vertex = Shader::with_vertex(ctx, vertex_shader)?;
        let fragment = Shader::with_fragment(ctx, fragment_shader)?;
        let program = ShaderProgram::new(ctx, vertex, fragment)?;
        ctx.shaders.remove(vertex);
        ctx.shaders.remove(fragment);
        Ok(program)
    }
}

impl Material {
    /// Creates a material for `shader_program` in `ctx`; see [`Renderer::create_material`].
    pub fn new<C: Context>(
        ctx: &mut Renderer<C>,
        shader_program: Handle<ShaderProgram>,
        properties: &[MaterialProperty],
    ) -> (r: Result<Handle<Material>, RendererError>)
        requires
            old(ctx).wf(),
        ensures
            final(ctx).wf(),
            final(ctx).buffers@ == old(ctx).buffers@,
            final(ctx).layouts@ == old(ctx).layouts@,
            final(ctx).shaders@ == old(ctx).shaders@,
            final(ctx).programs@ == old(ctx).programs@,
            final(ctx).draw_list@ == old(ctx).draw_list@,
            r is Err <==> old(ctx).programs.lookup(shader_program) is None,
            r matches Err(e) ==> e is ResourceNotFound && final(ctx).materials@ == old(ctx).materials@,
            r matches Ok(h) ==> {
                let entry = old(ctx).programs.lookup(shader_program)->0;
                let m = final(ctx).materials.lookup(h)->0;
                &&& final(ctx).materials.lookup(h) is Some
                &&& final(ctx).materials@ == old(ctx).materials@.push_spec(m)
                &&& m.program == shader_program
                &&& m.data@ == apply_properties(
                    Seq::new(entry.uniforms.data_size as nat, |i: int| 0u8),
                    entry.uniforms.uniforms@,
                    properties@,
                )
            },
    {
        ctx.create_material(shader_program, properties)
    }
}

} // verus!
