use cac_renderer::headless::HeadlessProgram;
use cac_renderer::shader::reflect_uniforms;
use cac_renderer::{
    ActiveUniform, AttributeSemantic, HeadlessCall, Buffer, BufferAttributes, BufferUsage, Material,
    MaterialProperty, Mesh, Primitive, ProgramEntry, PropertyId, PropertyValue, Renderer,
    RendererError, Shader, ShaderProgram, UniformKind, VertexLayout,
};
use cac_renderer::buffer::buffer_byte_size;

fn count(calls: &[HeadlessCall], pred: impl Fn(&HeadlessCall) -> bool) -> usize {
    calls.iter().filter(|c| pred(c)).count()
}

#[test]
fn same_layout_twice_binds_once() {
    let mut ctx = Renderer::new_headless().unwrap();
    let vertices = [0.0f32; 28];
    let indices: [u8; 6] = [0, 1, 2, 3, 0, 1];
    let vertex_buffer = Buffer::with_vertex(&mut ctx, &vertices, BufferUsage::StaticRead).unwrap();
    let index_buffer = Buffer::with_index(&mut ctx, &indices, BufferUsage::StaticRead).unwrap();
    let layout = VertexLayout::new(
        &mut ctx,
        &[
            BufferAttributes::with_semantics(
                vertex_buffer,
                0,
                &[AttributeSemantic::Position, AttributeSemantic::Color(0)],
            ),
            BufferAttributes::with_index(index_buffer, 0),
        ],
    )
    .unwrap();
    let program = ShaderProgram::from_sources(&mut ctx, "vs", "fs").unwrap();
    let material = ctx.create_material(program, &[]).unwrap();
    let mesh = Mesh { vertex_layout: layout, start_index: 0, count: 3, primitive: Primitive::Triangles };

    ctx.draw(mesh, material, &[]);
    ctx.draw(mesh, material, &[]);
    ctx.update();

    let calls = &ctx.context.calls;
    assert_eq!(count(calls, |c| matches!(c, HeadlessCall::BindLayout { .. })), 1);
    assert_eq!(count(calls, |c| matches!(c, HeadlessCall::UploadMaterial { .. })), 1);
    assert_eq!(count(calls, |c| matches!(c, HeadlessCall::Draw { indexed: true, .. })), 2);
    assert_eq!(calls.first(), Some(&HeadlessCall::Clear));
    assert_eq!(calls.last(), Some(&HeadlessCall::Present));
    assert!(ctx.draw_list.is_empty());
}

#[test]
fn draws_with_missing_resources_are_skipped() {
    let mut ctx = Renderer::new_headless().unwrap();
    let vertices = [0.0f32; 9];
    let buffer = Buffer::with_vertex(&mut ctx, &vertices, BufferUsage::StaticRead).unwrap();
    let layout_a = VertexLayout::new(
        &mut ctx,
        &[BufferAttributes::with_semantics(buffer, 0, &[AttributeSemantic::Position])],
    )
    .unwrap();
    let layout_b = VertexLayout::new(
        &mut ctx,
        &[BufferAttributes::with_semantics(buffer, 0, &[AttributeSemantic::Position])],
    )
    .unwrap();
    let program = ShaderProgram::from_sources(&mut ctx, "vs", "fs").unwrap();
    let material = Material::new(&mut ctx, program, &[]).unwrap();
    let gone = ctx.create_material(program, &[]).unwrap();
    ctx.materials.remove(gone);

    let mesh_a = Mesh { vertex_layout: layout_a, start_index: 2, count: 3, primitive: Primitive::Lines };
    let mesh_b = Mesh { vertex_layout: layout_b, start_index: 0, count: 3, primitive: Primitive::Points };
    ctx.draw(mesh_a, material, &[]);
    ctx.draw(mesh_a, gone, &[]);
    ctx.draw(mesh_b, material, &[]);
    ctx.draw(mesh_a, material, &[]);
    ctx.update();

    let calls = &ctx.context.calls;
    assert_eq!(count(calls, |c| matches!(c, HeadlessCall::BindLayout { .. })), 3);
    assert_eq!(count(calls, |c| matches!(c, HeadlessCall::UploadMaterial { .. })), 1);
    assert_eq!(count(calls, |c| matches!(c, HeadlessCall::Draw { .. })), 3);
    assert!(calls.contains(&HeadlessCall::Draw {
        primitive: Primitive::Lines,
        start_index: 2,
        count: 3,
        indexed: false,
    }));
}

#[test]
fn stale_program_gives_resource_not_found() {
    let mut ctx = Renderer::new_headless().unwrap();
    let program = ShaderProgram::from_sources(&mut ctx, "vs", "fs").unwrap();
    ctx.programs.remove(program);
    assert!(matches!(
        ctx.create_material(program, &[]),
        Err(RendererError::ResourceNotFound { .. })
    ));
    assert_eq!(ctx.materials.slot_count(), 0);
}

#[test]
fn stale_shader_gives_resource_not_found_and_wrong_kinds_fail_to_link() {
    let mut ctx = Renderer::new_headless().unwrap();
    let vs = Shader::with_vertex(&mut ctx, "vs").unwrap();
    let fs = Shader::with_fragment(&mut ctx, "fs").unwrap();
    assert!(matches!(
        ShaderProgram::new(&mut ctx, fs, vs),
        Err(RendererError::FailedToLinkProgram { .. })
    ));
    ctx.shaders.remove(fs);
    assert!(matches!(
        ShaderProgram::new(&mut ctx, vs, fs),
        Err(RendererError::ResourceNotFound { .. })
    ));
    assert_eq!(ctx.programs.slot_count(), 0);
}

#[test]
fn from_sources_drops_its_shaders() {
    let mut ctx = Renderer::new_headless().unwrap();
    let program = ShaderProgram::from_sources(&mut ctx, "vs", "fs").unwrap();
    assert!(ctx.programs.get(program).is_some());
    assert_eq!(ctx.shaders.vacant_count(), 2);
}

#[test]
fn oversized_buffer_is_a_conversion_error() {
    assert_eq!(buffer_byte_size(4, 9), Ok(36));
    assert_eq!(buffer_byte_size(0, usize::MAX), Ok(0));
    assert!(matches!(
        buffer_byte_size(2, usize::MAX / 2),
        Err(RendererError::ConversionError { .. })
    ));
    assert_eq!(buffer_byte_size(1, isize::MAX as usize), Ok(isize::MAX as usize));
}

#[test]
fn headless_describes_itself() {
    let ctx = Renderer::new_headless().unwrap();
    assert_eq!(ctx.context_description(), "Headless Renderer".to_string());
}

#[test]
fn frame_calls_follow_the_plan_in_order() {
    let mut ctx = Renderer::new_headless().unwrap();
    let vertices = [0.0f32; 9];
    let buffer = Buffer::with_vertex(&mut ctx, &vertices, BufferUsage::StaticRead).unwrap();
    let layout = VertexLayout::new(
        &mut ctx,
        &[BufferAttributes::with_semantics(buffer, 0, &[AttributeSemantic::Position])],
    )
    .unwrap();
    let uniforms = reflect_uniforms(&[
        ActiveUniform { name: "color".to_string(), location: 0, kind: UniformKind::Vec4, count: 1 },
        ActiveUniform { name: "tint".to_string(), location: 3, kind: UniformKind::Mat2, count: 1 },
    ])
    .unwrap();
    let program = ctx.programs.push(ProgramEntry { program: HeadlessProgram {}, uniforms });
    let color: Vec<u32> = [0.25f32; 4].iter().map(|v| v.to_bits()).collect();
    let material = ctx
        .create_material(program, &[MaterialProperty::new(PropertyId::Name("color"), PropertyValue::F32(&color))])
        .unwrap();
    let blob = ctx.materials.get(material).unwrap().data.clone();
    let mut expected_blob = 0.25f32.to_le_bytes().repeat(4);
    expected_blob.extend_from_slice(&[0; 16]);
    assert_eq!(blob, expected_blob);
    let mesh = Mesh { vertex_layout: layout, start_index: 1, count: 3, primitive: Primitive::Triangles };
    let tint: Vec<u32> = [0.5f32; 4].iter().map(|v| v.to_bits()).collect();

    ctx.draw(mesh, material, &[MaterialProperty::new(PropertyId::Name("tint"), PropertyValue::F32(&tint))]);
    ctx.draw(mesh, material, &[]);
    ctx.update();

    let draw = HeadlessCall::Draw { primitive: Primitive::Triangles, start_index: 1, count: 3, indexed: false };
    assert_eq!(
        ctx.context.calls,
        vec![
            HeadlessCall::Clear,
            HeadlessCall::BindLayout { layout },
            HeadlessCall::UploadMaterial { material, data: blob.clone() },
            HeadlessCall::SetUniform { location: 3, data: 0.5f32.to_le_bytes().repeat(4) },
            draw.clone(),
            // same material: no second upload
            draw,
            HeadlessCall::Present,
        ]
    );
    // the material itself is unchanged by the override
    assert_eq!(ctx.materials.get(material).unwrap().data, blob);
}

#[test]
fn use_material_uploads_once_and_only_when_it_resolves() {
    let mut ctx = Renderer::new_headless().unwrap();
    let program = ShaderProgram::from_sources(&mut ctx, "vs", "fs").unwrap();
    let material = ctx.create_material(program, &[]).unwrap();
    ctx.use_material(material);
    assert_eq!(ctx.context.calls, vec![HeadlessCall::UploadMaterial { material, data: vec![] }]);
    ctx.materials.remove(material);
    ctx.use_material(material);
    assert_eq!(ctx.context.calls.len(), 1);
}

#[test]
fn draw_makes_no_backend_call() {
    let mut ctx = Renderer::new_headless().unwrap();
    let program = ShaderProgram::from_sources(&mut ctx, "vs", "fs").unwrap();
    let material = ctx.create_material(program, &[]).unwrap();
    let mesh = Mesh {
        vertex_layout: cac_renderer::Handle::new(),
        start_index: 0,
        count: 3,
        primitive: Primitive::Points,
    };
    ctx.draw(mesh, material, &[]);
    assert!(ctx.context.calls.is_empty());
    assert_eq!(ctx.draw_list.len(), 1);
    ctx.update();
    assert_eq!(ctx.context.calls, vec![HeadlessCall::Clear, HeadlessCall::Present]);
}
