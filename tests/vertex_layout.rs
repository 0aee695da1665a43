use cac_renderer::renderer::plan_layout;
use cac_renderer::vertex_layout::{bind_attributes, AttributeBinding};
use cac_renderer::{
    AttributeSemantic, Buffer, BufferAttributes, BufferUsage, Handle, Renderer, RendererError,
    SemanticLocations, VertexAttribute, VertexAttributeKind, VertexLayout,
};

#[test]
fn vertex_layout_default_location() {
    let mut table = SemanticLocations::default();
    assert_eq!(AttributeSemantic::Position.location(&table), Some(0));
    assert_eq!(AttributeSemantic::UV(0).location(&table), Some(1));
    assert_eq!(AttributeSemantic::UV(10).location(&table), None);

    let mut new_locations = table.locations();
    new_locations[1] = Some(AttributeSemantic::UV(10));
    AttributeSemantic::set_default_locations(&mut table, new_locations);

    assert_eq!(AttributeSemantic::Position.location(&table), Some(0));
    assert_eq!(AttributeSemantic::UV(0).location(&table), None);
    assert_eq!(AttributeSemantic::UV(10).location(&table), Some(1));
}

#[test]
fn semantic_kinds_and_sizes() {
    assert_eq!(AttributeSemantic::Position.kind(), VertexAttributeKind::Vec3);
    assert_eq!(AttributeSemantic::Color(2).kind().size(), 16);
    assert_eq!(AttributeSemantic::UV(0).kind().components(), 2);
    assert_eq!(VertexAttributeKind::F32.size(), 4);
    assert!(!AttributeSemantic::Normals(0).normalized());
}

#[test]
fn with_semantics_interleaves_position_and_color() {
    let buffer: Handle<Buffer> = Handle::new();
    let attrs = BufferAttributes::with_semantics(
        buffer,
        0,
        &[AttributeSemantic::Position, AttributeSemantic::Color(0)],
    );
    assert_eq!(attrs.attributes.len(), 2);
    assert_eq!(attrs.attributes[0].stride, 28);
    assert_eq!(attrs.attributes[1].stride, 28);
    assert_eq!(attrs.attributes[0].offset, 0);
    assert_eq!(attrs.attributes[1].offset, 12);
    assert_eq!(attrs.attributes[1].semantic, AttributeSemantic::Color(0));
    assert_eq!(attrs.offset, 0);
}

#[test]
fn with_index_has_no_attributes() {
    let buffer: Handle<Buffer> = Handle::new();
    let attrs = BufferAttributes::with_index(buffer, 8);
    assert!(attrs.attributes.is_empty());
    assert_eq!(attrs.offset, 8);
}

#[test]
fn binding_at_or_above_max_fails() {
    let table = SemanticLocations::default();
    let attributes = [
        VertexAttribute { stride: 28, semantic: AttributeSemantic::Position, normalized: false, offset: 0 },
        VertexAttribute { stride: 28, semantic: AttributeSemantic::Color(0), normalized: false, offset: 12 },
    ];
    let r = bind_attributes(&attributes, 0, &table, 5);
    assert_eq!(
        r,
        Err(RendererError::AttributeLocationOverMax {
            location: 5,
            max: 5,
            semantic: AttributeSemantic::Color(0),
        })
    );
    let ok = bind_attributes(&attributes, 4, &table, 6).unwrap();
    assert_eq!(
        ok[1],
        AttributeBinding {
            location: 5,
            semantic: AttributeSemantic::Color(0),
            components: 4,
            normalized: false,
            stride: 28,
            offset: 16,
        }
    );
}

#[test]
fn binding_without_location_fails() {
    let table = SemanticLocations::default();
    let attributes =
        [VertexAttribute { stride: 8, semantic: AttributeSemantic::UV(9), normalized: false, offset: 0 }];
    assert_eq!(
        bind_attributes(&attributes, 0, &table, 16),
        Err(RendererError::AttributeHasNoLocation { semantic: AttributeSemantic::UV(9) })
    );
}

#[test]
fn binding_offset_overflow_is_a_conversion_error() {
    let table = SemanticLocations::default();
    let attributes = [VertexAttribute {
        stride: 12,
        semantic: AttributeSemantic::Position,
        normalized: false,
        offset: 8,
    }];
    assert!(matches!(
        bind_attributes(&attributes, usize::MAX - 4, &table, 16),
        Err(RendererError::ConversionError { .. })
    ));
}

#[test]
fn failed_layout_is_not_stored() {
    let mut ctx = Renderer::new_headless().unwrap();
    let vertices = [0.0f32; 14];
    let buffer = Buffer::with_vertex(&mut ctx, &vertices, BufferUsage::StaticRead).unwrap();
    let r = VertexLayout::new(
        &mut ctx,
        &[BufferAttributes::with_semantics(buffer, 0, &[AttributeSemantic::Position, AttributeSemantic::UV(7)])],
    );
    assert_eq!(r, Err(RendererError::AttributeHasNoLocation { semantic: AttributeSemantic::UV(7) }));
    assert_eq!(ctx.layouts.slot_count(), 0);
}

#[test]
fn layout_plan_rejects_missing_buffers_and_notes_indices() {
    let mut ctx = Renderer::new_headless().unwrap();
    let vertices = [0.0f32; 6];
    let indices: [u8; 3] = [0, 1, 2];
    let vertex_buffer = Buffer::with_vertex(&mut ctx, &vertices, BufferUsage::StaticRead).unwrap();
    let index_buffer = Buffer::with_index(&mut ctx, &indices, BufferUsage::StaticRead).unwrap();
    let missing: Handle<Buffer> = Handle::new();
    let entries = [
        BufferAttributes::with_semantics(vertex_buffer, 4, &[AttributeSemantic::Position]),
        BufferAttributes::with_index(index_buffer, 0),
        BufferAttributes::with_semantics(missing, 0, &[AttributeSemantic::Position]),
    ];
    let plan = plan_layout(&entries[..2], &ctx.buffers, &ctx.semantic_locations, 16).unwrap();
    assert!(plan.has_indices);
    assert_eq!(plan.buffers.len(), 2);
    assert_eq!(plan.buffers[0].0, 0);
    assert_eq!(plan.buffers[0].1[0].offset, 4);
    assert_eq!(plan.buffers[1].0, 1);
    assert!(plan.buffers[1].1.is_empty());
    assert!(matches!(
        plan_layout(&entries, &ctx.buffers, &ctx.semantic_locations, 16),
        Err(RendererError::ResourceNotFound { .. })
    ));
    assert!(matches!(
        plan_layout(&entries[..1], &ctx.buffers, &ctx.semantic_locations, 0),
        Err(RendererError::AttributeLocationOverMax { location: 0, max: 0, .. })
    ));
    assert!(matches!(
        VertexLayout::new(&mut ctx, &entries),
        Err(RendererError::ResourceNotFound { .. })
    ));
    assert_eq!(ctx.layouts.slot_count(), 0);
}
