use cac_renderer::mesh_buffer::{AttributeKind, AttributeSemantic, MeshBuffer, SemanticLocations};

#[test]
fn data_size() {
    let vertices: [(f32, f32, f32); 3] = [(0.0, 0.0, 0.0), (1.0, 1.0, 1.0), (-1.0, -1.0, -1.0)];

    let buffer = MeshBuffer::with_position(&vertices);

    assert_eq!(buffer.size, 36);
}

#[test]
fn vertex_count() {
    let vertices: [(f32, f32, f32); 3] = [(0.0, 0.0, 0.0), (1.0, 1.0, 1.0), (-1.0, -1.0, -1.0)];

    let buffer = MeshBuffer::with_position(&vertices);
    assert_eq!(buffer.vertex_count, 3);
}

#[test]
fn mesh_buffer_default_location() {
    let mut table = SemanticLocations::default();
    assert_eq!(AttributeSemantic::Position.location(&table), Some(0));
    assert_eq!(AttributeSemantic::UV(0).location(&table), Some(1));
    assert_eq!(AttributeSemantic::UV(10).location(&table), None);

    let mut new_locations = table.locations();
    new_locations[1] = Some(AttributeSemantic::UV(10));
    AttributeSemantic::set_default_locations(&mut table, new_locations);

    assert_eq!(AttributeSemantic::Position.location(&table), Some(0));
    assert_eq!(AttributeSemantic::UV(0).location(&table), None);
    assert_eq!(AttributeSemantic::UV(10).location(&table), Some(1));
}

#[test]
fn mesh_buffer_kinds_and_sizes() {
    assert_eq!(AttributeKind::Mat4.components(), 16);
    assert_eq!(AttributeKind::Mat4.size(), 64);
    assert_eq!(AttributeSemantic::Custom(AttributeKind::Vec2, 0).kind(), AttributeKind::Vec2);
    assert_eq!(AttributeSemantic::Color(1).location(&SemanticLocations::default()), Some(5));
    assert_eq!(AttributeSemantic::Color(0).location(&SemanticLocations::default()), None);
}
