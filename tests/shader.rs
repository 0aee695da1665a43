use cac_renderer::shader::{reflect_uniforms, uniform_size_from_kind};
use cac_renderer::{ActiveUniform, RendererError, UniformKind};

fn report(name: &str, location: i32, kind: UniformKind, count: u32) -> ActiveUniform {
    ActiveUniform { name: name.to_string(), location, kind, count }
}

#[test]
fn reflection_lays_out_color_then_tint() {
    let layout = reflect_uniforms(&[
        report("color", 0, UniformKind::Vec4, 1),
        report("tint", 1, UniformKind::Mat2, 1),
    ])
    .unwrap();
    assert_eq!(layout.uniforms.len(), 2);
    assert_eq!(layout.uniforms[0].name, "color");
    assert_eq!(layout.uniforms[0].offset, 0);
    assert_eq!(layout.uniforms[0].size, 16);
    assert_eq!(layout.uniforms[1].name, "tint");
    assert_eq!(layout.uniforms[1].offset, 16);
    assert_eq!(layout.uniforms[1].size, 16);
    assert_eq!(layout.data_size, 32);
}

#[test]
fn reflection_skips_unbound_and_strips_array_suffix() {
    let layout = reflect_uniforms(&[
        report("unused", -1, UniformKind::Mat4, 1),
        report("lights[0]", 3, UniformKind::Vec3, 4),
        report("scale", 7, UniformKind::F32, 1),
    ])
    .unwrap();
    assert_eq!(layout.uniforms.len(), 2);
    assert_eq!(layout.uniforms[0].name, "lights");
    assert_eq!(layout.uniforms[0].location, 3);
    assert_eq!(layout.uniforms[0].count, 4);
    assert_eq!(layout.uniforms[0].size, 48);
    assert_eq!(layout.uniforms[1].offset, 48);
    assert_eq!(layout.data_size, 52);
}

#[test]
fn reflection_rejects_samplers() {
    let r = reflect_uniforms(&[
        report("color", 0, UniformKind::Vec4, 1),
        report("albedo", 1, UniformKind::Sampler2D, 1),
    ]);
    assert!(matches!(r, Err(RendererError::FailedToLinkProgram { .. })));
    // An unbound sampler is skipped like any unbound uniform.
    assert!(reflect_uniforms(&[report("albedo", -1, UniformKind::Sampler2D, 1)]).is_ok());
}

#[test]
fn uniform_sizes_per_kind() {
    assert_eq!(uniform_size_from_kind(UniformKind::F32, 1), Some(4));
    assert_eq!(uniform_size_from_kind(UniformKind::Vec2, 1), Some(8));
    assert_eq!(uniform_size_from_kind(UniformKind::Vec3, 1), Some(12));
    assert_eq!(uniform_size_from_kind(UniformKind::Vec4, 2), Some(32));
    assert_eq!(uniform_size_from_kind(UniformKind::Mat2, 1), Some(16));
    assert_eq!(uniform_size_from_kind(UniformKind::Mat3, 1), Some(36));
    assert_eq!(uniform_size_from_kind(UniformKind::Mat4, 3), Some(192));
    assert_eq!(uniform_size_from_kind(UniformKind::Sampler2D, 1), None);
    assert_eq!(uniform_size_from_kind(UniformKind::Mat4, usize::MAX), None);
}

#[test]
fn empty_report_gives_empty_table() {
    let layout = reflect_uniforms(&[]).unwrap();
    assert!(layout.uniforms.is_empty());
    assert_eq!(layout.data_size, 0);
}
