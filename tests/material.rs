use cac_renderer::shader::reflect_uniforms;
use cac_renderer::{
    ActiveUniform, Handle, Material, MaterialProperty, PropertyId, PropertyValue, UniformKind,
};

fn color_tint_layout() -> Vec<cac_renderer::UniformDescription> {
    reflect_uniforms(&[
        ActiveUniform { name: "color".to_string(), location: 0, kind: UniformKind::Vec4, count: 1 },
        ActiveUniform { name: "tint".to_string(), location: 1, kind: UniformKind::Mat2, count: 1 },
    ])
    .unwrap()
    .uniforms
}

fn bits(values: &[f32]) -> Vec<u32> {
    values.iter().map(|v| v.to_bits()).collect()
}

#[test]
fn tint_writes_only_its_own_bytes() {
    let uniforms = color_tint_layout();
    let mut material = Material { program: Handle::new(), data: vec![0; 32] };
    let color = bits(&[0.25, 0.5, 0.75, 1.0]);
    material.update(
        &uniforms,
        &[MaterialProperty::new(PropertyId::Name("color"), PropertyValue::F32(&color))],
    );
    let before = material.data.clone();

    let tint = bits(&[1.0, 1.0, 1.0, 1.0]);
    material.update(
        &uniforms,
        &[MaterialProperty::new(PropertyId::Name("tint"), PropertyValue::F32(&tint))],
    );

    assert_eq!(material.data.len(), 32);
    assert_eq!(material.data[0..16], before[0..16]);
    for k in 0..4 {
        assert_eq!(material.data[16 + 4 * k..20 + 4 * k], 1.0f32.to_le_bytes());
    }
    assert_eq!(material.data[0..4], 0.25f32.to_le_bytes());
}

#[test]
fn property_by_location_and_unknown_property() {
    let uniforms = color_tint_layout();
    let mut material = Material { program: Handle::new(), data: vec![0; 32] };
    let value = bits(&[2.0]);
    material.update(
        &uniforms,
        &[
            MaterialProperty::new(PropertyId::Location(1), PropertyValue::F32(&value)),
            MaterialProperty::new(PropertyId::Name("missing"), PropertyValue::F32(&value)),
            MaterialProperty::new(PropertyId::Location(9), PropertyValue::F32(&value)),
        ],
    );
    let mut expected = vec![0u8; 32];
    expected[16..20].copy_from_slice(&2.0f32.to_le_bytes());
    assert_eq!(material.data, expected);
}

#[test]
fn writes_past_the_blob_are_clipped() {
    let uniforms = color_tint_layout();
    let mut material = Material { program: Handle::new(), data: vec![0; 32] };
    let too_many = bits(&[3.0; 6]);
    material.update(
        &uniforms,
        &[MaterialProperty::new(PropertyId::Name("tint"), PropertyValue::F32(&too_many))],
    );
    assert_eq!(material.data.len(), 32);
    assert_eq!(material.data[28..32], 3.0f32.to_le_bytes());
    assert!(material.data[0..16].iter().all(|b| *b == 0));
}
