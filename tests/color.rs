use cac_renderer::Color8;

#[test]
fn same_color() {
    let color_1 = Color8::new_rgb(255, 124, 12);
    let color_2 = Color8::new_rgba(255, 124, 12, 255);

    assert_eq!(color_1, color_2);
}

#[test]
fn color_from_tuples_and_default() {
    assert_eq!(Color8::from((1, 2, 3)), Color8::new_rgba(1, 2, 3, 255));
    assert_eq!(Color8::from((1, 2, 3, 4)), Color8 { r: 1, g: 2, b: 3, a: 4 });
    assert_eq!(Color8::default(), Color8::new_rgba(0, 0, 0, 255));
}
