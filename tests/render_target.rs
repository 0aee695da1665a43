use cac_renderer::ClearFlags;

#[test]
fn or() {
    let flags = ClearFlags::color() | ClearFlags::depth();

    assert_eq!(flags, ClearFlags(1 | 2));
}

#[test]
fn and_tells_whether_flags_share_a_buffer() {
    let flags = ClearFlags::color() | ClearFlags::stencil();
    assert!(flags & ClearFlags::color());
    assert!(flags & ClearFlags::stencil());
    assert!(!(flags & ClearFlags::depth()));
    assert!(!(ClearFlags::none() & flags));
}
