use gristmill::geom2d::{EdgeRect, IRect, IVec2, Size};

#[test]
fn contains_is_half_open() {
    let r = IRect::new(IVec2::new(10, 20), Size::new(5, 4));
    assert!(r.contains(IVec2::new(10, 20)));
    assert!(r.contains(IVec2::new(14, 23)));
    assert!(!r.contains(IVec2::new(15, 23)));
    assert!(!r.contains(IVec2::new(14, 24)));
    assert!(!r.contains(IVec2::new(9, 20)));
}

#[test]
fn empty_rect_contains_nothing() {
    let r = IRect::new(IVec2::new(0, 0), Size::new(0, 3));
    assert!(!r.contains(IVec2::new(0, 0)));
}

#[test]
fn corners_and_center() {
    let r = IRect::new(IVec2::new(-2, 3), Size::new(7, 5));
    assert_eq!(r.top_left(), IVec2::new(-2, 3));
    assert_eq!(r.top_right(), IVec2::new(5, 3));
    assert_eq!(r.bottom_left(), IVec2::new(-2, 8));
    assert_eq!(r.bottom_right(), IVec2::new(5, 8));
    assert_eq!(r.center(), IVec2::new(1, 5));
}

#[test]
fn inset_shrinks_and_clamps() {
    let r = IRect::new(IVec2::new(0, 0), Size::new(100, 50));
    let inset = r.inset(EdgeRect::new(10, 5, 20, 15));
    // The top edge moves by the right inset.
    assert_eq!(inset.position, IVec2::new(10, 20));
    assert_eq!(inset.size, Size::new(70, 30));
    let too_much = r.inset(EdgeRect::splat(60));
    assert_eq!(too_much.size, Size::new(0, 0));
}

#[test]
fn inset_by_zero_is_identity() {
    let r = IRect::new(IVec2::new(3, -4), Size::new(8, 9));
    assert_eq!(r.inset(EdgeRect::zero()), r);
}

#[test]
fn translation_keeps_containment() {
    let r = IRect::new(IVec2::new(1, 1), Size::new(3, 3));
    let d = IVec2::new(10, -5);
    let p = IVec2::new(2, 3);
    assert_eq!(r.add(d).contains(p.add(d)), r.contains(p));
    let mut moved = r;
    moved.add_assign(d);
    assert_eq!(moved.position, IVec2::new(11, -4));
    assert_eq!(moved.size, r.size);
}

#[test]
fn size_conversions() {
    assert_eq!(Size::from([3u32, 4u32]), Size::new(3, 4));
    assert_eq!(Size::from((5u32, 6u32)), Size::new(5, 6));
    assert_eq!(Size::from(IVec2::new(7, 8)), Size::new(7, 8));
    assert_eq!(IVec2::from(Size::new(9, 10)), IVec2::new(9, 10));
    assert_eq!(Size::new(1, 2).as_ivec2(), IVec2::new(1, 2));
    let mut s = Size::new(1, 2);
    s.add_assign(Size::new(10, 20));
    assert_eq!(s, Size::new(11, 22));
    assert_eq!(Size::new(u32::MAX, 0).add(Size::new(1, 0)), Size::new(0, 0));
}

#[test]
fn edge_rect_constructors() {
    let e = EdgeRect::new(1, 2, 3, 4);
    assert_eq!((e.left, e.top, e.right, e.bottom), (1, 2, 3, 4));
    assert_eq!(EdgeRect::splat(7), EdgeRect::new(7, 7, 7, 7));
}

#[test]
fn add_components_adds_positions_and_sizes() {
    let a = IRect::new(IVec2::new(1, 2), Size::new(3, 4));
    let b = IRect::new(IVec2::new(10, 20), Size::new(30, 40));
    assert_eq!(a.add_components(b), IRect::new(IVec2::new(11, 22), Size::new(33, 44)));
}
