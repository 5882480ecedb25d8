use gristmill::geom2d::{EdgeRect, IRect, IVec2, Size};
use gristmill::gui::layout::{GuiLayout, HBox, VBox};
use gristmill::gui::{Anchor, NodeFlags, NodeLayout};

fn layout(size: IVec2, anchors: (Anchor, Anchor)) -> NodeLayout {
    let mut l = NodeLayout::default();
    l.size = size;
    l.anchors = anchors;
    l
}

#[test]
fn anchor_names() {
    assert_eq!(Anchor::from_str("begin"), Ok(Anchor::Begin));
    assert_eq!(Anchor::from_str("Left"), Ok(Anchor::Begin));
    assert_eq!(Anchor::from_str("top"), Ok(Anchor::Begin));
    assert_eq!(Anchor::from_str("center"), Ok(Anchor::Middle));
    assert_eq!(Anchor::from_str("Middle"), Ok(Anchor::Middle));
    assert_eq!(Anchor::from_str("Bottom"), Ok(Anchor::End));
    assert_eq!(Anchor::from_str("right"), Ok(Anchor::End));
    assert_eq!(Anchor::from_str("sideways"), Err(()));
    assert_eq!(Anchor::from_str(""), Err(()));
}

#[test]
fn node_flags_default() {
    let f = NodeFlags::default();
    assert!(f.visible);
    assert!(!f.pointer_opaque);
}

#[test]
fn width_and_height_include_margins() {
    let mut l = layout(IVec2::new(10, 20), (Anchor::Begin, Anchor::Begin));
    l.margin = EdgeRect::new(1, 2, 3, 4);
    assert_eq!(l.width(), 14);
    assert_eq!(l.height(), 26);
}

#[test]
fn zero_size_fills_the_container() {
    let l = layout(IVec2::new(0, 0), (Anchor::End, Anchor::End));
    assert_eq!(l.horizontal(5, 100), (5, 100));
    assert_eq!(l.vertical(7, 30), (7, 30));
}

#[test]
fn anchors_place_along_an_axis() {
    let begin = layout(IVec2::new(4, 4), (Anchor::Begin, Anchor::Begin));
    let middle = layout(IVec2::new(4, 4), (Anchor::Middle, Anchor::Middle));
    let end = layout(IVec2::new(4, 4), (Anchor::End, Anchor::End));
    assert_eq!(begin.horizontal(10, 7), (10, 4));
    assert_eq!(middle.horizontal(10, 7), (11, 4));
    assert_eq!(end.vertical(10, 7), (13, 4));
}

#[test]
fn middle_rounds_toward_zero() {
    // A negative width halves toward zero: 7 / 2 - (-3 / 2) = 3 + 1.
    let l = layout(IVec2::new(-3, 1), (Anchor::Middle, Anchor::Begin));
    assert_eq!(l.horizontal(0, 7), (4, -3));
}

#[test]
fn anchor_layout_places_each_child_independently() {
    let mut a = gristmill::gui::layout::Anchor(IRect::zero());
    a.begin_layout(IRect::new(IVec2::new(0, 0), Size::new(100, 100)), 3);
    let l = layout(IVec2::new(10, 10), (Anchor::End, Anchor::Middle));
    let first = a.layout_child(&l);
    let second = a.layout_child(&l);
    assert_eq!(first, IRect::new(IVec2::new(90, 45), Size::new(10, 10)));
    assert_eq!(first, second);
}

#[test]
fn boxes_advance_by_size_and_spacing() {
    let mut h = HBox::default();
    h.begin_layout(IRect::new(IVec2::new(5, 5), Size::new(100, 40)), 2);
    let l = layout(IVec2::new(10, 0), (Anchor::Begin, Anchor::Begin));
    assert_eq!(h.layout_child(&l), IRect::new(IVec2::new(5, 5), Size::new(10, 40)));
    assert_eq!(h.layout_child(&l), IRect::new(IVec2::new(17, 5), Size::new(10, 40)));
    let mut v = VBox::default();
    v.begin_layout(IRect::new(IVec2::new(0, 0), Size::new(50, 100)), 1);
    let l = layout(IVec2::new(0, 8), (Anchor::Begin, Anchor::Begin));
    assert_eq!(v.layout_child(&l), IRect::new(IVec2::new(0, 0), Size::new(50, 8)));
    assert_eq!(v.layout_child(&l), IRect::new(IVec2::new(0, 9), Size::new(50, 8)));
}

#[test]
fn hbox_kth_child_after_all_before_it() {
    let rect = IRect::new(IVec2::new(5, 7), Size::new(300, 40));
    let mut h = HBox::default();
    h.begin_layout(rect, 3);
    let widths = [10, 20, 30];
    let mut expected_x = 5;
    for w in widths {
        let mut l = layout(IVec2::new(w, 0), (Anchor::Begin, Anchor::Begin));
        l.margin = EdgeRect::new(1, 0, 2, 0);
        let r = h.layout_child(&l);
        assert_eq!(r.position, IVec2::new(expected_x, 7));
        assert_eq!(r.size, Size::new((w + 3) as u32, 40));
        expected_x += w + 3 + 3;
    }
    assert_eq!(h.x, 5 + 13 + 3 + 23 + 3 + 33 + 3);

    let mut v = VBox::default();
    v.begin_layout(rect, 2);
    let a = v.layout_child(&layout(IVec2::new(0, 10), (Anchor::Begin, Anchor::Begin)));
    let b = v.layout_child(&layout(IVec2::new(0, 5), (Anchor::Begin, Anchor::Begin)));
    let c = v.layout_child(&layout(IVec2::new(0, 8), (Anchor::Begin, Anchor::Begin)));
    assert_eq!((a.position.y, b.position.y, c.position.y), (7, 19, 26));
    assert!(a.position.y + a.size.height as i32 <= b.position.y);
}
