use gristmill::geom2d::{EdgeRect, IRect, IVec2, Size};
use gristmill::gui::widget::{Panel, PanelBehavior};
use gristmill::gui::{text_screen_position, Anchor, Gui, GuiNode, NodeLayout};

fn viewport() -> IRect {
    IRect::new(IVec2::new(0, 0), Size::new(800, 600))
}

fn sized(x: i32, y: i32) -> NodeLayout {
    let mut layout = NodeLayout::default();
    layout.size = IVec2::new(x, y);
    layout
}

#[test]
fn new_gui_has_root_covering_viewport() {
    let gui: Gui<()> = Gui::new(viewport(), ());
    let root = gui.root();
    let node = gui.get(root).unwrap();
    assert_eq!(node.rect, viewport());
    assert_eq!(gui.node_ids(), vec![root]);
    assert!(gui.children_of(root).is_empty());
}

#[test]
fn anchored_child_is_placed_by_its_anchors() {
    let mut gui: Gui<()> = Gui::new(viewport(), ());
    let root = gui.root();
    let mut layout = sized(100, 50);
    layout.anchors = (Anchor::Middle, Anchor::End);
    let child = gui.add_child(root, GuiNode::new(layout, ()));
    assert_eq!(gui.update(None), None);
    let node = gui.get(child).unwrap();
    assert_eq!(node.rect, IRect::new(IVec2::new(350, 550), Size::new(100, 50)));
    assert_eq!(node.z, 1);
    assert!(node.visible);
}

#[test]
fn hbox_places_children_side_by_side() {
    let mut gui: Gui<u8> = Gui::new(viewport(), 0);
    let root = gui.root();
    gui.set_child_layout(root, "hbox".to_string());
    gui.set_child_spacing(root, 10);
    let b = gui.add_child(root, GuiNode::new(sized(100, 0), 1));
    let c = gui.add_child(root, GuiNode::new(sized(50, 0), 2));
    gui.update(None);
    assert_eq!(gui.get(b).unwrap().rect, IRect::new(IVec2::new(0, 0), Size::new(100, 600)));
    assert_eq!(gui.get(c).unwrap().rect, IRect::new(IVec2::new(110, 0), Size::new(50, 600)));
    assert_eq!(gui.get(b).unwrap().z, 1);
    assert_eq!(gui.get(c).unwrap().z, 2);
    assert_eq!(gui.get(c).unwrap().draw, 2);
}

#[test]
fn vbox_stacks_children() {
    let mut gui: Gui<()> = Gui::new(viewport(), ());
    let root = gui.root();
    gui.set_child_layout(root, "vbox".to_string());
    gui.set_child_spacing(root, 4);
    let a = gui.add_child(root, GuiNode::new(sized(0, 30), ()));
    let b = gui.add_child(root, GuiNode::new(sized(0, 20), ()));
    gui.update(None);
    assert_eq!(gui.get(a).unwrap().rect, IRect::new(IVec2::new(0, 0), Size::new(800, 30)));
    assert_eq!(gui.get(b).unwrap().rect, IRect::new(IVec2::new(0, 34), Size::new(800, 20)));
}

#[test]
fn margin_insets_the_child() {
    let mut gui: Gui<()> = Gui::new(viewport(), ());
    let root = gui.root();
    let mut layout = NodeLayout::default();
    layout.margin = EdgeRect::splat(5);
    let child = gui.add_child(root, GuiNode::new(layout, ()));
    gui.update(None);
    assert_eq!(gui.get(child).unwrap().rect, IRect::new(IVec2::new(5, 5), Size::new(790, 590)));
}

#[test]
fn pointer_finds_topmost_opaque_node() {
    let mut gui: Gui<()> = Gui::new(viewport(), ());
    let root = gui.root();
    gui.set_child_layout(root, "hbox".to_string());
    gui.set_child_spacing(root, 10);
    let b = gui.add_child(root, GuiNode::new(sized(100, 0), ()));
    let c = gui.add_child(root, GuiNode::new(sized(50, 0), ()));
    gui.set_pointer_opaque(c, true);
    assert_eq!(gui.update(Some(IVec2::new(120, 10))), Some(c));
    // b is not pointer-opaque, and neither is the root.
    assert_eq!(gui.update(Some(IVec2::new(5, 5))), None);
    gui.set_pointer_opaque(b, true);
    assert_eq!(gui.update(Some(IVec2::new(5, 5))), Some(b));
    // Outside both children: the gap between them.
    assert_eq!(gui.update(Some(IVec2::new(105, 5))), None);
}

#[test]
fn later_sibling_is_on_top() {
    let mut gui: Gui<()> = Gui::new(viewport(), ());
    let root = gui.root();
    let first = gui.add_child(root, GuiNode::new(NodeLayout::default(), ()));
    let second = gui.add_child(root, GuiNode::new(NodeLayout::default(), ()));
    gui.set_pointer_opaque(first, true);
    gui.set_pointer_opaque(second, true);
    assert_eq!(gui.update(Some(IVec2::new(1, 1))), Some(second));
}

#[test]
fn hidden_node_hides_its_subtree() {
    let mut gui: Gui<()> = Gui::new(viewport(), ());
    let root = gui.root();
    let parent = gui.add_child(root, GuiNode::new(NodeLayout::default(), ()));
    let child = gui.add_child(parent, GuiNode::new(NodeLayout::default(), ()));
    gui.set_pointer_opaque(child, true);
    gui.update(None);
    assert!(gui.get(child).unwrap().visible);
    gui.set_visible(parent, false);
    assert_eq!(gui.update(Some(IVec2::new(1, 1))), None);
    assert!(!gui.get(parent).unwrap().visible);
    assert!(!gui.get(child).unwrap().visible);
}

#[test]
fn removed_child_is_forgotten_by_layout() {
    let mut gui: Gui<()> = Gui::new(viewport(), ());
    let root = gui.root();
    let a = gui.add_child(root, GuiNode::new(NodeLayout::default(), ()));
    let b = gui.add_child(root, GuiNode::new(NodeLayout::default(), ()));
    assert!(gui.remove(a).is_some());
    assert!(!gui.contains(a));
    assert_eq!(gui.children_of(root), vec![a, b]);
    gui.update(None);
    assert_eq!(gui.children_of(root), vec![b]);
    // The root cannot be removed.
    assert!(gui.remove(root).is_none());
    assert!(gui.contains(root));
}

#[test]
fn set_root_z_shifts_depths() {
    let mut gui: Gui<()> = Gui::new(viewport(), ());
    let root = gui.root();
    let child = gui.add_child(root, GuiNode::new(NodeLayout::default(), ()));
    gui.set_root_z(10);
    gui.update(None);
    assert_eq!(gui.get(root).unwrap().z, 10);
    assert_eq!(gui.get(child).unwrap().z, 11);
}

#[test]
fn panel_stays_shown_only_while_shown() {
    let mut gui: Gui<()> = Gui::new(viewport(), ());
    let root = gui.root();
    let panel = Panel::new(&mut gui, root, NodeLayout::default(), ());
    let behavior = PanelBehavior(panel.0);
    assert!(gui.get(panel.0).unwrap().flags.pointer_opaque);
    assert_eq!(gui.update(Some(IVec2::new(3, 3))), Some(panel.0));
    behavior.update(&mut gui);
    assert_eq!(gui.update(Some(IVec2::new(3, 3))), None);
    panel.show(&mut gui);
    assert_eq!(gui.update(Some(IVec2::new(3, 3))), Some(panel.0));
}

#[test]
fn draw_rect_adds_offset() {
    let mut gui: Gui<()> = Gui::new(viewport(), ());
    let root = gui.root();
    let child = gui.add_child(root, GuiNode::new(sized(10, 10), ()));
    gui.set_offset(child, IRect::new(IVec2::new(1, 2), Size::new(3, 4)));
    gui.update(None);
    let (rect, z) = gui.get(child).unwrap().draw_rect();
    assert_eq!(rect, IRect::new(IVec2::new(1, 2), Size::new(13, 14)));
    assert_eq!(z, 1);
}

#[test]
fn layout_setters_change_placement() {
    let mut gui: Gui<()> = Gui::new(viewport(), ());
    let root = gui.root();
    let child = gui.add_child(root, GuiNode::with_draw(()));
    gui.set_layout_width(child, 40);
    gui.set_layout_height(child, 30);
    gui.set_layout_margin(child, EdgeRect::new(1, 0, 1, 0));
    gui.update(None);
    // width 40 plus margins 2, then inset by left and right.
    assert_eq!(gui.get(child).unwrap().rect, IRect::new(IVec2::new(1, 1), Size::new(40, 30)));
    gui.set_layout_size(child, IVec2::new(0, 0));
    gui.update(None);
    assert_eq!(gui.get(child).unwrap().rect.size, Size::new(798, 600));
    gui.set_layout(child, sized(5, 6));
    gui.update(None);
    assert_eq!(gui.get(child).unwrap().rect, IRect::new(IVec2::new(0, 0), Size::new(5, 6)));
}

#[test]
fn text_position_follows_alignment() {
    let rect = IRect::new(IVec2::new(10, 20), Size::new(100, 50));
    assert_eq!(text_screen_position(rect, Anchor::Middle, Anchor::End), IVec2::new(60, 70));
    assert_eq!(text_screen_position(rect, Anchor::Begin, Anchor::Begin), IVec2::new(10, 20));
    assert_eq!(text_screen_position(rect, Anchor::End, Anchor::Middle), IVec2::new(110, 45));
}
