//! The node tree of the GUI, how nodes are laid out inside their parents, and which node
//! the pointer is over.
pub mod button;
pub mod container;
pub mod event;
pub mod font;
pub mod layout;
pub mod listener;
pub mod style;
pub mod unpack;
pub mod widget;

use crate::geom2d::{EdgeRect, IRect, IVec2, spec_add_components, spec_contains_i32, spec_inset};
use crate::gui::layout::{anchor_child, hbox_child, hbox_next, vbox_child, vbox_next, GuiLayout};
use vstd::prelude::*;

verus! {

/// Where a node sits along one axis of its container when it does not fill it.
#[derive(Copy, Clone, PartialEq, Eq, Structural, Debug, Default)]
pub enum Anchor {
    #[default]
    Begin,
    Middle,
    End,
}

/// `a` and `b` hold the same characters.
pub fn str_eq(a: &str, b: &str) -> (r: bool)
    ensures
        r == (a@ == b@),
{
    a.to_owned() == b.to_owned()
}

/// The anchor that a name stands for, if any.
pub open spec fn spec_anchor_from_str(s: Seq<char>) -> Option<Anchor> {
    if s == "begin"@ || s == "Begin"@ || s == "left"@ || s == "Left"@ || s == "top"@ || s
        == "Top"@ {
        Some(Anchor::Begin)
    } else if s == "middle"@ || s == "Middle"@ || s == "center"@ || s == "Center"@ {
        Some(Anchor::Middle)
    } else if s == "end"@ || s == "End"@ || s == "right"@ || s == "Right"@ || s == "bottom"@
        || s == "Bottom"@ {
        Some(Anchor::End)
    } else {
        None
    }
}

impl Anchor {
    /// Reads an anchor from its name: `begin`, `left` or `top`; `middle` or `center`;
    /// `end`, `right` or `bottom`, each also capitalised.
    pub fn from_str(s: &str) -> (r: Result<Anchor, ()>)
        ensures
            r is Ok <==> spec_anchor_from_str(s@) is Some,
            r matches Ok(a) ==> spec_anchor_from_str(s@) == Some(a),
    {
        if str_eq(s, "begin") || str_eq(s, "Begin") || str_eq(s, "left") || str_eq(s, "Left")
            || str_eq(s, "top") || str_eq(s, "Top") {
            Ok(Anchor::Begin)
        } else if str_eq(s, "middle") || str_eq(s, "Middle") || str_eq(s, "center") || str_eq(
            s,
            "Center",
        ) {
            Ok(Anchor::Middle)
        } else if str_eq(s, "end") || str_eq(s, "End") || str_eq(s, "right") || str_eq(s, "Right")
            || str_eq(s, "bottom") || str_eq(s, "Bottom") {
            Ok(Anchor::End)
        } else {
            Err(())
        }
    }
}

/// Per-node switches.
#[derive(Copy, Clone, PartialEq, Eq, Structural, Debug)]
pub struct NodeFlags {
    pub visible: bool,
    pub pointer_opaque: bool,
}

impl Default for NodeFlags {
    fn default() -> (r: NodeFlags)
        ensures
            r.visible,
            !r.pointer_opaque,
    {
        NodeFlags { visible: true, pointer_opaque: false }
    }
}

/// `v / 2` rounded toward zero, as `i32` division does.
pub open spec fn half(v: i32) -> i32 {
    (if v >= 0 {
        v / 2
    } else {
        -((-v) / 2)
    }) as i32
}

/// How far from the container's start a node of extent `size` begins.
pub open spec fn anchor_offset(anchor: Anchor, container: i32, size: i32) -> i32 {
    match anchor {
        Anchor::Begin => 0,
        Anchor::Middle => half(container).wrapping_sub(half(size)),
        Anchor::End => container.wrapping_sub(size),
    }
}

/// The position and extent of a node along one axis: a node whose own size is zero on
/// that axis fills the container; otherwise it takes its size plus margins, placed by
/// its anchor.
pub open spec fn span(own: i32, full: i32, anchor: Anchor, start: i32, extent: i32) -> (
    i32,
    i32,
) {
    if own == 0 {
        (start, extent)
    } else {
        (start.wrapping_add(anchor_offset(anchor, extent, full)), full)
    }
}

/// How a node asks to be placed inside its parent.
pub struct NodeLayout {
    pub size: IVec2,
    pub margin: EdgeRect,
    pub anchors: (Anchor, Anchor),
    pub child_layout: String,
    pub child_spacing: i32,
}

impl Default for NodeLayout {
    fn default() -> (r: NodeLayout)
        ensures
            r.size == IVec2::zero_spec(),
            r.margin == EdgeRect::zero_spec(),
            r.anchors == (Anchor::Begin, Anchor::Begin),
            r.child_layout@ == Seq::<char>::empty(),
            r.child_spacing == 0,
    {
        NodeLayout {
            size: IVec2::zero(),
            margin: EdgeRect::zero(),
            anchors: (Anchor::Begin, Anchor::Begin),
            child_layout: String::new(),
            child_spacing: 0,
        }
    }
}

impl NodeLayout {
    /// Width plus left and right margins.
    pub open spec fn spec_width(&self) -> i32 {
        self.size.x.wrapping_add(self.margin.left).wrapping_add(self.margin.right)
    }

    /// Height plus top and bottom margins.
    pub open spec fn spec_height(&self) -> i32 {
        self.size.y.wrapping_add(self.margin.top).wrapping_add(self.margin.bottom)
    }

    pub open spec fn spec_horizontal(&self, container_x: i32, container_width: i32) -> (i32, i32) {
        span(self.size.x, self.spec_width(), self.anchors.0, container_x, container_width)
    }

    pub open spec fn spec_vertical(&self, container_y: i32, container_height: i32) -> (i32, i32) {
        span(self.size.y, self.spec_height(), self.anchors.1, container_y, container_height)
    }

    pub fn width(&self) -> (r: i32)
        ensures
            r == self.spec_width(),
    {
        self.size.x.wrapping_add(self.margin.left).wrapping_add(self.margin.right)
    }

    pub fn height(&self) -> (r: i32)
        ensures
            r == self.spec_height(),
    {
        self.size.y.wrapping_add(self.margin.top).wrapping_add(self.margin.bottom)
    }

    /// The x position and width of the node inside a container spanning
    /// `container_x .. container_x + container_width`.
    pub fn horizontal(&self, container_x: i32, container_width: i32) -> (r: (i32, i32))
        ensures
            r == self.spec_horizontal(container_x, container_width),
    {
        if self.size.x == 0 {
            (container_x, container_width)
        } else {
            let width = self.width();
            let offset = match self.anchors.0 {
                Anchor::Begin => 0,
                Anchor::Middle => (container_width / 2).wrapping_sub(width / 2),
                Anchor::End => container_width.wrapping_sub(width),
            };
            (container_x.wrapping_add(offset), width)
        }
    }

    /// The y position and height of the node inside a container spanning
    /// `container_y .. container_y + container_height`.
    pub fn vertical(&self, container_y: i32, container_height: i32) -> (r: (i32, i32))
        ensures
            r == self.spec_vertical(container_y, container_height),
    {
        if self.size.y == 0 {
            (container_y, container_height)
        } else {
            let height = self.height();
            let offset = match self.anchors.1 {
                Anchor::Begin => 0,
                Anchor::Middle => (container_height / 2).wrapping_sub(height / 2),
                Anchor::End => container_height.wrapping_sub(height),
            };
            (container_y.wrapping_add(offset), height)
        }
    }
}


/// The point text is anchored at inside `rect`: the left edge, centre or right edge
/// across, and the top edge, centre or bottom edge down.
pub open spec fn spec_text_screen_position(rect: IRect, h_align: Anchor, v_align: Anchor) -> IVec2 {
    let center = rect.center_spec();
    IVec2 {
        x: match h_align {
            Anchor::Begin => rect.position.x,
            Anchor::Middle => center.x,
            Anchor::End => crate::geom2d::right_i32(rect),
        },
        y: match v_align {
            Anchor::Begin => rect.position.y,
            Anchor::Middle => center.y,
            Anchor::End => crate::geom2d::bottom_i32(rect),
        },
    }
}

/// Where text aligned by `h_align` and `v_align` is positioned inside `rect`.
pub fn text_screen_position(rect: IRect, h_align: Anchor, v_align: Anchor) -> (r: IVec2)
    ensures
        r == spec_text_screen_position(rect, h_align, v_align),
{
    let x = match h_align {
        Anchor::Begin => rect.top_left().x,
        Anchor::Middle => rect.center().x,
        Anchor::End => rect.bottom_right().x,
    };
    let y = match v_align {
        Anchor::Begin => rect.top_left().y,
        Anchor::Middle => rect.center().y,
        Anchor::End => rect.bottom_right().y,
    };
    IVec2::new(x, y)
}

/// Identifies a node of a `Gui`.
#[derive(Copy, Clone, PartialEq, Eq, Structural, Debug, Hash)]
pub struct GuiNodeId(pub usize);

/// One node of the GUI tree. `draw` is whatever the renderer draws for the node;
/// `visible`, `rect` and `z` are recomputed by every layout pass.
pub struct GuiNode<D> {
    pub flags: NodeFlags,
    pub layout: NodeLayout,
    pub draw: D,
    pub offset: IRect,
    pub visible: bool,
    pub rect: IRect,
    pub z: u16,
}

/// `l` is the layout that `NodeLayout::default` builds.
pub open spec fn is_default_layout(l: NodeLayout) -> bool {
    &&& l.size == IVec2::zero_spec()
    &&& l.margin == EdgeRect::zero_spec()
    &&& l.anchors == (Anchor::Begin, Anchor::Begin)
    &&& l.child_layout@ == Seq::<char>::empty()
    &&& l.child_spacing == 0
}

/// `n` holds `layout` and `draw`, and defaults everywhere else.
pub open spec fn is_fresh_node<D>(n: GuiNode<D>, layout: NodeLayout, draw: D) -> bool {
    &&& n.flags == NodeFlags { visible: true, pointer_opaque: false }
    &&& n.layout == layout
    &&& n.draw == draw
    &&& n.offset == IRect::zero_spec()
    &&& !n.visible
    &&& n.rect == IRect::zero_spec()
    &&& n.z == 0
}

impl<D> GuiNode<D> {
    pub fn new(layout: NodeLayout, draw: D) -> (r: GuiNode<D>)
        ensures
            is_fresh_node(r, layout, draw),
    {
        GuiNode {
            flags: NodeFlags::default(),
            layout,
            draw,
            offset: IRect::zero(),
            visible: false,
            rect: IRect::zero(),
            z: 0,
        }
    }

    pub fn with_draw(draw: D) -> (r: GuiNode<D>)
        ensures
            is_fresh_node(r, r.layout, draw),
            is_default_layout(r.layout),
    {
        GuiNode::new(NodeLayout::default(), draw)
    }

    /// Where the node is drawn: its laid-out rectangle moved and grown by `offset`, and
    /// its depth.
    pub fn draw_rect(&self) -> (r: (IRect, u16))
        ensures
            r.0 == spec_add_components(self.rect, self.offset),
            r.1 == self.z,
    {
        (self.rect.add_components(self.offset), self.z)
    }
}

/// The layout strategy chosen for a node's children.
pub enum ChildLayout {
    Anchor(crate::gui::layout::Anchor),
    HBox(crate::gui::layout::HBox),
    VBox(crate::gui::layout::VBox),
}

/// The strategy named `name`: `hbox` and `vbox` are boxes; any other name anchors each
/// child inside the parent.
pub open spec fn spec_begin(name: Seq<char>, rect: IRect, spacing: i32) -> ChildLayout {
    if name == "hbox"@ {
        ChildLayout::HBox(crate::gui::layout::HBox { rect, spacing, x: rect.position.x })
    } else if name == "vbox"@ {
        ChildLayout::VBox(crate::gui::layout::VBox { rect, spacing, y: rect.position.y })
    } else {
        ChildLayout::Anchor(crate::gui::layout::Anchor(rect))
    }
}

impl ChildLayout {
    /// The strategy after placing a child with `layout`, and the child's rectangle.
    pub open spec fn spec_step(self, layout: NodeLayout) -> (ChildLayout, IRect) {
        match self {
            ChildLayout::Anchor(a) => (self, anchor_child(a.0, layout)),
            ChildLayout::HBox(b) => (ChildLayout::HBox(hbox_next(b, layout)), hbox_child(b, layout)),
            ChildLayout::VBox(b) => (ChildLayout::VBox(vbox_next(b, layout)), vbox_child(b, layout)),
        }
    }

    pub fn begin(name: &String, rect: IRect, spacing: i32) -> (r: ChildLayout)
        ensures
            r == spec_begin(name@, rect, spacing),
    {
        if str_eq(name.as_str(), "hbox") {
            let mut b = crate::gui::layout::HBox { rect: IRect::zero(), spacing: 0, x: 0 };
            b.begin_layout(rect, spacing);
            ChildLayout::HBox(b)
        } else if str_eq(name.as_str(), "vbox") {
            let mut b = crate::gui::layout::VBox { rect: IRect::zero(), spacing: 0, y: 0 };
            b.begin_layout(rect, spacing);
            ChildLayout::VBox(b)
        } else {
            let mut a = crate::gui::layout::Anchor(IRect::zero());
            a.begin_layout(rect, spacing);
            ChildLayout::Anchor(a)
        }
    }

    pub fn layout_child(&mut self, layout: &NodeLayout) -> (r: IRect)
        ensures
            (*final(self), r) == old(self).spec_step(*layout),
    {
        match self {
            ChildLayout::Anchor(a) => a.layout_child(layout),
            ChildLayout::HBox(b) => b.layout_child(layout),
            ChildLayout::VBox(b) => b.layout_child(layout),
        }
    }
}

/// The abstract state of a `Gui`: one slot per node id ever created (empty once the
/// node is removed), the children listed under each id, and the root.
#[verifier::ext_equal]
pub struct GuiModel<D> {
    pub nodes: Seq<Option<GuiNode<D>>>,
    pub children: Seq<Seq<GuiNodeId>>,
    pub root: GuiNodeId,
}

impl<D> GuiModel<D> {
    /// Every id is a slot; the root is the first node and live; a child's id is always
    /// greater than its parent's (children are created after their parents), which keeps
    /// the tree acyclic and the root no node's child.
    pub open spec fn wf(self) -> bool {
        &&& self.children.len() == self.nodes.len()
        &&& self.nodes.len() < usize::MAX
        &&& self.root.0 == 0
        &&& self.root.0 < self.nodes.len()
        &&& self.nodes[self.root.0 as int] is Some
        &&& forall|n: int, i: int|
            0 <= n < self.children.len() && 0 <= i < self.children[n].len() ==> n
                < #[trigger] self.children[n][i].0 < self.nodes.len()
    }

    /// The live node with id `id`.
    pub open spec fn live(self, id: int) -> bool {
        0 <= id < self.nodes.len() && self.nodes[id] is Some
    }
}

/// Places the children `kids[i..]` one after another with `strategy`, starting from
/// depth `z`; ids without a live node are dropped. Returns the nodes and the ids kept.
pub open spec fn place_children<D>(
    nodes: Seq<Option<GuiNode<D>>>,
    kids: Seq<GuiNodeId>,
    i: int,
    strategy: ChildLayout,
    z: u16,
    kept: Seq<GuiNodeId>,
) -> (Seq<Option<GuiNode<D>>>, Seq<GuiNodeId>)
    decreases kids.len() - i,
{
    if i < 0 || i >= kids.len() {
        (nodes, kept)
    } else {
        let c = kids[i].0 as int;
        if 0 <= c < nodes.len() && nodes[c] is Some {
            let node = nodes[c]->Some_0;
            let (next, rect) = strategy.spec_step(node.layout);
            let z2 = z.wrapping_add(1);
            let placed = GuiNode {
                visible: node.flags.visible,
                rect: spec_inset(rect, node.layout.margin),
                z: z2,
                ..node
            };
            place_children(nodes.update(c, Some(placed)), kids, i + 1, next, z2, kept.push(kids[i]))
        } else {
            place_children(nodes, kids, i + 1, strategy, z, kept)
        }
    }
}

/// The model after laying out the subtree under `node`: a live, visible node places its
/// live children (and forgets removed ones), then each child lays out its own subtree.
pub open spec fn layout_spec<D>(g: GuiModel<D>, node: int, len: int) -> GuiModel<D>
    decreases len - node, 1int, 0int,
{
    if !(0 <= node < len) || node >= g.nodes.len() || node >= g.children.len() {
        g
    } else if g.nodes[node] is None {
        g
    } else {
        let data = g.nodes[node]->Some_0;
        if !data.visible {
            g
        } else {
            let strategy = spec_begin(
                data.layout.child_layout@,
                data.rect,
                data.layout.child_spacing,
            );
            let (nodes2, kept) = place_children(
                g.nodes,
                g.children[node],
                0,
                strategy,
                data.z,
                Seq::empty(),
            );
            let g2 = GuiModel { nodes: nodes2, children: g.children.update(node, kept), root: g.root };
            layout_kids(g2, kept, 0, node, len)
        }
    }
}

/// Lays out the subtrees of `kids[i..]` in order.
pub open spec fn layout_kids<D>(
    g: GuiModel<D>,
    kids: Seq<GuiNodeId>,
    i: int,
    parent: int,
    len: int,
) -> GuiModel<D>
    decreases len - parent, 0int, kids.len() - i,
{
    if i < 0 || i >= kids.len() {
        g
    } else {
        let c = kids[i].0 as int;
        let g2 = if parent < c < len {
            layout_spec(g, c, len)
        } else {
            g
        };
        layout_kids(g2, kids, i + 1, parent, len)
    }
}

/// The topmost pointer-opaque node under `p` in the subtree of `node`: children are tried
/// last to first (later children are drawn on top), and a node counts only if it is
/// visible.
pub open spec fn pointer_over_spec<D>(g: GuiModel<D>, node: int, len: int, p: IVec2) -> Option<
    GuiNodeId,
>
    decreases len - node, 1int, 0int,
{
    if !(0 <= node < len) || node >= g.nodes.len() || node >= g.children.len() {
        None
    } else if g.nodes[node] is None {
        None
    } else {
        let data = g.nodes[node]->Some_0;
        if !data.visible {
            None
        } else {
            let kids = g.children[node];
            match pointer_over_kids(g, kids, kids.len() as int, node, len, p) {
                Some(hit) => Some(hit),
                None => if data.flags.pointer_opaque && spec_contains_i32(data.rect, p) {
                    Some(GuiNodeId(node as usize))
                } else {
                    None
                },
            }
        }
    }
}

/// The first hit among the subtrees of `kids[..i]`, trying the last one first.
pub open spec fn pointer_over_kids<D>(
    g: GuiModel<D>,
    kids: Seq<GuiNodeId>,
    i: int,
    parent: int,
    len: int,
    p: IVec2,
) -> Option<GuiNodeId>
    decreases len - parent, 0int, i,
{
    if i <= 0 || i > kids.len() {
        None
    } else {
        let c = kids[i - 1].0 as int;
        let hit = if parent < c < len {
            pointer_over_spec(g, c, len, p)
        } else {
            None
        };
        if hit is Some {
            hit
        } else {
            pointer_over_kids(g, kids, i - 1, parent, len, p)
        }
    }
}

/// `n` with depth `z`.
pub open spec fn with_z<D>(n: GuiNode<D>, z: u16) -> GuiNode<D> {
    GuiNode { z, ..n }
}

/// Every node hidden, except the root.
pub open spec fn reset_visibility<D>(g: GuiModel<D>) -> GuiModel<D> {
    GuiModel {
        nodes: g.nodes.map(
            |i: int, n: Option<GuiNode<D>>|
                match n {
                    Some(x) => Some(GuiNode { visible: i == g.root.0, ..x }),
                    None => None,
                },
        ),
        ..g
    }
}

/// A tree of GUI nodes rooted at one node that covers the viewport.
pub struct Gui<D> {
    nodes: Vec<Option<GuiNode<D>>>,
    children: Vec<Vec<GuiNodeId>>,
    root: GuiNodeId,
}

impl<D> View for Gui<D> {
    type V = GuiModel<D>;

    closed spec fn view(&self) -> GuiModel<D> {
        GuiModel {
            nodes: self.nodes@,
            children: self.children@.map_values(|v: Vec<GuiNodeId>| v@),
            root: self.root,
        }
    }
}

impl<D> Gui<D> {
    /// A GUI whose root node covers `viewport` and draws `root_draw`.
    pub fn new(viewport: IRect, root_draw: D) -> (r: Gui<D>)
        ensures
            r@.wf(),
            r@.nodes.len() == 1,
            r@.children == seq![Seq::<GuiNodeId>::empty()],
            r@.root == GuiNodeId(0),
            ({
                let n = r@.nodes[0]->Some_0;
                &&& r@.nodes[0] is Some
                &&& is_fresh_node(GuiNode { rect: IRect::zero_spec(), ..n }, n.layout, root_draw)
                &&& is_default_layout(n.layout)
                &&& n.rect == viewport
            }),
    {
        let mut root_node = GuiNode::with_draw(root_draw);
        root_node.rect = viewport;
        let mut nodes = Vec::new();
        nodes.push(Some(root_node));
        let mut children = Vec::new();
        children.push(Vec::new());
        let g = Gui { nodes, children, root: GuiNodeId(0) };
        assert(g@.children =~= seq![Seq::<GuiNodeId>::empty()]);
        g
    }

    pub fn root(&self) -> (r: GuiNodeId)
        ensures
            r == self@.root,
    {
        self.root
    }

    /// The node with id `id`, if it is live.
    pub fn get(&self, id: GuiNodeId) -> (r: Option<&GuiNode<D>>)
        ensures
            match r {
                Some(n) => self@.live(id.0 as int) && self@.nodes[id.0 as int] == Some(*n),
                None => !self@.live(id.0 as int),
            },
    {
        if id.0 < self.nodes.len() {
            self.nodes[id.0].as_ref()
        } else {
            None
        }
    }

    /// Whether `id` names a live node.
    pub fn contains(&self, id: GuiNodeId) -> (r: bool)
        ensures
            r == self@.live(id.0 as int),
    {
        id.0 < self.nodes.len() && self.nodes[id.0].is_some()
    }

    /// The ids of all live nodes, in creation order.
    pub fn node_ids(&self) -> (r: Vec<GuiNodeId>)
        ensures
            forall|k: int| 0 <= k < r@.len() ==> self@.live(#[trigger] r@[k].0 as int),
            forall|id: int| self@.live(id) ==> r@.contains(GuiNodeId(id as usize)),
            forall|a: int, b: int| 0 <= a < b < r@.len() ==> r@[a].0 < r@[b].0,
    {
        let mut r: Vec<GuiNodeId> = Vec::new();
        let mut i: usize = 0;
        while i < self.nodes.len()
            invariant
                i <= self.nodes.len(),
                forall|k: int| 0 <= k < r@.len() ==> self@.live(#[trigger] r@[k].0 as int),
                forall|k: int| 0 <= k < r@.len() ==> #[trigger] r@[k].0 < i,
                forall|id: int| 0 <= id < i && self@.live(id) ==> r@.contains(GuiNodeId(id as usize)),
                forall|a: int, b: int| 0 <= a < b < r@.len() ==> r@[a].0 < r@[b].0,
            decreases self.nodes.len() - i,
        {
            let ghost old_r = r@;
            if self.nodes[i].is_some() {
                r.push(GuiNodeId(i));
            }
            proof {
                assert forall|id: int| 0 <= id < i + 1 && self@.live(id) implies r@.contains(
                    GuiNodeId(id as usize),
                ) by {
                    if id == i {
                        assert(r@[r@.len() - 1] == GuiNodeId(i));
                    } else {
                        let k = choose|k: int|
                            0 <= k < old_r.len() && old_r[k] == GuiNodeId(id as usize);
                        assert(r@[k] == old_r[k]);
                    }
                }
            }
            i += 1;
        }
        r
    }

    /// The children recorded under `id` (ids of removed nodes may remain until the next
    /// layout).
    pub fn children_of(&self, id: GuiNodeId) -> (r: Vec<GuiNodeId>)
        requires
            self@.wf(),
        ensures
            id.0 < self@.nodes.len() ==> r@ == self@.children[id.0 as int],
            id.0 >= self@.nodes.len() ==> r@ == Seq::<GuiNodeId>::empty(),
    {
        if id.0 < self.children.len() {
            let r = self.children[id.0].clone();
            assert(r@ == self@.children[id.0 as int]);
            r
        } else {
            Vec::new()
        }
    }

    fn take_node(&mut self, i: usize) -> (r: Option<GuiNode<D>>)
        requires
            i < old(self).nodes.len(),
        ensures
            r == old(self).nodes@[i as int],
            final(self).nodes@ == old(self).nodes@.update(i as int, None),
            final(self).children == old(self).children,
            final(self).root == old(self).root,
    {
        let mut slot = None;
        std::mem::swap(&mut slot, &mut self.nodes[i]);
        slot
    }

    /// Adds `child` as the last child of `parent` and returns its id.
    pub fn add_child(&mut self, parent: GuiNodeId, child: GuiNode<D>) -> (r: GuiNodeId)
        requires
            old(self)@.wf(),
            old(self)@.nodes.len() + 1 < usize::MAX,
        ensures
            final(self)@.wf(),
            r.0 == old(self)@.nodes.len(),
            final(self)@.nodes == old(self)@.nodes.push(Some(child)),
            final(self)@.root == old(self)@.root,
            final(self)@.children == (if parent.0 < old(self)@.nodes.len() {
                old(self)@.children.update(
                    parent.0 as int,
                    old(self)@.children[parent.0 as int].push(r),
                )
            } else {
                old(self)@.children
            }).push(Seq::empty()),
    {
        let ghost old_view = self@;
        let key = GuiNodeId(self.nodes.len());
        self.nodes.push(Some(child));
        if parent.0 < self.children.len() {
            self.children[parent.0].push(key);
        }
        self.children.push(Vec::new());
        let ghost expected = (if parent.0 < old_view.nodes.len() {
            old_view.children.update(parent.0 as int, old_view.children[parent.0 as int].push(key))
        } else {
            old_view.children
        }).push(Seq::empty());
        assert(self@.children =~= expected);
        key
    }

    /// Removes the node `id` and returns it. The root stays: removing it returns `None`.
    pub fn remove(&mut self, id: GuiNodeId) -> (r: Option<GuiNode<D>>)
        requires
            old(self)@.wf(),
        ensures
            final(self)@.wf(),
            final(self)@.root == old(self)@.root,
            final(self)@.children == old(self)@.children,
            if id != old(self)@.root && id.0 < old(self)@.nodes.len() {
                &&& r == old(self)@.nodes[id.0 as int]
                &&& final(self)@.nodes == old(self)@.nodes.update(id.0 as int, None)
            } else {
                &&& r is None
                &&& final(self)@.nodes == old(self)@.nodes
            },
    {
        if id.0 != self.root.0 && id.0 < self.nodes.len() {
            self.take_node(id.0)
        } else {
            None
        }
    }

    /// Lays out the subtree under `node`.
    fn layout(&mut self, node: GuiNodeId)
        requires
            old(self)@.wf(),
            node.0 < old(self)@.nodes.len(),
        ensures
            final(self)@ == layout_spec(old(self)@, node.0 as int, old(self)@.nodes.len() as int),
            final(self)@.wf(),
            final(self)@.nodes.len() == old(self)@.nodes.len(),
            final(self)@.root == old(self)@.root,
        decreases usize::MAX - node.0,
    {
        let ghost g = self@;
        let ghost len = self.nodes@.len() as int;
        let i = node.0;
        let (rect, z0, mut strategy) = match &self.nodes[i] {
            None => {
                return ;
            },
            Some(data) => {
                if !data.visible {
                    return ;
                }
                (
                    data.rect,
                    data.z,
                    ChildLayout::begin(&data.layout.child_layout, data.rect, data.layout.child_spacing),
                )
            },
        };
        let ghost strategy0 = strategy;
        let mut kids: Vec<GuiNodeId> = Vec::new();
        std::mem::swap(&mut kids, &mut self.children[i]);
        assert(kids@ == g.children[i as int]);
        let ghost children_taken = self.children@;
        let mut kept: Vec<GuiNodeId> = Vec::new();
        let mut z = z0;
        let mut k: usize = 0;
        while k < kids.len()
            invariant
                0 <= i < len,
                len == self.nodes@.len(),
                len == g.nodes.len(),
                len == old(self)@.nodes.len(),
                k <= kids@.len(),
                kids@ == g.children[i as int],
                self.children@ == children_taken,
                self.root == g.root,
                g.wf(),
                place_children(self.nodes@, kids@, k as int, strategy, z, kept@) == place_children(
                    g.nodes,
                    kids@,
                    0,
                    strategy0,
                    z0,
                    Seq::empty(),
                ),
                forall|m: int| 0 <= m < kept@.len() ==> i < #[trigger] kept@[m].0 < len,
                forall|m: int| 0 <= m < len ==> (#[trigger] self.nodes@[m] is Some <==> g.nodes[m] is Some),
            decreases kids@.len() - k,
        {
            let c = kids[k];
            assert(i < c.0 < len) by {
                assert(g.children[i as int][k as int] == c);
            }
            let ghost cur = self.nodes@;
            let ghost strategy_before = strategy;
            let ghost z_before = z;
            let ghost kept_before = kept@;
            match self.take_node(c.0) {
                Some(mut child) => {
                    child.visible = child.flags.visible;
                    let rect = strategy.layout_child(&child.layout);
                    child.rect = rect.inset(child.layout.margin);
                    z = z.wrapping_add(1);
                    child.z = z;
                    self.nodes[c.0] = Some(child);
                    kept.push(c);
                    assert(self.nodes@ =~= cur.update(c.0 as int, self.nodes@[c.0 as int]));
                },
                None => {
                    assert(self.nodes@ =~= cur);
                },
            }
            assert(place_children(cur, kids@, k as int, strategy_before, z_before, kept_before)
                == place_children(self.nodes@, kids@, k + 1, strategy, z, kept@));
            k += 1;
        }
        self.children[i] = kept;
        let ghost g2 = self@;
        assert(g2.children =~= g.children.update(i as int, kept@));
        let kept = self.children[i].clone();
        let mut j: usize = 0;
        while j < kept.len()
            invariant
                0 <= i < len,
                i == node.0,
                j <= kept@.len(),
                len == self@.nodes.len(),
                len == old(self)@.nodes.len(),
                self@.wf(),
                self@.root == g.root,
                forall|m: int| 0 <= m < kept@.len() ==> i < #[trigger] kept@[m].0 < len,
                layout_kids(self@, kept@, j as int, i as int, len) == layout_kids(
                    g2,
                    kept@,
                    0,
                    i as int,
                    len,
                ),
            decreases kept@.len() - j,
        {
            let c = kept[j];
            assert(i < c.0 < len) by {
                assert(kept@[j as int] == c);
            }
            self.layout(c);
            j += 1;
        }
    }

    /// The topmost pointer-opaque, visible node under `pointer` in the subtree of `node`.
    fn find_pointer_over(&self, node: GuiNodeId, pointer: IVec2) -> (r: Option<GuiNodeId>)
        requires
            self@.wf(),
            node.0 < self@.nodes.len(),
        ensures
            r == pointer_over_spec(self@, node.0 as int, self@.nodes.len() as int, pointer),
        decreases usize::MAX - node.0,
    {
        let ghost len = self.nodes@.len() as int;
        let i = node.0;
        match &self.nodes[i] {
            None => None,
            Some(data) => {
                if !data.visible {
                    return None;
                }
                let kids = &self.children[i];
                let mut j = kids.len();
                while j > 0
                    invariant
                        0 <= i < len,
                        i == node.0,
                        len == self@.nodes.len(),
                        self@.wf(),
                        j <= kids@.len(),
                        kids@ == self@.children[i as int],
                        self@.nodes[i as int] == Some(*data),
                        data.visible,
                        pointer_over_kids(self@, kids@, j as int, i as int, len, pointer)
                            == pointer_over_kids(self@, kids@, kids@.len() as int, i as int, len, pointer),
                    decreases j,
                {
                    let c = kids[j - 1];
                    assert(i < c.0 < len) by {
                        assert(self@.children[i as int][j - 1] == c);
                    }
                    let hit = self.find_pointer_over(c, pointer);
                    if hit.is_some() {
                        return hit;
                    }
                    j -= 1;
                }
                if data.flags.pointer_opaque && data.rect.contains(pointer) {
                    Some(node)
                } else {
                    None
                }
            },
        }
    }

    /// Recomputes the layout of every node reachable from the root, then returns the
    /// node the pointer is over, if there is a pointer.
    pub fn update(&mut self, pointer: Option<IVec2>) -> (r: Option<GuiNodeId>)
        requires
            old(self)@.wf(),
        ensures
            final(self)@.wf(),
            final(self)@ == layout_spec(
                reset_visibility(old(self)@),
                old(self)@.root.0 as int,
                old(self)@.nodes.len() as int,
            ),
            r == match pointer {
                Some(p) => pointer_over_spec(
                    final(self)@,
                    final(self)@.root.0 as int,
                    final(self)@.nodes.len() as int,
                    p,
                ),
                None => None,
            },
    {
        let ghost g = self@;
        let mut i: usize = 0;
        while i < self.nodes.len()
            invariant
                i <= self.nodes@.len(),
                self.nodes@.len() == g.nodes.len(),
                self.children@.map_values(|v: Vec<GuiNodeId>| v@) == g.children,
                self.root == g.root,
                g.wf(),
                forall|k: int|
                    0 <= k < i ==> #[trigger] self.nodes@[k] == reset_visibility(g).nodes[k],
                forall|k: int| i <= k < self.nodes@.len() ==> #[trigger] self.nodes@[k] == g.nodes[k],
            decreases self.nodes@.len() - i,
        {
            match self.take_node(i) {
                Some(mut n) => {
                    n.visible = i == self.root.0;
                    self.nodes[i] = Some(n);
                },
                None => {},
            }
            i += 1;
        }
        assert(self@ =~= reset_visibility(g));
        let root = self.root;
        self.layout(root);
        match pointer {
            Some(p) => self.find_pointer_over(root, p),
            None => None,
        }
    }

    /// Sets the depth of the root node.
    pub fn set_root_z(&mut self, z: u16)
        requires
            old(self)@.wf(),
        ensures
            final(self)@.wf(),
            final(self)@.root == old(self)@.root,
            final(self)@.children == old(self)@.children,
            final(self)@.nodes == old(self)@.nodes.update(
                old(self)@.root.0 as int,
                Some(with_z(old(self)@.nodes[old(self)@.root.0 as int]->Some_0, z)),
            ),
    {
        let root = self.root;
        let ghost old_nodes = self@.nodes;
        match self.take_node(root.0) {
            Some(mut n) => {
                n.z = z;
                self.nodes[root.0] = Some(n);
            },
            None => {},
        }
        assert(self@.nodes =~= old_nodes.update(
            root.0 as int,
            Some(with_z(old_nodes[root.0 as int]->Some_0, z)),
        ));
    }
}

/// The model with the live node `id` replaced by `n`; unchanged if `id` is not live.
pub open spec fn edit_node<D>(g: GuiModel<D>, id: GuiNodeId, n: GuiNode<D>) -> GuiModel<D> {
    if g.live(id.0 as int) {
        GuiModel { nodes: g.nodes.update(id.0 as int, Some(n)), ..g }
    } else {
        g
    }
}

/// The live node `id` (meaningful only when it is live).
pub open spec fn node_at<D>(g: GuiModel<D>, id: GuiNodeId) -> GuiNode<D> {
    g.nodes[id.0 as int]->Some_0
}

impl<D> Gui<D> {
    /// Puts `n` back into the slot `id`, which `take_node` emptied.
    fn restore_node(&mut self, id: GuiNodeId, n: GuiNode<D>)
        requires
            id.0 < old(self).nodes@.len(),
        ensures
            final(self).nodes@ == old(self).nodes@.update(id.0 as int, Some(n)),
            final(self).children == old(self).children,
            final(self).root == old(self).root,
    {
        self.nodes[id.0] = Some(n);
    }

    /// Shows or hides the node `id` (a hidden node hides its whole subtree).
    pub fn set_visible(&mut self, id: GuiNodeId, visible: bool)
        requires
            old(self)@.wf(),
        ensures
            final(self)@.wf(),
            final(self)@ == edit_node(
                old(self)@,
                id,
                (GuiNode {
                    flags: NodeFlags { visible, ..node_at(old(self)@, id).flags },
                    ..node_at(old(self)@, id)
                }),
            ),
    {
        let ghost g = self@;
        if id.0 < self.nodes.len() {
            match self.take_node(id.0) {
                Some(mut n) => {
                    n.flags.visible = visible;
                    self.restore_node(id, n);
                    assert(self@.nodes =~= g.nodes.update(id.0 as int, self@.nodes[id.0 as int]));
                },
                None => {
                    assert(self@.nodes =~= g.nodes);
                },
            }
        }
    }

    /// Makes the node `id` catch the pointer, or let it through.
    pub fn set_pointer_opaque(&mut self, id: GuiNodeId, pointer_opaque: bool)
        requires
            old(self)@.wf(),
        ensures
            final(self)@.wf(),
            final(self)@ == edit_node(
                old(self)@,
                id,
                (GuiNode {
                    flags: NodeFlags { pointer_opaque, ..node_at(old(self)@, id).flags },
                    ..node_at(old(self)@, id)
                }),
            ),
    {
        let ghost g = self@;
        if id.0 < self.nodes.len() {
            match self.take_node(id.0) {
                Some(mut n) => {
                    n.flags.pointer_opaque = pointer_opaque;
                    self.restore_node(id, n);
                    assert(self@.nodes =~= g.nodes.update(id.0 as int, self@.nodes[id.0 as int]));
                },
                None => {
                    assert(self@.nodes =~= g.nodes);
                },
            }
        }
    }

    /// Replaces what the node `id` draws.
    pub fn set_draw(&mut self, id: GuiNodeId, draw: D)
        requires
            old(self)@.wf(),
        ensures
            final(self)@.wf(),
            final(self)@ == edit_node(old(self)@, id, (GuiNode { draw, ..node_at(old(self)@, id) })),
    {
        let ghost g = self@;
        if id.0 < self.nodes.len() {
            match self.take_node(id.0) {
                Some(mut n) => {
                    n.draw = draw;
                    self.restore_node(id, n);
                    assert(self@.nodes =~= g.nodes.update(id.0 as int, self@.nodes[id.0 as int]));
                },
                None => {
                    assert(self@.nodes =~= g.nodes);
                },
            }
        }
    }

    /// Replaces how the node `id` asks to be placed.
    pub fn set_layout(&mut self, id: GuiNodeId, layout: NodeLayout)
        requires
            old(self)@.wf(),
        ensures
            final(self)@.wf(),
            final(self)@ == edit_node(old(self)@, id, (GuiNode { layout, ..node_at(old(self)@, id) })),
    {
        let ghost g = self@;
        if id.0 < self.nodes.len() {
            match self.take_node(id.0) {
                Some(mut n) => {
                    n.layout = layout;
                    self.restore_node(id, n);
                    assert(self@.nodes =~= g.nodes.update(id.0 as int, self@.nodes[id.0 as int]));
                },
                None => {
                    assert(self@.nodes =~= g.nodes);
                },
            }
        }
    }

    /// Sets the offset added to the node's rectangle when it is drawn.
    pub fn set_offset(&mut self, id: GuiNodeId, offset: IRect)
        requires
            old(self)@.wf(),
        ensures
            final(self)@.wf(),
            final(self)@ == edit_node(old(self)@, id, (GuiNode { offset, ..node_at(old(self)@, id) })),
    {
        let ghost g = self@;
        if id.0 < self.nodes.len() {
            match self.take_node(id.0) {
                Some(mut n) => {
                    n.offset = offset;
                    self.restore_node(id, n);
                    assert(self@.nodes =~= g.nodes.update(id.0 as int, self@.nodes[id.0 as int]));
                },
                None => {
                    assert(self@.nodes =~= g.nodes);
                },
            }
        }
    }

    /// Names the strategy that places the children of `id` (`hbox`, `vbox`, or anchors).
    pub fn set_child_layout(&mut self, id: GuiNodeId, child_layout: String)
        requires
            old(self)@.wf(),
        ensures
            final(self)@.wf(),
            final(self)@ == edit_node(
                old(self)@,
                id,
                (GuiNode {
                    layout: NodeLayout { child_layout, ..node_at(old(self)@, id).layout },
                    ..node_at(old(self)@, id)
                }),
            ),
    {
        let ghost g = self@;
        if id.0 < self.nodes.len() {
            match self.take_node(id.0) {
                Some(mut n) => {
                    n.layout.child_layout = child_layout;
                    self.restore_node(id, n);
                    assert(self@.nodes =~= g.nodes.update(id.0 as int, self@.nodes[id.0 as int]));
                },
                None => {
                    assert(self@.nodes =~= g.nodes);
                },
            }
        }
    }

    /// Sets the space left between the children of `id` by box layouts.
    pub fn set_child_spacing(&mut self, id: GuiNodeId, spacing: i32)
        requires
            old(self)@.wf(),
        ensures
            final(self)@.wf(),
            final(self)@ == edit_node(
                old(self)@,
                id,
                (GuiNode {
                    layout: NodeLayout { child_spacing: spacing, ..node_at(old(self)@, id).layout },
                    ..node_at(old(self)@, id)
                }),
            ),
    {
        let ghost g = self@;
        if id.0 < self.nodes.len() {
            match self.take_node(id.0) {
                Some(mut n) => {
                    n.layout.child_spacing = spacing;
                    self.restore_node(id, n);
                    assert(self@.nodes =~= g.nodes.update(id.0 as int, self@.nodes[id.0 as int]));
                },
                None => {
                    assert(self@.nodes =~= g.nodes);
                },
            }
        }
    }

    /// Sets the size the node `id` asks for (zero on an axis fills the parent).
    pub fn set_layout_size(&mut self, id: GuiNodeId, size: IVec2)
        requires
            old(self)@.wf(),
        ensures
            final(self)@.wf(),
            final(self)@ == edit_node(
                old(self)@,
                id,
                (GuiNode {
                    layout: NodeLayout { size, ..node_at(old(self)@, id).layout },
                    ..node_at(old(self)@, id)
                }),
            ),
    {
        let ghost g = self@;
        if id.0 < self.nodes.len() {
            match self.take_node(id.0) {
                Some(mut n) => {
                    n.layout.size = size;
                    self.restore_node(id, n);
                    assert(self@.nodes =~= g.nodes.update(id.0 as int, self@.nodes[id.0 as int]));
                },
                None => {
                    assert(self@.nodes =~= g.nodes);
                },
            }
        }
    }

    /// Sets the margin around the node `id`.
    pub fn set_layout_margin(&mut self, id: GuiNodeId, margin: EdgeRect)
        requires
            old(self)@.wf(),
        ensures
            final(self)@.wf(),
            final(self)@ == edit_node(
                old(self)@,
                id,
                (GuiNode {
                    layout: NodeLayout { margin, ..node_at(old(self)@, id).layout },
                    ..node_at(old(self)@, id)
                }),
            ),
    {
        let ghost g = self@;
        if id.0 < self.nodes.len() {
            match self.take_node(id.0) {
                Some(mut n) => {
                    n.layout.margin = margin;
                    self.restore_node(id, n);
                    assert(self@.nodes =~= g.nodes.update(id.0 as int, self@.nodes[id.0 as int]));
                },
                None => {
                    assert(self@.nodes =~= g.nodes);
                },
            }
        }
    }

    /// Sets the width the node `id` asks for.
    pub fn set_layout_width(&mut self, id: GuiNodeId, width: i32)
        requires
            old(self)@.wf(),
        ensures
            final(self)@.wf(),
            final(self)@ == edit_node(
                old(self)@,
                id,
                (GuiNode {
                    layout: NodeLayout {
                        size: IVec2 { x: width, ..node_at(old(self)@, id).layout.size },
                        ..node_at(old(self)@, id).layout
                    },
                    ..node_at(old(self)@, id)
                }),
            ),
    {
        let ghost g = self@;
        if id.0 < self.nodes.len() {
            match self.take_node(id.0) {
                Some(mut n) => {
                    n.layout.size.x = width;
                    self.restore_node(id, n);
                    assert(self@.nodes =~= g.nodes.update(id.0 as int, self@.nodes[id.0 as int]));
                },
                None => {
                    assert(self@.nodes =~= g.nodes);
                },
            }
        }
    }

    /// Sets the height the node `id` asks for.
    pub fn set_layout_height(&mut self, id: GuiNodeId, height: i32)
        requires
            old(self)@.wf(),
        ensures
            final(self)@.wf(),
            final(self)@ == edit_node(
                old(self)@,
                id,
                (GuiNode {
                    layout: NodeLayout {
                        size: IVec2 { y: height, ..node_at(old(self)@, id).layout.size },
                        ..node_at(old(self)@, id).layout
                    },
                    ..node_at(old(self)@, id)
                }),
            ),
    {
        let ghost g = self@;
        if id.0 < self.nodes.len() {
            match self.take_node(id.0) {
                Some(mut n) => {
                    n.layout.size.y = height;
                    self.restore_node(id, n);
                    assert(self@.nodes =~= g.nodes.update(id.0 as int, self@.nodes[id.0 as int]));
                },
                None => {
                    assert(self@.nodes =~= g.nodes);
                },
            }
        }
    }
}

/// `h` is a live, visible, pointer-opaque node whose rectangle contains `p`.
pub open spec fn is_pointer_target<D>(g: GuiModel<D>, h: GuiNodeId, p: IVec2) -> bool {
    &&& g.live(h.0 as int)
    &&& g.nodes[h.0 as int]->Some_0.visible
    &&& g.nodes[h.0 as int]->Some_0.flags.pointer_opaque
    &&& spec_contains_i32(g.nodes[h.0 as int]->Some_0.rect, p)
}

/// Whatever node the pointer search returns is live, visible and pointer-opaque, and its
/// rectangle contains the pointer.
pub proof fn lemma_pointer_target<D>(g: GuiModel<D>, node: int, len: int, p: IVec2)
    requires
        g.wf(),
    ensures
        pointer_over_spec(g, node, len, p) is Some ==> is_pointer_target(
            g,
            pointer_over_spec(g, node, len, p)->Some_0,
            p,
        ),
    decreases len - node, 1int, 0int,
{
    if 0 <= node < len && node < g.nodes.len() && node < g.children.len() && g.nodes[node] is Some
        && g.nodes[node]->Some_0.visible {
        let kids = g.children[node];
        lemma_pointer_target_kids(g, kids, kids.len() as int, node, len, p);
    }
}

/// The pointer search among a node's children returns only pointer targets.
pub proof fn lemma_pointer_target_kids<D>(
    g: GuiModel<D>,
    kids: Seq<GuiNodeId>,
    i: int,
    parent: int,
    len: int,
    p: IVec2,
)
    requires
        g.wf(),
    ensures
        pointer_over_kids(g, kids, i, parent, len, p) is Some ==> is_pointer_target(
            g,
            pointer_over_kids(g, kids, i, parent, len, p)->Some_0,
            p,
        ),
    decreases len - parent, 0int, i,
{
    if 0 < i <= kids.len() {
        let c = kids[i - 1].0 as int;
        if parent < c < len {
            lemma_pointer_target(g, c, len, p);
        }
        lemma_pointer_target_kids(g, kids, i - 1, parent, len, p);
    }
}

/// `b` has the same live slots as `a`, and each live node keeps its flags, layout, draw
/// and offset.
pub open spec fn same_nodes<D>(a: Seq<Option<GuiNode<D>>>, b: Seq<Option<GuiNode<D>>>) -> bool {
    &&& a.len() == b.len()
    &&& forall|n: int| 0 <= n < a.len() ==> (#[trigger] a[n] is Some <==> b[n] is Some)
    &&& forall|n: int|
        0 <= n < a.len() && #[trigger] a[n] is Some ==> {
            &&& b[n]->Some_0.flags == a[n]->Some_0.flags
            &&& b[n]->Some_0.layout == a[n]->Some_0.layout
            &&& b[n]->Some_0.draw == a[n]->Some_0.draw
            &&& b[n]->Some_0.offset == a[n]->Some_0.offset
        }
}

proof fn lemma_same_nodes_trans<D>(
    a: Seq<Option<GuiNode<D>>>,
    b: Seq<Option<GuiNode<D>>>,
    c: Seq<Option<GuiNode<D>>>,
)
    requires
        same_nodes(a, b),
        same_nodes(b, c),
    ensures
        same_nodes(a, c),
{
    assert forall|n: int| 0 <= n < a.len() && #[trigger] a[n] is Some implies {
        &&& c[n]->Some_0.flags == a[n]->Some_0.flags
        &&& c[n]->Some_0.layout == a[n]->Some_0.layout
        &&& c[n]->Some_0.draw == a[n]->Some_0.draw
        &&& c[n]->Some_0.offset == a[n]->Some_0.offset
    } by {
        assert(b[n] is Some);
    }
}

/// Placing children changes only their visibility, rectangle and depth.
pub proof fn lemma_place_children_same_nodes<D>(
    nodes: Seq<Option<GuiNode<D>>>,
    kids: Seq<GuiNodeId>,
    i: int,
    strategy: ChildLayout,
    z: u16,
    kept: Seq<GuiNodeId>,
)
    ensures
        same_nodes(nodes, place_children(nodes, kids, i, strategy, z, kept).0),
    decreases kids.len() - i,
{
    if 0 <= i < kids.len() {
        let c = kids[i].0 as int;
        if 0 <= c < nodes.len() && nodes[c] is Some {
            let node = nodes[c]->Some_0;
            let (next, rect) = strategy.spec_step(node.layout);
            let z2 = z.wrapping_add(1);
            let placed = GuiNode {
                visible: node.flags.visible,
                rect: spec_inset(rect, node.layout.margin),
                z: z2,
                ..node
            };
            let nodes2 = nodes.update(c, Some(placed));
            lemma_place_children_same_nodes(nodes2, kids, i + 1, next, z2, kept.push(kids[i]));
            assert(same_nodes(nodes, nodes2));
            lemma_same_nodes_trans(
                nodes,
                nodes2,
                place_children(nodes2, kids, i + 1, next, z2, kept.push(kids[i])).0,
            );
        } else {
            lemma_place_children_same_nodes(nodes, kids, i + 1, strategy, z, kept);
        }
    }
}

/// Layout never adds or removes a node, never changes the root or what a node asks
/// for (its flags, layout, draw and offset): it only computes where nodes go.
pub proof fn lemma_layout_same_nodes<D>(g: GuiModel<D>, node: int, len: int)
    ensures
        same_nodes(g.nodes, layout_spec(g, node, len).nodes),
        layout_spec(g, node, len).root == g.root,
        layout_spec(g, node, len).children.len() == g.children.len(),
    decreases len - node, 1int, 0int,
{
    if 0 <= node < len && node < g.nodes.len() && node < g.children.len() && g.nodes[node] is Some
        && g.nodes[node]->Some_0.visible {
        let data = g.nodes[node]->Some_0;
        let strategy = spec_begin(data.layout.child_layout@, data.rect, data.layout.child_spacing);
        let (nodes2, kept) = place_children(
            g.nodes,
            g.children[node],
            0,
            strategy,
            data.z,
            Seq::empty(),
        );
        lemma_place_children_same_nodes(
            g.nodes,
            g.children[node],
            0,
            strategy,
            data.z,
            Seq::empty(),
        );
        let g2 = GuiModel { nodes: nodes2, children: g.children.update(node, kept), root: g.root };
        lemma_layout_kids_same_nodes(g2, kept, 0, node, len);
        lemma_same_nodes_trans(g.nodes, nodes2, layout_kids(g2, kept, 0, node, len).nodes);
    }
}

/// Laying out the subtrees of several children keeps the nodes as `lemma_layout_same_nodes`
/// says.
pub proof fn lemma_layout_kids_same_nodes<D>(
    g: GuiModel<D>,
    kids: Seq<GuiNodeId>,
    i: int,
    parent: int,
    len: int,
)
    ensures
        same_nodes(g.nodes, layout_kids(g, kids, i, parent, len).nodes),
        layout_kids(g, kids, i, parent, len).root == g.root,
        layout_kids(g, kids, i, parent, len).children.len() == g.children.len(),
    decreases len - parent, 0int, kids.len() - i,
{
    if 0 <= i < kids.len() {
        let c = kids[i].0 as int;
        let g2 = if parent < c < len {
            layout_spec(g, c, len)
        } else {
            g
        };
        if parent < c < len {
            lemma_layout_same_nodes(g, c, len);
        }
        lemma_layout_kids_same_nodes(g2, kids, i + 1, parent, len);
        lemma_same_nodes_trans(g.nodes, g2.nodes, layout_kids(g2, kids, i + 1, parent, len).nodes);
    }
}

/// Only the root, and nodes whose own `visible` flag is set, are shown.
pub open spec fn shown_only_if_flagged<D>(nodes: Seq<Option<GuiNode<D>>>, root: GuiNodeId) -> bool {
    forall|n: int|
        0 <= n < nodes.len() && #[trigger] nodes[n] is Some && nodes[n]->Some_0.visible ==> n
            == root.0 || nodes[n]->Some_0.flags.visible
}

proof fn lemma_place_children_shown<D>(
    nodes: Seq<Option<GuiNode<D>>>,
    root: GuiNodeId,
    kids: Seq<GuiNodeId>,
    i: int,
    strategy: ChildLayout,
    z: u16,
    kept: Seq<GuiNodeId>,
)
    requires
        shown_only_if_flagged(nodes, root),
    ensures
        shown_only_if_flagged(place_children(nodes, kids, i, strategy, z, kept).0, root),
    decreases kids.len() - i,
{
    if 0 <= i < kids.len() {
        let c = kids[i].0 as int;
        if 0 <= c < nodes.len() && nodes[c] is Some {
            let node = nodes[c]->Some_0;
            let (next, rect) = strategy.spec_step(node.layout);
            let z2 = z.wrapping_add(1);
            let placed = GuiNode {
                visible: node.flags.visible,
                rect: spec_inset(rect, node.layout.margin),
                z: z2,
                ..node
            };
            let nodes2 = nodes.update(c, Some(placed));
            lemma_place_children_shown(nodes2, root, kids, i + 1, next, z2, kept.push(kids[i]));
        } else {
            lemma_place_children_shown(nodes, root, kids, i + 1, strategy, z, kept);
        }
    }
}

proof fn lemma_layout_shown<D>(g: GuiModel<D>, node: int, len: int)
    requires
        shown_only_if_flagged(g.nodes, g.root),
    ensures
        shown_only_if_flagged(layout_spec(g, node, len).nodes, g.root),
    decreases len - node, 1int, 0int,
{
    if 0 <= node < len && node < g.nodes.len() && node < g.children.len() && g.nodes[node] is Some
        && g.nodes[node]->Some_0.visible {
        let data = g.nodes[node]->Some_0;
        let strategy = spec_begin(data.layout.child_layout@, data.rect, data.layout.child_spacing);
        let (nodes2, kept) = place_children(
            g.nodes,
            g.children[node],
            0,
            strategy,
            data.z,
            Seq::empty(),
        );
        lemma_place_children_shown(
            g.nodes,
            g.root,
            g.children[node],
            0,
            strategy,
            data.z,
            Seq::empty(),
        );
        let g2 = GuiModel { nodes: nodes2, children: g.children.update(node, kept), root: g.root };
        lemma_layout_kids_shown(g2, kept, 0, node, len);
    }
}

proof fn lemma_layout_kids_shown<D>(
    g: GuiModel<D>,
    kids: Seq<GuiNodeId>,
    i: int,
    parent: int,
    len: int,
)
    requires
        shown_only_if_flagged(g.nodes, g.root),
    ensures
        shown_only_if_flagged(layout_kids(g, kids, i, parent, len).nodes, g.root),
    decreases len - parent, 0int, kids.len() - i,
{
    if 0 <= i < kids.len() {
        let c = kids[i].0 as int;
        if parent < c < len {
            lemma_layout_shown(g, c, len);
            lemma_layout_same_nodes(g, c, len);
            lemma_layout_kids_shown(layout_spec(g, c, len), kids, i + 1, parent, len);
        } else {
            lemma_layout_kids_shown(g, kids, i + 1, parent, len);
        }
    }
}

/// After an update, a node is shown only if it is the root or its own `visible` flag is
/// set: hiding a node through its flags keeps it hidden.
pub proof fn lemma_update_shows_only_flagged<D>(g: GuiModel<D>)
    requires
        g.wf(),
    ensures
        shown_only_if_flagged(
            layout_spec(reset_visibility(g), g.root.0 as int, g.nodes.len() as int).nodes,
            g.root,
        ),
{
    let r = reset_visibility(g);
    assert(shown_only_if_flagged(r.nodes, r.root));
    lemma_layout_shown(r, g.root.0 as int, g.nodes.len() as int);
}

/// The ids listed in `kids` from position `i` on.
pub open spec fn ids_from(kids: Seq<GuiNodeId>, i: int) -> Set<int> {
    Set::new(|x: int| exists|k: int| i <= k < kids.len() && #[trigger] kids[k].0 == x)
}

/// Every slot has a child list, and every child's id lies above its parent's and below
/// `len`.
pub open spec fn ids_ok<D>(g: GuiModel<D>, len: int) -> bool {
    &&& g.nodes.len() == len
    &&& g.children.len() == len
    &&& forall|n: int, k: int|
        0 <= n < len && 0 <= k < g.children[n].len() ==> n < #[trigger] g.children[n][k].0 < len
}

/// Node `n` is live and shown.
pub open spec fn shown<D>(nodes: Seq<Option<GuiNode<D>>>, n: int) -> bool {
    0 <= n < nodes.len() && nodes[n] is Some && nodes[n]->Some_0.visible
}

/// Every live child listed under `p` whose own `visible` flag is set is shown.
pub open spec fn flagged_kids_shown<D>(g: GuiModel<D>, p: int) -> bool {
    forall|k: int|
        0 <= k < g.children[p].len() ==> {
            let c = #[trigger] g.children[p][k].0 as int;
            (0 <= c < g.nodes.len() && g.nodes[c] is Some && g.nodes[c]->Some_0.flags.visible)
                ==> g.nodes[c]->Some_0.visible
        }
}

/// Every shown node outside `pending` shows its flagged children.
pub open spec fn kids_shown_except<D>(g: GuiModel<D>, pending: Set<int>) -> bool {
    forall|p: int| #[trigger] shown(g.nodes, p) && !pending.contains(p) ==> flagged_kids_shown(g, p)
}

/// Node `n` is listed under some shown node.
pub open spec fn has_shown_parent<D>(g: GuiModel<D>, n: int) -> bool {
    exists|p: int, k: int|
        #![trigger g.children[p][k]]
        shown(g.nodes, p) && 0 <= k < g.children[p].len() && g.children[p][k].0 == n
}

/// Every shown node other than the first is listed under a shown node.
pub open spec fn parents_shown<D>(g: GuiModel<D>) -> bool {
    forall|n: int| #[trigger] shown(g.nodes, n) && n != 0 ==> has_shown_parent(g, n)
}

proof fn lemma_kids_shown_weaken<D>(g: GuiModel<D>, a: Set<int>, b: Set<int>)
    requires
        kids_shown_except(g, a),
        a.subset_of(b),
    ensures
        kids_shown_except(g, b),
{
}

/// Placing children sets each live child's `visible` to its flag and touches no other
/// node's; the ids kept are the live children, in order.
proof fn lemma_place_children_visibility<D>(
    nodes: Seq<Option<GuiNode<D>>>,
    kids: Seq<GuiNodeId>,
    i: int,
    strategy: ChildLayout,
    z: u16,
    kept: Seq<GuiNodeId>,
)
    requires
        0 <= i,
    ensures
        ({
            let (r, kept2) = place_children(nodes, kids, i, strategy, z, kept);
            &&& r.len() == nodes.len()
            &&& forall|n: int| 0 <= n < nodes.len() ==> (#[trigger] r[n] is Some) == (nodes[n] is Some)
            &&& forall|n: int|
                0 <= n < nodes.len() && nodes[n] is Some ==> #[trigger] r[n]->Some_0.visible == (
                if ids_from(kids, i).contains(n) {
                    nodes[n]->Some_0.flags.visible
                } else {
                    nodes[n]->Some_0.visible
                })
            &&& forall|n: int| 0 <= n < nodes.len() && nodes[n] is Some ==> #[trigger] r[n]->Some_0.flags
                == nodes[n]->Some_0.flags
            &&& kept2.len() >= kept.len()
            &&& forall|k: int| 0 <= k < kept.len() ==> kept2[k] == kept[k]
            &&& forall|k: int|
                kept.len() <= k < kept2.len() ==> {
                    let c = #[trigger] kept2[k].0 as int;
                    &&& ids_from(kids, i).contains(c)
                    &&& 0 <= c < nodes.len()
                    &&& nodes[c] is Some
                }
            &&& forall|n: int|
                0 <= n < nodes.len() && nodes[n] is Some && #[trigger] ids_from(kids, i).contains(n)
                    ==> ids_from(kept2, kept.len() as int).contains(n)
        }),
    decreases kids.len() - i,
{
    if i >= kids.len() {
        assert forall|n: int| !#[trigger] ids_from(kids, i).contains(n) by {}
    } else {
        let c = kids[i].0 as int;
        assert forall|n: int| n != c implies #[trigger] ids_from(kids, i).contains(n) == ids_from(
            kids,
            i + 1,
        ).contains(n) by {
            if ids_from(kids, i).contains(n) {
                let k = choose|k: int| i <= k < kids.len() && #[trigger] kids[k].0 == n;
                assert(k != i);
            }
            if ids_from(kids, i + 1).contains(n) {
                let k = choose|k: int| i + 1 <= k < kids.len() && #[trigger] kids[k].0 == n;
                assert(i <= k);
            }
        }
        assert(ids_from(kids, i).contains(c)) by {
            assert(kids[i].0 == c);
        }
        if 0 <= c < nodes.len() && nodes[c] is Some {
            let node = nodes[c]->Some_0;
            let (next, rect) = strategy.spec_step(node.layout);
            let z2 = z.wrapping_add(1);
            let placed = GuiNode {
                visible: node.flags.visible,
                rect: spec_inset(rect, node.layout.margin),
                z: z2,
                ..node
            };
            let nodes2 = nodes.update(c, Some(placed));
            let kept1 = kept.push(kids[i]);
            lemma_place_children_visibility(nodes2, kids, i + 1, next, z2, kept1);
            let (r, kept2) = place_children(nodes2, kids, i + 1, next, z2, kept1);
            assert(place_children(nodes, kids, i, strategy, z, kept) == (r, kept2));
            assert forall|k: int| kept.len() <= k < kept2.len() implies {
                let cc = #[trigger] kept2[k].0 as int;
                &&& ids_from(kids, i).contains(cc)
                &&& 0 <= cc < nodes.len()
                &&& nodes[cc] is Some
            } by {
                if k == kept.len() {
                    assert(kept2[k] == kept1[k]);
                } else {
                    let cc = kept2[k].0 as int;
                    assert(ids_from(kids, i + 1).contains(cc));
                    let w = choose|w: int| i + 1 <= w < kids.len() && #[trigger] kids[w].0 == cc;
                    assert(i <= w < kids.len() && kids[w].0 == cc);
                }
            }
            assert forall|n: int|
                0 <= n < nodes.len() && nodes[n] is Some && #[trigger] ids_from(kids, i).contains(n)
                    implies ids_from(kept2, kept.len() as int).contains(n) by {
                if n == c {
                    assert(kept2[kept.len() as int] == kept1[kept.len() as int]);
                    assert(kept2[kept.len() as int].0 == n);
                } else {
                    assert(ids_from(kids, i + 1).contains(n));
                    assert(ids_from(kept2, kept1.len() as int).contains(n));
                    let w = choose|w: int|
                        kept1.len() <= w < kept2.len() && #[trigger] kept2[w].0 == n;
                    assert(kept.len() <= w < kept2.len() && kept2[w].0 == n);
                }
            }
        } else {
            lemma_place_children_visibility(nodes, kids, i + 1, strategy, z, kept);
            let (r, kept2) = place_children(nodes, kids, i + 1, strategy, z, kept);
            assert forall|k: int| kept.len() <= k < kept2.len() implies {
                let cc = #[trigger] kept2[k].0 as int;
                &&& ids_from(kids, i).contains(cc)
                &&& 0 <= cc < nodes.len()
                &&& nodes[cc] is Some
            } by {
                let cc = kept2[k].0 as int;
                assert(ids_from(kids, i + 1).contains(cc));
                let w = choose|w: int| i + 1 <= w < kids.len() && #[trigger] kids[w].0 == cc;
                assert(i <= w < kids.len() && kids[w].0 == cc);
            }
            assert forall|n: int|
                0 <= n < nodes.len() && nodes[n] is Some && #[trigger] ids_from(kids, i).contains(n)
                    implies ids_from(kept2, kept.len() as int).contains(n) by {
                assert(n != c);
                assert(ids_from(kids, i + 1).contains(n));
            }
        }
    }
}

/// Laying out the subtree under `node` finishes `node`: afterwards every shown node that
/// is not still pending shows its flagged children. Child ids stay ordered and the first
/// node stays shown.
proof fn lemma_layout_shows_kids<D>(g: GuiModel<D>, node: int, len: int, pending: Set<int>)
    requires
        ids_ok(g, len),
        kids_shown_except(g, pending),
        g.root.0 == 0,
        shown_only_if_flagged(g.nodes, g.root),
        parents_shown(g),
    ensures
        ids_ok(layout_spec(g, node, len), len),
        kids_shown_except(layout_spec(g, node, len), pending.remove(node)),
        shown(g.nodes, 0) ==> shown(layout_spec(g, node, len).nodes, 0),
        layout_spec(g, node, len).root == g.root,
        shown_only_if_flagged(layout_spec(g, node, len).nodes, g.root),
        parents_shown(layout_spec(g, node, len)),
    decreases len - node, 1int, 0int,
{
    lemma_layout_shown(g, node, len);
    lemma_layout_same_nodes(g, node, len);
    if 0 <= node < len && node < g.nodes.len() && node < g.children.len() && g.nodes[node] is Some
        && g.nodes[node]->Some_0.visible {
        let data = g.nodes[node]->Some_0;
        let strategy = spec_begin(data.layout.child_layout@, data.rect, data.layout.child_spacing);
        let kids = g.children[node];
        let (nodes2, kept) = place_children(g.nodes, kids, 0, strategy, data.z, Seq::empty());
        lemma_place_children_visibility(g.nodes, kids, 0, strategy, data.z, Seq::empty());
        let g2 = GuiModel { nodes: nodes2, children: g.children.update(node, kept), root: g.root };
        let p2 = pending.remove(node).union(ids_from(kept, 0));
        assert forall|k: int| 0 <= k < kept.len() implies node < #[trigger] kept[k].0 < len by {
            let c = kept[k].0 as int;
            assert(ids_from(kids, 0).contains(c));
            let w = choose|w: int| 0 <= w < kids.len() && #[trigger] kids[w].0 == c;
            assert(node < kids[w].0 < len);
        }
        assert(ids_ok(g2, len)) by {
            assert forall|n: int, k: int|
                0 <= n < len && 0 <= k < g2.children[n].len() implies n
                < #[trigger] g2.children[n][k].0 < len by {
                if n != node {
                    assert(g2.children[n] == g.children[n]);
                }
            }
        }
        assert(!ids_from(kids, 0).contains(0)) by {
            if ids_from(kids, 0).contains(0) {
                let w = choose|w: int| 0 <= w < kids.len() && #[trigger] kids[w].0 == 0;
                assert(node < kids[w].0);
            }
        }
        assert(kids_shown_except(g2, p2)) by {
            assert forall|p: int| #[trigger] shown(g2.nodes, p) && !p2.contains(p) implies flagged_kids_shown(
                g2,
                p,
            ) by {
                if p == node {
                    assert forall|k: int| 0 <= k < g2.children[p].len() implies {
                        let c = #[trigger] g2.children[p][k].0 as int;
                        (0 <= c < g2.nodes.len() && g2.nodes[c] is Some
                            && g2.nodes[c]->Some_0.flags.visible) ==> g2.nodes[c]->Some_0.visible
                    } by {
                        assert(g2.children[p][k] == kept[k]);
                    }
                } else {
                    assert(g.nodes[p] is Some);
                    if ids_from(kids, 0).contains(p) {
                        assert(ids_from(kept, 0).contains(p));
                        assert(false);
                    }
                    assert(shown(g.nodes, p));
                    assert(!pending.contains(p));
                    assert(flagged_kids_shown(g, p));
                    assert(g2.children[p] == g.children[p]);
                    assert forall|k: int| 0 <= k < g2.children[p].len() implies {
                        let c = #[trigger] g2.children[p][k].0 as int;
                        (0 <= c < g2.nodes.len() && g2.nodes[c] is Some
                            && g2.nodes[c]->Some_0.flags.visible) ==> g2.nodes[c]->Some_0.visible
                    } by {
                        let c = g.children[p][k].0 as int;
                        assert(g.children[p][k] == g2.children[p][k]);
                    }
                }
            }
        }
        assert forall|k: int| 0 <= k < kept.len() implies node < #[trigger] kept[k].0 by {}
        lemma_place_children_shown(g.nodes, g.root, kids, 0, strategy, data.z, Seq::empty());
        assert(parents_shown(g2)) by {
            assert forall|n: int| #[trigger] shown(g2.nodes, n) && n != 0 implies has_shown_parent(
                g2,
                n,
            ) by {
                if ids_from(kids, 0).contains(n) {
                    assert(ids_from(kept, 0).contains(n));
                    let k = choose|k: int| 0 <= k < kept.len() && #[trigger] kept[k].0 == n;
                    assert(!ids_from(kids, 0).contains(node)) by {
                        if ids_from(kids, 0).contains(node) {
                            let w = choose|w: int| 0 <= w < kids.len() && #[trigger] kids[w].0 == node;
                            assert(node < kids[w].0);
                        }
                    }
                    assert(shown(g2.nodes, node));
                    assert(g2.children[node][k] == kept[k]);
                } else {
                    assert(shown(g.nodes, n));
                    assert(has_shown_parent(g, n));
                    let (p, k) = choose|p: int, k: int|
                        #![trigger g.children[p][k]]
                        shown(g.nodes, p) && 0 <= k < g.children[p].len() && g.children[p][k].0 == n;
                    if p == node {
                        assert(kids[k].0 == n);
                        assert(ids_from(kids, 0).contains(n));
                    }
                    assert(g2.children[p] == g.children[p]);
                    if p != 0 {
                        assert(g.nodes[p]->Some_0.flags.visible);
                    }
                    assert(shown(g2.nodes, p));
                    assert(g2.children[p][k].0 == n);
                }
            }
        }
        lemma_layout_kids_shows_kids(g2, kept, 0, node, len, p2);
        let f = layout_kids(g2, kept, 0, node, len);
        assert(p2.difference(ids_from(kept, 0)).subset_of(pending.remove(node)));
        lemma_kids_shown_weaken(f, p2.difference(ids_from(kept, 0)), pending.remove(node));
    } else {
        assert forall|p: int| #[trigger] shown(g.nodes, p) && !pending.remove(node).contains(p)
            implies flagged_kids_shown(g, p) by {
            assert(p != node);
        }
    }
}

/// Laying out the subtrees of `kids[i..]` finishes each of them.
proof fn lemma_layout_kids_shows_kids<D>(
    g: GuiModel<D>,
    kids: Seq<GuiNodeId>,
    i: int,
    parent: int,
    len: int,
    pending: Set<int>,
)
    requires
        ids_ok(g, len),
        kids_shown_except(g, pending),
        0 <= i,
        forall|k: int| 0 <= k < kids.len() ==> parent < #[trigger] kids[k].0,
        g.root.0 == 0,
        shown_only_if_flagged(g.nodes, g.root),
        parents_shown(g),
    ensures
        ids_ok(layout_kids(g, kids, i, parent, len), len),
        kids_shown_except(layout_kids(g, kids, i, parent, len), pending.difference(ids_from(kids, i))),
        shown(g.nodes, 0) ==> shown(layout_kids(g, kids, i, parent, len).nodes, 0),
        layout_kids(g, kids, i, parent, len).root == g.root,
        shown_only_if_flagged(layout_kids(g, kids, i, parent, len).nodes, g.root),
        parents_shown(layout_kids(g, kids, i, parent, len)),
    decreases len - parent, 0int, kids.len() - i,
{
    if i >= kids.len() {
        lemma_kids_shown_weaken(g, pending, pending.difference(ids_from(kids, i)));
    } else {
        let c = kids[i].0 as int;
        let g2 = if parent < c < len {
            layout_spec(g, c, len)
        } else {
            g
        };
        if parent < c < len {
            lemma_layout_shows_kids(g, c, len, pending);
        } else {
            assert forall|p: int| #[trigger] shown(g.nodes, p) && !pending.remove(c).contains(p)
                implies flagged_kids_shown(g, p) by {
                assert(p != c);
            }
        }
        lemma_layout_kids_shows_kids(g2, kids, i + 1, parent, len, pending.remove(c));
        let f = layout_kids(g2, kids, i + 1, parent, len);
        assert(pending.remove(c).difference(ids_from(kids, i + 1)).subset_of(
            pending.difference(ids_from(kids, i)),
        )) by {
            assert forall|x: int| #[trigger] pending.remove(c).difference(ids_from(kids, i + 1)).contains(x)
                implies pending.difference(ids_from(kids, i)).contains(x) by {
                if ids_from(kids, i).contains(x) {
                    let w = choose|w: int| i <= w < kids.len() && #[trigger] kids[w].0 == x;
                    if w > i {
                        assert(ids_from(kids, i + 1).contains(x));
                    }
                }
            }
        }
        lemma_kids_shown_weaken(
            f,
            pending.remove(c).difference(ids_from(kids, i + 1)),
            pending.difference(ids_from(kids, i)),
        );
    }
}

/// After an update the root is shown, every shown node shows each live child listed under
/// it whose own `visible` flag is set, and every other shown node is listed under a shown
/// node. With `lemma_update_shows_only_flagged` (a shown node other than the root has its
/// flag set), a node is shown exactly when it is the root or is reached from the root
/// through live nodes whose flags are set.
pub proof fn lemma_update_shows_flagged_children<D>(g: GuiModel<D>)
    requires
        g.wf(),
    ensures
        ({
            let f = layout_spec(reset_visibility(g), g.root.0 as int, g.nodes.len() as int);
            &&& shown(f.nodes, g.root.0 as int)
            &&& forall|p: int| #[trigger] shown(f.nodes, p) ==> flagged_kids_shown(f, p)
            &&& forall|n: int| #[trigger] shown(f.nodes, n) && n != g.root.0 ==> has_shown_parent(f, n)
        }),
{
    let r = reset_visibility(g);
    let len = g.nodes.len() as int;
    assert(ids_ok(r, len));
    let pending = Set::<int>::empty().insert(0);
    assert(kids_shown_except(r, pending)) by {
        assert forall|p: int| #[trigger] shown(r.nodes, p) && !pending.contains(p) implies flagged_kids_shown(
            r,
            p,
        ) by {
            assert(r.nodes[p]->Some_0.visible == (p == g.root.0));
        }
    }
    assert(shown(r.nodes, 0));
    assert(shown_only_if_flagged(r.nodes, r.root));
    assert(parents_shown(r)) by {
        assert forall|n: int| #[trigger] shown(r.nodes, n) && n != 0 implies has_shown_parent(r, n) by {
            assert(r.nodes[n]->Some_0.visible == (n == g.root.0));
        }
    }
    lemma_layout_shows_kids(r, 0, len, pending);
    assert(pending.remove(0) =~= Set::<int>::empty());
}

/// A hit in the subtree of `node` is `node` or one of its descendants, whose ids are
/// all greater.
proof fn lemma_hit_in_subtree<D>(g: GuiModel<D>, node: int, len: int, p: IVec2)
    requires
        ids_ok(g, len),
        len <= usize::MAX,
    ensures
        pointer_over_spec(g, node, len, p) is Some ==> pointer_over_spec(g, node, len, p)->Some_0.0
            >= node,
    decreases len - node, 1int, 0int,
{
    if 0 <= node < len && node < g.nodes.len() && node < g.children.len() && g.nodes[node] is Some
        && g.nodes[node]->Some_0.visible {
        let kids = g.children[node];
        lemma_hit_in_kids(g, kids, kids.len() as int, node, len, p);
    }
}

/// A hit among the subtrees of `kids[..i]` lies below `parent`.
proof fn lemma_hit_in_kids<D>(
    g: GuiModel<D>,
    kids: Seq<GuiNodeId>,
    i: int,
    parent: int,
    len: int,
    p: IVec2,
)
    requires
        ids_ok(g, len),
        len <= usize::MAX,
    ensures
        pointer_over_kids(g, kids, i, parent, len, p) is Some ==> pointer_over_kids(
            g,
            kids,
            i,
            parent,
            len,
            p,
        )->Some_0.0 > parent,
    decreases len - parent, 0int, i,
{
    if 0 < i <= kids.len() {
        let c = kids[i - 1].0 as int;
        if parent < c < len {
            lemma_hit_in_subtree(g, c, len, p);
        }
        lemma_hit_in_kids(g, kids, i - 1, parent, len, p);
    }
}

/// The search among `kids[..i]` gives the hit of the last child that has one.
proof fn lemma_kids_last_hit<D>(
    g: GuiModel<D>,
    kids: Seq<GuiNodeId>,
    i: int,
    parent: int,
    len: int,
    p: IVec2,
    k: int,
)
    requires
        0 <= k < i <= kids.len(),
        forall|j: int| 0 <= j < kids.len() ==> parent < #[trigger] kids[j].0 < len,
        pointer_over_spec(g, kids[k].0 as int, len, p) is Some,
        forall|j: int| k < j < i ==> pointer_over_spec(g, #[trigger] kids[j].0 as int, len, p) is None,
    ensures
        pointer_over_kids(g, kids, i, parent, len, p) == pointer_over_spec(g, kids[k].0 as int, len, p),
    decreases i,
{
    if i - 1 != k {
        assert(pointer_over_spec(g, kids[i - 1].0 as int, len, p) is None);
        lemma_kids_last_hit(g, kids, i - 1, parent, len, p, k);
    }
}

/// The search among `kids[..i]` finds nothing exactly when no child's subtree has a hit.
proof fn lemma_kids_no_hit<D>(
    g: GuiModel<D>,
    kids: Seq<GuiNodeId>,
    i: int,
    parent: int,
    len: int,
    p: IVec2,
)
    requires
        0 <= i <= kids.len(),
        forall|j: int| 0 <= j < kids.len() ==> parent < #[trigger] kids[j].0 < len,
    ensures
        (pointer_over_kids(g, kids, i, parent, len, p) is None) <==> (forall|j: int|
            0 <= j < i ==> pointer_over_spec(g, #[trigger] kids[j].0 as int, len, p) is None),
    decreases i,
{
    if i > 0 {
        lemma_kids_no_hit(g, kids, i - 1, parent, len, p);
        if pointer_over_kids(g, kids, i, parent, len, p) is None {
            assert forall|j: int| 0 <= j < i implies pointer_over_spec(
                g,
                #[trigger] kids[j].0 as int,
                len,
                p,
            ) is None by {
                if j < i - 1 {
                }
            }
        }
    }
}

/// Children are searched before their parent, last child first: of a shown node, the
/// pointer search returns the hit of its last child whose subtree has a hit (the one drawn
/// on top), so the node itself is never returned while any child's subtree has a pointer
/// target under `p`; it is returned only when none has one and it is pointer-opaque and
/// contains `p`.
pub proof fn lemma_pointer_children_on_top<D>(g: GuiModel<D>, node: int, len: int, p: IVec2)
    requires
        ids_ok(g, len),
        len <= usize::MAX,
        shown(g.nodes, node),
    ensures
        ({
            let kids = g.children[node];
            let r = pointer_over_spec(g, node, len, p);
            &&& forall|k: int|
                0 <= k < kids.len() && pointer_over_spec(g, #[trigger] kids[k].0 as int, len, p) is Some
                    && (forall|j: int|
                    k < j < kids.len() ==> pointer_over_spec(g, #[trigger] kids[j].0 as int, len, p)
                        is None) ==> r == pointer_over_spec(g, kids[k].0 as int, len, p)
            &&& (exists|k: int|
                0 <= k < kids.len() && pointer_over_spec(g, #[trigger] kids[k].0 as int, len, p)
                    is Some) ==> (r is Some && r != Some(GuiNodeId(node as usize)))
            &&& r == Some(GuiNodeId(node as usize)) ==> {
                &&& forall|k: int|
                    0 <= k < kids.len() ==> pointer_over_spec(g, #[trigger] kids[k].0 as int, len, p)
                        is None
                &&& g.nodes[node]->Some_0.flags.pointer_opaque
                &&& spec_contains_i32(g.nodes[node]->Some_0.rect, p)
            }
        }),
{
    let kids = g.children[node];
    assert forall|j: int| 0 <= j < kids.len() implies node < #[trigger] kids[j].0 < len by {}
    lemma_kids_no_hit(g, kids, kids.len() as int, node, len, p);
    lemma_hit_in_kids(g, kids, kids.len() as int, node, len, p);
    assert forall|k: int|
        0 <= k < kids.len() && pointer_over_spec(g, #[trigger] kids[k].0 as int, len, p) is Some
            && (forall|j: int|
            k < j < kids.len() ==> pointer_over_spec(g, #[trigger] kids[j].0 as int, len, p) is None)
            implies pointer_over_spec(g, node, len, p) == pointer_over_spec(
        g,
        kids[k].0 as int,
        len,
        p,
    ) by {
        lemma_kids_last_hit(g, kids, kids.len() as int, node, len, p, k);
    }
}

} // verus!