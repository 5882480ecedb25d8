//! Strategies that place a node's children one after another.
use crate::geom2d::{fits_i32, EdgeRect, IRect, IVec2, Size};
use crate::gui::NodeLayout;
use vstd::prelude::*;

verus! {

/// Places the children of one node: `begin_layout` once with the parent's rectangle,
/// then `layout_child` once per child, in order.
pub trait GuiLayout {
    fn begin_layout(&mut self, rect: IRect, spacing: i32);

    fn layout_child(&mut self, layout: &NodeLayout) -> IRect;
}

/// The rectangle at `(x, y)` of extent `(w, h)`, the extents cast to `u32`.
pub open spec fn rect_of(x: i32, y: i32, w: i32, h: i32) -> IRect {
    IRect { position: IVec2 { x, y }, size: Size { width: w as u32, height: h as u32 } }
}

/// Where the anchor layout puts a child inside `rect`.
pub open spec fn anchor_child(rect: IRect, layout: NodeLayout) -> IRect {
    let (x, w) = layout.spec_horizontal(rect.position.x, rect.size.width as i32);
    let (y, h) = layout.spec_vertical(rect.position.y, rect.size.height as i32);
    rect_of(x, y, w, h)
}

/// Each child is placed independently inside the parent by its own size and anchors.
#[derive(Copy, Clone, Debug, Default)]
pub struct Anchor(pub IRect);

impl GuiLayout for Anchor {
    fn begin_layout(&mut self, rect: IRect, _spacing: i32)
        ensures
            final(self).0 == rect,
    {
        self.0 = rect;
    }

    fn layout_child(&mut self, layout: &NodeLayout) -> (r: IRect)
        ensures
            final(self).0 == old(self).0,
            r == anchor_child(old(self).0, *layout),
    {
        let (x, width) = layout.horizontal(self.0.x(), self.0.width());
        let (y, height) = layout.vertical(self.0.y(), self.0.height());
        IRect::from_components(x, y, width, height)
    }
}

/// The anchor layout places a child inside its parent's rectangle. A child of size zero
/// on both axes covers the parent's rectangle exactly. Otherwise, on an axis where the
/// child has a size, its extent is its size plus margins, and it sits at the parent's
/// start (begin), centred (its offset from the parent's start is half the parent's extent
/// less half its own, each half rounded down), or flush with the parent's far edge (end);
/// as long as nothing wraps.
pub proof fn lemma_anchor_child_in_parent(rect: IRect, layout: NodeLayout)
    requires
        rect.size.width <= i32::MAX,
        rect.size.height <= i32::MAX,
        fits_i32(rect.position.x + rect.size.width),
        fits_i32(rect.position.y + rect.size.height),
    ensures
        ({
            let r = anchor_child(rect, layout);
            let w = layout.spec_width();
            let h = layout.spec_height();
            &&& layout.size.x == 0 && layout.size.y == 0 ==> r == rect
            &&& layout.size.x == 0 ==> r.position.x == rect.position.x && r.size.width
                == rect.size.width
            &&& layout.size.y == 0 ==> r.position.y == rect.position.y && r.size.height
                == rect.size.height
            &&& layout.size.x != 0 ==> r.size.width == w as u32
            &&& layout.size.y != 0 ==> r.size.height == h as u32
            &&& layout.size.x != 0 && layout.anchors.0 == crate::gui::Anchor::Begin ==> r.position.x
                == rect.position.x
            &&& layout.size.y != 0 && layout.anchors.1 == crate::gui::Anchor::Begin ==> r.position.y
                == rect.position.y
            &&& layout.size.x != 0 && layout.anchors.0 == crate::gui::Anchor::End && 0 <= w
                <= rect.size.width ==> r.position.x + w == rect.position.x + rect.size.width
            &&& layout.size.y != 0 && layout.anchors.1 == crate::gui::Anchor::End && 0 <= h
                <= rect.size.height ==> r.position.y + h == rect.position.y + rect.size.height
            &&& layout.size.x != 0 && layout.anchors.0 == crate::gui::Anchor::Middle && 0 <= w
                <= rect.size.width ==> r.position.x - rect.position.x == rect.size.width / 2 - w / 2
            &&& layout.size.y != 0 && layout.anchors.1 == crate::gui::Anchor::Middle && 0 <= h
                <= rect.size.height ==> r.position.y - rect.position.y == rect.size.height / 2 - h
                / 2
        }),
{
    let wi = rect.size.width as i32;
    let hi = rect.size.height as i32;
    assert(wi == rect.size.width);
    assert(hi == rect.size.height);
    assert(wi as u32 == rect.size.width);
    assert(hi as u32 == rect.size.height);
}

/// Children side by side from left to right, `spacing` apart.
#[derive(Copy, Clone, Debug, Default)]
pub struct HBox {
    pub rect: IRect,
    pub spacing: i32,
    pub x: i32,
}

/// The next child's rectangle in a horizontal box.
pub open spec fn hbox_child(b: HBox, layout: NodeLayout) -> IRect {
    let (y, h) = layout.spec_vertical(b.rect.position.y, b.rect.size.height as i32);
    rect_of(b.x, y, layout.spec_width(), h)
}

/// The horizontal box after placing one more child.
pub open spec fn hbox_next(b: HBox, layout: NodeLayout) -> HBox {
    HBox { x: b.x.wrapping_add(layout.spec_width().wrapping_add(b.spacing)), ..b }
}

impl GuiLayout for HBox {
    fn begin_layout(&mut self, rect: IRect, spacing: i32)
        ensures
            final(self).rect == rect,
            final(self).spacing == spacing,
            final(self).x == rect.position.x,
    {
        self.rect = rect;
        self.spacing = spacing;
        self.x = rect.position.x;
    }

    fn layout_child(&mut self, layout: &NodeLayout) -> (r: IRect)
        ensures
            r == hbox_child(*old(self), *layout),
            *final(self) == hbox_next(*old(self), *layout),
    {
        let width = layout.width();
        let (y, height) = layout.vertical(self.rect.y(), self.rect.height());
        let child_rect = IRect::from_components(self.x, y, width, height);
        self.x = self.x.wrapping_add(width.wrapping_add(self.spacing));
        child_rect
    }
}

/// Children stacked from top to bottom, `spacing` apart.
#[derive(Copy, Clone, Debug, Default)]
pub struct VBox {
    pub rect: IRect,
    pub spacing: i32,
    pub y: i32,
}

/// The next child's rectangle in a vertical box.
pub open spec fn vbox_child(b: VBox, layout: NodeLayout) -> IRect {
    let (x, w) = layout.spec_horizontal(b.rect.position.x, b.rect.size.width as i32);
    rect_of(x, b.y, w, layout.spec_height())
}

/// The vertical box after placing one more child.
pub open spec fn vbox_next(b: VBox, layout: NodeLayout) -> VBox {
    VBox { y: b.y.wrapping_add(layout.spec_height().wrapping_add(b.spacing)), ..b }
}

impl GuiLayout for VBox {
    fn begin_layout(&mut self, rect: IRect, spacing: i32)
        ensures
            final(self).rect == rect,
            final(self).spacing == spacing,
            final(self).y == rect.position.y,
    {
        self.rect = rect;
        self.spacing = spacing;
        self.y = rect.position.y;
    }

    fn layout_child(&mut self, layout: &NodeLayout) -> (r: IRect)
        ensures
            r == vbox_child(*old(self), *layout),
            *final(self) == vbox_next(*old(self), *layout),
    {
        let height = layout.height();
        let (x, width) = layout.horizontal(self.rect.x(), self.rect.width());
        let child_rect = IRect::from_components(x, self.y, width, height);
        self.y = self.y.wrapping_add(height.wrapping_add(self.spacing));
        child_rect
    }
}

/// In a horizontal box each child starts where the previous one ended plus the spacing,
/// at the same height when both fill the box vertically; a vertical box stacks the same
/// way downward.
pub proof fn lemma_boxes_place_side_by_side(
    h: HBox,
    v: VBox,
    first: NodeLayout,
    second: NodeLayout,
)
    ensures
        hbox_child(hbox_next(h, first), second).position.x == hbox_child(h, first).position.x.wrapping_add(
            first.spec_width().wrapping_add(h.spacing),
        ),
        first.size.y == 0 && second.size.y == 0 ==> hbox_child(hbox_next(h, first), second).position.y
            == hbox_child(h, first).position.y,
        vbox_child(vbox_next(v, first), second).position.y == vbox_child(v, first).position.y.wrapping_add(
            first.spec_height().wrapping_add(v.spacing),
        ),
        first.size.x == 0 && second.size.x == 0 ==> vbox_child(vbox_next(v, first), second).position.x
            == vbox_child(v, first).position.x,
{
}

/// The horizontal box after placing the children `placed`, in order.
pub open spec fn hbox_after(b: HBox, placed: Seq<NodeLayout>) -> HBox
    decreases placed.len(),
{
    if placed.len() == 0 {
        b
    } else {
        hbox_next(hbox_after(b, placed.drop_last()), placed.last())
    }
}

/// How far the children `placed` move the next child along: each one's width (margins
/// included) plus the spacing, summed without wrapping.
pub open spec fn advance_x(placed: Seq<NodeLayout>, spacing: i32) -> int
    decreases placed.len(),
{
    if placed.len() == 0 {
        0
    } else {
        advance_x(placed.drop_last(), spacing) + placed.last().spec_width() + spacing
    }
}

/// Placing the children `placed` from `x` never wraps: each step and each position fits
/// in an `i32`.
pub open spec fn hbox_no_wrap(x: i32, placed: Seq<NodeLayout>, spacing: i32) -> bool
    decreases placed.len(),
{
    if placed.len() == 0 {
        true
    } else {
        &&& hbox_no_wrap(x, placed.drop_last(), spacing)
        &&& fits_i32(placed.last().spec_width() + spacing)
        &&& fits_i32(x + advance_x(placed, spacing))
    }
}

/// The vertical box after placing the children `placed`, in order.
pub open spec fn vbox_after(b: VBox, placed: Seq<NodeLayout>) -> VBox
    decreases placed.len(),
{
    if placed.len() == 0 {
        b
    } else {
        vbox_next(vbox_after(b, placed.drop_last()), placed.last())
    }
}

/// How far the children `placed` move the next child down: each one's height (margins
/// included) plus the spacing, summed without wrapping.
pub open spec fn advance_y(placed: Seq<NodeLayout>, spacing: i32) -> int
    decreases placed.len(),
{
    if placed.len() == 0 {
        0
    } else {
        advance_y(placed.drop_last(), spacing) + placed.last().spec_height() + spacing
    }
}

/// Placing the children `placed` from `y` never wraps.
pub open spec fn vbox_no_wrap(y: i32, placed: Seq<NodeLayout>, spacing: i32) -> bool
    decreases placed.len(),
{
    if placed.len() == 0 {
        true
    } else {
        &&& vbox_no_wrap(y, placed.drop_last(), spacing)
        &&& fits_i32(placed.last().spec_height() + spacing)
        &&& fits_i32(y + advance_y(placed, spacing))
    }
}

/// After placing `placed`, a horizontal box keeps its rectangle and spacing, and the next
/// child starts at the first child's x plus every placed child's width and spacing.
pub proof fn lemma_hbox_after(b: HBox, placed: Seq<NodeLayout>)
    requires
        hbox_no_wrap(b.x, placed, b.spacing),
    ensures
        hbox_after(b, placed).rect == b.rect,
        hbox_after(b, placed).spacing == b.spacing,
        hbox_after(b, placed).x == b.x + advance_x(placed, b.spacing),
    decreases placed.len(),
{
    if placed.len() > 0 {
        lemma_hbox_after(b, placed.drop_last());
    }
}

/// The vertical counterpart of `lemma_hbox_after`.
pub proof fn lemma_vbox_after(b: VBox, placed: Seq<NodeLayout>)
    requires
        vbox_no_wrap(b.y, placed, b.spacing),
    ensures
        vbox_after(b, placed).rect == b.rect,
        vbox_after(b, placed).spacing == b.spacing,
        vbox_after(b, placed).y == b.y + advance_y(placed, b.spacing),
    decreases placed.len(),
{
    if placed.len() > 0 {
        lemma_vbox_after(b, placed.drop_last());
    }
}

/// Where the k-th child of a horizontal box goes. By their contracts, `begin_layout(rect,
/// spacing)` leaves the box `HBox { rect, spacing, x: rect.position.x }`, and each
/// `layout_child(l)` returns `hbox_child(box, l)` and leaves `hbox_next(box, l)`; so after
/// the calls for the children `placed` the box is `hbox_after(.., placed)`, and the call for
/// the next child `next` returns a rectangle that starts at `rect`'s x plus the width
/// (`NodeLayout::width`) and spacing of every child before it, is `next.width()` wide, and
/// takes its y and height from `next.vertical(rect's y, rect's height)`; as long as
/// nothing wraps.
pub proof fn lemma_hbox_kth_child(rect: IRect, spacing: i32, placed: Seq<NodeLayout>, next: NodeLayout)
    requires
        hbox_no_wrap(rect.position.x, placed, spacing),
    ensures
        ({
            let b = HBox { rect, spacing, x: rect.position.x };
            let (y, h) = next.spec_vertical(rect.position.y, rect.size.height as i32);
            &&& hbox_child(hbox_after(b, placed), next).position.x == rect.position.x
                + advance_x(placed, spacing)
            &&& hbox_child(hbox_after(b, placed), next) == rect_of(
                (rect.position.x + advance_x(placed, spacing)) as i32,
                y,
                next.spec_width(),
                h,
            )
        }),
{
    lemma_hbox_after(HBox { rect, spacing, x: rect.position.x }, placed);
}

/// Where the k-th child of a vertical box goes: the vertical counterpart of
/// `lemma_hbox_kth_child`.
pub proof fn lemma_vbox_kth_child(rect: IRect, spacing: i32, placed: Seq<NodeLayout>, next: NodeLayout)
    requires
        vbox_no_wrap(rect.position.y, placed, spacing),
    ensures
        ({
            let b = VBox { rect, spacing, y: rect.position.y };
            let (x, w) = next.spec_horizontal(rect.position.x, rect.size.width as i32);
            &&& vbox_child(vbox_after(b, placed), next).position.y == rect.position.y
                + advance_y(placed, spacing)
            &&& vbox_child(vbox_after(b, placed), next) == rect_of(
                x,
                (rect.position.y + advance_y(placed, spacing)) as i32,
                w,
                next.spec_height(),
            )
        }),
{
    lemma_vbox_after(VBox { rect, spacing, y: rect.position.y }, placed);
}

proof fn lemma_take_drop_last<T>(s: Seq<T>, m: int)
    requires
        0 <= m < s.len(),
    ensures
        s.drop_last().take(m) == s.take(m),
{
    assert(s.drop_last().take(m) =~= s.take(m));
}

/// A prefix of children that does not wrap, taken from a sequence that does not wrap.
proof fn lemma_hbox_no_wrap_prefix(x: i32, placed: Seq<NodeLayout>, spacing: i32, m: int)
    requires
        hbox_no_wrap(x, placed, spacing),
        0 <= m <= placed.len(),
    ensures
        hbox_no_wrap(x, placed.take(m), spacing),
    decreases placed.len(),
{
    if m == placed.len() {
        assert(placed.take(m) =~= placed);
    } else {
        lemma_hbox_no_wrap_prefix(x, placed.drop_last(), spacing, m);
        lemma_take_drop_last(placed, m);
    }
}

proof fn lemma_vbox_no_wrap_prefix(y: i32, placed: Seq<NodeLayout>, spacing: i32, m: int)
    requires
        vbox_no_wrap(y, placed, spacing),
        0 <= m <= placed.len(),
    ensures
        vbox_no_wrap(y, placed.take(m), spacing),
    decreases placed.len(),
{
    if m == placed.len() {
        assert(placed.take(m) =~= placed);
    } else {
        lemma_vbox_no_wrap_prefix(y, placed.drop_last(), spacing, m);
        lemma_take_drop_last(placed, m);
    }
}

/// With non-negative steps, the advance over a prefix is at most the advance over all.
proof fn lemma_advance_x_monotone(placed: Seq<NodeLayout>, spacing: i32, m: int)
    requires
        0 <= m <= placed.len(),
        forall|i: int| 0 <= i < placed.len() ==> #[trigger] placed[i].spec_width() + spacing >= 0,
    ensures
        advance_x(placed.take(m), spacing) <= advance_x(placed, spacing),
    decreases placed.len(),
{
    if m == placed.len() {
        assert(placed.take(m) =~= placed);
    } else {
        assert(placed.last() == placed[placed.len() - 1]);
        lemma_advance_x_monotone(placed.drop_last(), spacing, m);
        lemma_take_drop_last(placed, m);
    }
}

proof fn lemma_advance_y_monotone(placed: Seq<NodeLayout>, spacing: i32, m: int)
    requires
        0 <= m <= placed.len(),
        forall|i: int| 0 <= i < placed.len() ==> #[trigger] placed[i].spec_height() + spacing >= 0,
    ensures
        advance_y(placed.take(m), spacing) <= advance_y(placed, spacing),
    decreases placed.len(),
{
    if m == placed.len() {
        assert(placed.take(m) =~= placed);
    } else {
        assert(placed.last() == placed[placed.len() - 1]);
        lemma_advance_y_monotone(placed.drop_last(), spacing, m);
        lemma_take_drop_last(placed, m);
    }
}

/// With a non-negative spacing and non-negative widths, children of a horizontal box never
/// overlap: the j-th child ends no further right than where any later child starts.
pub proof fn lemma_hbox_children_do_not_overlap(
    rect: IRect,
    spacing: i32,
    placed: Seq<NodeLayout>,
    j: int,
)
    requires
        0 <= j < placed.len(),
        spacing >= 0,
        forall|i: int| 0 <= i < placed.len() ==> #[trigger] placed[i].spec_width() >= 0,
        hbox_no_wrap(rect.position.x, placed, spacing),
    ensures
        ({
            let b = HBox { rect, spacing, x: rect.position.x };
            hbox_child(hbox_after(b, placed.take(j)), placed[j]).position.x + placed[j].spec_width()
                <= hbox_after(b, placed).x
        }),
{
    let b = HBox { rect, spacing, x: rect.position.x };
    lemma_hbox_no_wrap_prefix(rect.position.x, placed, spacing, j);
    lemma_hbox_no_wrap_prefix(rect.position.x, placed, spacing, j + 1);
    lemma_hbox_after(b, placed.take(j));
    lemma_hbox_after(b, placed);
    assert forall|i: int| 0 <= i < placed.len() implies #[trigger] placed[i].spec_width() + spacing
        >= 0 by {}
    lemma_advance_x_monotone(placed, spacing, j + 1);
    let t = placed.take(j + 1);
    assert(t.drop_last() =~= placed.take(j));
    assert(t.last() == placed[j]);
}

/// The vertical counterpart of `lemma_hbox_children_do_not_overlap`: the j-th child ends
/// no lower than where any later child starts.
pub proof fn lemma_vbox_children_do_not_overlap(
    rect: IRect,
    spacing: i32,
    placed: Seq<NodeLayout>,
    j: int,
)
    requires
        0 <= j < placed.len(),
        spacing >= 0,
        forall|i: int| 0 <= i < placed.len() ==> #[trigger] placed[i].spec_height() >= 0,
        vbox_no_wrap(rect.position.y, placed, spacing),
    ensures
        ({
            let b = VBox { rect, spacing, y: rect.position.y };
            vbox_child(vbox_after(b, placed.take(j)), placed[j]).position.y + placed[j].spec_height()
                <= vbox_after(b, placed).y
        }),
{
    let b = VBox { rect, spacing, y: rect.position.y };
    lemma_vbox_no_wrap_prefix(rect.position.y, placed, spacing, j);
    lemma_vbox_no_wrap_prefix(rect.position.y, placed, spacing, j + 1);
    lemma_vbox_after(b, placed.take(j));
    lemma_vbox_after(b, placed);
    assert forall|i: int| 0 <= i < placed.len() implies #[trigger] placed[i].spec_height() + spacing
        >= 0 by {}
    lemma_advance_y_monotone(placed, spacing, j + 1);
    let t = placed.take(j + 1);
    assert(t.drop_last() =~= placed.take(j));
    assert(t.last() == placed[j]);
}

} // verus!