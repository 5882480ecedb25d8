use vstd::prelude::*;
use vstd::std_specs::convert::FromSpecImpl;

verus! {

/// A point or offset with integer coordinates.
#[derive(Copy, Clone, PartialEq, Eq, Structural, Debug, Default)]
pub struct IVec2 {
    pub x: i32,
    pub y: i32,
}

/// True when `v` is representable as an `i32`.
pub open spec fn fits_i32(v: int) -> bool {
    i32::MIN <= v <= i32::MAX
}

impl IVec2 {
    pub fn new(x: i32, y: i32) -> (r: IVec2)
        ensures
            r.x == x,
            r.y == y,
    {
        IVec2 { x, y }
    }

    pub fn zero() -> (r: IVec2)
        ensures
            r.x == 0,
            r.y == 0,
    {
        IVec2 { x: 0, y: 0 }
    }

    /// Component-wise sum, wrapping on overflow.
    pub fn add(self, rhs: IVec2) -> (r: IVec2)
        ensures
            r.x == self.x.wrapping_add(rhs.x),
            r.y == self.y.wrapping_add(rhs.y),
    {
        IVec2 { x: self.x.wrapping_add(rhs.x), y: self.y.wrapping_add(rhs.y) }
    }
}

/// A width and height in whole pixels.
#[derive(Copy, Clone, PartialEq, Eq, Structural, Debug, Default)]
pub struct Size {
    pub width: u32,
    pub height: u32,
}

impl Size {
    pub fn zero() -> (r: Size)
        ensures
            r.width == 0,
            r.height == 0,
    {
        Size { width: 0, height: 0 }
    }

    pub fn new(width: u32, height: u32) -> (r: Size)
        ensures
            r.width == width,
            r.height == height,
    {
        Size { width, height }
    }

    /// The size as a vector, each dimension cast to `i32` (wrapping above `i32::MAX`).
    pub fn as_ivec2(&self) -> (r: IVec2)
        ensures
            r.x == self.width as i32,
            r.y == self.height as i32,
    {
        IVec2 { x: self.width as i32, y: self.height as i32 }
    }

    /// Component-wise sum of two sizes, wrapping on overflow.
    pub fn add(self, rhs: Size) -> (r: Size)
        ensures
            r.width == self.width.wrapping_add(rhs.width),
            r.height == self.height.wrapping_add(rhs.height),
    {
        Size::new(self.width.wrapping_add(rhs.width), self.height.wrapping_add(rhs.height))
    }

    pub fn add_assign(&mut self, other: Size)
        ensures
            final(self).width == old(self).width.wrapping_add(other.width),
            final(self).height == old(self).height.wrapping_add(other.height),
    {
        *self = self.add(other);
    }
}

impl From<[u32; 2]> for Size {
    fn from(size: [u32; 2]) -> (r: Size) {
        Size { width: size[0], height: size[1] }
    }
}

impl FromSpecImpl<[u32; 2]> for Size {
    open spec fn obeys_from_spec() -> bool {
        true
    }

    open spec fn from_spec(size: [u32; 2]) -> Size {
        Size { width: size@[0], height: size@[1] }
    }
}

impl From<(u32, u32)> for Size {
    fn from(size: (u32, u32)) -> (r: Size) {
        Size { width: size.0, height: size.1 }
    }
}

impl FromSpecImpl<(u32, u32)> for Size {
    open spec fn obeys_from_spec() -> bool {
        true
    }

    open spec fn from_spec(size: (u32, u32)) -> Size {
        Size { width: size.0, height: size.1 }
    }
}

impl From<IVec2> for Size {
    fn from(size: IVec2) -> (r: Size) {
        Size { width: size.x as u32, height: size.y as u32 }
    }
}

impl FromSpecImpl<IVec2> for Size {
    open spec fn obeys_from_spec() -> bool {
        true
    }

    open spec fn from_spec(size: IVec2) -> Size {
        Size { width: size.x as u32, height: size.y as u32 }
    }
}

impl From<Size> for IVec2 {
    fn from(size: Size) -> (r: IVec2) {
        IVec2 { x: size.width as i32, y: size.height as i32 }
    }
}

impl FromSpecImpl<Size> for IVec2 {
    open spec fn obeys_from_spec() -> bool {
        true
    }

    open spec fn from_spec(size: Size) -> IVec2 {
        IVec2 { x: size.width as i32, y: size.height as i32 }
    }
}

/// An axis-aligned rectangle: a top-left corner and a size.
#[derive(Copy, Clone, PartialEq, Eq, Structural, Debug, Default)]
pub struct IRect {
    pub position: IVec2,
    pub size: Size,
}

/// Both rectangles' positions added, and both sizes added.
pub open spec fn spec_add_components(a: IRect, b: IRect) -> IRect {
    IRect {
        position: a.position.add_spec(b.position),
        size: Size {
            width: a.size.width.wrapping_add(b.size.width),
            height: a.size.height.wrapping_add(b.size.height),
        },
    }
}

/// The rectangle's right edge (exclusive), as a mathematical integer.
pub open spec fn right_edge(r: IRect) -> int {
    r.position.x + r.size.width
}

/// The rectangle's bottom edge (exclusive), as a mathematical integer.
pub open spec fn bottom_edge(r: IRect) -> int {
    r.position.y + r.size.height
}

/// The rectangle's far edges are representable as `i32`, so no corner computation wraps.
pub open spec fn corners_fit(r: IRect) -> bool {
    &&& r.size.width <= i32::MAX
    &&& r.size.height <= i32::MAX
    &&& fits_i32(right_edge(r))
    &&& fits_i32(bottom_edge(r))
}

/// `p` lies in the half-open box `[x, x + width) x [y, y + height)`.
pub open spec fn spec_contains(r: IRect, p: IVec2) -> bool {
    &&& r.position.x <= p.x
    &&& r.position.y <= p.y
    &&& p.x < right_edge(r)
    &&& p.y < bottom_edge(r)
}

/// The x coordinate of the right edge as the `i32` arithmetic computes it.
pub open spec fn right_i32(r: IRect) -> i32 {
    r.position.x.wrapping_add(r.size.width as i32)
}

/// The y coordinate of the bottom edge as the `i32` arithmetic computes it.
pub open spec fn bottom_i32(r: IRect) -> i32 {
    r.position.y.wrapping_add(r.size.height as i32)
}

/// What `IRect::contains` computes with `i32` arithmetic.
pub open spec fn spec_contains_i32(r: IRect, p: IVec2) -> bool {
    &&& r.position.x <= p.x
    &&& r.position.y <= p.y
    &&& right_i32(r) > p.x
    &&& bottom_i32(r) > p.y
}

/// One dimension after `IRect::inset`: the `i32` view of `size` less `inset` (in `i32`
/// arithmetic), or zero when the inset is at least as large.
pub open spec fn shrink(size: u32, inset: i32) -> u32 {
    if inset >= size as i32 {
        0
    } else {
        (size as i32).wrapping_sub(inset) as u32
    }
}

/// What `IRect::inset` returns. The top edge moves down by the right inset (not the
/// top one), and the left edge right by the left inset.
pub open spec fn spec_inset(r: IRect, insets: EdgeRect) -> IRect {
    IRect {
        position: IVec2 {
            x: r.position.x.wrapping_add(insets.left),
            y: r.position.y.wrapping_add(insets.right),
        },
        size: Size {
            width: shrink(r.size.width, insets.left.wrapping_add(insets.right)),
            height: shrink(r.size.height, insets.top.wrapping_add(insets.bottom)),
        },
    }
}

impl IRect {
    pub open spec fn zero_spec() -> IRect {
        IRect { position: IVec2::zero_spec(), size: Size::zero_spec() }
    }

    pub fn zero() -> (r: IRect)
        ensures
            r == IRect::zero_spec(),
    {
        IRect { position: IVec2::zero(), size: Size::zero() }
    }

    pub fn new(position: IVec2, size: Size) -> (r: IRect)
        ensures
            r.position == position,
            r.size == size,
    {
        IRect { position, size }
    }

    pub fn from_size(size: Size) -> (r: IRect)
        ensures
            r.position == IVec2::zero_spec(),
            r.size == size,
    {
        IRect { position: IVec2::zero(), size }
    }

    /// The rectangle at `(x, y)` whose size is `(width, height)` cast to `u32`.
    pub fn from_components(x: i32, y: i32, width: i32, height: i32) -> (r: IRect)
        ensures
            r.position.x == x,
            r.position.y == y,
            r.size.width == width as u32,
            r.size.height == height as u32,
    {
        IRect { position: IVec2 { x, y }, size: Size { width: width as u32, height: height as u32 } }
    }

    pub fn x(&self) -> (r: i32)
        ensures
            r == self.position.x,
    {
        self.position.x
    }

    pub fn y(&self) -> (r: i32)
        ensures
            r == self.position.y,
    {
        self.position.y
    }

    /// The width as an `i32` (wrapping above `i32::MAX`).
    pub fn width(&self) -> (r: i32)
        ensures
            r == self.size.width as i32,
    {
        self.size.width as i32
    }

    /// The height as an `i32` (wrapping above `i32::MAX`).
    pub fn height(&self) -> (r: i32)
        ensures
            r == self.size.height as i32,
    {
        self.size.height as i32
    }

    pub fn top_left(&self) -> (r: IVec2)
        ensures
            r == self.position,
    {
        self.position
    }

    pub fn top_right(&self) -> (r: IVec2)
        ensures
            r.x == right_i32(*self),
            r.y == self.position.y,
    {
        IVec2 { x: self.position.x.wrapping_add(self.size.width as i32), y: self.position.y }
    }

    pub fn bottom_left(&self) -> (r: IVec2)
        ensures
            r.x == self.position.x,
            r.y == bottom_i32(*self),
    {
        IVec2 { x: self.position.x, y: self.position.y.wrapping_add(self.size.height as i32) }
    }

    pub fn bottom_right(&self) -> (r: IVec2)
        ensures
            r.x == right_i32(*self),
            r.y == bottom_i32(*self),
    {
        IVec2 {
            x: self.position.x.wrapping_add(self.size.width as i32),
            y: self.position.y.wrapping_add(self.size.height as i32),
        }
    }

    pub open spec fn center_spec(self) -> IVec2 {
        IVec2 {
            x: self.position.x.wrapping_add((self.size.width / 2) as i32),
            y: self.position.y.wrapping_add((self.size.height / 2) as i32),
        }
    }

    /// The centre, rounding each half-dimension down.
    pub fn center(&self) -> (r: IVec2)
        ensures
            r == self.center_spec(),
    {
        IVec2 {
            x: self.position.x.wrapping_add((self.size.width / 2) as i32),
            y: self.position.y.wrapping_add((self.size.height / 2) as i32),
        }
    }

    /// Whether `point` lies inside the rectangle; the right and bottom edges are outside.
    pub fn contains(&self, point: IVec2) -> (r: bool)
        ensures
            r == spec_contains_i32(*self, point),
            corners_fit(*self) ==> r == spec_contains(*self, point),
    {
        self.position.x <= point.x && self.position.y <= point.y && self.position.x.wrapping_add(
            self.size.width as i32,
        ) > point.x && self.position.y.wrapping_add(self.size.height as i32) > point.y
    }

    /// Shrinks the rectangle by `insets`; a dimension that would go negative becomes zero.
    pub fn inset(&self, insets: EdgeRect) -> (r: IRect)
        ensures
            r == spec_inset(*self, insets),
    {
        let width = self.size.width as i32;
        let height = self.size.height as i32;
        let inset_width = insets.left.wrapping_add(insets.right);
        let inset_height = insets.top.wrapping_add(insets.bottom);
        IRect {
            position: IVec2 {
                x: self.position.x.wrapping_add(insets.left),
                y: self.position.y.wrapping_add(insets.right),
            },
            size: Size {
                width: if inset_width >= width {
                    0
                } else {
                    (width.wrapping_sub(inset_width)) as u32
                },
                height: if inset_height >= height {
                    0
                } else {
                    (height.wrapping_sub(inset_height)) as u32
                },
            },
        }
    }

    /// The same rectangle moved by `rhs`.
    pub fn add(self, rhs: IVec2) -> (r: IRect)
        ensures
            r.position.x == self.position.x.wrapping_add(rhs.x),
            r.position.y == self.position.y.wrapping_add(rhs.y),
            r.size == self.size,
    {
        IRect::new(self.position.add(rhs), self.size)
    }

    /// Adds `other`'s position to the position and its size to the size.
    pub fn add_components(self, other: IRect) -> (r: IRect)
        ensures
            r == spec_add_components(self, other),
    {
        IRect { position: self.position.add(other.position), size: self.size.add(other.size) }
    }

    pub fn add_assign(&mut self, other: IVec2)
        ensures
            final(self).position.x == old(self).position.x.wrapping_add(other.x),
            final(self).position.y == old(self).position.y.wrapping_add(other.y),
            final(self).size == old(self).size,
    {
        *self = self.add(other);
    }
}

impl IVec2 {
    pub open spec fn zero_spec() -> IVec2 {
        IVec2 { x: 0, y: 0 }
    }

    /// The component-wise sum as `IVec2::add` computes it.
    pub open spec fn add_spec(self, rhs: IVec2) -> IVec2 {
        IVec2 { x: self.x.wrapping_add(rhs.x), y: self.y.wrapping_add(rhs.y) }
    }
}

impl Size {
    pub open spec fn zero_spec() -> Size {
        Size { width: 0, height: 0 }
    }
}

/// Distances inward from each edge of a rectangle.
#[derive(Copy, Clone, PartialEq, Eq, Structural, Debug, Default)]
pub struct EdgeRect {
    pub left: i32,
    pub top: i32,
    pub right: i32,
    pub bottom: i32,
}

impl EdgeRect {
    pub open spec fn zero_spec() -> EdgeRect {
        EdgeRect { left: 0, top: 0, right: 0, bottom: 0 }
    }

    pub fn zero() -> (r: EdgeRect)
        ensures
            r == EdgeRect::zero_spec(),
    {
        EdgeRect { left: 0, top: 0, right: 0, bottom: 0 }
    }

    pub fn new(left: i32, top: i32, right: i32, bottom: i32) -> (r: EdgeRect)
        ensures
            r.left == left,
            r.top == top,
            r.right == right,
            r.bottom == bottom,
    {
        EdgeRect { left, top, right, bottom }
    }

    pub open spec fn splat_spec(v: i32) -> EdgeRect {
        EdgeRect { left: v, top: v, right: v, bottom: v }
    }

    pub fn splat(v: i32) -> (r: EdgeRect)
        ensures
            r == EdgeRect::splat_spec(v),
    {
        EdgeRect { left: v, top: v, right: v, bottom: v }
    }
}

/// Moving a rectangle and a point by the same offset does not change whether the
/// rectangle contains the point, as long as nothing wraps.
pub proof fn lemma_contains_translation(r: IRect, p: IVec2, d: IVec2)
    requires
        corners_fit(r),
        fits_i32(r.position.x + d.x),
        fits_i32(r.position.y + d.y),
        fits_i32(right_edge(r) + d.x),
        fits_i32(bottom_edge(r) + d.y),
        fits_i32(p.x + d.x),
        fits_i32(p.y + d.y),
    ensures
        ({
            let moved = IRect { position: r.position.add_spec(d), size: r.size };
            &&& corners_fit(moved)
            &&& spec_contains(moved, p.add_spec(d)) == spec_contains(r, p)
        }),
{
}

/// A rectangle contains its own top-left corner and centre exactly when it is not empty,
/// and never contains its bottom-right corner.
pub proof fn lemma_contains_corners(r: IRect)
    requires
        corners_fit(r),
    ensures
        spec_contains(r, r.position) <==> (r.size.width > 0 && r.size.height > 0),
        spec_contains(
            r,
            IVec2 {
                x: (r.position.x + r.size.width / 2) as i32,
                y: (r.position.y + r.size.height / 2) as i32,
            },
        ) <==> (r.size.width > 0 && r.size.height > 0),
        !spec_contains(r, IVec2 { x: right_edge(r) as i32, y: bottom_edge(r) as i32 }),
{
}

/// Insetting by zero on every edge gives back the same rectangle, for any rectangle
/// whose size fits in `i32`.
pub proof fn lemma_inset_zero(r: IRect)
    requires
        r.size.width <= i32::MAX,
        r.size.height <= i32::MAX,
    ensures
        spec_inset(r, EdgeRect::zero_spec()) == r,
{
}

/// With non-negative insets that do not wrap, an inset rectangle is never larger than
/// the one it came from, and its size is the starting size less the insets when they fit.
pub proof fn lemma_inset_shrinks(r: IRect, e: EdgeRect)
    requires
        r.size.width <= i32::MAX,
        r.size.height <= i32::MAX,
        e.left >= 0,
        e.top >= 0,
        e.right >= 0,
        e.bottom >= 0,
        fits_i32(e.left + e.right),
        fits_i32(e.top + e.bottom),
    ensures
        spec_inset(r, e).size.width <= r.size.width,
        spec_inset(r, e).size.height <= r.size.height,
        e.left + e.right <= r.size.width ==> spec_inset(r, e).size.width == r.size.width - (
        e.left + e.right),
        e.top + e.bottom <= r.size.height ==> spec_inset(r, e).size.height == r.size.height - (
        e.top + e.bottom),
{
}

} // verus!
