//! Reading geometry and layouts out of style values.
use crate::geom2d::{EdgeRect, IVec2};
use crate::gui::{Anchor, NodeLayout};
use vstd::prelude::*;

verus! {

/// A non-negative integer style value as a `u32`.
pub fn u32_from_int(value: i32) -> (r: Option<u32>)
    ensures
        r == if value >= 0 {
            Some(value as u32)
        } else {
            None
        },
{
    if value >= 0 {
        Some(value as u32)
    } else {
        None
    }
}

/// A vector from an integer array of exactly two entries `[x, y]`.
pub fn ivec2_from_ints(values: &[i32]) -> (r: Option<IVec2>)
    ensures
        r == if values@.len() == 2 {
            Some(IVec2 { x: values@[0], y: values@[1] })
        } else {
            None
        },
{
    if values.len() == 2 {
        Some(IVec2 { x: values[0], y: values[1] })
    } else {
        None
    }
}

/// Edges from one integer (the same on every side) or from an array of exactly four.
/// The four entries are passed to `EdgeRect::new` in the order they are written.
pub fn edge_rect_from_ints(values: &[i32]) -> (r: Option<EdgeRect>)
    ensures
        r == if values@.len() == 4 {
            Some(EdgeRect { left: values@[0], top: values@[1], right: values@[2], bottom: values@[3] })
        } else {
            None
        },
{
    if values.len() == 4 {
        Some(EdgeRect::new(values[0], values[1], values[2], values[3]))
    } else {
        None
    }
}

/// The same edge width on all four sides.
pub fn edge_rect_from_int(value: i32) -> (r: EdgeRect)
    ensures
        r == EdgeRect::splat_spec(value),
{
    EdgeRect::splat(value)
}

/// `value`, or `default` when it is `None`.
pub open spec fn or_default<T>(value: Option<T>, default: T) -> T {
    match value {
        Some(v) => v,
        None => default,
    }
}

/// One dimension of a styled size: the `size` entry's, unless the style names this
/// dimension on its own (`width` or `height`), in which case that entry wins, read as
/// zero when it is not an integer.
pub open spec fn styled_dimension(from_size: i32, own: Option<Option<i32>>) -> i32 {
    match own {
        Some(v) => or_default(v, 0),
        None => from_size,
    }
}

/// The layout a widget's style asks for. Each argument is the style's entry for one key,
/// already read as the kind of value that key takes, or `None` where the key is missing or
/// holds another kind: `child_layout`, `child_spacing`, `size`, `margin`, `hanchor` and
/// `vanchor`. `width` and `height` are `None` where the key is missing and `Some(None)`
/// where it holds something other than an integer.
pub fn layout_from_style(
    child_layout: Option<String>,
    child_spacing: Option<i32>,
    size: Option<IVec2>,
    margin: Option<EdgeRect>,
    hanchor: Option<Anchor>,
    vanchor: Option<Anchor>,
    width: Option<Option<i32>>,
    height: Option<Option<i32>>,
) -> (r: NodeLayout)
    ensures
        r.child_layout@ == (match child_layout {
            Some(s) => s@,
            None => Seq::<char>::empty(),
        }),
        r.child_spacing == or_default(child_spacing, 0),
        r.margin == or_default(margin, EdgeRect::zero_spec()),
        r.anchors == (or_default(hanchor, Anchor::Begin), or_default(vanchor, Anchor::Begin)),
        r.size.x == styled_dimension(or_default(size, IVec2::zero_spec()).x, width),
        r.size.y == styled_dimension(or_default(size, IVec2::zero_spec()).y, height),
{
    let mut layout = NodeLayout {
        child_layout: match child_layout {
            Some(s) => s,
            None => String::new(),
        },
        child_spacing: match child_spacing {
            Some(v) => v,
            None => 0,
        },
        size: match size {
            Some(v) => v,
            None => IVec2::zero(),
        },
        margin: match margin {
            Some(v) => v,
            None => EdgeRect::zero(),
        },
        anchors: (
            match hanchor {
                Some(a) => a,
                None => Anchor::Begin,
            },
            match vanchor {
                Some(a) => a,
                None => Anchor::Begin,
            },
        ),
    };
    match width {
        Some(w) => {
            layout.size.x = match w {
                Some(v) => v,
                None => 0,
            };
        },
        None => {},
    }
    match height {
        Some(h) => {
            layout.size.y = match h {
                Some(v) => v,
                None => 0,
            };
        },
        None => {},
    }
    layout
}

} // verus!
