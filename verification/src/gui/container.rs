//! Containers that place children in reading order: flowing lines, or a table of
//! fixed-width columns.
use crate::geom2d::{fits_i32, right_i32, bottom_i32, IRect, IVec2, Size};
use vstd::prelude::*;

verus! {

/// Padding around the outside of a container and between its children.
#[derive(Copy, Clone, PartialEq, Eq, Structural, Debug)]
pub struct Padding {
    pub outside: i32,
    pub inside: i32,
}

impl Padding {
    pub fn new(outside: i32, inside: i32) -> (r: Padding)
        ensures
            r.outside == outside,
            r.inside == inside,
    {
        Padding { outside, inside }
    }

    pub fn outside(&self) -> (r: i32)
        ensures
            r == self.outside,
    {
        self.outside
    }

    pub fn inside(&self) -> (r: i32)
        ensures
            r == self.inside,
    {
        self.inside
    }
}

/// Places the `child_index`-th child of size `child_size` inside `rect`; children are
/// placed in order, starting from index zero.
pub trait Container {
    fn layout_child(&mut self, rect: IRect, child_index: usize, child_size: Size) -> IRect;
}

/// Children left to right, wrapping to a new line when one would cross the right edge.
#[derive(Copy, Clone, PartialEq, Eq, Structural, Debug)]
pub struct FlowContainer {
    pub last_rect: IRect,
    pub line_height: u32,
    pub padding: Padding,
}

/// Where a flowing child goes before line wrapping is considered.
pub open spec fn flow_start(c: FlowContainer, child_index: usize) -> IVec2 {
    if child_index == 0 {
        IVec2 { x: c.padding.outside, y: c.padding.outside }
    } else {
        IVec2 { x: right_i32(c.last_rect).wrapping_add(c.padding.inside), y: c.last_rect.position.y }
    }
}

/// The child's rectangle and the container's next state.
pub open spec fn flow_step(c: FlowContainer, rect: IRect, child_index: usize, child_size: Size) -> (
    FlowContainer,
    IRect,
) {
    let start = IRect { position: flow_start(c, child_index), size: child_size };
    if start.position.x > 0 && right_i32(start) > rect.size.width as i32 {
        let placed = IRect {
            position: IVec2 {
                x: 0,
                y: start.position.y.wrapping_add((c.line_height as i32).wrapping_add(c.padding.inside)),
            },
            size: child_size,
        };
        (FlowContainer { last_rect: placed, line_height: child_size.height, padding: c.padding }, placed)
    } else {
        let line_height = if c.line_height >= child_size.height {
            c.line_height
        } else {
            child_size.height
        };
        (FlowContainer { last_rect: start, line_height, padding: c.padding }, start)
    }
}

impl FlowContainer {
    pub fn new(padding: Padding) -> (r: FlowContainer)
        ensures
            r.last_rect == IRect::zero_spec(),
            r.line_height == 0,
            r.padding == padding,
    {
        FlowContainer { last_rect: IRect::zero(), line_height: 0, padding }
    }
}

impl Container for FlowContainer {
    fn layout_child(&mut self, rect: IRect, child_index: usize, child_size: Size) -> (r: IRect)
        ensures
            (*final(self), r) == flow_step(*old(self), rect, child_index, child_size),
    {
        let child_position = if child_index == 0 {
            IVec2::new(self.padding.outside(), self.padding.outside())
        } else {
            IVec2 {
                x: self.last_rect.top_right().x.wrapping_add(self.padding.inside()),
                y: self.last_rect.position.y,
            }
        };
        let mut child_rect = IRect::new(child_position, child_size);
        if child_rect.position.x > 0 && child_rect.top_right().x > rect.size.width as i32 {
            child_rect.position.x = 0;
            child_rect.position.y = child_rect.position.y.wrapping_add(
                (self.line_height as i32).wrapping_add(self.padding.inside()),
            );
            self.line_height = child_size.height;
        } else {
            self.line_height = if self.line_height >= child_size.height {
                self.line_height
            } else {
                child_size.height
            };
        }
        self.last_rect = child_rect;
        child_rect
    }
}

/// Every rectangle of `line` sits at the container's current line position and is no
/// taller than the container's line height.
pub open spec fn line_fits(c: FlowContainer, line: Seq<IRect>) -> bool {
    forall|i: int|
        0 <= i < line.len() ==> #[trigger] line[i].position.y == c.last_rect.position.y
            && line[i].size.height <= c.line_height
}

/// Lines of a flow never overlap. Let `line` be the children already placed on the
/// current line (each within the line height). A child that stays on that line (same y,
/// not moved to the left edge) joins it, and the line height then covers every child on
/// the line, the new one included; a child that moves to a new line starts below the
/// bottom of every child of the line it leaves, and starts a line of its own.
pub proof fn lemma_flow_lines_do_not_overlap(
    c: FlowContainer,
    rect: IRect,
    child_index: usize,
    child_size: Size,
    line: Seq<IRect>,
)
    requires
        child_index != 0,
        line_fits(c, line),
        c.padding.inside >= 0,
        c.line_height <= i32::MAX,
        fits_i32(c.last_rect.position.y + c.line_height + c.padding.inside),
    ensures
        ({
            let (c2, r) = flow_step(c, rect, child_index, child_size);
            &&& r.size == child_size
            &&& c2.line_height >= child_size.height
            &&& (r.position.y == c.last_rect.position.y && r.position.x != 0) ==> line_fits(
                c2,
                line.push(r),
            )
            &&& r.position.y != c.last_rect.position.y ==> {
                &&& r.position.x == 0
                &&& forall|i: int|
                    0 <= i < line.len() ==> r.position.y >= #[trigger] line[i].position.y
                        + line[i].size.height
                &&& line_fits(c2, seq![r])
            }
        }),
{
    let (c2, r) = flow_step(c, rect, child_index, child_size);
    if r.position.y == c.last_rect.position.y && r.position.x != 0 {
        assert forall|i: int| 0 <= i < line.push(r).len() implies #[trigger] line.push(r)[i].position.y
            == c2.last_rect.position.y && line.push(r)[i].size.height <= c2.line_height by {
            if i < line.len() {
                assert(line.push(r)[i] == line[i]);
            }
        }
    }
    if r.position.y != c.last_rect.position.y {
        assert forall|i: int| 0 <= i < seq![r].len() implies #[trigger] seq![r][i].position.y
            == c2.last_rect.position.y && seq![r][i].size.height <= c2.line_height by {}
    }
}

/// The sum of `s`, wrapping on overflow.
pub open spec fn wrapping_sum(s: Seq<u32>) -> u32
    decreases s.len(),
{
    if s.len() == 0 {
        0
    } else {
        wrapping_sum(s.drop_last()).wrapping_add(s.last())
    }
}

/// Children in rows of cells, one column width per column; a column of width zero
/// takes whatever width the fixed columns leave over.
#[derive(Clone, Debug)]
pub struct TableContainer {
    pub column_widths: Vec<u32>,
    pub total_container_width: u32,
    pub row_height: u32,
    pub padding: Padding,
    pub between_column_padding: Option<i32>,
    pub last_row: usize,
    pub last_rect: IRect,
}

/// The horizontal padding between two cells of a row.
pub open spec fn column_gap(padding: Padding, between_column_padding: Option<i32>) -> i32 {
    match between_column_padding {
        Some(p) => p,
        None => padding.inside,
    }
}

/// The width that the fixed columns and the padding take up.
pub open spec fn table_width(columns: Seq<u32>, padding: Padding, between_column_padding: Option<i32>) -> u32 {
    let gaps = ((columns.len() as usize).wrapping_sub(1) as i32).wrapping_mul(
        column_gap(padding, between_column_padding),
    );
    (wrapping_sum(columns) as i32).wrapping_add(gaps).wrapping_add(padding.outside.wrapping_mul(2)) as u32
}

/// The width of column `col` in a table `total_width` wide.
pub open spec fn spec_column_width(t: TableContainer, col: int, total_width: u32) -> u32 {
    let width = t.column_widths@[col];
    if width != 0 {
        width
    } else if t.total_container_width > total_width {
        0
    } else {
        (total_width - t.total_container_width) as u32
    }
}

impl TableContainer {
    pub fn new(
        columns: &[u32],
        row_height: u32,
        padding: Padding,
        between_column_padding: Option<i32>,
    ) -> (r: TableContainer)
        ensures
            r.column_widths@ == columns@,
            r.total_container_width == table_width(columns@, padding, between_column_padding),
            r.row_height == row_height,
            r.padding == padding,
            r.between_column_padding == between_column_padding,
            r.last_row == 0,
            r.last_rect == IRect::zero_spec(),
    {
        let mut column_widths: Vec<u32> = Vec::new();
        let mut total: u32 = 0;
        let mut i: usize = 0;
        while i < columns.len()
            invariant
                i <= columns@.len(),
                column_widths@ == columns@.subrange(0, i as int),
                total == wrapping_sum(columns@.subrange(0, i as int)),
            decreases columns@.len() - i,
        {
            assert(columns@.subrange(0, i + 1).drop_last() == columns@.subrange(0, i as int));
            column_widths.push(columns[i]);
            total = total.wrapping_add(columns[i]);
            i += 1;
        }
        assert(columns@.subrange(0, columns@.len() as int) == columns@);
        let inside_padding = match between_column_padding {
            Some(p) => p,
            None => padding.inside(),
        };
        let gaps = (column_widths.len().wrapping_sub(1) as i32).wrapping_mul(inside_padding);
        let total_container_width = (total as i32).wrapping_add(gaps).wrapping_add(
            padding.outside().wrapping_mul(2),
        ) as u32;
        TableContainer {
            column_widths,
            total_container_width,
            row_height,
            padding,
            between_column_padding,
            last_row: 0,
            last_rect: IRect::zero(),
        }
    }

    /// The width of column `col`: its own width, or for a column of width zero the width
    /// left over in a table `total_width` wide.
    pub fn column_width(&self, col: usize, total_width: u32) -> (r: u32)
        requires
            col < self.column_widths@.len(),
        ensures
            r == spec_column_width(*self, col as int, total_width),
    {
        let width = self.column_widths[col];
        if width != 0 {
            width
        } else if self.total_container_width > total_width {
            0
        } else {
            total_width - self.total_container_width
        }
    }
}

/// Where the `child_index`-th cell goes, and the table's next state.
pub open spec fn table_step(t: TableContainer, rect: IRect, child_index: usize) -> (
    TableContainer,
    IRect,
) {
    let n = t.column_widths@.len();
    let row = child_index / n as usize;
    let col = child_index % n as usize;
    let position = if row == 0 && col == 0 {
        IVec2 { x: t.padding.outside, y: t.padding.outside }
    } else if row == t.last_row {
        IVec2 {
            x: right_i32(t.last_rect).wrapping_add(column_gap(t.padding, t.between_column_padding)),
            y: t.last_rect.position.y,
        }
    } else {
        IVec2 { x: t.padding.outside, y: bottom_i32(t.last_rect).wrapping_add(t.padding.inside) }
    };
    let cell = IRect {
        position,
        size: Size {
            width: spec_column_width(t, col as int, rect.size.width),
            height: t.row_height,
        },
    };
    (TableContainer { last_row: row as usize, last_rect: cell, ..t }, cell)
}

impl TableContainer {
    /// Places the `child_index`-th cell, row by row; the table must have a column.
    pub fn layout_child(&mut self, rect: IRect, child_index: usize, _child_size: Size) -> (r: IRect)
        requires
            old(self).column_widths@.len() > 0,
        ensures
            (*final(self), r) == table_step(*old(self), rect, child_index),
    {
        let num_cols = self.column_widths.len();
        let row = child_index / num_cols;
        let col = child_index % num_cols;
        let child_position = if row == 0 && col == 0 {
            IVec2::new(self.padding.outside(), self.padding.outside())
        } else if row == self.last_row {
            let last_top_right = self.last_rect.top_right();
            let padding = match self.between_column_padding {
                Some(p) => p,
                None => self.padding.inside(),
            };
            IVec2::new(last_top_right.x.wrapping_add(padding), last_top_right.y)
        } else {
            let y = self.last_rect.bottom_left().y.wrapping_add(self.padding.inside());
            IVec2::new(self.padding.outside(), y)
        };
        self.last_row = row;
        let child_rect = IRect::new(
            child_position,
            Size::new(self.column_width(col, rect.size.width), self.row_height),
        );
        self.last_rect = child_rect;
        child_rect
    }
}

/// Cells of a table never overlap when laid out in order. Placing the `i`-th cell in a
/// table with `n > 0` columns: the cell is `row_height` high and as wide as its column
/// (`i % n`); the first cell sits at the outside padding; a cell in the same row as the
/// previous one starts right of it by the column gap (and at its height); a cell in a new
/// row starts at the left padding, below the previous cell by the inside padding. The
/// table then remembers that row and that cell. As long as nothing wraps.
pub proof fn lemma_table_cells_in_order(t: TableContainer, rect: IRect, i: usize)
    requires
        t.column_widths@.len() > 0,
        t.last_rect.size.width <= i32::MAX,
        t.last_rect.size.height <= i32::MAX,
        fits_i32(t.last_rect.position.x + t.last_rect.size.width + column_gap(
            t.padding,
            t.between_column_padding,
        )),
        fits_i32(t.last_rect.position.x + t.last_rect.size.width),
        fits_i32(t.last_rect.position.y + t.last_rect.size.height),
        fits_i32(t.last_rect.position.y + t.last_rect.size.height + t.padding.inside),
    ensures
        ({
            let n = t.column_widths@.len() as int;
            let (t2, r) = table_step(t, rect, i);
            &&& r.size.height == t.row_height
            &&& r.size.width == spec_column_width(t, (i as int) % n, rect.size.width)
            &&& (t.column_widths@[(i as int) % n] != 0 ==> r.size.width == t.column_widths@[(i as int) % n])
            &&& t2.last_rect == r
            &&& t2.last_row == (i as int) / n
            &&& i == 0 ==> r.position == (IVec2 { x: t.padding.outside, y: t.padding.outside })
            &&& (i != 0 && (i as int) / n == t.last_row) ==> r.position.x == t.last_rect.position.x
                + t.last_rect.size.width + column_gap(t.padding, t.between_column_padding)
                && r.position.y == t.last_rect.position.y
            &&& ((i as int) / n != t.last_row) && i != 0 ==> r.position.x == t.padding.outside
                && r.position.y == t.last_rect.position.y + t.last_rect.size.height
                + t.padding.inside
        }),
{
    let n = t.column_widths@.len() as int;
    let ii = i as int;
    assert(t.column_widths@.len() == t.column_widths.len());
    let nu = t.column_widths@.len() as usize;
    assert(nu == n);
    assert(i / nu == ii / n);
    assert(i % nu == ii % n);
    assert(ii / n == 0 && ii % n == 0 ==> ii == 0) by (nonlinear_arith)
        requires
            n > 0,
            ii >= 0,
    ;
    let (t2, r) = table_step(t, rect, i);
    if i == 0 {
        assert(ii / n == 0 && ii % n == 0) by (nonlinear_arith)
            requires
                n > 0,
                ii == 0,
        ;
        assert(r.position == (IVec2 { x: t.padding.outside, y: t.padding.outside }));
    }
    if i != 0 && ii / n == t.last_row {
        assert(r.position.y == t.last_rect.position.y);
    }
}

} // verus!
