//! Placing square tiles in a square texture atlas, row by row.
use vstd::prelude::*;

verus! {

/// How many tiles fit across an atlas `size` wide.
pub open spec fn atlas_columns(size: u32, tile_size: u32) -> int {
    size as int / tile_size as int
}

/// The tile number `index` has room in the atlas.
pub open spec fn slot_fits(size: u32, tile_size: u32, index: u32) -> bool {
    &&& tile_size > 0
    &&& atlas_columns(size, tile_size) > 0
    &&& (index as int / atlas_columns(size, tile_size)) * tile_size < size
}

/// The top-left corner of tile number `index` in an atlas `size` wide: tiles fill each row
/// left to right, rows top to bottom. The tile must have room.
pub fn atlas_slot(size: u32, tile_size: u32, index: u32) -> (r: (u32, u32))
    requires
        slot_fits(size, tile_size, index),
    ensures
        r.0 == (index as int % atlas_columns(size, tile_size)) * tile_size,
        r.1 == (index as int / atlas_columns(size, tile_size)) * tile_size,
        r.0 < size,
        r.1 < size,
{
    let cols = size / tile_size;
    let col = index % cols;
    let row = index / cols;
    assert(col < cols);
    assert(col * tile_size < size) by (nonlinear_arith)
        requires
            col < cols,
            cols == size / tile_size,
            tile_size > 0,
    {
        assert(col * tile_size <= (cols - 1) * tile_size);
        assert(cols * tile_size <= size);
    }
    (col * tile_size, row * tile_size)
}

/// The x offsets of the tiles in a strip `width` wide: every whole tile, left to right.
pub fn strip_offsets(width: u32, tile_size: u32) -> (r: Vec<u32>)
    requires
        tile_size > 0,
    ensures
        r@.len() == width / tile_size,
        forall|k: int| 0 <= k < r@.len() ==> #[trigger] r@[k] == k * tile_size,
{
    let mut r: Vec<u32> = Vec::new();
    let mut x: u32 = 0;
    if width < tile_size {
        assert(width / tile_size == 0) by (nonlinear_arith)
            requires
                width < tile_size,
        ;
        return r;
    }
    proof {
        let n = r@.len();
        assert(n == 0);
        assert(n * tile_size == 0) by (nonlinear_arith)
            requires
                n == 0,
        ;
        assert(width / tile_size >= 1) by (nonlinear_arith)
            requires
                width >= tile_size,
                tile_size > 0,
        ;
    }
    while x <= width - tile_size
        invariant
            tile_size > 0,
            width >= tile_size,
            x == r@.len() * tile_size,
            x <= width,
            r@.len() <= width / tile_size,
            forall|k: int| 0 <= k < r@.len() ==> #[trigger] r@[k] == k * tile_size,
            x > width - tile_size ==> r@.len() == width / tile_size,
            x <= width - tile_size ==> r@.len() < width / tile_size,
        decreases width - x,
    {
        let ghost n = r@.len();
        r.push(x);
        x = x + tile_size;
        proof {
            assert(x == (n + 1) * tile_size) by (nonlinear_arith)
                requires
                    x == n * tile_size + tile_size,
            ;
            if x > width - tile_size {
                assert(n + 1 == width / tile_size) by (nonlinear_arith)
                    requires
                        x == (n + 1) * tile_size,
                        x <= width,
                        x + tile_size > width,
                        tile_size > 0,
                ;
            } else {
                assert(n + 1 < width / tile_size) by (nonlinear_arith)
                    requires
                        x == (n + 1) * tile_size,
                        x + tile_size <= width,
                        tile_size > 0,
                ;
            }
        }
    }
    r
}

} // verus!
