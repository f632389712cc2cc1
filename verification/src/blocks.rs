use crate::error::PipelineError;
use vstd::arithmetic::div_mod::{lemma_fundamental_div_mod, lemma_mod_division_less_than_divisor};
use vstd::arithmetic::mul::lemma_mul_inequality;
use vstd::prelude::*;

verus! {

/// Dimensions of the block grid that a `width × height` coefficient grid
/// pools into: `⌊width/block_side⌋` columns of tiles by
/// `⌊height/block_side⌋` rows. Trailing pixels beyond the last full tile in
/// either direction belong to no block — they are dropped, not folded into a
/// smaller tile. Rejects a zero block side with `InvalidParameter`.
pub fn block_dims(width: usize, height: usize, block_side: usize) -> (result: Result<
    (usize, usize),
    PipelineError,
>)
    ensures
        match result {
            Ok(d) => {
                &&& block_side > 0
                &&& d.0 == width as int / block_side as int
                &&& d.1 == height as int / block_side as int
            },
            Err(e) => e == PipelineError::InvalidParameter && block_side == 0,
        },
{
    if block_side == 0 {
        Err(PipelineError::InvalidParameter)
    } else {
        Ok((width / block_side, height / block_side))
    }
}

/// The pixel coordinate visited `k`-th when tile `(bx, by)` is walked in
/// row-major order, as `(x, y)`.
pub open spec fn block_pixel_at(bx: int, by: int, block_side: int, k: int) -> (int, int) {
    (bx * block_side + k % block_side, by * block_side + k / block_side)
}

/// A coordinate of a full tile stays inside the pooled extent: tile `bi`
/// starts at `bi * b`, and `bi < extent / b` leaves room for all `b` of its
/// pixels.
proof fn lemma_tile_coord_in_bounds(bi: int, b: int, extent: int, r: int)
    requires
        0 < b,
        0 <= bi < extent / b,
        0 <= r < b,
    ensures
        0 <= bi * b + r < extent,
{
    lemma_mul_inequality(bi + 1, extent / b, b);
    lemma_fundamental_div_mod(extent, b);
    lemma_mod_division_less_than_divisor(extent, b);
    assert((extent / b) * b == b * (extent / b)) by (nonlinear_arith);
    assert(bi * b + r < (bi + 1) * b) by (nonlinear_arith)
        requires
            r < b,
    ;
    assert(0 <= bi * b) by (nonlinear_arith)
        requires
            0 <= bi,
            0 < b,
    ;
}

/// Every pixel of a full tile lies inside the `width × height` grid: the
/// truncation policy keeps only tiles that fit whole.
proof fn lemma_block_pixel_in_bounds(
    bx: int,
    by: int,
    block_side: int,
    width: int,
    height: int,
    k: int,
)
    requires
        0 < block_side,
        0 <= bx < width / block_side,
        0 <= by < height / block_side,
        0 <= k < block_side * block_side,
    ensures
        0 <= block_pixel_at(bx, by, block_side, k).0 < width,
        0 <= block_pixel_at(bx, by, block_side, k).1 < height,
{
    let b = block_side;
    assert(0 <= k % b < b && 0 <= k / b < b) by (nonlinear_arith)
        requires
            0 < b,
            0 <= k < b * b,
    ;
    lemma_tile_coord_in_bounds(bx, b, width, k % b);
    lemma_tile_coord_in_bounds(by, b, height, k / b);
}

/// The pixels of tile `(bx, by)` in row-major order: exactly the
/// `block_side²` coordinates the tile's mean and variance are taken over,
/// all inside the grid.
pub fn block_pixels(bx: usize, by: usize, block_side: usize, width: usize, height: usize) -> (pixels:
    Vec<(usize, usize)>)
    requires
        0 < block_side <= 0xFFFF,
        bx < width as int / block_side as int,
        by < height as int / block_side as int,
    ensures
        pixels@.len() == block_side * block_side,
        forall|k: int|
            0 <= k < pixels@.len() ==> {
                &&& (#[trigger] pixels@[k]).0 == block_pixel_at(
                    bx as int,
                    by as int,
                    block_side as int,
                    k,
                ).0
                &&& pixels@[k].1 == block_pixel_at(bx as int, by as int, block_side as int, k).1
                &&& pixels@[k].0 < width
                &&& pixels@[k].1 < height
            },
{
    proof {
        let b = block_side as int;
        assert(b * b <= 0xFFFF_FFFF) by (nonlinear_arith)
            requires
                1 <= b <= 0xFFFF,
        ;
    }
    let total = block_side * block_side;
    let mut pixels: Vec<(usize, usize)> = Vec::new();
    let mut k: usize = 0;
    while k < total
        invariant
            pixels@.len() == k,
            k <= total,
            total == block_side * block_side,
            0 < block_side,
            bx < width as int / block_side as int,
            by < height as int / block_side as int,
            forall|i: int|
                0 <= i < k ==> {
                    &&& (#[trigger] pixels@[i]).0 == block_pixel_at(
                        bx as int,
                        by as int,
                        block_side as int,
                        i,
                    ).0
                    &&& pixels@[i].1 == block_pixel_at(bx as int, by as int, block_side as int, i).1
                    &&& pixels@[i].0 < width
                    &&& pixels@[i].1 < height
                },
        decreases total - k,
    {
        proof {
            lemma_block_pixel_in_bounds(
                bx as int,
                by as int,
                block_side as int,
                width as int,
                height as int,
                k as int,
            );
        }
        let px = bx * block_side + k % block_side;
        let py = by * block_side + k / block_side;
        pixels.push((px, py));
        k = k + 1;
    }
    pixels
}

} // verus!
