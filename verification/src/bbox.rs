//! Geographic bounding boxes for filtering bulk precache sweeps, held in
//! fixed-point web-mercator coordinates: the world maps to the square
//! `[0, 2^32] x [0, 2^32]`, `x` growing eastward from 180°W and `y` growing
//! southward from the projection's northern edge. A tile at `zoom/x/y` covers
//! exactly `[x, x+1] x [y, y+1]` scaled by `2^(32-zoom)`, so overlap tests
//! are integer comparisons.

use vstd::prelude::*;

verus! {

use vstd::arithmetic::power2::{pow2, lemma_pow2_adds, lemma_pow2_pos, lemma2_to64};
use vstd::bits::lemma_u64_shl_is_mul;
use crate::tile::Tile;

/// A rectangle in fixed-point mercator coordinates. `y_min` is the northern
/// edge (smaller `y` is further north).
#[derive(Clone, Copy, PartialEq, Eq, Structural, Debug)]
pub struct BBox {
    pub x_min: u64,
    pub y_min: u64,
    pub x_max: u64,
    pub y_max: u64,
}

/// The western edge of a tile, in mercator units.
pub open spec fn tile_x_lo(t: Tile) -> nat {
    (t.x as nat) * pow2((32 - t.zoom) as nat)
}

/// The eastern edge of a tile.
pub open spec fn tile_x_hi(t: Tile) -> nat {
    ((t.x + 1) as nat) * pow2((32 - t.zoom) as nat)
}

/// The northern edge of a tile.
pub open spec fn tile_y_lo(t: Tile) -> nat {
    (t.y as nat) * pow2((32 - t.zoom) as nat)
}

/// The southern edge of a tile.
pub open spec fn tile_y_hi(t: Tile) -> nat {
    ((t.y + 1) as nat) * pow2((32 - t.zoom) as nat)
}

/// Whether the box and the tile share interior points: every comparison is
/// strict, so rectangles that only touch along an edge do not overlap.
pub open spec fn bbox_overlaps(b: BBox, t: Tile) -> bool {
    (b.x_min as nat) < tile_x_hi(t) && tile_x_lo(t) < (b.x_max as nat) && (b.y_min as nat)
        < tile_y_hi(t) && tile_y_lo(t) < (b.y_max as nat)
}

/// The fixed sweep box around Moscow — 55°N to 57°N, 36°E to 38°E — rendered
/// into mercator units at 32 fractional bits.
pub open spec fn moscow_bbox_spec() -> BBox {
    BBox { x_min: 2576980378u64, y_min: 1315806991u64, x_max: 2600841307u64, y_max: 1358488987u64 }
}

/// The Moscow sweep box.
pub fn moscow_bbox() -> (r: BBox)
    ensures
        r == moscow_bbox_spec(),
{
    BBox { x_min: 2576980378u64, y_min: 1315806991u64, x_max: 2600841307u64, y_max: 1358488987u64 }
}

/// A tile edge coordinate fits in the mercator square: `c * 2^(32-z) <= 2^32`
/// for `c <= 2^z`.
proof fn lemma_tile_edge_bound(c: nat, z: nat)
    requires
        z <= 32,
        c <= pow2(z),
    ensures
        c * pow2((32 - z) as nat) <= pow2(32),
        pow2(32) == 0x1_0000_0000,
{
    lemma_pow2_adds(z, (32 - z) as nat);
    lemma_pow2_pos((32 - z) as nat);
    lemma2_to64();
    assert(c * pow2((32 - z) as nat) <= pow2(z) * pow2((32 - z) as nat)) by (nonlinear_arith)
        requires
            c <= pow2(z),
            pow2((32 - z) as nat) > 0,
    ;
}

impl BBox {
    /// Whether this box and `tile` share interior points.
    pub fn overlaps_tile(&self, tile: Tile) -> (r: bool)
        requires
            tile.wf(),
        ensures
            r == bbox_overlaps(*self, tile),
    {
        let shift: u64 = 32 - (tile.zoom as u64);
        proof {
            lemma_tile_edge_bound(tile.x as nat, tile.zoom as nat);
            lemma_tile_edge_bound((tile.x + 1) as nat, tile.zoom as nat);
            lemma_tile_edge_bound(tile.y as nat, tile.zoom as nat);
            lemma_tile_edge_bound((tile.y + 1) as nat, tile.zoom as nat);
            lemma_u64_shl_is_mul(tile.x as u64, shift);
            lemma_u64_shl_is_mul((tile.x + 1) as u64, shift);
            lemma_u64_shl_is_mul(tile.y as u64, shift);
            lemma_u64_shl_is_mul((tile.y + 1) as u64, shift);
        }
        let x_lo: u64 = (tile.x as u64) << shift;
        let x_hi: u64 = ((tile.x as u64) + 1) << shift;
        let y_lo: u64 = (tile.y as u64) << shift;
        let y_hi: u64 = ((tile.y as u64) + 1) << shift;
        self.x_min < x_hi && x_lo < self.x_max && self.y_min < y_hi && y_lo < self.y_max
    }
}

} // verus!
