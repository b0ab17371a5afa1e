//! Slippy-map tile coordinates: a tile address `zoom/x/y` with
//! `0 <= x, y < 2^zoom`, its parent at `zoom - 1` and its four children at
//! `zoom + 1`.

use vstd::prelude::*;

verus! {

use vstd::arithmetic::power2::{pow2, lemma_pow2_adds, lemma_pow2_pos};
use vstd::bits::lemma_u64_shl_is_mul;

/// The deepest zoom level the cache addresses. Coordinates at this zoom still
/// fit in `u32`, and one more doubling of a child coordinate would not.
pub const MAX_ZOOM: u8 = 31;

/// A square map tile at `zoom`, column `x` (west to east), row `y` (north to
/// south).
#[derive(Clone, Copy, PartialEq, Eq, Structural, Debug)]
pub struct Tile {
    pub zoom: u8,
    pub x: u32,
    pub y: u32,
}

impl Tile {
    /// The coordinate invariant: both axes range over `0 .. 2^zoom`.
    pub open spec fn wf(self) -> bool {
        self.zoom <= MAX_ZOOM && (self.x as nat) < pow2(self.zoom as nat) && (self.y as nat)
            < pow2(self.zoom as nat)
    }

    /// The tile one zoom level up that contains this tile.
    pub open spec fn parent_spec(self) -> Tile {
        Tile { zoom: (self.zoom - 1) as u8, x: self.x / 2, y: self.y / 2 }
    }

    /// The four tiles one zoom level down that cover this tile, in the order
    /// north-west, north-east, south-west, south-east.
    pub open spec fn children_spec(self) -> Seq<Tile> {
        seq![
            Tile { zoom: (self.zoom + 1) as u8, x: (2 * self.x) as u32, y: (2 * self.y) as u32 },
            Tile {
                zoom: (self.zoom + 1) as u8,
                x: (2 * self.x + 1) as u32,
                y: (2 * self.y) as u32,
            },
            Tile {
                zoom: (self.zoom + 1) as u8,
                x: (2 * self.x) as u32,
                y: (2 * self.y + 1) as u32,
            },
            Tile {
                zoom: (self.zoom + 1) as u8,
                x: (2 * self.x + 1) as u32,
                y: (2 * self.y + 1) as u32,
            },
        ]
    }

    /// Builds a tile, rejecting coordinates that lie outside the zoom level's
    /// `0 .. 2^zoom` range or a zoom deeper than `MAX_ZOOM`.
    pub fn new(zoom: u8, x: u32, y: u32) -> (r: Option<Tile>)
        ensures
            r is Some <==> (Tile { zoom, x, y }).wf(),
            r is Some ==> r->0 == (Tile { zoom, x, y }),
    {
        if zoom <= MAX_ZOOM {
            let limit: u64 = 1u64 << (zoom as u64);
            proof {
                vstd::arithmetic::power2::lemma2_to64();
                if zoom < 31 {
                    vstd::arithmetic::power2::lemma_pow2_strictly_increases(zoom as nat, 31);
                }
                lemma_u64_shl_is_mul(1u64, zoom as u64);
            }
            if (x as u64) < limit && (y as u64) < limit {
                Some(Tile { zoom, x, y })
            } else {
                None
            }
        } else {
            None
        }
    }

    /// The parent tile, or `None` at zoom 0.
    pub fn parent(&self) -> (r: Option<Tile>)
        requires
            self.wf(),
        ensures
            r is Some <==> self.zoom > 0,
            self.zoom > 0 ==> r == Some(self.parent_spec()) && self.parent_spec().wf(),
    {
        if self.zoom == 0 {
            None
        } else {
            proof {
                lemma_pow2_unfold(self.zoom as nat);
            }
            Some(Tile { zoom: self.zoom - 1, x: self.x / 2, y: self.y / 2 })
        }
    }

    /// The four children, or `None` at the deepest zoom.
    pub fn children(&self) -> (r: Option<Vec<Tile>>)
        requires
            self.wf(),
        ensures
            r is Some <==> self.zoom < MAX_ZOOM,
            self.zoom < MAX_ZOOM ==> r->0@ == self.children_spec() && (forall|i: int|
                0 <= i < 4 ==> #[trigger] self.children_spec()[i].wf()),
    {
        if self.zoom == MAX_ZOOM {
            None
        } else {
            proof {
                lemma_pow2_unfold((self.zoom + 1) as nat);
                vstd::arithmetic::power2::lemma_pow2_strictly_increases(self.zoom as nat, 31);
                vstd::arithmetic::power2::lemma2_to64();
            }
            let z: u8 = self.zoom + 1;
            let x2: u32 = 2 * self.x;
            let y2: u32 = 2 * self.y;
            let mut v: Vec<Tile> = Vec::new();
            v.push(Tile { zoom: z, x: x2, y: y2 });
            v.push(Tile { zoom: z, x: x2 + 1, y: y2 });
            v.push(Tile { zoom: z, x: x2, y: y2 + 1 });
            v.push(Tile { zoom: z, x: x2 + 1, y: y2 + 1 });
            assert(v@ =~= self.children_spec());
            Some(v)
        }
    }
}

/// `2^(e+1) == 2 * 2^e`, with positivity, for rewriting one doubling step.
proof fn lemma_pow2_unfold(e: nat)
    requires
        e > 0,
    ensures
        pow2(e) == 2 * pow2((e - 1) as nat),
        pow2((e - 1) as nat) > 0,
{
    lemma_pow2_adds((e - 1) as nat, 1);
    lemma_pow2_pos((e - 1) as nat);
    assert(pow2(1) == 2) by {
        lemma_pow2_adds(0, 1);
        vstd::arithmetic::power2::lemma2_to64();
    }
}

/// A well-formed tile's parent is well formed, one zoom level up.
pub proof fn lemma_parent_wf(t: Tile)
    requires
        t.wf(),
        t.zoom > 0,
    ensures
        t.parent_spec().wf(),
        t.parent_spec().zoom == t.zoom - 1,
{
    lemma_pow2_unfold(t.zoom as nat);
}

/// Every child's parent is the tile itself: `parent(children(t)[i]) == t`.
pub proof fn lemma_parent_of_child(t: Tile, i: int)
    requires
        t.wf(),
        t.zoom < MAX_ZOOM,
        0 <= i < 4,
    ensures
        t.children_spec()[i].wf(),
        t.children_spec()[i].parent_spec() == t,
{
    lemma_pow2_unfold((t.zoom + 1) as nat);
    vstd::arithmetic::power2::lemma_pow2_strictly_increases(t.zoom as nat, 31);
    vstd::arithmetic::power2::lemma2_to64();
    let c = t.children_spec()[i];
    if i == 0 {
        assert(c.parent_spec() == t);
    } else if i == 1 {
        assert(c.parent_spec() == t);
    } else if i == 2 {
        assert(c.parent_spec() == t);
    } else {
        assert(c.parent_spec() == t);
    }
}

/// A tile above zoom 0 is among its parent's children:
/// `children(parent(t))` contains `t`.
pub proof fn lemma_child_of_parent(t: Tile)
    requires
        t.wf(),
        t.zoom > 0,
    ensures
        t.parent_spec().wf(),
        t.parent_spec().children_spec().contains(t),
{
    lemma_pow2_unfold(t.zoom as nat);
    let p = t.parent_spec();
    let i: int = (t.x % 2) + 2 * (t.y % 2);
    assert(p.children_spec()[i] == t);
}

} // verus!
